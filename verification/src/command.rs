//! The commands of the task list and what each of them does to the list,
//! shows, and asks to have written or read.

use crate::list::{
    added, deleted, edited, listing, marked_done, search_result, status_result, TodoList,
};
use crate::task::TodoView;
use vstd::prelude::*;

verus! {

/// The file that holds the list unless a command names another.
pub const DEFAULT_PATH: &'static str = "todos.json";

/// One command, with its arguments.
#[derive(Debug)]
pub enum Commands {
    Add { description: String },
    Delete { id: usize },
    Edit { id: usize, description: String },
    Done { id: usize },
    List,
    Search { keyword: String },
    Filter { done: bool, not_done: bool },
    Save { filepath: String },
    Load { filepath: String },
}

/// What is left to do once a command has been applied to the list.
#[derive(Debug)]
pub enum Action {
    /// Show the lines.
    Print { lines: Vec<String> },
    /// Write the list to the file, then show the lines.
    Save { filepath: String, lines: Vec<String> },
    /// Read the list that the file holds and show its listing.
    Load { filepath: String },
}

/// A command as a mathematical value.
pub enum CommandsView {
    Add { description: Seq<char> },
    Delete { id: nat },
    Edit { id: nat, description: Seq<char> },
    Done { id: nat },
    List,
    Search { keyword: Seq<char> },
    Filter { done: bool, not_done: bool },
    Save { filepath: Seq<char> },
    Load { filepath: Seq<char> },
}

/// An action as a mathematical value.
pub enum ActionView {
    Print { lines: Seq<Seq<char>> },
    Save { filepath: Seq<char>, lines: Seq<Seq<char>> },
    Load { filepath: Seq<char> },
}

impl View for Commands {
    type V = CommandsView;

    open spec fn view(&self) -> CommandsView {
        match *self {
            Commands::Add { description } => CommandsView::Add { description: description@ },
            Commands::Delete { id } => CommandsView::Delete { id: id as nat },
            Commands::Edit { id, description } => CommandsView::Edit {
                id: id as nat,
                description: description@,
            },
            Commands::Done { id } => CommandsView::Done { id: id as nat },
            Commands::List => CommandsView::List,
            Commands::Search { keyword } => CommandsView::Search { keyword: keyword@ },
            Commands::Filter { done, not_done } => CommandsView::Filter { done, not_done },
            Commands::Save { filepath } => CommandsView::Save { filepath: filepath@ },
            Commands::Load { filepath } => CommandsView::Load { filepath: filepath@ },
        }
    }
}

impl View for Action {
    type V = ActionView;

    open spec fn view(&self) -> ActionView {
        match *self {
            Action::Print { lines } => ActionView::Print { lines: lines.deep_view() },
            Action::Save { filepath, lines } => ActionView::Save {
                filepath: filepath@,
                lines: lines.deep_view(),
            },
            Action::Load { filepath } => ActionView::Load { filepath: filepath@ },
        }
    }
}

/// The line that reports that the list was written to `filepath`.
pub open spec fn saved_notice(filepath: Seq<char>) -> Seq<char> {
    "Todos saved to "@ + filepath
}

/// The list after a command: only adding, deleting, editing and marking
/// change it.
pub open spec fn applied(l: Seq<TodoView>, command: CommandsView) -> Seq<TodoView> {
    match command {
        CommandsView::Add { description } => added(l, description),
        CommandsView::Delete { id } => deleted(l, id),
        CommandsView::Edit { id, description } => edited(l, id, description),
        CommandsView::Done { id } => marked_done(l, id),
        _ => l,
    }
}

/// The action that writes the list to the default file and then confirms
/// with `word`.
pub open spec fn save_and_confirm(word: Seq<char>) -> ActionView {
    ActionView::Save {
        filepath: DEFAULT_PATH@,
        lines: seq![saved_notice(DEFAULT_PATH@), word],
    }
}

/// The action that a command asks for, on the list as it was before.
pub open spec fn response(l: Seq<TodoView>, command: CommandsView) -> ActionView {
    match command {
        CommandsView::Add { .. } => save_and_confirm("Task added."@),
        CommandsView::Delete { .. } => save_and_confirm("Task deleted."@),
        CommandsView::Edit { .. } => save_and_confirm("Task edited."@),
        CommandsView::Done { .. } => save_and_confirm("Task marked as done."@),
        CommandsView::List => ActionView::Print { lines: listing(l) },
        CommandsView::Search { keyword } => ActionView::Print { lines: search_result(l, keyword) },
        CommandsView::Filter { done, not_done } => ActionView::Print {
            lines: if done {
                status_result(l, true)
            } else if not_done {
                status_result(l, false)
            } else {
                Seq::empty()
            },
        },
        CommandsView::Save { filepath } => ActionView::Save {
            filepath,
            lines: seq![saved_notice(filepath)],
        },
        CommandsView::Load { filepath } => ActionView::Load { filepath },
    }
}

/// The line that reports that the list was written to `filepath`.
pub fn save_notice(filepath: &str) -> (line: String)
    ensures
        line@ == saved_notice(filepath@),
{
    let mut line = String::new();
    line.append("Todos saved to ");
    line.append(filepath);
    assert(line@ =~= saved_notice(filepath@));
    line
}

/// Writing to the default file, then the word that confirms the change.
fn confirm(word: &str) -> (action: Action)
    ensures
        action@ == save_and_confirm(word@),
{
    let mut lines: Vec<String> = Vec::new();
    lines.push(save_notice(DEFAULT_PATH));
    lines.push(word.to_string());
    assert(lines.deep_view() =~= seq![saved_notice(DEFAULT_PATH@), word@]);
    Action::Save { filepath: DEFAULT_PATH.to_string(), lines }
}

/// Applies one command to the list and says what is left to do: which lines
/// to show, and whether to write the list or read another first.
pub fn execute(list: &mut TodoList, command: Commands) -> (action: Action)
    requires
        command is Add ==> old(list)@.len() < usize::MAX,
    ensures
        final(list)@ == applied(old(list)@, command@),
        action@ == response(old(list)@, command@),
{
    match command {
        Commands::Add { description } => {
            list.add(description);
            confirm("Task added.")
        },
        Commands::Delete { id } => {
            list.delete(id);
            confirm("Task deleted.")
        },
        Commands::Edit { id, description } => {
            list.edit(id, description);
            confirm("Task edited.")
        },
        Commands::Done { id } => {
            list.mark_done(id);
            confirm("Task marked as done.")
        },
        Commands::List => Action::Print { lines: list.list() },
        Commands::Search { keyword } => Action::Print { lines: list.search(keyword.as_str()) },
        Commands::Filter { done, not_done } => {
            if done {
                Action::Print { lines: list.filter_by_status(true) }
            } else if not_done {
                Action::Print { lines: list.filter_by_status(false) }
            } else {
                let lines: Vec<String> = Vec::new();
                assert(lines.deep_view() =~= Seq::<Seq<char>>::empty());
                Action::Print { lines }
            }
        },
        Commands::Save { filepath } => {
            let mut lines: Vec<String> = Vec::new();
            lines.push(save_notice(filepath.as_str()));
            assert(lines.deep_view() =~= seq![saved_notice(filepath@)]);
            Action::Save { filepath, lines }
        },
        Commands::Load { filepath } => Action::Load { filepath },
    }
}

} // verus!
