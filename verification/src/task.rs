//! One task: its number, its description and whether it is done.

use crate::text::{contains, decimal, lowercase, occurs_in, push_decimal};
use vstd::prelude::*;

verus! {

/// One entry of a task list.
#[derive(Debug)]
pub struct Todo {
    pub id: usize,
    pub description: String,
    pub done: bool,
}

/// A task as a mathematical value.
pub struct TodoView {
    pub id: nat,
    pub description: Seq<char>,
    pub done: bool,
}

impl View for Todo {
    type V = TodoView;

    open spec fn view(&self) -> TodoView {
        TodoView { id: self.id as nat, description: self.description@, done: self.done }
    }
}

/// The words that show whether a task is done.
pub open spec fn status_label(done: bool) -> Seq<char> {
    if done {
        "Done"@
    } else {
        "Not done"@
    }
}

/// The line that shows a task: `#<id>: <description> [<Done|Not done>]`.
pub open spec fn render_line(t: TodoView) -> Seq<char> {
    "#"@ + decimal(t.id) + ": "@ + t.description + " ["@ + status_label(t.done) + "]"@
}

/// A task matches a keyword when the keyword, in lower case, is a contiguous
/// part of the description, in lower case.
pub open spec fn matches_keyword(t: TodoView, keyword: Seq<char>) -> bool {
    occurs_in(lowercase(keyword), lowercase(t.description))
}

impl Todo {
    /// A task that is not done yet.
    pub fn new(id: usize, description: String) -> (t: Todo)
        ensures
            t == (Todo { id, description, done: false }),
    {
        Todo { id, description, done: false }
    }

    /// Marks the task as done; a task that is done stays so.
    pub fn mark_done(&mut self)
        ensures
            *final(self) == (Todo { done: true, ..*old(self) }),
    {
        self.done = true;
    }

    /// Replaces the description, whatever the new one is.
    pub fn edit(&mut self, new_description: String)
        ensures
            *final(self) == (Todo { description: new_description, ..*old(self) }),
    {
        self.description = new_description;
    }

    /// The line that shows the task.
    pub fn render(&self) -> (line: String)
        ensures
            line@ == render_line(self@),
    {
        let mut line = String::new();
        line.append("#");
        push_decimal(&mut line, self.id);
        line.append(": ");
        line.append(self.description.as_str());
        line.append(" [");
        if self.done {
            line.append("Done");
        } else {
            line.append("Not done");
        }
        line.append("]");
        assert(line@ =~= render_line(self@));
        line
    }

    /// Whether the description holds the keyword, letter case set aside.
    pub fn matches(&self, keyword: &str) -> (b: bool)
        ensures
            b == matches_keyword(self@, keyword@),
    {
        let hay = self.description.to_lowercase();
        let needle = keyword.to_lowercase();
        contains(hay.as_str(), needle.as_str())
    }
}

} // verus!
