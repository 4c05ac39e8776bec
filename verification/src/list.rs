//! The task list: an ordered collection of tasks, changed in place and
//! rendered as lines of text.

use crate::task::{matches_keyword, render_line, Todo, TodoView};
use vstd::prelude::*;

verus! {

/// The tasks of a sequence as mathematical values.
pub open spec fn views(tasks: Seq<Todo>) -> Seq<TodoView> {
    tasks.map_values(|t: Todo| t@)
}

/// Position `i` holds the first task of `l` with the given id.
pub open spec fn is_first_with_id(l: Seq<TodoView>, id: nat, i: int) -> bool {
    &&& 0 <= i < l.len()
    &&& l[i].id == id
    &&& forall|j: int| 0 <= j < i ==> l[j].id != id
}

/// Some task of `l` has the given id.
pub open spec fn has_id(l: Seq<TodoView>, id: nat) -> bool {
    exists|i: int| 0 <= i < l.len() && l[i].id == id
}

/// The position of the first task with the given id, if there is one.
pub open spec fn first_with_id(l: Seq<TodoView>, id: nat) -> Option<int> {
    if exists|i: int| is_first_with_id(l, id, i) {
        Some(choose|i: int| is_first_with_id(l, id, i))
    } else {
        None
    }
}

/// `l` with a new task at its end: not done, and numbered one more than the
/// number of tasks that `l` holds.
pub open spec fn added(l: Seq<TodoView>, description: Seq<char>) -> Seq<TodoView> {
    l.push(TodoView { id: l.len() + 1, description, done: false })
}

/// The test that a task has another id than the given one.
pub open spec fn has_other_id(id: nat) -> spec_fn(TodoView) -> bool {
    |t: TodoView| t.id != id
}

/// The test that a task matches the keyword.
pub open spec fn has_keyword(keyword: Seq<char>) -> spec_fn(TodoView) -> bool {
    |t: TodoView| matches_keyword(t, keyword)
}

/// The test that a task is done (`done`) or still open (`!done`).
pub open spec fn has_status(done: bool) -> spec_fn(TodoView) -> bool {
    |t: TodoView| t.done == done
}

/// `l` without the tasks that have the given id; the others keep their order.
pub open spec fn deleted(l: Seq<TodoView>, id: nat) -> Seq<TodoView> {
    l.filter(has_other_id(id))
}

/// `l` with a new description for the first task that has the given id; `l`
/// itself where no task has it.
pub open spec fn edited(l: Seq<TodoView>, id: nat, description: Seq<char>) -> Seq<TodoView> {
    match first_with_id(l, id) {
        Some(i) => l.update(i, TodoView { description, ..l[i] }),
        None => l,
    }
}

/// `l` with the first task that has the given id marked as done; `l` itself
/// where no task has it.
pub open spec fn marked_done(l: Seq<TodoView>, id: nat) -> Seq<TodoView> {
    match first_with_id(l, id) {
        Some(i) => l.update(i, TodoView { done: true, ..l[i] }),
        None => l,
    }
}

/// The lines that show the tasks of `l`, one line each, in order.
pub open spec fn rendered(l: Seq<TodoView>) -> Seq<Seq<char>> {
    l.map_values(|t: TodoView| render_line(t))
}

/// The tasks of `l` that match the keyword, in order.
pub open spec fn matching(l: Seq<TodoView>, keyword: Seq<char>) -> Seq<TodoView> {
    l.filter(has_keyword(keyword))
}

/// The tasks of `l` that are done (`done`) or still open (`!done`), in order.
pub open spec fn with_status(l: Seq<TodoView>, done: bool) -> Seq<TodoView> {
    l.filter(has_status(done))
}

/// What a listing of `l` shows: every task, or one line that says that
/// there is none.
pub open spec fn listing(l: Seq<TodoView>) -> Seq<Seq<char>> {
    if l.len() == 0 {
        seq!["No tasks available."@]
    } else {
        rendered(l)
    }
}

/// What a search shows: the tasks that match the keyword, or one line that
/// says that none does and repeats the keyword as it was given.
pub open spec fn search_result(l: Seq<TodoView>, keyword: Seq<char>) -> Seq<Seq<char>> {
    if matching(l, keyword).len() == 0 {
        seq!["No tasks found with keyword '"@ + keyword + "'."@]
    } else {
        rendered(matching(l, keyword))
    }
}

/// What a filter by status shows: the tasks of that status, or one line that
/// says that there is none of them.
pub open spec fn status_result(l: Seq<TodoView>, done: bool) -> Seq<Seq<char>> {
    if with_status(l, done).len() > 0 {
        rendered(with_status(l, done))
    } else if done {
        seq!["No completed tasks found."@]
    } else {
        seq!["No pending tasks found."@]
    }
}

/// The list that a store gives: its tasks where there is one, none where
/// there is no store yet.
pub open spec fn loaded(stored: Option<Seq<TodoView>>) -> Seq<TodoView> {
    match stored {
        Some(l) => l,
        None => Seq::empty(),
    }
}

/// What a store holds, as mathematical values.
pub open spec fn stored_views(stored: Option<Vec<Todo>>) -> Option<Seq<TodoView>> {
    match stored {
        Some(tasks) => Some(views(tasks@)),
        None => None,
    }
}

/// Filtering one task more either appends it or changes nothing.
proof fn lemma_filter_next<A>(l: Seq<A>, pred: spec_fn(A) -> bool, i: int)
    requires
        0 <= i < l.len(),
    ensures
        l.take(i + 1).filter(pred) == if pred(l[i]) {
            l.take(i).filter(pred).push(l[i])
        } else {
            l.take(i).filter(pred)
        },
{
    assert(l.take(i + 1) =~= l.take(i).push(l[i]));
    l.take(i).lemma_filter_push(l[i], pred);
}

/// The lines of a sequence with one task more end with that task's line.
proof fn lemma_rendered_push(l: Seq<TodoView>, t: TodoView)
    ensures
        rendered(l.push(t)) == rendered(l).push(render_line(t)),
{
    assert(rendered(l.push(t)) =~= rendered(l).push(render_line(t)));
}

/// The first task with a given id is found at one position only.
pub proof fn lemma_first_with_id_found(l: Seq<TodoView>, id: nat, i: int)
    requires
        is_first_with_id(l, id, i),
    ensures
        first_with_id(l, id) == Some(i),
{
    let c = choose|c: int| is_first_with_id(l, id, c);
    if c < i {
        assert(l[c].id != id);
    } else if i < c {
        assert(l[i].id != id);
    }
}

/// The first position, where there is one, holds the first task with the
/// id; there is none exactly where no task has the id.
pub proof fn lemma_first_with_id_sound(l: Seq<TodoView>, id: nat)
    ensures
        first_with_id(l, id) is None <==> !has_id(l, id),
        first_with_id(l, id) matches Some(i) ==> is_first_with_id(l, id, i),
{
    if has_id(l, id) {
        let w = choose|i: int| 0 <= i < l.len() && l[i].id == id;
        lemma_least_with_id(l, id, w);
    } else {
        if exists|i: int| is_first_with_id(l, id, i) {
            let c = choose|i: int| is_first_with_id(l, id, i);
            assert(0 <= c < l.len() && l[c].id == id);
        }
    }
}

/// Below any task with the id stands a first one.
proof fn lemma_least_with_id(l: Seq<TodoView>, id: nat, w: int)
    requires
        0 <= w < l.len(),
        l[w].id == id,
    ensures
        exists|i: int| is_first_with_id(l, id, i),
    decreases w,
{
    if exists|j: int| 0 <= j < w && l[j].id == id {
        let j = choose|j: int| 0 <= j < w && l[j].id == id;
        lemma_least_with_id(l, id, j);
    } else {
        assert(is_first_with_id(l, id, w));
    }
}

/// An ordered collection of tasks. Ids are given by position at the time a
/// task is added, so after a deletion two tasks may share one.
#[derive(Debug)]
pub struct TodoList {
    todos: Vec<Todo>,
}

impl View for TodoList {
    type V = Seq<TodoView>;

    closed spec fn view(&self) -> Seq<TodoView> {
        views(self.todos@)
    }
}

impl TodoList {
    /// The empty list.
    pub fn new() -> (l: TodoList)
        ensures
            l@ == Seq::<TodoView>::empty(),
    {
        TodoList { todos: Vec::new() }
    }

    /// The number of tasks in the list.
    pub fn len(&self) -> (n: usize)
        ensures
            n == self@.len(),
    {
        self.todos.len()
    }

    /// Appends a task that is not done, numbered one more than the number of
    /// tasks in the list. Ids already in use are not looked at.
    pub fn add(&mut self, description: String)
        requires
            old(self)@.len() < usize::MAX,
        ensures
            final(self)@ == added(old(self)@, description@),
    {
        let id = self.todos.len() + 1;
        let todo = Todo::new(id, description);
        self.todos.push(todo);
    }

    /// Removes every task that has the given id; the others keep their
    /// order. Nothing changes where no task has it.
    pub fn delete(&mut self, id: usize)
        ensures
            final(self)@ == deleted(old(self)@, id as nat),
    {
        let mut all: Vec<Todo> = Vec::new();
        std::mem::swap(&mut self.todos, &mut all);
        let ghost before = views(all@);
        let ghost keep = has_other_id(id as nat);
        for todo in it: all
            invariant
                views(it.seq()) == before,
                keep == has_other_id(id as nat),
                views(self.todos@) == before.take(it.index() as int).filter(keep),
        {
            let ghost kept = self.todos@;
            proof {
                lemma_filter_next(before, keep, it.index() as int);
                assert(todo@ == before[it.index() as int]);
            }
            if todo.id != id {
                assert(keep(todo@));
                self.todos.push(todo);
                assert(views(self.todos@) =~= views(kept).push(todo@));
            } else {
                assert(!keep(todo@));
            }
        }
        assert(before.take(before.len() as int) =~= before);
    }

    /// The position of the first task with the given id, or the length of
    /// the list where there is none.
    fn position(&self, id: usize) -> (i: usize)
        ensures
            i <= self@.len(),
            i < self@.len() ==> first_with_id(self@, id as nat) == Some(i as int),
            i == self@.len() ==> first_with_id(self@, id as nat) is None,
            self@.len() == self.todos@.len(),
    {
        let mut i: usize = 0;
        while i < self.todos.len()
            invariant
                i <= self.todos.len(),
                forall|j: int| 0 <= j < i ==> self@[j].id != id as nat,
            decreases self.todos.len() - i,
        {
            if self.todos[i].id == id {
                proof {
                    lemma_first_with_id_found(self@, id as nat, i as int);
                }
                return i;
            }
            i += 1;
        }
        proof {
            lemma_first_with_id_sound(self@, id as nat);
        }
        i
    }

    /// Gives the first task that has the given id a new description. Nothing
    /// changes where no task has it.
    pub fn edit(&mut self, id: usize, new_description: String)
        ensures
            final(self)@ == edited(old(self)@, id as nat, new_description@),
    {
        let i = self.position(id);
        if i < self.todos.len() {
            self.todos[i].edit(new_description);
        }
    }

    /// Marks the first task that has the given id as done. Nothing changes
    /// where no task has it.
    pub fn mark_done(&mut self, id: usize)
        ensures
            final(self)@ == marked_done(old(self)@, id as nat),
    {
        let i = self.position(id);
        if i < self.todos.len() {
            self.todos[i].mark_done();
        }
    }

    /// The lines that show every task, in order; where the list is empty,
    /// the one line `No tasks available.`.
    pub fn list(&self) -> (lines: Vec<String>)
        ensures
            lines.deep_view() == listing(self@),
    {
        let mut lines: Vec<String> = Vec::new();
        if self.todos.is_empty() {
            lines.push("No tasks available.".to_string());
            assert(lines.deep_view() =~= listing(self@));
            return lines;
        }
        let mut i: usize = 0;
        while i < self.todos.len()
            invariant
                i <= self.todos.len(),
                lines.deep_view() == rendered(self@.take(i as int)),
            decreases self.todos.len() - i,
        {
            let ghost shown = lines.deep_view();
            let line = self.todos[i].render();
            lines.push(line);
            proof {
                assert(lines.deep_view() =~= shown.push(render_line(self@[i as int])));
                assert(self@.take(i + 1) =~= self@.take(i as int).push(self@[i as int]));
                lemma_rendered_push(self@.take(i as int), self@[i as int]);
            }
            i += 1;
        }
        assert(self@.take(i as int) =~= self@);
        lines
    }

    /// The lines that show the tasks whose description holds the keyword,
    /// letter case set aside, in order; where there is none, one line that
    /// says so and repeats the keyword.
    pub fn search(&self, keyword: &str) -> (lines: Vec<String>)
        ensures
            lines.deep_view() == search_result(self@, keyword@),
    {
        let ghost pick = has_keyword(keyword@);
        let mut lines: Vec<String> = Vec::new();
        let mut i: usize = 0;
        while i < self.todos.len()
            invariant
                i <= self.todos.len(),
                pick == has_keyword(keyword@),
                lines.deep_view() == rendered(self@.take(i as int).filter(pick)),
            decreases self.todos.len() - i,
        {
            let ghost shown = lines.deep_view();
            let ghost task = self@[i as int];
            proof {
                assert(task == self.todos@[i as int]@);
                lemma_filter_next(self@, pick, i as int);
                lemma_rendered_push(self@.take(i as int).filter(pick), task);
            }
            if self.todos[i].matches(keyword) {
                assert(pick(task));
                let line = self.todos[i].render();
                lines.push(line);
                assert(lines.deep_view() =~= shown.push(render_line(task)));
            } else {
                assert(!pick(task));
            }
            i += 1;
        }
        assert(self@.take(i as int) =~= self@);
        if lines.is_empty() {
            let mut notice = String::new();
            notice.append("No tasks found with keyword '");
            notice.append(keyword);
            notice.append("'.");
            lines.push(notice);
            assert(lines.deep_view() =~= search_result(self@, keyword@));
        }
        lines
    }

    /// The lines that show the tasks that are done (`done`) or still open
    /// (`!done`), in order; where there is none, `No completed tasks found.`
    /// or `No pending tasks found.`.
    pub fn filter_by_status(&self, done: bool) -> (lines: Vec<String>)
        ensures
            lines.deep_view() == status_result(self@, done),
    {
        let ghost pick = has_status(done);
        let mut lines: Vec<String> = Vec::new();
        let mut i: usize = 0;
        while i < self.todos.len()
            invariant
                i <= self.todos.len(),
                pick == has_status(done),
                lines.deep_view() == rendered(self@.take(i as int).filter(pick)),
            decreases self.todos.len() - i,
        {
            let ghost shown = lines.deep_view();
            let ghost task = self@[i as int];
            proof {
                assert(task == self.todos@[i as int]@);
                lemma_filter_next(self@, pick, i as int);
                lemma_rendered_push(self@.take(i as int).filter(pick), task);
            }
            if self.todos[i].done == done {
                assert(pick(task));
                let line = self.todos[i].render();
                lines.push(line);
                assert(lines.deep_view() =~= shown.push(render_line(task)));
            } else {
                assert(!pick(task));
            }
            i += 1;
        }
        assert(self@.take(i as int) =~= self@);
        if lines.is_empty() {
            if done {
                lines.push("No completed tasks found.".to_string());
            } else {
                lines.push("No pending tasks found.".to_string());
            }
            assert(lines.deep_view() =~= status_result(self@, done));
        }
        lines
    }

    /// The list that a store gives: the stored tasks in their order, or the
    /// empty list where there is no store yet.
    pub fn load(stored: Option<Vec<Todo>>) -> (l: TodoList)
        ensures
            l@ == loaded(stored_views(stored)),
    {
        match stored {
            Some(tasks) => TodoList { todos: tasks },
            None => TodoList::new(),
        }
    }

    /// The tasks to store, in order: a copy of each.
    pub fn save(&self) -> (tasks: Vec<Todo>)
        ensures
            views(tasks@) == self@,
    {
        let mut tasks: Vec<Todo> = Vec::new();
        let mut i: usize = 0;
        while i < self.todos.len()
            invariant
                i <= self.todos.len(),
                tasks@ == self.todos@.take(i as int),
            decreases self.todos.len() - i,
        {
            let todo = &self.todos[i];
            tasks.push(Todo { id: todo.id, description: todo.description.clone(), done: todo.done });
            i += 1;
            assert(tasks@ =~= self.todos@.take(i as int));
        }
        assert(self.todos@.take(i as int) =~= self.todos@);
        tasks
    }
}

} // verus!
