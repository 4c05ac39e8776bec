use todo_list::list::TodoList;
use todo_list::task::Todo;

fn list_of(descriptions: &[&str]) -> TodoList {
    let mut list = TodoList::new();
    for d in descriptions.iter() {
        list.add(d.to_string());
    }
    list
}

fn ids(list: &TodoList) -> Vec<usize> {
    list.save().iter().map(|t| t.id).collect()
}

fn descriptions(list: &TodoList) -> Vec<String> {
    list.save().iter().map(|t| t.description.clone()).collect()
}

fn flags(list: &TodoList) -> Vec<bool> {
    list.save().iter().map(|t| t.done).collect()
}

#[test]
fn new_list_is_empty() {
    let list = TodoList::new();
    assert_eq!(list.len(), 0);
    assert!(list.save().is_empty());
    assert_eq!(list.list(), vec!["No tasks available."]);
}

#[test]
fn add_numbers_tasks_from_one() {
    let mut list = TodoList::new();
    let mut k: usize = 1;
    while k <= 25 {
        list.add(format!("task {}", k));
        let tasks = list.save();
        assert_eq!(tasks.len(), k);
        assert_eq!(tasks[k - 1].id, k);
        assert_eq!(tasks[k - 1].description, format!("task {}", k));
        assert!(!tasks[k - 1].done);
        k += 1;
    }
    assert_eq!(ids(&list), (1..=25).collect::<Vec<usize>>());
}

#[test]
fn add_keeps_earlier_tasks_as_they_were() {
    let mut list = list_of(&["a", "b"]);
    list.mark_done(1);
    list.add(String::from("c"));
    assert_eq!(ids(&list), vec![1, 2, 3]);
    assert_eq!(descriptions(&list), vec!["a", "b", "c"]);
    assert_eq!(flags(&list), vec![true, false, false]);
}

#[test]
fn delete_then_list_does_not_show_the_id() {
    let mut list = list_of(&["a", "b", "c"]);
    list.delete(2);
    assert_eq!(ids(&list), vec![1, 3]);
    let lines = list.list();
    assert_eq!(lines, vec!["#1: a [Not done]", "#3: c [Not done]"]);
    assert!(lines.iter().all(|line| !line.starts_with("#2:")));
}

#[test]
fn delete_of_an_unknown_id_changes_nothing() {
    let mut list = list_of(&["a", "b"]);
    list.delete(7);
    list.delete(0);
    assert_eq!(ids(&list), vec![1, 2]);
    assert_eq!(descriptions(&list), vec!["a", "b"]);
    let mut empty = TodoList::new();
    empty.delete(1);
    assert_eq!(empty.len(), 0);
}

#[test]
fn delete_removes_every_task_with_the_id() {
    let mut list = list_of(&["a", "b", "c"]);
    list.delete(2);
    list.add(String::from("d"));
    assert_eq!(ids(&list), vec![1, 3, 3]);
    list.delete(3);
    assert_eq!(ids(&list), vec![1]);
    assert_eq!(descriptions(&list), vec!["a"]);
}

#[test]
fn delete_keeps_the_order_of_the_others() {
    let mut list = list_of(&["a", "b", "c", "d", "e"]);
    list.delete(1);
    list.delete(4);
    assert_eq!(descriptions(&list), vec!["b", "c", "e"]);
    assert_eq!(ids(&list), vec![2, 3, 5]);
}

#[test]
fn edit_replaces_the_description_of_the_task() {
    let mut list = list_of(&["a", "b", "c"]);
    list.mark_done(2);
    list.edit(2, String::from("changed"));
    assert_eq!(descriptions(&list), vec!["a", "changed", "c"]);
    assert_eq!(ids(&list), vec![1, 2, 3]);
    assert_eq!(flags(&list), vec![false, true, false]);
}

#[test]
fn edit_of_an_unknown_id_changes_nothing() {
    let mut list = list_of(&["a", "b"]);
    list.mark_done(1);
    let before = list.list();
    list.edit(3, String::from("changed"));
    list.edit(0, String::from("changed"));
    assert_eq!(list.list(), before);
    assert_eq!(ids(&list), vec![1, 2]);
    assert_eq!(descriptions(&list), vec!["a", "b"]);
    assert_eq!(flags(&list), vec![true, false]);
}

#[test]
fn edit_accepts_an_empty_description() {
    let mut list = list_of(&["a"]);
    list.edit(1, String::new());
    assert_eq!(descriptions(&list), vec![""]);
    assert_eq!(list.list(), vec!["#1:  [Not done]"]);
}

#[test]
fn edit_changes_the_first_of_two_tasks_with_one_id() {
    let mut list = list_of(&["a", "b", "c"]);
    list.delete(2);
    list.add(String::from("d"));
    list.edit(3, String::from("changed"));
    assert_eq!(ids(&list), vec![1, 3, 3]);
    assert_eq!(descriptions(&list), vec!["a", "changed", "d"]);
}

#[test]
fn mark_done_marks_the_task() {
    let mut list = list_of(&["a", "b", "c"]);
    list.mark_done(2);
    assert_eq!(flags(&list), vec![false, true, false]);
    assert_eq!(descriptions(&list), vec!["a", "b", "c"]);
}

#[test]
fn mark_done_is_idempotent() {
    let mut once = list_of(&["a", "b", "c"]);
    once.mark_done(2);
    let mut twice = list_of(&["a", "b", "c"]);
    twice.mark_done(2);
    twice.mark_done(2);
    assert_eq!(ids(&once), ids(&twice));
    assert_eq!(descriptions(&once), descriptions(&twice));
    assert_eq!(flags(&once), flags(&twice));
    assert_eq!(once.list(), twice.list());
}

#[test]
fn mark_done_of_an_unknown_id_changes_nothing() {
    let mut list = list_of(&["a", "b"]);
    list.mark_done(9);
    assert_eq!(flags(&list), vec![false, false]);
}

#[test]
fn mark_done_marks_the_first_of_two_tasks_with_one_id() {
    let mut list = list_of(&["a", "b", "c"]);
    list.delete(2);
    list.add(String::from("d"));
    list.mark_done(3);
    assert_eq!(ids(&list), vec![1, 3, 3]);
    assert_eq!(flags(&list), vec![false, true, false]);
}

#[test]
fn list_shows_every_task_in_order() {
    let mut list = list_of(&["write spec", "review", "ship"]);
    list.mark_done(2);
    assert_eq!(
        list.list(),
        vec!["#1: write spec [Not done]", "#2: review [Done]", "#3: ship [Not done]"]
    );
}

#[test]
fn search_is_case_insensitive() {
    let list = list_of(&["Buy Milk", "Walk dog"]);
    assert_eq!(list.search("milk"), vec!["#1: Buy Milk [Not done]"]);
    assert_eq!(list.search("MILK"), vec!["#1: Buy Milk [Not done]"]);
    assert_eq!(list.search("wALK"), vec!["#2: Walk dog [Not done]"]);
}

#[test]
fn search_shows_the_matches_in_order() {
    let mut list = list_of(&["Buy milk", "Walk dog", "Milk the cow", "buy bread"]);
    list.mark_done(3);
    assert_eq!(list.search("MILK"), vec!["#1: Buy milk [Not done]", "#3: Milk the cow [Done]"]);
    assert_eq!(list.search("buy"), vec!["#1: Buy milk [Not done]", "#4: buy bread [Not done]"]);
}

#[test]
fn search_without_a_match_repeats_the_keyword() {
    let list = list_of(&["Buy milk"]);
    assert_eq!(list.search("Eggs"), vec!["No tasks found with keyword 'Eggs'."]);
    let empty = TodoList::new();
    assert_eq!(empty.search("x"), vec!["No tasks found with keyword 'x'."]);
    assert_eq!(empty.search(""), vec!["No tasks found with keyword ''."]);
}

#[test]
fn search_for_the_empty_keyword_shows_every_task() {
    let list = list_of(&["a", "b"]);
    assert_eq!(list.search(""), vec!["#1: a [Not done]", "#2: b [Not done]"]);
}

#[test]
fn filter_by_status_shows_the_tasks_of_that_status() {
    let mut list = list_of(&["a", "b", "c", "d"]);
    list.mark_done(2);
    list.mark_done(4);
    assert_eq!(list.filter_by_status(true), vec!["#2: b [Done]", "#4: d [Done]"]);
    assert_eq!(list.filter_by_status(false), vec!["#1: a [Not done]", "#3: c [Not done]"]);
}

#[test]
fn filter_by_status_says_when_there_is_none() {
    let mut list = list_of(&["a"]);
    assert_eq!(list.filter_by_status(true), vec!["No completed tasks found."]);
    list.mark_done(1);
    assert_eq!(list.filter_by_status(false), vec!["No pending tasks found."]);
    let empty = TodoList::new();
    assert_eq!(empty.filter_by_status(true), vec!["No completed tasks found."]);
    assert_eq!(empty.filter_by_status(false), vec!["No pending tasks found."]);
}

#[test]
fn load_of_what_was_saved_gives_the_list_again() {
    let mut list = list_of(&["a", "B c", ""]);
    list.mark_done(2);
    list.delete(1);
    list.add(String::from("d"));
    let again = TodoList::load(Some(list.save()));
    assert_eq!(ids(&again), vec![2, 3, 3]);
    assert_eq!(ids(&again), ids(&list));
    assert_eq!(descriptions(&again), descriptions(&list));
    assert_eq!(flags(&again), flags(&list));
    assert_eq!(again.list(), list.list());
}

#[test]
fn load_without_a_store_gives_the_empty_list() {
    let list = TodoList::load(None);
    assert_eq!(list.len(), 0);
    assert_eq!(list.list(), vec!["No tasks available."]);
}

#[test]
fn load_takes_the_stored_tasks_as_they_are() {
    let mut second = Todo::new(7, String::from("seven"));
    second.mark_done();
    let stored = vec![Todo::new(0, String::from("zero")), second, Todo::new(7, String::from("again"))];
    let mut list = TodoList::load(Some(stored));
    assert_eq!(ids(&list), vec![0, 7, 7]);
    assert_eq!(flags(&list), vec![false, true, false]);
    assert_eq!(
        list.list(),
        vec!["#0: zero [Not done]", "#7: seven [Done]", "#7: again [Not done]"]
    );
    list.add(String::from("next"));
    assert_eq!(ids(&list), vec![0, 7, 7, 4]);
}

#[test]
fn save_hands_out_copies() {
    let list = list_of(&["a"]);
    let mut tasks = list.save();
    tasks[0].mark_done();
    tasks[0].edit(String::from("changed"));
    assert_eq!(list.list(), vec!["#1: a [Not done]"]);
}

#[test]
fn scenario_add_done_delete() {
    let mut list = TodoList::new();
    list.add(String::from("write spec"));
    assert_eq!(list.list(), vec!["#1: write spec [Not done]"]);
    list.mark_done(1);
    assert_eq!(list.list(), vec!["#1: write spec [Done]"]);
    list.delete(1);
    assert_eq!(list.list(), vec!["No tasks available."]);
}

#[test]
fn scenario_id_is_reused_after_delete() {
    let mut list = list_of(&["one", "two", "three"]);
    list.delete(2);
    list.add(String::from("new task"));
    let tasks = list.save();
    assert_eq!(tasks.len(), 3);
    assert_eq!(tasks[2].id, 3);
    assert_eq!(tasks[2].description, "new task");
    assert_eq!(tasks[1].id, 3);
    assert_eq!(tasks[1].description, "three");
}
