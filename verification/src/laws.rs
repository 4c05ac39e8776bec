//! Laws of the task list, stated over its mathematical model.

use crate::list::{
    added, deleted, edited, first_with_id, has_id, has_keyword, has_other_id,
    lemma_first_with_id_found, lemma_first_with_id_sound, listing, loaded, marked_done, matching,
};
use crate::task::{matches_keyword, render_line, TodoView};
use crate::text::{decimal, is_digit, lemma_decimal_digits, lemma_decimal_injective, lowercase};
use vstd::prelude::*;

verus! {

/// `l` after one task has been added for each of the descriptions, in order.
pub open spec fn added_all(l: Seq<TodoView>, descriptions: Seq<Seq<char>>) -> Seq<TodoView>
    decreases descriptions.len(),
{
    if descriptions.len() == 0 {
        l
    } else {
        added(added_all(l, descriptions.drop_last()), descriptions.last())
    }
}

/// Adding to the empty list numbers the tasks 1, 2, 3 and so on: the task
/// added at position `k` (counted from zero) gets the id `k + 1`, carries the
/// description given for it, and is not done.
pub proof fn lemma_added_ids_count_up(descriptions: Seq<Seq<char>>)
    ensures
        added_all(Seq::empty(), descriptions).len() == descriptions.len(),
        forall|k: int|
            0 <= k < descriptions.len() ==> #[trigger] added_all(Seq::empty(), descriptions)[k]
                == (TodoView { id: (k + 1) as nat, description: descriptions[k], done: false }),
    decreases descriptions.len(),
{
    if descriptions.len() > 0 {
        lemma_added_ids_count_up(descriptions.drop_last());
    }
}

/// After a deletion no task of the list has the deleted id, however many had
/// it before.
pub proof fn lemma_deleted_id_is_gone(l: Seq<TodoView>, id: nat)
    ensures
        !has_id(deleted(l, id), id),
{
    let rest = deleted(l, id);
    assert forall|i: int| 0 <= i < rest.len() implies rest[i].id != id by {
        l.lemma_filter_pred(has_other_id(id), i);
    }
}

/// The start of the line of every task that has the given id: `#<id>:`.
pub open spec fn id_mark(id: nat) -> Seq<char> {
    "#"@ + decimal(id) + ":"@
}

/// The line starts as the line of a task with the given id does.
pub open spec fn shows_id(line: Seq<char>, id: nat) -> bool {
    id_mark(id).is_prefix_of(line)
}

/// The line of a task shows the id of that task and no other.
pub proof fn lemma_line_shows_own_id(t: TodoView, id: nat)
    ensures
        shows_id(render_line(t), id) <==> t.id == id,
{
    reveal_strlit("#");
    reveal_strlit(":");
    reveal_strlit(": ");
    let line = render_line(t);
    let mark = id_mark(id);
    let own = decimal(t.id);
    let other = decimal(id);
    let own_len = own.len() as int;
    let other_len = other.len() as int;
    lemma_decimal_digits(t.id);
    lemma_decimal_digits(id);
    assert(!is_digit(':'));
    assert(line[0] == '#');
    assert(forall|k: int| 0 <= k < own.len() ==> line[1 + k] == own[k]);
    assert(line[1 + own_len] == ':');
    assert(mark.len() == other.len() + 2);
    assert(forall|k: int| 0 <= k < other.len() ==> mark[1 + k] == other[k]);
    assert(mark[1 + other_len] == ':');
    if t.id == id {
        assert(mark =~= line.subrange(0, mark.len() as int));
    }
    if shows_id(line, id) {
        let start = line.subrange(0, mark.len() as int);
        assert(forall|k: int| 0 <= k < mark.len() ==> mark[k] == start[k]);
        if other.len() < own.len() {
            assert(mark[1 + other_len] == start[1 + other_len]);
            assert(is_digit(own[other_len]));
        } else if own.len() < other.len() {
            assert(mark[1 + own_len] == start[1 + own_len]);
            assert(is_digit(other[own_len]));
        } else {
            assert forall|k: int| 0 <= k < own.len() implies own[k] == other[k] by {
                assert(mark[1 + k] == start[1 + k]);
            }
            assert(own =~= other);
            lemma_decimal_injective(t.id, id);
        }
    }
}

/// After a deletion no line of the listing shows the deleted id.
pub proof fn lemma_listing_hides_deleted(l: Seq<TodoView>, id: nat)
    ensures
        forall|i: int|
            0 <= i < listing(deleted(l, id)).len() ==> !shows_id(
                #[trigger] listing(deleted(l, id))[i],
                id,
            ),
{
    let rest = deleted(l, id);
    let lines = listing(rest);
    assert forall|i: int| 0 <= i < lines.len() implies !shows_id(#[trigger] lines[i], id) by {
        if rest.len() == 0 {
            reveal_strlit("No tasks available.");
            reveal_strlit("#");
            assert(lines[i][0] == 'N');
            assert(id_mark(id)[0] == '#');
            if shows_id(lines[i], id) {
                assert(lines[i].subrange(0, id_mark(id).len() as int)[0] == id_mark(id)[0]);
            }
        } else {
            l.lemma_filter_pred(has_other_id(id), i);
            lemma_line_shows_own_id(rest[i], id);
        }
    }
}

/// Editing under an id that no task has leaves the list as it was.
pub proof fn lemma_edit_unknown_id(l: Seq<TodoView>, id: nat, description: Seq<char>)
    requires
        !has_id(l, id),
    ensures
        edited(l, id, description) == l,
        listing(edited(l, id, description)) == listing(l),
{
    lemma_first_with_id_sound(l, id);
}

/// Marking a task as done twice gives the same list as marking it once.
pub proof fn lemma_mark_done_idempotent(l: Seq<TodoView>, id: nat)
    ensures
        marked_done(marked_done(l, id), id) == marked_done(l, id),
{
    lemma_first_with_id_sound(l, id);
    match first_with_id(l, id) {
        Some(i) => {
            let once = marked_done(l, id);
            assert forall|j: int| 0 <= j < i implies once[j].id != id by {
                assert(once[j] == l[j]);
            }
            lemma_first_with_id_found(once, id, i);
            assert(marked_done(once, id) =~= once);
        },
        None => {},
    }
}

/// A filter that every item passes changes nothing.
proof fn lemma_filter_keeps_all(l: Seq<TodoView>, pred: spec_fn(TodoView) -> bool)
    requires
        forall|j: int| 0 <= j < l.len() ==> pred(#[trigger] l[j]),
    ensures
        l.filter(pred) == l,
    decreases l.len(),
{
    reveal(Seq::filter);
    if l.len() > 0 {
        lemma_filter_keeps_all(l.drop_last(), pred);
        assert(l.drop_last().push(l.last()) =~= l);
    }
}

/// A filter that all items pass but the one at position `i` removes that
/// item and nothing else.
proof fn lemma_filter_drops_one(l: Seq<TodoView>, pred: spec_fn(TodoView) -> bool, i: int)
    requires
        0 <= i < l.len(),
        !pred(l[i]),
        forall|j: int| 0 <= j < l.len() && j != i ==> pred(#[trigger] l[j]),
    ensures
        l.filter(pred) == l.remove(i),
    decreases l.len(),
{
    reveal(Seq::filter);
    if i == l.len() - 1 {
        lemma_filter_keeps_all(l.drop_last(), pred);
        assert(l.remove(i) =~= l.drop_last());
    } else {
        lemma_filter_drops_one(l.drop_last(), pred, i);
        assert(l.drop_last().remove(i).push(l.last()) =~= l.remove(i));
    }
}

/// Ids are given by position, so one can come twice. In a list that was
/// built by adding alone, delete a task other than the last and add a new
/// one: the list is as long as before, the new task gets the id of the task
/// before it, and that task, the last one before the deletion, is unchanged.
pub proof fn lemma_id_reused_after_delete(
    descriptions: Seq<Seq<char>>,
    id: nat,
    description: Seq<char>,
)
    requires
        1 <= id < descriptions.len(),
    ensures
        added(deleted(added_all(Seq::empty(), descriptions), id), description).len()
            == descriptions.len(),
        added(deleted(added_all(Seq::empty(), descriptions), id), description).last()
            == (TodoView { id: descriptions.len(), description, done: false }),
        added(deleted(added_all(Seq::empty(), descriptions), id), description)[descriptions.len()
            - 2] == added_all(Seq::empty(), descriptions).last(),
        added_all(Seq::empty(), descriptions).last().id == descriptions.len(),
{
    let l = added_all(Seq::empty(), descriptions);
    lemma_added_ids_count_up(descriptions);
    assert forall|j: int| 0 <= j < l.len() && j != id - 1 implies has_other_id(id)(
        #[trigger] l[j],
    ) by {
        assert(l[j].id == j + 1);
    }
    assert(l[id - 1].id == id);
    lemma_filter_drops_one(l, has_other_id(id), id - 1);
}

/// Loading what was saved gives the list again: the same tasks in the same
/// order. This speaks of the tasks handed to a store and taken from it, not
/// of the bytes that the store keeps.
pub proof fn lemma_load_of_saved(l: Seq<TodoView>)
    ensures
        loaded(Some(l)) == l,
{
}

/// Where there is no store yet, loading gives the empty list.
pub proof fn lemma_load_without_store()
    ensures
        loaded(None) == Seq::<TodoView>::empty(),
{
}

/// Matching sets letter case aside: two keywords with one lower-case form,
/// and two descriptions with one lower-case form, match alike.
pub proof fn lemma_match_ignores_case(t1: TodoView, t2: TodoView, k1: Seq<char>, k2: Seq<char>)
    requires
        lowercase(t1.description) == lowercase(t2.description),
        lowercase(k1) == lowercase(k2),
    ensures
        matches_keyword(t1, k1) == matches_keyword(t2, k2),
{
}

/// A search finds the same tasks under two keywords that differ in letter
/// case only.
pub proof fn lemma_search_ignores_case(l: Seq<TodoView>, k1: Seq<char>, k2: Seq<char>)
    requires
        lowercase(k1) == lowercase(k2),
    ensures
        matching(l, k1) == matching(l, k2),
{
    assert(has_keyword(k1) =~= has_keyword(k2));
}

} // verus!
