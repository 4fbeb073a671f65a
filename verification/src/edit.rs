//! The changes that commands make to the list.
//!
//! Items are addressed by position, counted from one. An id is valid for a
//! list where the list has an item at that position.

use vstd::prelude::*;

use crate::ids::{lemma_listed_next, listed, normalize_ids, same_ids, strictly_descending};
use crate::item::{ItemView, TodoItem};

verus! {

/// Whether every id is the position of an item in a list of `len` items.
pub open spec fn valid_ids(ids: Seq<usize>, len: nat) -> bool {
    forall|k: int| #![trigger ids[k]] 0 <= k < ids.len() ==> 1 <= ids[k] <= len
}

/// The list `items` with one open item added at its end for each name, in the
/// order of the names.
pub open spec fn appended(items: Seq<ItemView>, names: Seq<Seq<char>>) -> Seq<ItemView> {
    items + Seq::new(names.len(), |k: int| ItemView { name: names[k], done: false })
}

/// The list `items` with the flag of each item whose position is among `ids`
/// set to `done`. Names, order and all other flags are as before.
pub open spec fn marked(items: Seq<ItemView>, ids: Seq<usize>, done: bool) -> Seq<ItemView> {
    Seq::new(
        items.len(),
        |i: int|
            if listed(ids, i + 1) {
                ItemView { name: items[i].name, done }
            } else {
                items[i]
            },
    )
}

/// The items of `items` from index `from` on whose positions are not among
/// `ids`, in their order.
pub open spec fn kept_from(items: Seq<ItemView>, ids: Seq<usize>, from: int) -> Seq<ItemView>
    decreases items.len() - from,
{
    if from < 0 || from >= items.len() {
        Seq::empty()
    } else if listed(ids, from + 1) {
        kept_from(items, ids, from + 1)
    } else {
        seq![items[from]] + kept_from(items, ids, from + 1)
    }
}

/// The list `items` without the items whose positions are among `ids`. The
/// items that stay keep their order.
pub open spec fn without(items: Seq<ItemView>, ids: Seq<usize>) -> Seq<ItemView> {
    kept_from(items, ids, 0)
}

/// Where no position from `from + 1` to `to` is among `ids`, the items from
/// index `from` up to index `to` all stay.
proof fn lemma_kept_gap(items: Seq<ItemView>, ids: Seq<usize>, from: int, to: int)
    requires
        0 <= from <= to <= items.len(),
        forall|position: int| from < position <= to ==> !listed(ids, position),
    ensures
        kept_from(items, ids, from) == items.subrange(from, to) + kept_from(items, ids, to),
    decreases to - from,
{
    if from < to {
        lemma_kept_gap(items, ids, from + 1, to);
        assert(kept_from(items, ids, from) =~= items.subrange(from, to) + kept_from(
            items,
            ids,
            to,
        ));
    } else {
        assert(items.subrange(from, to) + kept_from(items, ids, to) =~= kept_from(items, ids, to));
    }
}

/// What stays depends on which ids are given, not on their order nor on how
/// often one is given.
proof fn lemma_kept_same_ids(items: Seq<ItemView>, a: Seq<usize>, b: Seq<usize>, from: int)
    requires
        same_ids(a, b),
    ensures
        kept_from(items, a, from) == kept_from(items, b, from),
    decreases items.len() - from,
{
    if 0 <= from < items.len() {
        lemma_kept_same_ids(items, a, b, from + 1);
    }
}

/// Removing some items gives the same list whatever the order in which their
/// ids are given, and however often one is repeated.
pub proof fn lemma_without_any_order(items: Seq<ItemView>, a: Seq<usize>, b: Seq<usize>)
    requires
        same_ids(a, b),
    ensures
        without(items, a) == without(items, b),
{
    lemma_kept_same_ids(items, a, b, 0);
}

/// Removing one item takes that item out and moves every item after it one
/// position down; nothing else changes.
pub proof fn lemma_remove_one(items: Seq<ItemView>, id: usize)
    requires
        1 <= id <= items.len(),
    ensures
        without(items, seq![id]) == items.remove(id - 1),
{
    let ids = seq![id];
    assert(listed(ids, id as int)) by {
        assert(ids[0] == id);
    }
    lemma_kept_gap(items, ids, 0, id - 1);
    lemma_kept_gap(items, ids, id as int, items.len() as int);
}

/// Adding one name makes the list longer by one: the items it had stay as they
/// were, and an open item with that name follows them.
pub proof fn lemma_append_one(items: Seq<ItemView>, name: Seq<char>)
    ensures
        appended(items, seq![name]) == items.push(ItemView { name, done: false }),
{
    assert(appended(items, seq![name]) =~= items.push(ItemView { name, done: false }));
}

/// Marking one item sets the flag of that item and changes nothing else:
/// every name, the order, and the flag of every other item are as before.
pub proof fn lemma_mark_one(items: Seq<ItemView>, id: usize, done: bool)
    requires
        1 <= id <= items.len(),
    ensures
        marked(items, seq![id], done) == items.update(
            id - 1,
            ItemView { name: items[id - 1].name, done },
        ),
{
    let ids = seq![id];
    let after = items.update(id - 1, ItemView { name: items[id - 1].name, done });
    assert forall|i: int| 0 <= i < items.len() implies marked(items, ids, done)[i] == after[i] by {
        if i == id - 1 {
            assert(ids[0] == i + 1);
        }
    }
}

/// Adds one open item for each name at the end of the list, in the order of
/// the names.
pub fn add_items(todos: &mut Vec<TodoItem>, names: &[String])
    ensures
        final(todos).deep_view() == appended(old(todos).deep_view(), names.deep_view()),
{
    let mut k: usize = 0;
    while k < names.len()
        invariant
            k <= names.len(),
            todos.deep_view() == appended(old(todos).deep_view(), names.deep_view().take(k as int)),
        decreases names.len() - k,
    {
        let ghost before = todos.deep_view();
        todos.push(TodoItem::new(names[k].clone()));
        proof {
            let after = appended(old(todos).deep_view(), names.deep_view().take(k + 1));
            assert(names.deep_view().take(k as int).len() == k);
            assert forall|i: int| 0 <= i < after.len() implies todos.deep_view()[i] == after[i] by {
                if i < before.len() {
                    assert(todos.deep_view()[i] == before[i]);
                } else {
                    assert(names.deep_view().take(k + 1)[k as int] == names@[k as int]@);
                }
            }
        }
        k += 1;
    }
}

/// Sets the flag of each item that `ids` names to `done`, and changes nothing
/// else. An id may occur more than once.
pub fn mark_items(todos: &mut Vec<TodoItem>, ids: &[usize], done: bool)
    requires
        valid_ids(ids@, old(todos).len() as nat),
    ensures
        final(todos).deep_view() == marked(old(todos).deep_view(), ids@, done),
{
    let mut k: usize = 0;
    while k < ids.len()
        invariant
            k <= ids.len(),
            todos.len() == old(todos).len(),
            valid_ids(ids@, old(todos).len() as nat),
            todos.deep_view() == marked(old(todos).deep_view(), ids@.take(k as int), done),
        decreases ids.len() - k,
    {
        let at: usize = ids[k] - 1;
        let ghost before = todos@;
        let ghost before_view = todos.deep_view();
        todos[at].done = done;
        proof {
            let after = marked(old(todos).deep_view(), ids@.take(k + 1), done);
            assert forall|i: int| 0 <= i < after.len() implies todos.deep_view()[i] == after[i] by {
                lemma_listed_next(ids@, k as int, i + 1);
                assert(before_view[i] == before[i]@);
                if i != at {
                    assert(todos@[i] == before[i]);
                } else {
                    assert(todos@[i].name == before[i].name);
                }
            }
        }
        k += 1;
    }
    assert(ids@.take(ids.len() as int) =~= ids@);
}

/// Removes each item that `ids` names. The items that stay keep their order.
/// An id may occur more than once, and the ids may come in any order.
///
/// The ids are put in order first, highest first and each once, so that no
/// removal moves an item that is still to be removed.
pub fn remove_items(todos: &mut Vec<TodoItem>, ids: &[usize])
    requires
        valid_ids(ids@, old(todos).len() as nat),
    ensures
        final(todos).deep_view() == without(old(todos).deep_view(), ids@),
{
    let ordered = normalize_ids(ids);
    let ghost start = todos.deep_view();
    let ghost mut bound: int = start.len() as int;
    proof {
        assert forall|m: int| 0 <= m < ordered@.len() implies 1 <= #[trigger] ordered@[m]
            <= start.len() by {
            let id = ordered@[m];
            assert(listed(ids@, id as int));
            let i = choose|i: int| 0 <= i < ids@.len() && ids@[i] == id;
            assert(1 <= ids@[i] <= start.len());
        }
    }
    let mut k: usize = 0;
    while k < ordered.len()
        invariant
            k <= ordered.len(),
            start == old(todos).deep_view(),
            strictly_descending(ordered@),
            0 <= bound <= start.len(),
            forall|m: int| 0 <= m < k ==> #[trigger] ordered@[m] > bound,
            forall|m: int| k <= m < ordered@.len() ==> 1 <= #[trigger] ordered@[m] <= bound,
            todos.deep_view() == start.take(bound) + kept_from(start, ordered@, bound),
        decreases ordered.len() - k,
    {
        let id: usize = ordered[k];
        let ghost before = todos.deep_view();
        assert(before.len() >= bound);
        todos.remove(id - 1);
        proof {
            let at = id - 1;
            assert forall|position: int| at + 1 < position <= bound implies !listed(
                ordered@,
                position,
            ) by {
                if listed(ordered@, position) {
                    let m = choose|m: int| 0 <= m < ordered@.len() && ordered@[m] == position;
                    if m < k {
                        assert(ordered@[m] > bound);
                    } else if m > k {
                        assert(ordered@[k as int] > ordered@[m]);
                    }
                }
            }
            lemma_kept_gap(start, ordered@, at + 1, bound);
            assert(before.remove(at) =~= start.take(at) + kept_from(start, ordered@, at));
            assert forall|m: int| k + 1 <= m < ordered@.len() implies 1 <= #[trigger] ordered@[m]
                <= at by {
                assert(ordered@[k as int] > ordered@[m]);
            }
            bound = at;
        }
        k += 1;
    }
    proof {
        assert forall|position: int| 0 < position <= bound implies !listed(ordered@, position) by {
            if listed(ordered@, position) {
                let m = choose|m: int| 0 <= m < ordered@.len() && ordered@[m] == position;
                assert(ordered@[m] > bound);
            }
        }
        lemma_kept_gap(start, ordered@, 0, bound);
        lemma_kept_same_ids(start, ordered@, ids@, 0);
    }
}

} // verus!
