//! What holds of the store's operations, whatever the items are.

use vstd::prelude::*;
use crate::item::{created, PatchModel, TodoModel};
use crate::store::{deleted, distinct_ids, first_match, has_id, has_id_once, inserted,
    lemma_first_match, lemma_first_match_is, other_than, updated};
use crate::time::Timestamp;

verus! {

/// What one `insert` is given, together with the identifier and the clock
/// reading that it draws.
pub struct Insertion {
    pub id: u128,
    pub title: Seq<char>,
    pub completed: bool,
    pub now: Timestamp,
}

/// The item that an insertion adds.
pub open spec fn item_of(insertion: Insertion) -> TodoModel {
    created(insertion.id, insertion.title, insertion.completed, insertion.now)
}

/// The items that a run of insertions adds, in the order of the run.
pub open spec fn items_of(run: Seq<Insertion>) -> Seq<TodoModel> {
    run.map_values(|insertion: Insertion| item_of(insertion))
}

/// `items` after every insertion of `run` was made, first to last.
pub open spec fn inserted_all(items: Seq<TodoModel>, run: Seq<Insertion>) -> Seq<TodoModel>
    decreases run.len(),
{
    if run.len() == 0 {
        items
    } else {
        let last = run.last();
        inserted(inserted_all(items, run.drop_last()), last.id, last.title, last.completed, last.now)
    }
}

/// The identifiers that `run` draws differ from each other and from those of
/// `items`.
pub open spec fn draws_fresh(items: Seq<TodoModel>, run: Seq<Insertion>) -> bool {
    &&& forall|i: int| 0 <= i < run.len() ==> !has_id(items, (#[trigger] run[i]).id)
    &&& forall|i: int, j: int|
        0 <= i < j < run.len() ==> (#[trigger] run[i]).id != (#[trigger] run[j]).id
}

/// After any run of insertions the list holds what it held before, followed by
/// the new items in the order in which they were inserted.
pub proof fn lemma_inserts_keep_order(items: Seq<TodoModel>, run: Seq<Insertion>)
    ensures
        inserted_all(items, run) == items + items_of(run),
    decreases run.len(),
{
    if run.len() == 0 {
        assert(items + items_of(run) =~= items);
    } else {
        let earlier = run.drop_last();
        lemma_inserts_keep_order(items, earlier);
        assert(items + items_of(run) =~= (items + items_of(earlier)).push(item_of(run.last())));
    }
}

/// An insertion under an identifier that no item has keeps the identifiers
/// distinct.
pub proof fn lemma_insert_keeps_ids_distinct(
    items: Seq<TodoModel>,
    id: u128,
    title: Seq<char>,
    completed: bool,
    now: Timestamp,
)
    requires
        distinct_ids(items),
        !has_id(items, id),
    ensures
        distinct_ids(inserted(items, id, title, completed, now)),
{
    let after = inserted(items, id, title, completed, now);
    assert forall|i: int, j: int| 0 <= i < j < after.len() implies (#[trigger] after[i]).id != (
    #[trigger] after[j]).id by {
        assert(after[i] == items[i]);
        if j < items.len() {
            assert(after[j] == items[j]);
        }
    }
}

/// A run of insertions leaves the identifiers of the list distinct exactly
/// when they were distinct before and the identifiers that the run draws are
/// fresh.
pub proof fn lemma_inserts_keep_ids_distinct(items: Seq<TodoModel>, run: Seq<Insertion>)
    ensures
        distinct_ids(inserted_all(items, run)) <==> distinct_ids(items) && draws_fresh(items, run),
{
    lemma_inserts_keep_order(items, run);
    let all = inserted_all(items, run);
    let n = items.len() as int;
    assert forall|k: int| 0 <= k < n implies #[trigger] all[k] == items[k] by {}
    assert forall|k: int| 0 <= k < run.len() implies #[trigger] all[n + k] == item_of(run[k]) by {}
    if distinct_ids(all) {
        assert forall|i: int, j: int| 0 <= i < j < n implies (#[trigger] items[i]).id != (
        #[trigger] items[j]).id by {
            assert(all[i].id != all[j].id);
        }
        assert forall|i: int| 0 <= i < run.len() implies !has_id(items, (#[trigger] run[i]).id) by {
            if has_id(items, run[i].id) {
                let k = choose|k: int| 0 <= k < n && (#[trigger] items[k]).id == run[i].id;
                assert(all[k].id != all[n + i].id);
            }
        }
        assert forall|i: int, j: int| 0 <= i < j < run.len() implies (#[trigger] run[i]).id != (
        #[trigger] run[j]).id by {
            assert(all[n + i].id != all[n + j].id);
        }
    }
    if distinct_ids(items) && draws_fresh(items, run) {
        assert forall|i: int, j: int| 0 <= i < j < all.len() implies (#[trigger] all[i]).id != (
        #[trigger] all[j]).id by {
            if j < n {
                assert(items[i].id != items[j].id);
            } else if i < n {
                assert(all[j] == all[n + (j - n)]);
                assert(!has_id(items, run[j - n].id));
            } else {
                assert(all[i] == all[n + (i - n)] && all[j] == all[n + (j - n)]);
                assert(run[i - n].id != run[j - n].id);
            }
        }
    }
}

/// After an insertion the list is one longer: the new item stands last, with
/// the given title and flag, created at the time of the insertion and not yet
/// updated, and the items before it are those that were there.
pub proof fn lemma_insert_shows_new_item(
    items: Seq<TodoModel>,
    id: u128,
    title: Seq<char>,
    completed: bool,
    now: Timestamp,
)
    ensures
        inserted(items, id, title, completed, now).len() == items.len() + 1,
        inserted(items, id, title, completed, now).drop_last() == items,
        has_id(inserted(items, id, title, completed, now), id),
        ({
            let item = inserted(items, id, title, completed, now).last();
            &&& item.id == id
            &&& item.title == title
            &&& item.completed == completed
            &&& item.created_at == now
            &&& item.updated_at is None
        }),
{
    let after = inserted(items, id, title, completed, now);
    assert(after.drop_last() =~= items);
    assert(after[items.len() as int].id == id);
}

/// An update of an item that is there stamps it with the time of the update
/// and changes nothing but what the patch holds: where the clock has not gone
/// back since the item was created, `updated_at` is no earlier than
/// `created_at`.
pub proof fn lemma_update_stamps_item(
    items: Seq<TodoModel>,
    id: u128,
    patch: PatchModel,
    now: Timestamp,
)
    requires
        has_id(items, id),
        items[first_match(items, id)].created_at.not_after(now),
    ensures
        ({
            let at = first_match(items, id);
            let item = updated(items, id, patch, now)[at];
            &&& 0 <= at < items.len()
            &&& item.id == id
            &&& item.created_at == items[at].created_at
            &&& item.updated_at == Some(now)
            &&& item.created_at.not_after(item.updated_at->Some_0)
            &&& now.not_after(item.updated_at->Some_0)
            &&& patch.title is None ==> item.title == items[at].title
            &&& patch.title is Some ==> item.title == patch.title->Some_0
            &&& patch.completed is None ==> item.completed == items[at].completed
            &&& patch.completed is Some ==> item.completed == patch.completed->Some_0
        }),
{
    lemma_first_match(items, id);
}

/// An update changes one item at most: the list keeps its length, its order
/// and every identifier.
pub proof fn lemma_update_keeps_others(
    items: Seq<TodoModel>,
    id: u128,
    patch: PatchModel,
    now: Timestamp,
)
    ensures
        updated(items, id, patch, now).len() == items.len(),
        forall|i: int|
            0 <= i < items.len() && i != first_match(items, id) ==> updated(items, id, patch, now)[i]
                == #[trigger] items[i],
        forall|i: int|
            0 <= i < items.len() ==> updated(items, id, patch, now)[i].id == (#[trigger] items[i]).id,
        distinct_ids(items) ==> distinct_ids(updated(items, id, patch, now)),
{
    lemma_first_match(items, id);
    let after = updated(items, id, patch, now);
    if distinct_ids(items) {
        assert forall|i: int, j: int| 0 <= i < j < after.len() implies (#[trigger] after[i]).id != (
        #[trigger] after[j]).id by {
            assert(after[i].id == items[i].id && after[j].id == items[j].id);
        }
    }
}

/// An update under an identifier that no item has changes nothing.
pub proof fn lemma_update_of_missing_id(
    items: Seq<TodoModel>,
    id: u128,
    patch: PatchModel,
    now: Timestamp,
)
    requires
        !has_id(items, id),
    ensures
        updated(items, id, patch, now) == items,
{
    lemma_first_match(items, id);
}

/// A deletion under an identifier that no item has changes nothing.
pub proof fn lemma_delete_of_missing_id(items: Seq<TodoModel>, id: u128)
    requires
        !has_id(items, id),
    ensures
        deleted(items, id) == items,
    decreases items.len(),
{
    reveal(Seq::filter);
    if items.len() > 0 {
        let earlier = items.drop_last();
        if has_id(earlier, id) {
            let k = choose|k: int| 0 <= k < earlier.len() && (#[trigger] earlier[k]).id == id;
            assert(items[k].id == id);
        }
        lemma_delete_of_missing_id(earlier, id);
        assert(items[items.len() - 1].id != id);
        assert(earlier.push(items.last()) =~= items);
    }
}

/// Where the identifiers are distinct, an identifier that some item has
/// belongs to that item alone.
pub proof fn lemma_distinct_ids_occur_once(items: Seq<TodoModel>, id: u128)
    requires
        distinct_ids(items),
        has_id(items, id),
    ensures
        has_id_once(items, id),
{
    lemma_first_match(items, id);
    let at = first_match(items, id);
    assert forall|j: int| 0 <= j < items.len() && j != at implies (#[trigger] items[j]).id != id by {
        if j < at {
            assert(items[j].id != items[at].id);
        } else {
            assert(items[at].id != items[j].id);
        }
    }
}

/// Where one item alone has the identifier, a deletion removes exactly that
/// item: the others stay, unchanged and in their order.
pub proof fn lemma_delete_removes_one(items: Seq<TodoModel>, id: u128)
    requires
        has_id_once(items, id),
    ensures
        0 <= first_match(items, id) < items.len(),
        deleted(items, id) == items.remove(first_match(items, id)),
        deleted(items, id).len() == items.len() - 1,
    decreases items.len(),
{
    reveal(Seq::filter);
    lemma_first_match(items, id);
    let at = first_match(items, id);
    let earlier = items.drop_last();
    let last = items.last();
    if last.id == id {
        // The one item is the last: nothing before it goes.
        assert(items[items.len() - 1].id == id);
        assert(at == items.len() - 1);
        if has_id(earlier, id) {
            let k = choose|k: int| 0 <= k < earlier.len() && (#[trigger] earlier[k]).id == id;
            assert(items[k].id == id);
        }
        lemma_delete_of_missing_id(earlier, id);
        assert(items.remove(at) =~= earlier);
    } else {
        // The one item stands before the last, which stays.
        assert(at < earlier.len());
        assert(earlier[at] == items[at]);
        assert forall|j: int| 0 <= j < earlier.len() && j != at implies (#[trigger] earlier[j]).id
            != id by {
            assert(earlier[j] == items[j]);
        }
        lemma_first_match_is(earlier, id, at);
        lemma_delete_removes_one(earlier, id);
        assert(earlier.remove(at).push(last) =~= items.remove(at));
    }
}

/// A deletion keeps exactly the items with another identifier: none that is
/// left has the identifier, and each item that has another one is still there.
pub proof fn lemma_delete_keeps_others(items: Seq<TodoModel>, id: u128)
    ensures
        !has_id(deleted(items, id), id),
        forall|i: int|
            0 <= i < items.len() && (#[trigger] items[i]).id != id ==> deleted(items, id).contains(
                items[i],
            ),
        forall|k: int|
            0 <= k < deleted(items, id).len() ==> items.contains(#[trigger] deleted(items, id)[k]),
        deleted(items, id).len() <= items.len(),
{
    let rest = deleted(items, id);
    let keep = other_than(id);
    assert forall|k: int| 0 <= k < rest.len() implies (#[trigger] rest[k]).id != id by {
        items.lemma_filter_pred(keep, k);
    }
    assert forall|i: int| 0 <= i < items.len() && (#[trigger] items[i]).id != id implies rest.contains(
        items[i],
    ) by {
        items.lemma_filter_contains(keep, i);
    }
    assert forall|k: int| 0 <= k < rest.len() implies items.contains(#[trigger] rest[k]) by {
        assert(rest.contains(rest[k]));
        items.lemma_filter_contains_rev(keep, rest[k]);
    }
    items.lemma_filter_len(keep);
}

/// A deletion keeps distinct identifiers distinct.
pub proof fn lemma_delete_keeps_ids_distinct(items: Seq<TodoModel>, id: u128)
    requires
        distinct_ids(items),
    ensures
        distinct_ids(deleted(items, id)),
{
    if has_id(items, id) {
        lemma_distinct_ids_occur_once(items, id);
        lemma_delete_removes_one(items, id);
        let at = first_match(items, id);
        let rest = items.remove(at);
        assert forall|i: int, j: int| 0 <= i < j < rest.len() implies (#[trigger] rest[i]).id != (
        #[trigger] rest[j]).id by {
            let from_i = if i < at { i } else { i + 1 };
            let from_j = if j < at { j } else { j + 1 };
            assert(rest[i] == items[from_i] && rest[j] == items[from_j]);
        }
    } else {
        lemma_delete_of_missing_id(items, id);
    }
}

/// After a deletion no item has the identifier, so a second deletion under it
/// finds nothing and leaves the list as the first one left it.
pub proof fn lemma_delete_twice(items: Seq<TodoModel>, id: u128)
    ensures
        !has_id(deleted(items, id), id),
        deleted(deleted(items, id), id) == deleted(items, id),
{
    lemma_delete_keeps_others(items, id);
    lemma_delete_of_missing_id(deleted(items, id), id);
}

} // verus!
