//! The store: the to-do items of one process, in the order in which they were
//! inserted.

use vstd::prelude::*;
use crate::ident::{fresh_id, is_random_id};
use crate::item::{created, models, patched, PatchModel, TodoItem, TodoModel, UpdateTodoItem};
use crate::time::{utc_now, Timestamp};

verus! {

/// Why a store operation changed nothing.
#[derive(Clone, Copy, Debug, PartialEq, Eq, Structural)]
pub enum StoreError {
    /// No item of the store has the identifier that was asked for.
    NotFound,
}

/// Some item of `items` has the identifier `id`.
pub open spec fn has_id(items: Seq<TodoModel>, id: u128) -> bool {
    exists|i: int| 0 <= i < items.len() && (#[trigger] items[i]).id == id
}

/// The number of items at the front of `items` whose identifier is not `id`:
/// the index of the first item that has it, or the length where none has.
pub open spec fn first_match(items: Seq<TodoModel>, id: u128) -> int
    decreases items.len(),
{
    if items.len() == 0 || items[0].id == id {
        0
    } else {
        1 + first_match(items.drop_first(), id)
    }
}

/// One item of `items`, and no other, has the identifier `id`.
pub open spec fn has_id_once(items: Seq<TodoModel>, id: u128) -> bool {
    &&& has_id(items, id)
    &&& forall|j: int|
        0 <= j < items.len() && j != first_match(items, id) ==> (#[trigger] items[j]).id != id
}

/// No two items of `items` share an identifier.
pub open spec fn distinct_ids(items: Seq<TodoModel>) -> bool {
    forall|i: int, j: int|
        0 <= i < j < items.len() ==> (#[trigger] items[i]).id != (#[trigger] items[j]).id
}

/// The test that keeps every item but those with the identifier `id`.
pub open spec fn other_than(id: u128) -> spec_fn(TodoModel) -> bool {
    |item: TodoModel| item.id != id
}

/// `items` with a new item at the end.
pub open spec fn inserted(
    items: Seq<TodoModel>,
    id: u128,
    title: Seq<char>,
    completed: bool,
    now: Timestamp,
) -> Seq<TodoModel> {
    items.push(created(id, title, completed, now))
}

/// `items` with `patch` applied at time `now` to the first item that has the
/// identifier `id`; `items` itself where none has it.
pub open spec fn updated(
    items: Seq<TodoModel>,
    id: u128,
    patch: PatchModel,
    now: Timestamp,
) -> Seq<TodoModel> {
    let at = first_match(items, id);
    if at < items.len() {
        items.update(at, patched(items[at], patch, now))
    } else {
        items
    }
}

/// `items` without those that have the identifier `id`, the others in their
/// order.
pub open spec fn deleted(items: Seq<TodoModel>, id: u128) -> Seq<TodoModel> {
    items.filter(other_than(id))
}

/// `first_match` is the least index whose item has the identifier, and is the
/// length exactly when no item has it.
pub proof fn lemma_first_match(items: Seq<TodoModel>, id: u128)
    ensures
        0 <= first_match(items, id) <= items.len(),
        forall|j: int| 0 <= j < first_match(items, id) ==> (#[trigger] items[j]).id != id,
        first_match(items, id) < items.len() ==> items[first_match(items, id)].id == id,
        has_id(items, id) <==> first_match(items, id) < items.len(),
    decreases items.len(),
{
    if items.len() == 0 || items[0].id == id {
    } else {
        let rest = items.drop_first();
        lemma_first_match(rest, id);
        let at = first_match(rest, id);
        assert forall|j: int| 0 <= j < 1 + at implies (#[trigger] items[j]).id != id by {
            if j > 0 {
                assert(items[j] == rest[j - 1]);
            }
        }
        if at < rest.len() {
        }
    }
}

/// An index whose item has the identifier, with no such item before it, is
/// `first_match`.
pub proof fn lemma_first_match_is(items: Seq<TodoModel>, id: u128, at: int)
    requires
        0 <= at < items.len(),
        items[at].id == id,
        forall|j: int| 0 <= j < at ==> (#[trigger] items[j]).id != id,
    ensures
        first_match(items, id) == at,
{
    lemma_first_match(items, id);
    let first = first_match(items, id);
    if first < at {
    } else if first > at {
    }
}

/// The items of the list. Only `insert`, `update` and `delete` change them.
pub struct Store {
    items: Vec<TodoItem>,
}

impl View for Store {
    type V = Seq<TodoModel>;

    closed spec fn view(&self) -> Seq<TodoModel> {
        models(self.items@)
    }
}

impl Store {
    /// A store without items.
    pub fn new() -> (store: Store)
        ensures
            store@ == Seq::<TodoModel>::empty(),
    {
        Store { items: Vec::new() }
    }

    /// A copy of every item, in insertion order.
    pub fn list(&self) -> (snapshot: Vec<TodoItem>)
        ensures
            models(snapshot@) == self@,
    {
        let mut snapshot: Vec<TodoItem> = Vec::new();
        let mut i: usize = 0;
        while i < self.items.len()
            invariant
                i <= self.items.len(),
                snapshot@ == self.items@.take(i as int),
            decreases self.items.len() - i,
        {
            snapshot.push(self.items[i].clone());
            i += 1;
        }
        snapshot
    }

    /// Appends a new item with the given identifier and creation time, and
    /// returns a copy of the whole list.
    pub fn insert_with(&mut self, id: u128, title: String, completed: bool, now: Timestamp) -> (snapshot:
        Vec<TodoItem>)
        ensures
            final(self)@ == inserted(old(self)@, id, title@, completed, now),
            models(snapshot@) == final(self)@,
    {
        self.items.push(TodoItem::new(id, title, completed, now));
        self.list()
    }

    /// Appends a new item under a freshly drawn identifier, created at the
    /// current time, and returns a copy of the whole list.
    ///
    /// The identifier and the time are whatever the generator and the clock
    /// gave: the new item, last in the list, shows both.
    pub fn insert(&mut self, title: String, completed: bool) -> (snapshot: Vec<TodoItem>)
        ensures
            final(self)@.len() == old(self)@.len() + 1,
            final(self)@ == inserted(
                old(self)@,
                final(self)@.last().id,
                title@,
                completed,
                final(self)@.last().created_at,
            ),
            is_random_id(final(self)@.last().id),
            final(self)@.last().created_at.is_clock_reading(),
            models(snapshot@) == final(self)@,
    {
        let id = fresh_id();
        let now = utc_now();
        self.insert_with(id, title, completed, now)
    }

    /// Applies `patch` at time `now` to the first item with the identifier
    /// `id`, and returns a copy of that item as it then is.
    pub fn update_at(&mut self, id: u128, patch: &UpdateTodoItem, now: Timestamp) -> (outcome: Result<
        TodoItem,
        StoreError,
    >)
        ensures
            outcome is Ok <==> has_id(old(self)@, id),
            final(self)@ == updated(old(self)@, id, patch@, now),
            outcome is Ok ==> outcome->Ok_0@ == final(self)@[first_match(old(self)@, id)],
            outcome is Err ==> outcome->Err_0 == StoreError::NotFound && final(self)@ == old(self)@,
    {
        let mut i: usize = 0;
        while i < self.items.len() && self.items[i].id != id
            invariant
                i <= self.items.len(),
                forall|j: int| 0 <= j < i ==> (#[trigger] self.items@[j]).id != id,
            decreases self.items.len() - i,
        {
            i += 1;
        }
        proof {
            lemma_first_match(old(self)@, id);
            assert forall|j: int| 0 <= j < i implies (#[trigger] old(self)@[j]).id != id by {
                assert(old(self)@[j] == self.items@[j]@);
            }
        }
        if i < self.items.len() {
            proof {
                lemma_first_match_is(old(self)@, id, i as int);
            }
            let changed = self.items[i].apply(patch, now);
            let copy = changed.clone();
            self.items.set(i, changed);
            Ok(copy)
        } else {
            Err(StoreError::NotFound)
        }
    }

    /// Applies `patch` at the current time to the first item with the
    /// identifier `id`, and returns a copy of that item as it then is.
    ///
    /// The time is whatever the clock gave: the returned item shows it in
    /// `updated_at`.
    pub fn update(&mut self, id: u128, patch: &UpdateTodoItem) -> (outcome: Result<TodoItem, StoreError>)
        ensures
            outcome is Ok <==> has_id(old(self)@, id),
            outcome is Ok ==> {
                let item = outcome->Ok_0@;
                &&& item.updated_at is Some
                &&& item.updated_at->Some_0.is_clock_reading()
                &&& final(self)@ == updated(old(self)@, id, patch@, item.updated_at->Some_0)
                &&& item == final(self)@[first_match(old(self)@, id)]
            },
            outcome is Err ==> outcome->Err_0 == StoreError::NotFound && final(self)@ == old(self)@,
    {
        let now = utc_now();
        proof {
            lemma_first_match(self@, id);
        }
        self.update_at(id, patch, now)
    }

    /// Removes the items with the identifier `id` and returns a copy of the
    /// list that is left; changes nothing where no item has it.
    pub fn delete(&mut self, id: u128) -> (outcome: Result<Vec<TodoItem>, StoreError>)
        ensures
            outcome is Ok <==> has_id(old(self)@, id),
            outcome is Ok ==> final(self)@ == deleted(old(self)@, id) && models(outcome->Ok_0@)
                == final(self)@,
            outcome is Err ==> outcome->Err_0 == StoreError::NotFound && final(self)@ == old(self)@,
    {
        let mut kept: Vec<TodoItem> = Vec::new();
        let mut found = false;
        let mut i: usize = 0;
        proof {
            reveal(Seq::filter);
        }
        while i < self.items.len()
            invariant
                i <= self.items.len(),
                self@ == models(self.items@),
                models(kept@) == deleted(self@.take(i as int), id),
                found <==> has_id(self@.take(i as int), id),
            decreases self.items.len() - i,
        {
            let ghost before = self@.take(i as int);
            let ghost upto = self@.take(i + 1);
            proof {
                reveal(Seq::filter);
                assert(upto.drop_last() =~= before);
            }
            if self.items[i].id == id {
                found = true;
                assert(upto[i as int].id == id);
            } else {
                kept.push(self.items[i].clone());
                assert(models(kept@) =~= deleted(before, id).push(upto.last()));
                assert(has_id(upto, id) ==> has_id(before, id)) by {
                    if has_id(upto, id) {
                        let k = choose|k: int| 0 <= k < upto.len() && (#[trigger] upto[k]).id == id;
                        assert(before[k].id == id);
                    }
                }
            }
            assert(has_id(before, id) ==> has_id(upto, id)) by {
                if has_id(before, id) {
                    let k = choose|k: int| 0 <= k < before.len() && (#[trigger] before[k]).id == id;
                    assert(upto[k].id == id);
                }
            }
            i += 1;
        }
        proof {
            assert(self@.take(i as int) =~= self@);
        }
        if found {
            self.items = kept;
            Ok(self.list())
        } else {
            Err(StoreError::NotFound)
        }
    }
}

} // verus!
