//! To-do items and the payloads that create and change them.

use vstd::prelude::*;
use crate::time::Timestamp;

verus! {

/// One task of the list.
#[derive(Debug)]
pub struct TodoItem {
    /// Assigned when the item is created; never changes.
    pub id: u128,
    pub title: String,
    pub completed: bool,
    /// Set once, when the item is created.
    pub created_at: Timestamp,
    /// Absent until the first update; then the time of the latest one.
    pub updated_at: Option<Timestamp>,
}

/// What a `TodoItem` holds, as a mathematical value.
pub struct TodoModel {
    pub id: u128,
    pub title: Seq<char>,
    pub completed: bool,
    pub created_at: Timestamp,
    pub updated_at: Option<Timestamp>,
}

impl View for TodoItem {
    type V = TodoModel;

    open spec fn view(&self) -> TodoModel {
        TodoModel {
            id: self.id,
            title: self.title@,
            completed: self.completed,
            created_at: self.created_at,
            updated_at: self.updated_at,
        }
    }
}

impl Clone for TodoItem {
    fn clone(&self) -> (copy: TodoItem)
        ensures
            copy == *self,
    {
        TodoItem {
            id: self.id,
            title: self.title.clone(),
            completed: self.completed,
            created_at: self.created_at,
            updated_at: self.updated_at,
        }
    }
}

/// The models of a sequence of items, in the same order.
pub open spec fn models(items: Seq<TodoItem>) -> Seq<TodoModel> {
    items.map_values(|item: TodoItem| item@)
}

/// The payload that creates an item.
#[derive(Debug)]
pub struct CreateTodoItem {
    pub title: String,
    pub completed: bool,
}

/// The payload that changes an item: an absent field leaves the item's own
/// value as it is.
#[derive(Debug)]
pub struct UpdateTodoItem {
    pub title: Option<String>,
    pub completed: Option<bool>,
}

/// What an `UpdateTodoItem` holds, as a mathematical value.
pub struct PatchModel {
    pub title: Option<Seq<char>>,
    pub completed: Option<bool>,
}

impl View for UpdateTodoItem {
    type V = PatchModel;

    open spec fn view(&self) -> PatchModel {
        PatchModel {
            title: match self.title {
                Some(title) => Some(title@),
                None => None,
            },
            completed: self.completed,
        }
    }
}

/// The item that `insert` makes of a title and a completion flag, given the
/// identifier and the clock reading it drew.
pub open spec fn created(id: u128, title: Seq<char>, completed: bool, now: Timestamp) -> TodoModel {
    TodoModel { id, title, completed, created_at: now, updated_at: None }
}

/// `item` after `patch` was applied at time `now`: each field that the patch
/// holds replaces the item's, and `updated_at` becomes `now`.
pub open spec fn patched(item: TodoModel, patch: PatchModel, now: Timestamp) -> TodoModel {
    TodoModel {
        id: item.id,
        title: match patch.title {
            Some(title) => title,
            None => item.title,
        },
        completed: match patch.completed {
            Some(completed) => completed,
            None => item.completed,
        },
        created_at: item.created_at,
        updated_at: Some(now),
    }
}

impl TodoItem {
    /// A new item: not yet updated.
    pub fn new(id: u128, title: String, completed: bool, now: Timestamp) -> (item: TodoItem)
        ensures
            item@ == created(id, title@, completed, now),
    {
        TodoItem { id, title, completed, created_at: now, updated_at: None }
    }

    /// A copy of `self` with `patch` applied at time `now`.
    pub fn apply(&self, patch: &UpdateTodoItem, now: Timestamp) -> (item: TodoItem)
        ensures
            item@ == patched(self@, patch@, now),
    {
        let title = match &patch.title {
            Some(title) => title.clone(),
            None => self.title.clone(),
        };
        let completed = match patch.completed {
            Some(completed) => completed,
            None => self.completed,
        };
        TodoItem {
            id: self.id,
            title,
            completed,
            created_at: self.created_at,
            updated_at: Some(now),
        }
    }
}

} // verus!
