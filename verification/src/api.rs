//! The request handlers: each runs one store operation and shapes what the
//! client gets back.

use vstd::prelude::*;
use crate::ident::is_random_id;
use crate::item::{models, CreateTodoItem, TodoItem, UpdateTodoItem};
use crate::store::{deleted, first_match, has_id, inserted, updated, Store, StoreError};

verus! {

/// The status of a response that carries what was asked for.
pub const STATUS_OK: u16 = 200;

/// The status of a response to a request that names no item of the store.
pub const STATUS_NOT_FOUND: u16 = 404;

/// The plain-text body of a response with `STATUS_NOT_FOUND`.
pub const NOT_FOUND_TEXT: &'static str = "Todo item not found";

/// What a handler answers.
#[derive(Debug)]
pub enum Response {
    /// The whole list, to be sent as an array.
    Todos(Vec<TodoItem>),
    /// One item, to be sent by itself.
    Todo(TodoItem),
    /// No item has the identifier of the request.
    NotFound,
}

impl Response {
    /// The status that goes with each kind of response.
    pub open spec fn status_of(self) -> u16 {
        match self {
            Response::Todos(_) => STATUS_OK,
            Response::Todo(_) => STATUS_OK,
            Response::NotFound => STATUS_NOT_FOUND,
        }
    }

    /// The status to send.
    pub fn status(&self) -> (code: u16)
        ensures
            code == self.status_of(),
    {
        match self {
            Response::Todos(_) => STATUS_OK,
            Response::Todo(_) => STATUS_OK,
            Response::NotFound => STATUS_NOT_FOUND,
        }
    }

    /// The plain text to send as the body, where the response carries no
    /// items.
    pub fn text(&self) -> (body: Option<&'static str>)
        ensures
            body is Some <==> self is NotFound,
            body is Some ==> body->Some_0@ == NOT_FOUND_TEXT@,
    {
        match self {
            Response::NotFound => Some(NOT_FOUND_TEXT),
            _ => None,
        }
    }
}

/// The response to a request that yields the list: the list where the store
/// gave one, `NotFound` where it found no item.
pub fn list_response(outcome: Result<Vec<TodoItem>, StoreError>) -> (response: Response)
    ensures
        match outcome {
            Ok(list) => response == Response::Todos(list),
            Err(StoreError::NotFound) => response == Response::NotFound,
        },
{
    match outcome {
        Ok(list) => Response::Todos(list),
        Err(StoreError::NotFound) => Response::NotFound,
    }
}

/// The response to a request that yields one item: the item where the store
/// gave one, `NotFound` where it found none.
pub fn item_response(outcome: Result<TodoItem, StoreError>) -> (response: Response)
    ensures
        match outcome {
            Ok(item) => response == Response::Todo(item),
            Err(StoreError::NotFound) => response == Response::NotFound,
        },
{
    match outcome {
        Ok(item) => Response::Todo(item),
        Err(StoreError::NotFound) => Response::NotFound,
    }
}

/// Answers a request for the list: always with the whole list.
pub fn get_todos(store: &Store) -> (response: Response)
    ensures
        response is Todos,
        models(response->Todos_0@) == store@,
{
    Response::Todos(store.list())
}

/// Answers a request to create an item: inserts it and answers with the whole
/// list, the new item last.
pub fn add_todo(store: &mut Store, item: CreateTodoItem) -> (response: Response)
    ensures
        final(store)@.len() == old(store)@.len() + 1,
        final(store)@ == inserted(
            old(store)@,
            final(store)@.last().id,
            item.title@,
            item.completed,
            final(store)@.last().created_at,
        ),
        is_random_id(final(store)@.last().id),
        final(store)@.last().created_at.is_clock_reading(),
        response is Todos,
        models(response->Todos_0@) == final(store)@,
{
    Response::Todos(store.insert(item.title, item.completed))
}

/// Answers a request to change the item with the identifier `id`: with the
/// item as it is after the change, or with `NotFound` where no item has the
/// identifier, and then nothing has changed.
pub fn update_todo(store: &mut Store, id: u128, item: UpdateTodoItem) -> (response: Response)
    ensures
        response is Todo <==> has_id(old(store)@, id),
        response is Todo ==> {
            let changed = response->Todo_0@;
            &&& changed.updated_at is Some
            &&& changed.updated_at->Some_0.is_clock_reading()
            &&& final(store)@ == updated(old(store)@, id, item@, changed.updated_at->Some_0)
            &&& changed == final(store)@[first_match(old(store)@, id)]
        },
        !has_id(old(store)@, id) ==> response is NotFound && final(store)@ == old(store)@,
{
    item_response(store.update(id, &item))
}

/// Answers a request to delete the item with the identifier `id`: with the
/// list that is left, or with `NotFound` where no item has the identifier, and
/// then nothing has changed.
pub fn delete_todo(store: &mut Store, id: u128) -> (response: Response)
    ensures
        response is Todos <==> has_id(old(store)@, id),
        response is Todos ==> final(store)@ == deleted(old(store)@, id) && models(
            response->Todos_0@,
        ) == final(store)@,
        !has_id(old(store)@, id) ==> response is NotFound && final(store)@ == old(store)@,
{
    list_response(store.delete(id))
}

} // verus!
