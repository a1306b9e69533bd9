//! An in-memory to-do list: a store of items kept in insertion order, and the
//! request handlers that turn each store operation into a response.

pub mod api;
pub mod ident;
pub mod item;
pub mod laws;
pub mod store;
pub mod time;
