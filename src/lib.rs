//! A small todo-list web service: requests arrive as raw HTTP text, are
//! routed by method and path, change an in-memory todo store, and are
//! answered with an HTML page that lists the store.

pub mod num;
pub mod server;
pub mod text;
pub mod todo;
