//! An in-memory, append-only message board.
//!
//! The store keeps messages most-recent-first; the api module maps the two
//! HTTP operations (list all messages, append one message) onto it.

pub mod api;
pub mod store;
