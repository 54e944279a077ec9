//! An in-memory collection of todo records with create, read, update,
//! delete and list operations, each specified and verified.
//!
//! `models` holds the record type, `store` the collection and its
//! operations, `api` the mapping from operations to HTTP-level replies.

pub mod api;
pub mod models;
pub mod store;
