//! An in-memory calendar of events: create, update, delete, and queries by
//! day, ISO week and month, with the request-level rules that map each
//! outcome to a reply.
pub mod datetime;
pub mod lemmas;
pub mod service;
pub mod store;
