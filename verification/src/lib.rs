//! A minimal durable key-value store: an in-memory string map, an append-only
//! operation log for recovery, the command dispatch state machine, and a
//! logging middleware that validates commands before they reach the store.

pub mod request;
pub mod semantics;
pub mod store;
pub mod numfmt;
pub mod strutil;
pub mod aof;
pub mod dispatch;
pub mod recovery;
pub mod service;
pub mod laws;
