//! A local-first document store for short text artifacts, with full-text
//! search, TTL expiry, soft deletion, version history, and a generation- and
//! hash-based synchronization protocol between a local and a remote replica.

pub mod config;
pub mod doc;
pub mod error;
pub mod hashing;
pub mod rank;
pub mod replica;
pub mod search;
pub mod store;
pub mod sync;
pub mod text;
