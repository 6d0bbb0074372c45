//! Incremental directory index over a stream of registry events.
//!
//! The crate holds the decision logic of the indexer: decoding of event
//! payloads, the in-memory directory, the retry queue for events that arrive
//! before what they depend on, and the statements sent to the relational
//! store. Everything that talks to the outside world lives with the caller.

pub mod abi;
pub mod chain;
pub mod db;
pub mod events;
pub mod helpers;
pub mod laws;
pub mod provider;
pub mod router;
pub mod store;
pub mod string_map;
pub mod structs;
pub mod text;
