//! Persistence core of a small question-and-answer service.
//!
//! The crate holds the domain records, the validation of identifiers that
//! arrive as text, the mapping of storage-engine outcomes onto the typed
//! errors of the service, and an in-memory store that satisfies the same
//! contracts as a store backed by a relational engine.

pub mod models;
mod clock;
pub mod identifier;
pub mod laws;
pub mod memory;
pub mod storage;
pub mod persistance;
pub mod rows;
