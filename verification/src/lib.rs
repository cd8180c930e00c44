//! Partial updates of stored records.
//!
//! A request says one of three things about each updatable field of a
//! record: set it to a value, clear it, or leave it alone. This library
//! decodes such requests, merges them with what is stored, and runs the
//! protocol that persists the result safely against concurrent writers.
//!
//! - [`patch`]: the tri-state field and the rule by which it is merged.
//! - [`wire`]: the loosely typed payload and the decoding of its fields.
//! - [`request`]: one partial update of one record.
//! - [`record`]: the stored record.
//! - [`resolve`]: the merge of a request with the stored record.
//! - [`engine`]: the protocol as a state machine, under both strategies.
//! - [`store`]: a model of the store, and what a run of the protocol does
//!   to it.
//! - [`concurrency`]: several runs at once, and why they are serialized.
//! - [`error`]: the ways in which a request can be turned down.

pub mod concurrency;
pub mod engine;
pub mod error;
pub mod patch;
pub mod record;
pub mod request;
pub mod resolve;
pub mod store;
pub mod wire;
