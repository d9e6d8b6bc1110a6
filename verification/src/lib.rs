//! A minimal persistent record store: an aggregate product catalog kept in
//! one storage slot, and per-key records that only their owner may change.
//!
//! The durable key-value storage and the clock are collaborators that the
//! caller injects; the engines decide what is read and written.

pub mod error;
pub mod stored;
pub mod codec;
pub mod table;
pub mod storage;
pub mod clock;
pub mod aggregate;
pub mod owned;
pub mod history;
pub mod laws;
