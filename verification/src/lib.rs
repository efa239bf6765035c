//! A verified data-access core for a single record type.
//!
//! The library models a mutable collection of records keyed by a unique
//! business key (`isbn`), exposes create/read/update/delete operations on
//! it, and runs ordered sequences of mutation steps as an all-or-nothing
//! unit: every step's affected-row count must satisfy its policy, or the
//! whole sequence is rolled back.
//!
//! Opening a session against a real store, as well as issuing the actual
//! statements, is the caller's business; the library owns the record
//! semantics and the commit/rollback decisions.

pub mod coordinator;
pub mod laws;
pub mod record;
pub mod repo;
