//! The durable engine: six tables in an ordered key-value store on disk.
//!
//! The store is reached through reads and writes that only the program
//! around this library can perform. An operation is therefore a
//! [`transaction::Transaction`]: a value that says which writes to apply
//! and which read to make next, and that is resumed with what the read
//! returned until it says how the operation ends. Everything that is
//! decided, which keys, which records, which failure, is decided here.

pub mod soundness;
pub mod failure;
pub mod laws;
pub mod protocol;
pub mod semantics;
pub mod step;
pub mod tables;
pub mod transaction;
