//! Storage engine for conversational threads and their messages.
//!
//! Threads own messages. Beside the two kinds of record the engine keeps
//! what is derived from them, the list of each thread's messages in
//! creation order and the creation-time entries of threads and messages,
//! and changes all of it together: an operation applies in full or not at
//! all.
//!
//! There are two engines. [`in_memory::SynxInMemory`] holds everything in
//! process memory. The durable engine, in [`durable`], holds six tables in
//! an ordered key-value store that is reached through the program around
//! this library; each of its operations is a
//! [`durable::transaction::Transaction`] that the program runs read by
//! read. The keys of those tables are the fixed-width byte strings of
//! [`keys`], whose byte order is the order of their fields.
//!
//! Every executable function states what it returns and changes, and is
//! proved to do so. What holds across operations is stated and proved in
//! [`in_memory::laws`] and [`durable::laws`].

pub mod big_endian;
pub mod clock;
pub mod content;
pub mod durable;
pub mod embedding;
pub mod error;
pub mod id;
pub mod in_memory;
pub mod keys;
pub mod membership;
pub mod message;
pub mod pagination;
pub mod summary;
pub mod text;
pub mod thread;
