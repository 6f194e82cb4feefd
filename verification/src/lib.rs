//! Core of a TCP workbench: a registry of named TCP endpoints, each owning
//! one connection whose lifecycle (connect, send, receive, disconnect,
//! liveness probe) is tracked as a verified state machine.
//!
//! Network sockets themselves live outside this crate.  Every operation that
//! touches the wire is split in two: a verified decision (may the operation
//! run, and with which configuration?) and a verified application of the
//! observed outcome, handed in as a plain event value.  The embedding
//! performs the timeout-bounded socket I/O between the two halves and owns
//! the concurrency discipline (one lock per registry, exclusive access per
//! identifier during I/O).

pub mod client;
pub mod commands;
pub mod errors;
pub mod events;
pub mod laws;
pub mod manager;
pub mod message;
pub mod protocol;
