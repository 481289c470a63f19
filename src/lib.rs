//! Background jobs: producers put named jobs with serialized arguments into a main queue;
//! workers take them out in order, run the registered handler, put failed jobs into a retry
//! queue with their attempt count incremented, and move jobs past the retry limit, or with
//! an unknown name, into a dead set.
//!
//! The library holds the queue model and its in-memory backend, the connection over a main
//! queue, a retry queue and a dead set, the registry of handlers, the wire form of a job,
//! and the decisions of a worker. Threads, blocking and network backends are left to the
//! code around it.

pub mod config;
pub mod connection;
pub mod error;
pub mod job;
pub mod memory_queue;
pub mod queue_adapters;
pub mod registry;
pub mod text;
pub mod wire;
pub mod worker;
