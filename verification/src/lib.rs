//! Archiving of per-job scripts that a batch scheduler leaves in sharded,
//! short-lived working directories.
//!
//! The crate holds the decisions of the event pipeline: which filesystem
//! notices announce a job script, where a script lands in the archive, what
//! the archiving consumer does with each arrival, and how a termination
//! signal is relayed to every consumer. Threads, file copies and the
//! notification backend live with the caller.

pub mod digits;
pub mod paths;
pub mod period;
pub mod clock;
pub mod event;
pub mod shard;
pub mod watcher;
pub mod archiver;
pub mod destination;
pub mod shutdown;
pub mod channel;
pub mod orchestrator;
