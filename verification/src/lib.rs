//! Revision-tracked synchronization core for a two-replica alarm set.
//!
//! A primary device keeps the alarm table together with a monotonic revision
//! counter and a tombstone log; a companion device holds a replica that
//! converges through incremental or full syncs chosen from the revision gap.
//! This crate holds the verified heart of that protocol: the revision store,
//! the conflict detector, the sync planner, the batch collector and the
//! mutation coordinator that turns each edit into an ordered event stream.

pub mod error;
pub mod conflict;
pub mod coordinator;
pub mod models;
pub mod platform;
pub mod events;
pub mod logtext;
pub mod batch;
pub mod scheduler;
pub mod store;
pub mod sync_protocol;
pub mod wear;
