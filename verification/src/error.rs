//! Error taxonomy of the sync subsystem.
//!
//! Conflicts are rejections of companion-originated edits whose claimed
//! revision is no longer acceptable; they carry the revisions involved so the
//! rejected side can tell exactly why and re-converge.

use vstd::prelude::*;

verus! {

/// A companion-originated edit was rejected by the conflict detector.
#[derive(Debug, Clone, PartialEq, Eq, Structural)]
pub enum ConflictError {
    /// The companion is behind the primary's current revision: it has not
    /// seen all recent changes, so its edit may rest on stale data.
    StaleUpdate { watch_revision: i64, current_revision: i64 },
    /// This specific alarm was mutated on the primary after the companion's
    /// last sync point; applying the companion's edit would silently discard
    /// that newer local change.
    AlarmModified { alarm_id: i32, alarm_revision: i64, watch_revision: i64 },
}

/// Failure of a sync-subsystem operation.
#[derive(Debug, Clone, PartialEq, Eq)]
pub enum Error {
    /// The platform bridge to the companion transport failed.
    MobilePlugin(String),
    /// A sync message violated the protocol.
    SyncProtocol(String),
    /// A companion edit was rejected; carries the conflict detail.
    Conflict(ConflictError),
    /// A payload could not be encoded or decoded.
    Serialisation(String),
}

/// Failure of an alarm mutation or query.
#[derive(Debug, Clone, PartialEq, Eq, Structural)]
pub enum AlarmError {
    /// No alarm row carries this id.
    NotFound(i32),
    /// The mutation's input was rejected before any revision was consumed.
    Validation(ValidationError),
    /// The store refused the write (for instance a second tombstone for one
    /// alarm id); the mutation was not applied.
    Storage(i32),
}

/// Why a trigger-policy input was rejected.
#[derive(Debug, Clone, Copy, PartialEq, Eq, Structural)]
pub enum ValidationError {
    /// A fixed-time alarm carried no time of day.
    MissingFixedTime,
    /// A window alarm carried no window start.
    MissingWindowStart,
    /// A window alarm carried no window end.
    MissingWindowEnd,
    /// A time-of-day string was not of the form `HH:MM`.
    UnparseableTime,
    /// A window's end did not lie after its start.
    EmptyWindow,
    /// A log-export destination that no file path can name.
    UnsupportedDestination,
}

} // verus!
