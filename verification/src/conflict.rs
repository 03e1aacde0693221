//! Conflict detector: pure validation of companion-submitted revisions.
//!
//! Both checks are side-effect free and gate every companion-originated save
//! or delete before it reaches the coordinator; on rejection no mutation
//! occurs and the caller triggers an immediate force-sync so the companion
//! can re-converge.

use vstd::prelude::*;

use crate::error::{ConflictError, Error};

verus! {

/// Validate that the companion's revision is current enough to make changes.
///
/// Fails with `StaleUpdate` exactly when the companion is behind the
/// primary's current revision. A companion at or ahead of the local revision
/// is accepted — "ahead" is an anomaly handled by the sync planner, not
/// rejected here.
pub fn validate_watch_revision(watch_revision: i64, current_revision: i64) -> (r: Result<
    (),
    Error,
>)
    ensures
        r is Ok <==> watch_revision >= current_revision,
        watch_revision < current_revision ==> r == Result::<(), Error>::Err(
            Error::Conflict(ConflictError::StaleUpdate { watch_revision, current_revision }),
        ),
{
    if watch_revision < current_revision {
        return Err(Error::Conflict(ConflictError::StaleUpdate {
            watch_revision,
            current_revision,
        }));
    }
    Ok(())
}

/// Validate that a specific alarm has not been modified since the companion
/// last synced.
///
/// Fails with `AlarmModified` exactly when the alarm's own revision is newer
/// than the companion's last-known revision — applying the companion's edit
/// would silently discard a newer local change. Equality and "companion
/// ahead" are both accepted.
pub fn validate_alarm_update(alarm_id: i32, alarm_revision: i64, watch_revision: i64) -> (r: Result<
    (),
    Error,
>)
    ensures
        r is Ok <==> alarm_revision <= watch_revision,
        alarm_revision > watch_revision ==> r == Result::<(), Error>::Err(
            Error::Conflict(
                ConflictError::AlarmModified { alarm_id, alarm_revision, watch_revision },
            ),
        ),
{
    if alarm_revision > watch_revision {
        return Err(Error::Conflict(ConflictError::AlarmModified {
            alarm_id,
            alarm_revision,
            watch_revision,
        }));
    }
    Ok(())
}

} // verus!
