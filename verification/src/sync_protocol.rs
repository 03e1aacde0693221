//! Sync planner: choose how much to send from the revision gap, and build
//! the outbound sync payload.
//!
//! A delta transfer is bounded by [`INCREMENTAL_THRESHOLD`]; beyond it, or
//! on an anomalous companion that claims to be ahead, the planner falls
//! back to a full resend. That bounds the cost of a delta and still
//! guarantees convergence after arbitrarily long offline periods.

use vstd::prelude::*;

use crate::models::AlarmRecord;
use crate::store::{
    alarm_views, alarms_since, deleted_ids_since, RevisionStore,
};

verus! {

/// Maximum revision gap for an incremental (delta) sync. Gaps larger than
/// this trigger a full sync rather than transmitting many individual
/// changes over the low-bandwidth companion transport.
pub const INCREMENTAL_THRESHOLD: i64 = 100;

/// The type of sync to perform based on the revision gap.
#[derive(Debug, Clone, Copy, PartialEq, Eq, Structural)]
pub enum SyncType {
    /// The companion is already up to date — no data transfer needed.
    UpToDate,
    /// Small gap — send only the changed alarms and deleted ids.
    Incremental,
    /// Large gap or anomaly — send the entire alarm set.
    FullSync,
}

/// The sync decision as a pure function of the two revisions.
pub open spec fn spec_sync_type(watch_revision: int, current_revision: int) -> SyncType {
    if watch_revision == current_revision {
        SyncType::UpToDate
    } else if watch_revision > current_revision {
        SyncType::FullSync
    } else if current_revision - watch_revision <= INCREMENTAL_THRESHOLD {
        SyncType::Incremental
    } else {
        SyncType::FullSync
    }
}

/// Determine the sync type from the companion's last-known revision and the
/// primary's current revision.
///
/// - Same revision: `UpToDate`.
/// - Companion ahead of primary (anomaly, such as a local data reset):
///   `FullSync`, to re-establish ground truth.
/// - Gap of at most [`INCREMENTAL_THRESHOLD`]: `Incremental`.
/// - Larger gap: `FullSync`.
pub fn determine_sync_type(watch_revision: i64, current_revision: i64) -> (r: SyncType)
    ensures
        r == spec_sync_type(watch_revision as int, current_revision as int),
{
    if watch_revision == current_revision {
        SyncType::UpToDate
    } else if watch_revision > current_revision {
        SyncType::FullSync
    } else if (current_revision as i128) - (watch_revision as i128) <= (
    INCREMENTAL_THRESHOLD as i128) {
        SyncType::Incremental
    } else {
        SyncType::FullSync
    }
}

/// Boundary law of the sync planner: at equal revisions the companion is up
/// to date; a gap of one through the threshold is incremental; one past the
/// threshold, and any companion claiming to be ahead, forces a full sync.
pub proof fn sync_planner_boundary(r: int)
    ensures
        spec_sync_type(r, r) == SyncType::UpToDate,
        spec_sync_type(r - 1, r) == SyncType::Incremental,
        spec_sync_type(r - 100, r) == SyncType::Incremental,
        spec_sync_type(r - 101, r) == SyncType::FullSync,
        spec_sync_type(r + 5, r) == SyncType::FullSync,
{
}

/// The payload sent to the companion after a sync request: one of the three
/// tagged shapes of the outbound protocol.
#[derive(Debug)]
pub enum SyncResponse {
    /// The companion is already at the latest revision.
    UpToDate { current_revision: i64 },
    /// Delta update: only the alarms that changed plus deleted ids.
    Incremental {
        current_revision: i64,
        updated_alarms: Vec<AlarmRecord>,
        deleted_alarm_ids: Vec<i32>,
    },
    /// Complete replacement: the whole current alarm set.
    FullSync { current_revision: i64, all_alarms: Vec<AlarmRecord> },
}

/// Build the outbound sync payload for a companion at `watch_revision`: the
/// shape chosen by [`spec_sync_type`], carrying exactly the incremental
/// diff or the full alarm set.
pub fn build_sync_response(store: &RevisionStore, watch_revision: i64) -> (r: SyncResponse)
    requires
        store@.wf(),
    ensures
        ({
            let cur = store@.counter;
            match spec_sync_type(watch_revision as int, cur as int) {
                SyncType::UpToDate => r matches SyncResponse::UpToDate { current_revision }
                    && current_revision == cur,
                SyncType::Incremental => r matches SyncResponse::Incremental {
                    current_revision,
                    updated_alarms,
                    deleted_alarm_ids,
                } && current_revision == cur && alarm_views(updated_alarms@) == alarms_since(
                    store@.alarms,
                    watch_revision,
                ) && deleted_alarm_ids@ == deleted_ids_since(store@.tombstones, watch_revision),
                SyncType::FullSync => r matches SyncResponse::FullSync {
                    current_revision,
                    all_alarms,
                } && current_revision == cur && alarm_views(all_alarms@) == store@.alarms,
            }
        }),
{
    let current_revision = store.current_revision();
    match determine_sync_type(watch_revision, current_revision) {
        SyncType::UpToDate => SyncResponse::UpToDate { current_revision },
        SyncType::Incremental => SyncResponse::Incremental {
            current_revision,
            updated_alarms: store.get_alarms_since_revision(watch_revision),
            deleted_alarm_ids: store.get_deleted_since_revision(watch_revision),
        },
        SyncType::FullSync => SyncResponse::FullSync {
            current_revision,
            all_alarms: store.get_all(),
        },
    }
}

} // verus!
