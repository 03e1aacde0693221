//! Domain events: the ordered stream a mutation produces.
//!
//! Downstream consumers rely on the order being a contract: a created or
//! updated event precedes any scheduling transition, which precedes the
//! batch hook the sync subsystem listens on. The coordinator returns each
//! mutation's events as one sequence whose exact shape its contracts pin
//! down over [`EventModel`].

use vstd::prelude::*;

use crate::models::{opt_str_view, AlarmMode, AlarmModel, AlarmRecord};

verus! {

/// Why a scheduled alarm was cancelled.
#[derive(Debug, Clone, Copy, PartialEq, Eq, Structural)]
pub enum CancelReason {
    /// The user toggled the alarm off.
    Disabled,
    /// The user deleted the alarm.
    Deleted,
    /// The alarm is being rescheduled with a new trigger.
    Updated,
    /// A one-time alarm fired.
    Expired,
}

/// Why an explicit sync was requested.
#[derive(Debug, Clone, Copy, PartialEq, Eq, Structural)]
pub enum SyncReason {
    /// The debounce timer expired.
    BatchComplete,
    /// The application started.
    Initialize,
    /// The companion reconnected.
    Reconnect,
    /// A conflict rejection or an explicit user request.
    ForceSync,
}

/// Minimal snapshot of an alarm's key fields for change comparison: a
/// read-only copy of state captured at a point in time.
#[derive(Debug, Clone, Copy, PartialEq, Eq, Structural)]
pub struct AlarmSnapshot {
    pub id: i32,
    pub enabled: bool,
    pub next_trigger: Option<i64>,
    pub revision: i64,
}

impl AlarmSnapshot {
    /// The snapshot of `alarm`, for update comparisons.
    pub fn from_alarm(alarm: &AlarmRecord) -> (r: Self)
        ensures
            r == AlarmSnapshot::spec_of(alarm@),
    {
        AlarmSnapshot {
            id: alarm.id,
            enabled: alarm.enabled,
            next_trigger: alarm.next_trigger,
            revision: alarm.revision,
        }
    }

    /// The snapshot of an alarm model.
    pub open spec fn spec_of(alarm: AlarmModel) -> AlarmSnapshot {
        AlarmSnapshot {
            id: alarm.id,
            enabled: alarm.enabled,
            next_trigger: alarm.next_trigger,
            revision: alarm.revision,
        }
    }
}

/// A new alarm was created.
#[derive(Debug, Clone)]
pub struct AlarmCreated {
    pub alarm: AlarmRecord,
    pub revision: i64,
}

/// An existing alarm was updated; carries the prior state's snapshot for
/// diffing when it was available.
#[derive(Debug, Clone)]
pub struct AlarmUpdated {
    pub alarm: AlarmRecord,
    pub previous: Option<AlarmSnapshot>,
    pub revision: i64,
}

/// An alarm was deleted.
#[derive(Debug, Clone)]
pub struct AlarmDeleted {
    pub id: i32,
    pub label: Option<String>,
    pub revision: i64,
}

/// An alarm must be registered with the native scheduler.
#[derive(Debug, Clone)]
pub struct AlarmScheduled {
    pub id: i32,
    pub trigger_at: i64,
    pub sound_uri: Option<String>,
    pub label: Option<String>,
    pub mode: AlarmMode,
    pub revision: i64,
}

/// A scheduled alarm must be cancelled with the native scheduler.
#[derive(Debug, Clone)]
pub struct AlarmCancelled {
    pub id: i32,
    pub reason: CancelReason,
    pub revision: i64,
}

/// A native alarm fired.
#[derive(Debug, Clone)]
pub struct AlarmFired {
    pub id: i32,
    pub trigger_at: i64,
    pub actual_fired_at: i64,
    pub label: Option<String>,
    pub revision: i64,
}

/// The user dismissed a ringing alarm.
#[derive(Debug, Clone, Copy, PartialEq, Eq, Structural)]
pub struct AlarmDismissed {
    pub id: i32,
    pub fired_at: i64,
    pub dismissed_at: i64,
    pub next_trigger: Option<i64>,
    pub revision: i64,
}

/// The user snoozed a ringing alarm.
#[derive(Debug, Clone, Copy, PartialEq, Eq, Structural)]
pub struct AlarmSnoozed {
    pub id: i32,
    pub original_trigger: i64,
    pub snoozed_until: i64,
    pub revision: i64,
}

/// One or more alarms changed: the hook the sync batcher listens on.
#[derive(Debug, Clone)]
pub struct AlarmsBatchUpdated {
    pub updated_ids: Vec<i32>,
    pub revision: i64,
    pub timestamp: i64,
}

impl AlarmsBatchUpdated {
    /// A batch hook for a single changed alarm.
    pub fn single(id: i32, revision: i64, timestamp: i64) -> (r: Self)
        ensures
            r.updated_ids@ == seq![id],
            r.revision == revision,
            r.timestamp == timestamp,
    {
        let mut ids: Vec<i32> = Vec::new();
        ids.push(id);
        proof {
            assert(ids@ =~= seq![id]);
        }
        AlarmsBatchUpdated { updated_ids: ids, revision, timestamp }
    }
}

/// An explicit sync is required.
#[derive(Debug, Clone, Copy, PartialEq, Eq, Structural)]
pub struct AlarmsSyncNeeded {
    pub reason: SyncReason,
    pub revision: i64,
}

/// One entry of the ordered event stream a mutation produces.
#[derive(Debug, Clone)]
pub enum AlarmEvent {
    Created(AlarmCreated),
    Updated(AlarmUpdated),
    Deleted(AlarmDeleted),
    Scheduled(AlarmScheduled),
    Cancelled(AlarmCancelled),
    Fired(AlarmFired),
    Dismissed(AlarmDismissed),
    Snoozed(AlarmSnoozed),
    BatchUpdated(AlarmsBatchUpdated),
    SyncNeeded(AlarmsSyncNeeded),
}

/// The mathematical value of an [`AlarmEvent`].
#[verifier::ext_equal]
pub enum EventModel {
    Created { alarm: AlarmModel, revision: i64 },
    Updated { alarm: AlarmModel, previous: Option<AlarmSnapshot>, revision: i64 },
    Deleted { id: i32, label: Option<Seq<char>>, revision: i64 },
    Scheduled {
        id: i32,
        trigger_at: i64,
        sound_uri: Option<Seq<char>>,
        label: Option<Seq<char>>,
        mode: AlarmMode,
        revision: i64,
    },
    Cancelled { id: i32, reason: CancelReason, revision: i64 },
    Fired {
        id: i32,
        trigger_at: i64,
        actual_fired_at: i64,
        label: Option<Seq<char>>,
        revision: i64,
    },
    Dismissed { id: i32, fired_at: i64, dismissed_at: i64, next_trigger: Option<i64>, revision: i64 },
    Snoozed { id: i32, original_trigger: i64, snoozed_until: i64, revision: i64 },
    BatchUpdated { updated_ids: Seq<i32>, revision: i64, timestamp: i64 },
    SyncNeeded { reason: SyncReason, revision: i64 },
}

impl View for AlarmEvent {
    type V = EventModel;

    open spec fn view(&self) -> EventModel {
        match self {
            AlarmEvent::Created(e) => EventModel::Created { alarm: e.alarm@, revision: e.revision },
            AlarmEvent::Updated(e) => EventModel::Updated {
                alarm: e.alarm@,
                previous: e.previous,
                revision: e.revision,
            },
            AlarmEvent::Deleted(e) => EventModel::Deleted {
                id: e.id,
                label: opt_str_view(e.label),
                revision: e.revision,
            },
            AlarmEvent::Scheduled(e) => EventModel::Scheduled {
                id: e.id,
                trigger_at: e.trigger_at,
                sound_uri: opt_str_view(e.sound_uri),
                label: opt_str_view(e.label),
                mode: e.mode,
                revision: e.revision,
            },
            AlarmEvent::Cancelled(e) => EventModel::Cancelled {
                id: e.id,
                reason: e.reason,
                revision: e.revision,
            },
            AlarmEvent::Fired(e) => EventModel::Fired {
                id: e.id,
                trigger_at: e.trigger_at,
                actual_fired_at: e.actual_fired_at,
                label: opt_str_view(e.label),
                revision: e.revision,
            },
            AlarmEvent::Dismissed(e) => EventModel::Dismissed {
                id: e.id,
                fired_at: e.fired_at,
                dismissed_at: e.dismissed_at,
                next_trigger: e.next_trigger,
                revision: e.revision,
            },
            AlarmEvent::Snoozed(e) => EventModel::Snoozed {
                id: e.id,
                original_trigger: e.original_trigger,
                snoozed_until: e.snoozed_until,
                revision: e.revision,
            },
            AlarmEvent::BatchUpdated(e) => EventModel::BatchUpdated {
                updated_ids: e.updated_ids@,
                revision: e.revision,
                timestamp: e.timestamp,
            },
            AlarmEvent::SyncNeeded(e) => EventModel::SyncNeeded {
                reason: e.reason,
                revision: e.revision,
            },
        }
    }
}

/// The views of a vector of events.
pub open spec fn event_views(s: Seq<AlarmEvent>) -> Seq<EventModel> {
    Seq::new(s.len(), |i: int| s[i]@)
}

} // verus!
