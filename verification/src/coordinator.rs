//! The coordinator: the only writer path for alarm mutations.
//!
//! Each mutation runs against the revision store and yields its ordered
//! event stream; the order is a contract, not an implementation detail,
//! because downstream consumers rely on created/updated preceding
//! scheduled/cancelled preceding the batch hook. Any store rejection
//! aborts the mutation before a single event exists — no partial event
//! sequences. Emitting the events (and whether emission succeeds) is the
//! caller's outside work.
//!
//! Wall-clock instants (batch timestamps, snooze targets, tombstone
//! retention) enter as explicit epoch-millisecond arguments: the clock is
//! never read here, so every contract can name the instant it was given.

use vstd::prelude::*;

use crate::error::{AlarmError, ConflictError};
use crate::events::{
    event_views, AlarmCancelled, AlarmCreated, AlarmDeleted, AlarmDismissed, AlarmEvent,
    AlarmFired, AlarmScheduled, AlarmSnapshot, AlarmSnoozed, AlarmUpdated, AlarmsBatchUpdated,
    AlarmsSyncNeeded, CancelReason, EventModel, SyncReason,
};
use crate::models::{clone_opt_string, AlarmInput, AlarmModel, AlarmRecord, InputModel};
use crate::scheduler::{calculate_next_trigger, spec_validate};
use crate::store::{
    find_alarm, has_alarm, has_tombstone, spec_delete_with_revision, spec_save,
    spec_update_next_trigger, RevisionStore, StoreModel,
};

verus! {

/// The view of an optional borrowed record.
pub open spec fn opt_rec_view(prev: Option<&AlarmRecord>) -> Option<AlarmModel> {
    match prev {
        Some(p) => Some(p@),
        None => None,
    }
}

/// The scheduled event of an alarm whose trigger resolved, stamped with
/// `revision`.
pub open spec fn sched_event(a: AlarmModel, revision: i64) -> EventModel {
    EventModel::Scheduled {
        id: a.id,
        trigger_at: a.next_trigger.unwrap(),
        sound_uri: a.sound_uri,
        label: a.label,
        mode: a.mode,
        revision,
    }
}

/// Whether an alarm is registered with the native scheduler: enabled with a
/// resolved trigger.
pub open spec fn is_scheduled(a: AlarmModel) -> bool {
    a.enabled && a.next_trigger is Some
}

/// The scheduling-transition events between the previous and the new state
/// of one alarm, in their contractual order: cancel before re-schedule,
/// never the reverse.
pub open spec fn spec_scheduling_events(
    prev: Option<AlarmModel>,
    new: AlarmModel,
    revision: i64,
) -> Seq<EventModel> {
    let was = match prev {
        Some(p) => is_scheduled(p),
        None => false,
    };
    let should = is_scheduled(new);
    if !was && should {
        seq![sched_event(new, revision)]
    } else if was && !should {
        seq![
            EventModel::Cancelled {
                id: new.id,
                reason: if new.enabled {
                    CancelReason::Updated
                } else {
                    CancelReason::Disabled
                },
                revision,
            },
        ]
    } else if was && should && prev.unwrap().next_trigger != new.next_trigger {
        seq![
            EventModel::Cancelled { id: new.id, reason: CancelReason::Updated, revision },
            sched_event(new, revision),
        ]
    } else {
        Seq::<EventModel>::empty()
    }
}

/// The full event stream of a save: exactly one created or updated event,
/// then the scheduling transitions, then exactly one batch hook.
pub open spec fn spec_save_events(
    prev: Option<AlarmModel>,
    new: AlarmModel,
    is_new: bool,
    revision: i64,
    timestamp: i64,
) -> Seq<EventModel> {
    let head = if is_new {
        EventModel::Created { alarm: new, revision }
    } else {
        EventModel::Updated {
            alarm: new,
            previous: match prev {
                Some(p) => Some(AlarmSnapshot::spec_of(p)),
                None => None,
            },
            revision,
        }
    };
    seq![head] + spec_scheduling_events(prev, new, revision) + seq![
        EventModel::BatchUpdated { updated_ids: seq![new.id], revision, timestamp },
    ]
}

/// The event stream of a delete: deletion, cancellation, batch hook, in
/// that order.
pub open spec fn spec_delete_events(
    id: i32,
    label: Option<Seq<char>>,
    revision: i64,
    timestamp: i64,
) -> Seq<EventModel> {
    seq![
        EventModel::Deleted { id, label, revision },
        EventModel::Cancelled { id, reason: CancelReason::Deleted, revision },
        EventModel::BatchUpdated { updated_ids: seq![id], revision, timestamp },
    ]
}

/// The re-emitted scheduled events of a launch heal: one per enabled alarm
/// with a resolved trigger, each under the alarm's own unchanged revision,
/// in table order.
pub open spec fn spec_heal_events(alarms: Seq<AlarmModel>) -> Seq<EventModel>
    decreases alarms.len(),
{
    if alarms.len() == 0 {
        Seq::<EventModel>::empty()
    } else {
        let rest = spec_heal_events(alarms.drop_last());
        let a = alarms.last();
        if is_scheduled(a) {
            rest.push(sched_event(a, a.revision))
        } else {
            rest
        }
    }
}

/// [`spec_heal_events`] distributes over push.
proof fn lemma_heal_events_push(s: Seq<AlarmModel>, a: AlarmModel)
    ensures
        spec_heal_events(s.push(a)) == (if is_scheduled(a) {
            spec_heal_events(s).push(sched_event(a, a.revision))
        } else {
            spec_heal_events(s)
        }),
{
    assert(s.push(a).drop_last() =~= s);
    assert(s.push(a).last() == a);
}

/// The input that re-saves `a`'s configuration, with `enabled` overridden.
pub open spec fn input_of_record(a: AlarmModel, enabled: bool) -> InputModel {
    InputModel {
        id: Some(a.id),
        label: a.label,
        enabled,
        mode: a.mode,
        fixed_time: a.fixed_time,
        window_start: a.window_start,
        window_end: a.window_end,
        active_days: a.active_days,
        sound_uri: a.sound_uri,
        sound_title: a.sound_title,
    }
}

/// Central coordinator for all alarm operations: owns the revision store
/// and turns each mutation into a deterministic, ordered event sequence.
pub struct AlarmCoordinator {
    store: RevisionStore,
}

impl View for AlarmCoordinator {
    type V = StoreModel;

    closed spec fn view(&self) -> StoreModel {
        self.store@
    }
}

impl AlarmCoordinator {
    /// A coordinator over the given store.
    pub fn new(store: RevisionStore) -> (r: Self)
        ensures
            r@ == store@,
    {
        AlarmCoordinator { store }
    }

    /// The primary's current revision; the counter does not move.
    pub fn current_revision(&self) -> (r: i64)
        ensures
            r == self@.counter,
    {
        self.store.current_revision()
    }

    /// Whether the store has id headroom for another insert; callers check
    /// this before the save paths, whose precondition it establishes.
    pub fn can_insert(&self) -> (r: bool)
        ensures
            r == (self@.next_id < i32::MAX),
    {
        self.store.can_insert()
    }

    /// Every alarm, in id order.
    pub fn get_all_alarms(&self) -> (r: Vec<AlarmRecord>)
        ensures
            crate::store::alarm_views(r@) == self@.alarms,
    {
        self.store.get_all()
    }

    /// One alarm by id; `NotFound` exactly when no row carries it.
    pub fn get_alarm(&self, id: i32) -> (r: Result<AlarmRecord, AlarmError>)
        requires
            self@.wf(),
        ensures
            r is Ok <==> has_alarm(self@.alarms, id),
            r matches Ok(a) ==> find_alarm(self@.alarms, id) == Some(a@),
            r matches Err(e) ==> e == AlarmError::NotFound(id),
    {
        self.store.get_by_id(id)
    }

    /// Read access to the store for the sync planner's query surface.
    pub fn store(&self) -> (r: &RevisionStore)
        ensures
            r@ == self@,
    {
        &self.store
    }

    /// Push the scheduling-transition events of one alarm change onto
    /// `events`.
    fn push_scheduling_events(
        events: &mut Vec<AlarmEvent>,
        prev: Option<&AlarmRecord>,
        alarm: &AlarmRecord,
        revision: i64,
    )
        ensures
            event_views(final(events)@) == event_views(old(events)@) + spec_scheduling_events(
                opt_rec_view(prev),
                alarm@,
                revision,
            ),
    {
        let ghost e0 = events@;
        let was_scheduled = match prev {
            Some(p) => p.enabled && p.next_trigger.is_some(),
            None => false,
        };
        let should_schedule = alarm.enabled && alarm.next_trigger.is_some();
        if !was_scheduled && should_schedule {
            let trigger_at = match alarm.next_trigger {
                Some(t) => t,
                None => 0,
            };
            events.push(
                AlarmEvent::Scheduled(
                    AlarmScheduled {
                        id: alarm.id,
                        trigger_at,
                        sound_uri: clone_opt_string(&alarm.sound_uri),
                        label: clone_opt_string(&alarm.label),
                        mode: alarm.mode,
                        revision,
                    },
                ),
            );
        } else if was_scheduled && !should_schedule {
            let reason = if alarm.enabled {
                CancelReason::Updated
            } else {
                CancelReason::Disabled
            };
            events.push(
                AlarmEvent::Cancelled(AlarmCancelled { id: alarm.id, reason, revision }),
            );
        } else if was_scheduled && should_schedule {
            let trigger_changed = match prev {
                Some(p) => {
                    match (p.next_trigger, alarm.next_trigger) {
                        (Some(a), Some(b)) => a != b,
                        (None, None) => false,
                        _ => true,
                    }
                },
                None => false,
            };
            if trigger_changed {
                events.push(
                    AlarmEvent::Cancelled(
                        AlarmCancelled { id: alarm.id, reason: CancelReason::Updated, revision },
                    ),
                );
                let trigger_at = match alarm.next_trigger {
                    Some(t) => t,
                    None => 0,
                };
                events.push(
                    AlarmEvent::Scheduled(
                        AlarmScheduled {
                            id: alarm.id,
                            trigger_at,
                            sound_uri: clone_opt_string(&alarm.sound_uri),
                            label: clone_opt_string(&alarm.label),
                            mode: alarm.mode,
                            revision,
                        },
                    ),
                );
            }
        }
        proof {
            assert(event_views(events@) =~= event_views(e0) + spec_scheduling_events(
                opt_rec_view(prev),
                alarm@,
                revision,
            ));
        }
    }

    /// Create or update an alarm and derive its ordered events.
    ///
    /// The trigger policy is validated and resolved first — a malformed
    /// enabled policy is rejected before any revision is consumed. Then a
    /// fresh revision stamps the row, and the events follow in their
    /// contractual order. `now_ms` stamps the batch hook.
    pub fn save_alarm(&mut self, input: AlarmInput, now_ms: i64) -> (r: Result<
        (AlarmRecord, Vec<AlarmEvent>),
        AlarmError,
    >)
        requires
            old(self)@.wf(),
            old(self)@.counter < i64::MAX,
            old(self)@.next_id < i32::MAX,
        ensures
            final(self)@.wf(),
            r is Ok <==> ((!input.enabled || spec_validate(input@) is None) && (match input.id {
                Some(id) => has_alarm(old(self)@.alarms, id),
                None => true,
            })),
            (input.enabled && spec_validate(input@) is Some) ==> (r == Result::<
                (AlarmRecord, Vec<AlarmEvent>),
                AlarmError,
            >::Err(AlarmError::Validation(spec_validate(input@).unwrap())) && final(self)@ == old(
                self,
            )@),
            r matches Err(AlarmError::NotFound(id)) ==> input.id == Some(id) && final(self)@ == (
            StoreModel { counter: (old(self)@.counter + 1) as i64, ..old(self)@ }),
            (r is Err && (!input.enabled || spec_validate(input@) is None)) ==> (
            input.id matches Some(id) && r == Result::<(AlarmRecord, Vec<AlarmEvent>), AlarmError>::Err(
                AlarmError::NotFound(id),
            )),
            r matches Ok(out) ==> ({
                let revision = (old(self)@.counter + 1) as i64;
                let m1 = StoreModel { counter: revision, ..old(self)@ };
                let prev = match input.id {
                    Some(id) => find_alarm(old(self)@.alarms, id),
                    None => None,
                };
                &&& final(self)@ == spec_save(m1, input@, out.0@.next_trigger, revision).0
                &&& Some(out.0@) == spec_save(m1, input@, out.0@.next_trigger, revision).1
                &&& out.0@.revision == revision
                &&& !input.enabled ==> out.0@.next_trigger is None
                &&& out.0@.next_trigger is Some ==> input.enabled && !(spec_validate(input@)
                    is Some) && crate::scheduler::some_day_active(input.active_days@)
                &&& event_views(out.1@) == spec_save_events(
                    prev,
                    out.0@,
                    input.id is None,
                    revision,
                    now_ms,
                )
            }),
    {
        let ghost m0 = self@;
        let ghost inp = input@;
        let is_new = input.id.is_none();
        let previous: Option<AlarmRecord> = match input.id {
            Some(id) => {
                match self.store.get_by_id(id) {
                    Ok(a) => Some(a),
                    Err(_) => None,
                }
            },
            None => None,
        };
        let next_trigger: Option<i64> = if input.enabled {
            match calculate_next_trigger(&input) {
                Ok(t) => t,
                Err(e) => {
                    return Err(AlarmError::Validation(e));
                },
            }
        } else {
            None
        };
        let revision = self.store.next_revision();
        let alarm = match self.store.save(input, next_trigger, revision) {
            Ok(a) => a,
            Err(e) => {
                return Err(e);
            },
        };
        let ghost prev = (match inp.id {
            Some(id) => find_alarm(m0.alarms, id),
            None => None,
        });
        let mut events: Vec<AlarmEvent> = Vec::new();
        if is_new {
            events.push(
                AlarmEvent::Created(AlarmCreated { alarm: alarm.clone(), revision }),
            );
        } else {
            let snapshot = match &previous {
                Some(p) => Some(AlarmSnapshot::from_alarm(p)),
                None => None,
            };
            events.push(
                AlarmEvent::Updated(
                    AlarmUpdated { alarm: alarm.clone(), previous: snapshot, revision },
                ),
            );
        }
        let ghost head = events@[0]@;
        let prev_ref = previous.as_ref();
        proof {
            assert(opt_rec_view(prev_ref) == prev);
            assert(event_views(events@) =~= seq![head]);
        }
        Self::push_scheduling_events(&mut events, prev_ref, &alarm, revision);
        let ghost e2 = events@;
        events.push(
            AlarmEvent::BatchUpdated(AlarmsBatchUpdated::single(alarm.id, revision, now_ms)),
        );
        proof {
            let sched = spec_scheduling_events(prev, alarm@, revision);
            assert(event_views(e2) == seq![head] + sched);
            let batch = EventModel::BatchUpdated {
                updated_ids: seq![alarm@.id],
                revision,
                timestamp: now_ms,
            };
            assert(events@[events@.len() - 1]@ =~= batch);
            assert(event_views(events@) =~= seq![head] + sched + seq![batch]);
            assert(head =~= (if is_new {
                EventModel::Created { alarm: alarm@, revision }
            } else {
                EventModel::Updated {
                    alarm: alarm@,
                    previous: match prev {
                        Some(p) => Some(AlarmSnapshot::spec_of(p)),
                        None => None,
                    },
                    revision,
                }
            }));
            assert(event_views(events@) =~= spec_save_events(
                prev,
                alarm@,
                is_new,
                revision,
                now_ms,
            ));
        }
        Ok((alarm, events))
    }

    /// Toggle an alarm on or off via the full save path, so the trigger is
    /// recomputed and the usual event order holds.
    pub fn toggle_alarm(&mut self, id: i32, enabled: bool, now_ms: i64) -> (r: Result<
        (AlarmRecord, Vec<AlarmEvent>),
        AlarmError,
    >)
        requires
            old(self)@.wf(),
            old(self)@.counter < i64::MAX,
            old(self)@.next_id < i32::MAX,
        ensures
            final(self)@.wf(),
            !has_alarm(old(self)@.alarms, id) ==> r == Result::<
                (AlarmRecord, Vec<AlarmEvent>),
                AlarmError,
            >::Err(AlarmError::NotFound(id)) && final(self)@ == old(self)@,
            r is Ok <==> has_alarm(old(self)@.alarms, id) && (!enabled || spec_validate(
                input_of_record(find_alarm(old(self)@.alarms, id).unwrap(), enabled),
            ) is None),
            r matches Err(AlarmError::Validation(v)) ==> (final(self)@ == old(self)@ && enabled
                && spec_validate(input_of_record(find_alarm(old(self)@.alarms, id).unwrap(), enabled))
                == Some(v)),
            r matches Ok(out) ==> ({
                let revision = (old(self)@.counter + 1) as i64;
                let m1 = StoreModel { counter: revision, ..old(self)@ };
                let prev = find_alarm(old(self)@.alarms, id);
                let input = input_of_record(prev.unwrap(), enabled);
                &&& out.0@.id == id
                &&& out.0@.enabled == enabled
                &&& out.0@.revision == revision
                &&& !enabled ==> out.0@.next_trigger is None
                &&& final(self)@ == spec_save(m1, input, out.0@.next_trigger, revision).0
                &&& Some(out.0@) == spec_save(m1, input, out.0@.next_trigger, revision).1
                &&& event_views(out.1@) == spec_save_events(prev, out.0@, false, revision, now_ms)
            }),
    {
        let alarm = match self.store.get_by_id(id) {
            Ok(a) => a,
            Err(e) => {
                return Err(e);
            },
        };
        let mut input = alarm.to_input();
        input.enabled = enabled;
        proof {
            assert(input@ =~= input_of_record(find_alarm(old(self)@.alarms, id).unwrap(), enabled));
        }
        self.save_alarm(input, now_ms)
    }

    /// Delete an alarm: a fresh revision, the atomic row-to-tombstone swap,
    /// then deletion, cancellation and batch events in that order.
    ///
    /// Fails with `Storage` — after consuming the revision, mutating
    /// nothing else — when a tombstone for `id` already exists; deleting an
    /// id with no row still records the tombstone, as the store does.
    pub fn delete_alarm(&mut self, id: i32, now_ms: i64) -> (r: Result<Vec<AlarmEvent>, AlarmError>)
        requires
            old(self)@.wf(),
            old(self)@.counter < i64::MAX,
        ensures
            final(self)@.wf(),
            r is Ok <==> !has_tombstone(old(self)@.tombstones, id),
            r matches Err(e) ==> e == AlarmError::Storage(id) && final(self)@ == (StoreModel {
                counter: (old(self)@.counter + 1) as i64,
                ..old(self)@
            }),
            r matches Ok(events) ==> ({
                let revision = (old(self)@.counter + 1) as i64;
                let m1 = StoreModel { counter: revision, ..old(self)@ };
                let label = match find_alarm(old(self)@.alarms, id) {
                    Some(a) => a.label,
                    None => None,
                };
                &&& final(self)@ == spec_delete_with_revision(m1, id, revision, now_ms).0
                &&& event_views(events@) == spec_delete_events(id, label, revision, now_ms)
            }),
    {
        let ghost m0 = self@;
        let revision = self.store.next_revision();
        let label: Option<String> = match self.store.get_by_id(id) {
            Ok(a) => a.label,
            Err(_) => None,
        };
        match self.store.delete_with_revision(id, revision, now_ms) {
            Ok(()) => {},
            Err(e) => {
                return Err(e);
            },
        }
        let mut events: Vec<AlarmEvent> = Vec::new();
        events.push(
            AlarmEvent::Deleted(
                AlarmDeleted { id, label: clone_opt_string(&label), revision },
            ),
        );
        events.push(
            AlarmEvent::Cancelled(
                AlarmCancelled { id, reason: CancelReason::Deleted, revision },
            ),
        );
        events.push(
            AlarmEvent::BatchUpdated(AlarmsBatchUpdated::single(id, revision, now_ms)),
        );
        proof {
            let lbl = match find_alarm(m0.alarms, id) {
                Some(a) => a.label,
                None => None,
            };
            assert(event_views(events@) =~= spec_delete_events(id, lbl, revision, now_ms));
        }
        Ok(events)
    }

    /// Dismiss a ringing alarm: recompute the next occurrence through the
    /// full save path (fresh revision, usual event order), then append the
    /// lifecycle dismissed event carrying the new trigger.
    pub fn dismiss_alarm(&mut self, id: i32, now_ms: i64) -> (r: Result<Vec<AlarmEvent>, AlarmError>)
        requires
            old(self)@.wf(),
            old(self)@.counter < i64::MAX,
            old(self)@.next_id < i32::MAX,
        ensures
            final(self)@.wf(),
            !has_alarm(old(self)@.alarms, id) ==> r == Result::<Vec<AlarmEvent>, AlarmError>::Err(
                AlarmError::NotFound(id),
            ) && final(self)@ == old(self)@,
            r matches Err(AlarmError::Validation(_)) ==> final(self)@ == old(self)@,
            r is Ok <==> ({
                let prev = find_alarm(old(self)@.alarms, id);
                has_alarm(old(self)@.alarms, id) && (!prev.unwrap().enabled || spec_validate(
                    input_of_record(prev.unwrap(), prev.unwrap().enabled),
                ) is None)
            }),
            r matches Ok(events) ==> ({
                let revision = (old(self)@.counter + 1) as i64;
                let prev = find_alarm(old(self)@.alarms, id);
                &&& has_alarm(old(self)@.alarms, id)
                &&& final(self)@.counter == revision
                &&& events@.len() > 0
                &&& event_views(events@).last() matches EventModel::Dismissed {
                    id: did,
                    fired_at,
                    dismissed_at,
                    next_trigger,
                    revision: drev,
                } && did == id && fired_at == now_ms && dismissed_at == now_ms && drev == revision
                    && next_trigger == find_alarm(final(self)@.alarms, id).unwrap().next_trigger
                &&& event_views(events@).drop_last() == spec_save_events(
                    prev,
                    find_alarm(final(self)@.alarms, id).unwrap(),
                    false,
                    revision,
                    now_ms,
                )
            }),
    {
        let ghost m0 = self@;
        let alarm = match self.store.get_by_id(id) {
            Ok(a) => a,
            Err(e) => {
                return Err(e);
            },
        };
        let input = alarm.to_input();
        let ghost inp = input@;
        proof {
            assert(inp =~= input_of_record(find_alarm(m0.alarms, id).unwrap(), alarm.enabled));
        }
        let (new_alarm, mut events) = match self.save_alarm(input, now_ms) {
            Ok(out) => out,
            Err(e) => {
                return Err(e);
            },
        };
        proof {
            let revision = (m0.counter + 1) as i64;
            let m1 = StoreModel { counter: revision, ..m0 };
            assert(m1.wf());
            crate::store::revision_consistency_save(m1, inp, new_alarm@.next_trigger, revision);
            assert(find_alarm(final(self)@.alarms, id) == Some(new_alarm@));
        }
        let ghost e_save = events@;
        let event = AlarmDismissed {
            id,
            fired_at: now_ms,
            dismissed_at: now_ms,
            next_trigger: new_alarm.next_trigger,
            revision: new_alarm.revision,
        };
        events.push(AlarmEvent::Dismissed(event));
        proof {
            assert(event_views(events@).drop_last() =~= event_views(e_save));
        }
        Ok(events)
    }

    /// Snooze a ringing alarm: set its trigger to `now_ms` plus the snooze
    /// minutes without re-running the trigger policy, under a fresh
    /// revision, with the snoozed lifecycle event first and then the usual
    /// scheduling and batch events.
    pub fn snooze_alarm(&mut self, id: i32, minutes: i64, now_ms: i64) -> (r: Result<
        Vec<AlarmEvent>,
        AlarmError,
    >)
        requires
            old(self)@.wf(),
            old(self)@.counter < i64::MAX,
            0 <= minutes <= 527040,
            0 <= now_ms <= 4000000000000000,
        ensures
            final(self)@.wf(),
            r is Ok <==> has_alarm(old(self)@.alarms, id),
            r matches Err(e) ==> e == AlarmError::NotFound(id) && final(self)@ == old(self)@,
            r matches Ok(events) ==> ({
                let revision = (old(self)@.counter + 1) as i64;
                let m1 = StoreModel { counter: revision, ..old(self)@ };
                let prev = find_alarm(old(self)@.alarms, id).unwrap();
                let until = (now_ms + minutes * 60000) as i64;
                let updated = spec_update_next_trigger(m1, id, Some(until), revision).1.unwrap();
                &&& final(self)@ == spec_update_next_trigger(m1, id, Some(until), revision).0
                &&& event_views(events@) == seq![
                    EventModel::Snoozed {
                        id,
                        original_trigger: match prev.next_trigger {
                            Some(t) => t,
                            None => now_ms,
                        },
                        snoozed_until: until,
                        revision,
                    },
                ] + spec_scheduling_events(Some(prev), updated, revision) + seq![
                    EventModel::BatchUpdated { updated_ids: seq![id], revision, timestamp: now_ms },
                ]
            }),
    {
        let ghost m0 = self@;
        let alarm = match self.store.get_by_id(id) {
            Ok(a) => a,
            Err(e) => {
                return Err(e);
            },
        };
        let original_trigger = match alarm.next_trigger {
            Some(t) => t,
            None => now_ms,
        };
        let snoozed_until = now_ms + minutes * 60000;
        let revision = self.store.next_revision();
        let updated = match self.store.update_next_trigger(id, Some(snoozed_until), revision) {
            Ok(a) => a,
            Err(e) => {
                return Err(e);
            },
        };
        let mut events: Vec<AlarmEvent> = Vec::new();
        events.push(
            AlarmEvent::Snoozed(
                AlarmSnoozed { id, original_trigger, snoozed_until, revision },
            ),
        );
        let ghost snooze_model = events@[0]@;
        let prev_opt = Some(&alarm);
        proof {
            assert(event_views(events@) =~= seq![snooze_model]);
        }
        Self::push_scheduling_events(&mut events, prev_opt, &updated, revision);
        let ghost e2 = events@;
        events.push(
            AlarmEvent::BatchUpdated(AlarmsBatchUpdated::single(id, revision, now_ms)),
        );
        proof {
            let prev = find_alarm(m0.alarms, id).unwrap();
            let m1 = StoreModel { counter: revision as i64, ..m0 };
            let until = snoozed_until as i64;
            let upd = spec_update_next_trigger(m1, id, Some(until), revision).1.unwrap();
            assert(opt_rec_view(prev_opt) == Some(prev));
            assert(updated@ == upd);
            let sched = spec_scheduling_events(Some(prev), upd, revision);
            assert(event_views(e2) == seq![snooze_model] + sched);
            let batch = EventModel::BatchUpdated {
                updated_ids: seq![id],
                revision,
                timestamp: now_ms,
            };
            assert(events@[events@.len() - 1]@ =~= batch);
            assert(snooze_model =~= (EventModel::Snoozed {
                id,
                original_trigger: match prev.next_trigger {
                    Some(t) => t,
                    None => now_ms,
                },
                snoozed_until: until,
                revision,
            }));
            assert(event_views(events@) =~= seq![snooze_model] + sched + seq![batch]);
        }
        Ok(events)
    }

    /// Report a native alarm firing: a lifecycle event only, under the
    /// current revision — no mutation, no new revision.
    pub fn report_alarm_fired(&self, id: i32, actual_fired_at: i64) -> (r: Result<
        AlarmEvent,
        AlarmError,
    >)
        requires
            self@.wf(),
        ensures
            r is Ok <==> has_alarm(self@.alarms, id),
            r matches Err(e) ==> e == AlarmError::NotFound(id),
            r matches Ok(ev) ==> ({
                let a = find_alarm(self@.alarms, id).unwrap();
                ev@ == (EventModel::Fired {
                    id,
                    trigger_at: match a.next_trigger {
                        Some(t) => t,
                        None => actual_fired_at,
                    },
                    actual_fired_at,
                    label: a.label,
                    revision: self@.counter,
                })
            }),
    {
        let alarm = match self.store.get_by_id(id) {
            Ok(a) => a,
            Err(e) => {
                return Err(e);
            },
        };
        let revision = self.store.current_revision();
        let trigger_at = match alarm.next_trigger {
            Some(t) => t,
            None => actual_fired_at,
        };
        Ok(
            AlarmEvent::Fired(
                AlarmFired { id, trigger_at, actual_fired_at, label: alarm.label, revision },
            ),
        )
    }

    /// The explicit sync-needed event, under the current revision; no
    /// mutation.
    pub fn emit_sync_needed(&self, reason: SyncReason) -> (r: AlarmsSyncNeeded)
        ensures
            r == (AlarmsSyncNeeded { reason, revision: self@.counter }),
    {
        AlarmsSyncNeeded { reason, revision: self.store.current_revision() }
    }

    /// Re-emit a scheduled event for every enabled alarm with a resolved
    /// trigger, each under the alarm's own revision.
    ///
    /// This is a cache re-sync for the native scheduler after a restart,
    /// not a mutation: the logical clock does not move, which the read-only
    /// receiver guarantees by type.
    pub fn heal_on_launch(&self) -> (r: Vec<AlarmEvent>)
        ensures
            event_views(r@) == spec_heal_events(self@.alarms),
    {
        let alarms = self.store.get_all();
        let mut events: Vec<AlarmEvent> = Vec::new();
        let mut i: usize = 0;
        proof {
            assert(self@.alarms.take(0) =~= Seq::<AlarmModel>::empty());
            assert(event_views(events@) =~= Seq::<EventModel>::empty());
        }
        while i < alarms.len()
            invariant
                i <= alarms.len(),
                crate::store::alarm_views(alarms@) == self@.alarms,
                alarms@.len() == self@.alarms.len(),
                event_views(events@) == spec_heal_events(self@.alarms.take(i as int)),
            decreases alarms.len() - i,
        {
            let ghost taken = self@.alarms.take(i as int);
            let ghost e0 = events@;
            let a = &alarms[i];
            if a.enabled && a.next_trigger.is_some() {
                let trigger_at = match a.next_trigger {
                    Some(t) => t,
                    None => 0,
                };
                events.push(
                    AlarmEvent::Scheduled(
                        AlarmScheduled {
                            id: a.id,
                            trigger_at,
                            sound_uri: clone_opt_string(&a.sound_uri),
                            label: clone_opt_string(&a.label),
                            mode: a.mode,
                            revision: a.revision,
                        },
                    ),
                );
            }
            i = i + 1;
            proof {
                let el = self@.alarms[i - 1];
                assert(self@.alarms.take(i as int) =~= taken.push(el));
                lemma_heal_events_push(taken, el);
                assert(alarms@[i - 1]@ == el);
                if is_scheduled(el) {
                    assert(event_views(events@) =~= event_views(e0).push(
                        sched_event(el, el.revision),
                    ));
                } else {
                    assert(event_views(events@) =~= event_views(e0));
                }
            }
        }
        proof {
            assert(self@.alarms.take(self@.alarms.len() as int) =~= self@.alarms);
        }
        events
    }

    /// Purge tombstones older than the thirty-day retention window, against
    /// the given wall-clock instant.
    pub fn run_maintenance(&mut self, now_ms: i64)
        requires
            old(self)@.wf(),
            now_ms >= i64::MIN + 36500 * 86400000,
        ensures
            final(self)@.wf(),
            final(self)@ == (StoreModel {
                tombstones: crate::store::tombstones_kept(
                    old(self)@.tombstones,
                    (now_ms - 30 * 86400000) as i64,
                ),
                ..old(self)@
            }),
    {
        self.store.cleanup_tombstones_older_than_days(30, now_ms);
    }
}

/// The outcome of a companion-originated edit.
#[derive(Debug)]
pub enum WatchOutcome {
    /// The edit passed the conflict gate and was applied; carries the
    /// mutation's ordered events.
    Applied(Vec<AlarmEvent>),
    /// The edit was rejected as a conflict before any mutation; carries the
    /// conflict detail and the force-sync event that tells the companion to
    /// re-converge.
    Rejected(ConflictError, AlarmsSyncNeeded),
    /// The edit was not rejected as a conflict, yet the mutation could not
    /// be applied; carries the error and the force-sync event.
    Failed(AlarmError, AlarmsSyncNeeded),
}

impl AlarmCoordinator {
    /// Apply a companion-originated toggle, gated by the conflict detector:
    /// an alarm mutated on the primary after the companion's last sync
    /// point rejects the edit — no mutation, and a force-sync answer so the
    /// companion re-converges.
    pub fn apply_watch_save(
        &mut self,
        alarm_id: i32,
        enabled: bool,
        watch_revision: i64,
        now_ms: i64,
    ) -> (r: WatchOutcome)
        requires
            old(self)@.wf(),
            old(self)@.counter < i64::MAX,
            old(self)@.next_id < i32::MAX,
        ensures
            final(self)@.wf(),
            (match find_alarm(old(self)@.alarms, alarm_id) {
                Some(a) => a.revision > watch_revision,
                None => false,
            }) ==> (r matches WatchOutcome::Rejected(c, sync) && c == (ConflictError::AlarmModified {
                alarm_id,
                alarm_revision: find_alarm(old(self)@.alarms, alarm_id).unwrap().revision,
                watch_revision,
            }) && sync == (AlarmsSyncNeeded {
                reason: SyncReason::ForceSync,
                revision: old(self)@.counter,
            }) && final(self)@ == old(self)@),
            !has_alarm(old(self)@.alarms, alarm_id) ==> (r matches WatchOutcome::Failed(e, sync)
                && e == AlarmError::NotFound(alarm_id) && sync == (AlarmsSyncNeeded {
                reason: SyncReason::ForceSync,
                revision: old(self)@.counter,
            }) && final(self)@ == old(self)@),
            (r matches WatchOutcome::Applied(_)) <==> (has_alarm(old(self)@.alarms, alarm_id)
                && find_alarm(old(self)@.alarms, alarm_id).unwrap().revision <= watch_revision && (
            !enabled || spec_validate(
                input_of_record(find_alarm(old(self)@.alarms, alarm_id).unwrap(), enabled),
            ) is None)),
            r matches WatchOutcome::Applied(events) ==> ({
                let revision = (old(self)@.counter + 1) as i64;
                let a = find_alarm(final(self)@.alarms, alarm_id);
                let prev = find_alarm(old(self)@.alarms, alarm_id);
                &&& a matches Some(n) && n.enabled == enabled && n.revision == revision
                &&& event_views(events@) == spec_save_events(
                    prev,
                    a.unwrap(),
                    false,
                    revision,
                    now_ms,
                )
            }),
    {
        match self.store.get_by_id(alarm_id) {
            Ok(alarm) => {
                match crate::conflict::validate_alarm_update(
                    alarm_id,
                    alarm.revision,
                    watch_revision,
                ) {
                    Ok(()) => {},
                    Err(e) => {
                        let sync = self.emit_sync_needed(SyncReason::ForceSync);
                        let conflict = match e {
                            crate::error::Error::Conflict(c) => c,
                            _ => ConflictError::AlarmModified {
                                alarm_id,
                                alarm_revision: alarm.revision,
                                watch_revision,
                            },
                        };
                        return WatchOutcome::Rejected(conflict, sync);
                    },
                }
            },
            Err(e) => {
                let sync = self.emit_sync_needed(SyncReason::ForceSync);
                return WatchOutcome::Failed(e, sync);
            },
        }
        let ghost m0 = self@;
        match self.toggle_alarm(alarm_id, enabled, now_ms) {
            Ok((alarm, events)) => {
                proof {
                    crate::store::revision_consistency_save(
                        StoreModel { counter: (m0.counter + 1) as i64, ..m0 },
                        input_of_record(find_alarm(m0.alarms, alarm_id).unwrap(), enabled),
                        alarm@.next_trigger,
                        (m0.counter + 1) as i64,
                    );
                }
                WatchOutcome::Applied(events)
            },
            Err(e) => {
                let sync = self.emit_sync_needed(SyncReason::ForceSync);
                WatchOutcome::Failed(e, sync)
            },
        }
    }

    /// Apply a companion-originated delete, gated exactly as
    /// [`AlarmCoordinator::apply_watch_save`] is.
    pub fn apply_watch_delete(&mut self, alarm_id: i32, watch_revision: i64, now_ms: i64) -> (r:
        WatchOutcome)
        requires
            old(self)@.wf(),
            old(self)@.counter < i64::MAX,
        ensures
            final(self)@.wf(),
            (match find_alarm(old(self)@.alarms, alarm_id) {
                Some(a) => a.revision > watch_revision,
                None => false,
            }) ==> (r matches WatchOutcome::Rejected(c, sync) && c == (ConflictError::AlarmModified {
                alarm_id,
                alarm_revision: find_alarm(old(self)@.alarms, alarm_id).unwrap().revision,
                watch_revision,
            }) && sync == (AlarmsSyncNeeded {
                reason: SyncReason::ForceSync,
                revision: old(self)@.counter,
            }) && final(self)@ == old(self)@),
            (r matches WatchOutcome::Applied(_)) <==> (!has_tombstone(
                old(self)@.tombstones,
                alarm_id,
            ) && (match find_alarm(old(self)@.alarms, alarm_id) {
                Some(a) => a.revision <= watch_revision,
                None => true,
            })),
            r matches WatchOutcome::Applied(events) ==> ({
                let revision = (old(self)@.counter + 1) as i64;
                let label = match find_alarm(old(self)@.alarms, alarm_id) {
                    Some(a) => a.label,
                    None => None,
                };
                &&& final(self)@.counter == revision
                &&& !has_alarm(final(self)@.alarms, alarm_id)
                &&& event_views(events@) == spec_delete_events(alarm_id, label, revision, now_ms)
            }),
    {
        let ghost m0 = self@;
        match self.store.get_by_id(alarm_id) {
            Ok(alarm) => {
                match crate::conflict::validate_alarm_update(
                    alarm_id,
                    alarm.revision,
                    watch_revision,
                ) {
                    Ok(()) => {},
                    Err(e) => {
                        let sync = self.emit_sync_needed(SyncReason::ForceSync);
                        let conflict = match e {
                            crate::error::Error::Conflict(c) => c,
                            _ => ConflictError::AlarmModified {
                                alarm_id,
                                alarm_revision: alarm.revision,
                                watch_revision,
                            },
                        };
                        return WatchOutcome::Rejected(conflict, sync);
                    },
                }
            },
            Err(_) => {},
        }
        match self.delete_alarm(alarm_id, now_ms) {
            Ok(events) => {
                proof {
                    let revision = (m0.counter + 1) as i64;
                    let m1 = StoreModel { counter: revision, ..m0 };
                    assert(m1.wf());
                    crate::store::revision_consistency_delete(m1, alarm_id, revision, now_ms);
                }
                WatchOutcome::Applied(events)
            },
            Err(e) => {
                let sync = self.emit_sync_needed(SyncReason::ForceSync);
                WatchOutcome::Failed(e, sync)
            },
        }
    }
}

} // verus!
