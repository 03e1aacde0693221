use threshold::coordinator::{AlarmCoordinator, WatchOutcome};
use threshold::error::{AlarmError, ConflictError};
use threshold::events::{AlarmEvent, CancelReason, SyncReason};
use threshold::models::{AlarmInput, AlarmMode};
use threshold::store::RevisionStore;

fn enabled_daily_alarm() -> AlarmInput {
    AlarmInput {
        enabled: true,
        mode: AlarmMode::Fixed,
        fixed_time: Some("07:00".to_string()),
        active_days: vec![0, 1, 2, 3, 4, 5, 6],
        ..Default::default()
    }
}

fn coordinator() -> AlarmCoordinator {
    AlarmCoordinator::new(RevisionStore::new())
}

#[test]
fn create_then_toggle_off_emits_contractual_order() {
    let mut coord = coordinator();

    // Save a new, enabled alarm with a resolvable trigger.
    let (alarm, events) = coord.save_alarm(enabled_daily_alarm(), 1_000).unwrap();
    assert!(alarm.next_trigger.is_some());
    assert_eq!(events.len(), 3);
    assert!(matches!(events[0], AlarmEvent::Created(_)));
    match &events[1] {
        AlarmEvent::Scheduled(s) => {
            assert_eq!(s.id, alarm.id);
            assert_eq!(Some(s.trigger_at), alarm.next_trigger);
        }
        other => panic!("expected a scheduled event, got {other:?}"),
    }
    match &events[2] {
        AlarmEvent::BatchUpdated(b) => {
            assert_eq!(b.updated_ids, vec![alarm.id]);
            assert_eq!(b.revision, alarm.revision);
            assert_eq!(b.timestamp, 1_000);
        }
        other => panic!("expected the batch hook, got {other:?}"),
    }

    // Toggle it off: updated, cancelled (disabled), batch hook; no trigger.
    let (toggled, events) = coord.toggle_alarm(alarm.id, false, 2_000).unwrap();
    assert_eq!(toggled.next_trigger, None);
    assert_eq!(events.len(), 3);
    assert!(matches!(events[0], AlarmEvent::Updated(_)));
    match &events[1] {
        AlarmEvent::Cancelled(c) => {
            assert_eq!(c.id, alarm.id);
            assert_eq!(c.reason, CancelReason::Disabled);
        }
        other => panic!("expected a cancelled event, got {other:?}"),
    }
    assert!(matches!(events[2], AlarmEvent::BatchUpdated(_)));
}

#[test]
fn companion_stale_edit_is_rejected_without_mutation() {
    let mut coord = coordinator();

    // Drive the alarm to revision ten: one create plus nine toggles.
    let (alarm, _) = coord.save_alarm(enabled_daily_alarm(), 0).unwrap();
    for i in 0..9 {
        coord.toggle_alarm(alarm.id, i % 2 == 0, 0).unwrap();
    }
    let local = coord.get_alarm(alarm.id).unwrap();
    assert_eq!(local.revision, 10);

    // The companion submits a toggle with watch_revision 8: rejected, no
    // mutation, and a force-sync event is produced.
    match coord.apply_watch_save(alarm.id, true, 8, 5_000) {
        WatchOutcome::Rejected(conflict, sync) => {
            assert_eq!(
                conflict,
                ConflictError::AlarmModified {
                    alarm_id: alarm.id,
                    alarm_revision: 10,
                    watch_revision: 8,
                }
            );
            assert_eq!(sync.reason, SyncReason::ForceSync);
            assert_eq!(sync.revision, 10);
        }
        other => panic!("expected a rejection, got {other:?}"),
    }
    let after = coord.get_alarm(alarm.id).unwrap();
    assert_eq!(after.revision, 10);
    assert_eq!(after.enabled, local.enabled);
    assert_eq!(coord.current_revision(), 10);
}

#[test]
fn companion_current_edit_is_applied() {
    let mut coord = coordinator();
    let (alarm, _) = coord.save_alarm(enabled_daily_alarm(), 0).unwrap();

    match coord.apply_watch_save(alarm.id, false, 1, 100) {
        WatchOutcome::Applied(events) => {
            assert_eq!(events.len(), 3);
        }
        other => panic!("expected the edit to apply, got {other:?}"),
    }
    let after = coord.get_alarm(alarm.id).unwrap();
    assert!(!after.enabled);
    assert_eq!(after.revision, 2);
}

#[test]
fn delete_emits_deletion_then_cancellation_then_batch() {
    let mut coord = coordinator();
    let (alarm, _) = coord.save_alarm(enabled_daily_alarm(), 0).unwrap();

    let events = coord.delete_alarm(alarm.id, 3_000).unwrap();
    assert_eq!(events.len(), 3);
    match &events[0] {
        AlarmEvent::Deleted(d) => assert_eq!(d.id, alarm.id),
        other => panic!("expected a deleted event, got {other:?}"),
    }
    match &events[1] {
        AlarmEvent::Cancelled(c) => assert_eq!(c.reason, CancelReason::Deleted),
        other => panic!("expected a cancelled event, got {other:?}"),
    }
    assert!(matches!(events[2], AlarmEvent::BatchUpdated(_)));

    assert_eq!(coord.get_alarm(alarm.id).unwrap_err(), AlarmError::NotFound(alarm.id));
    assert_eq!(coord.store().get_deleted_since_revision(0), vec![alarm.id]);
}

#[test]
fn snooze_sets_explicit_trigger_and_fresh_revision() {
    let mut coord = coordinator();
    let (alarm, _) = coord.save_alarm(enabled_daily_alarm(), 0).unwrap();
    let now: i64 = 50_000;

    let events = coord.snooze_alarm(alarm.id, 10, now).unwrap();
    let after = coord.get_alarm(alarm.id).unwrap();
    assert_eq!(after.next_trigger, Some(now + 10 * 60_000));
    assert_eq!(after.revision, 2);

    match &events[0] {
        AlarmEvent::Snoozed(s) => {
            assert_eq!(s.snoozed_until, now + 10 * 60_000);
            assert_eq!(s.revision, 2);
            assert_eq!(Some(s.original_trigger), alarm.next_trigger);
        }
        other => panic!("expected a snoozed event first, got {other:?}"),
    }
    // The trigger changed while staying scheduled: cancel then re-schedule.
    assert!(matches!(events[1], AlarmEvent::Cancelled(_)));
    assert!(matches!(events[2], AlarmEvent::Scheduled(_)));
    assert!(matches!(events[3], AlarmEvent::BatchUpdated(_)));
}

#[test]
fn dismiss_reschedules_and_reports_last() {
    let mut coord = coordinator();
    let (alarm, _) = coord.save_alarm(enabled_daily_alarm(), 0).unwrap();

    let events = coord.dismiss_alarm(alarm.id, 7_000).unwrap();
    let after = coord.get_alarm(alarm.id).unwrap();
    assert_eq!(after.revision, 2);

    match events.last().unwrap() {
        AlarmEvent::Dismissed(d) => {
            assert_eq!(d.id, alarm.id);
            assert_eq!(d.dismissed_at, 7_000);
            assert_eq!(d.next_trigger, after.next_trigger);
            assert_eq!(d.revision, 2);
        }
        other => panic!("expected the dismissed event last, got {other:?}"),
    }
}

#[test]
fn heal_on_launch_reemits_without_advancing_the_clock() {
    let mut coord = coordinator();
    let (a, _) = coord.save_alarm(enabled_daily_alarm(), 0).unwrap();
    let (b, _) = coord.save_alarm(AlarmInput { enabled: false, ..Default::default() }, 0).unwrap();

    let before = coord.current_revision();
    let events = coord.heal_on_launch();
    assert_eq!(coord.current_revision(), before);

    // Only the enabled alarm with a trigger is re-emitted, under its own
    // revision.
    assert_eq!(events.len(), 1);
    match &events[0] {
        AlarmEvent::Scheduled(s) => {
            assert_eq!(s.id, a.id);
            assert_eq!(s.revision, a.revision);
            assert_ne!(s.id, b.id);
        }
        other => panic!("expected a scheduled event, got {other:?}"),
    }
}

#[test]
fn report_fired_uses_current_revision() {
    let mut coord = coordinator();
    let (alarm, _) = coord.save_alarm(enabled_daily_alarm(), 0).unwrap();

    let event = coord.report_alarm_fired(alarm.id, 123_456).unwrap();
    match event {
        AlarmEvent::Fired(f) => {
            assert_eq!(f.id, alarm.id);
            assert_eq!(f.actual_fired_at, 123_456);
            assert_eq!(f.revision, 1);
            assert_eq!(Some(f.trigger_at), alarm.next_trigger);
        }
        other => panic!("expected a fired event, got {other:?}"),
    }
}

#[test]
fn validation_failure_consumes_no_revision() {
    let mut coord = coordinator();
    let bad = AlarmInput {
        enabled: true,
        mode: AlarmMode::Fixed,
        fixed_time: Some("noon".to_string()),
        ..Default::default()
    };
    assert!(coord.save_alarm(bad, 0).is_err());
    assert_eq!(coord.current_revision(), 0);
}
