use threshold::error::AlarmError;
use threshold::models::{AlarmInput, AlarmMode};
use threshold::store::RevisionStore;

fn input(label: &str) -> AlarmInput {
    AlarmInput { label: Some(label.to_string()), enabled: false, ..Default::default() }
}

#[test]
fn test_save_new_alarm() {
    let mut store = RevisionStore::new();
    let rev = store.next_revision();

    let created = store
        .save(
            AlarmInput {
                id: None,
                label: Some("Morning Alarm".to_string()),
                enabled: true,
                mode: AlarmMode::Fixed,
                fixed_time: Some("07:00".to_string()),
                window_start: None,
                window_end: None,
                active_days: vec![1, 2, 3, 4, 5],
                sound_uri: None,
                sound_title: None,
            },
            Some(1234567890),
            rev,
        )
        .unwrap();

    assert_eq!(created.id, 1);
    assert_eq!(created.label, Some("Morning Alarm".to_string()));
    assert_eq!(created.enabled, true);
    assert_eq!(created.mode, AlarmMode::Fixed);
    assert_eq!(created.fixed_time, Some("07:00".to_string()));
    assert_eq!(created.active_days, vec![1, 2, 3, 4, 5]);
    assert_eq!(created.next_trigger, Some(1234567890));
    assert_eq!(created.revision, 1);
}

#[test]
fn test_save_update_existing() {
    let mut store = RevisionStore::new();
    let r1 = store.next_revision();
    let created = store.save(input("Original"), None, r1).unwrap();

    let r2 = store.next_revision();
    let updated = store
        .save(
            AlarmInput {
                id: Some(created.id),
                label: Some("Updated".to_string()),
                enabled: false,
                mode: AlarmMode::Window,
                fixed_time: None,
                window_start: Some("08:00".to_string()),
                window_end: Some("09:00".to_string()),
                active_days: vec![0, 6],
                sound_uri: Some("custom.mp3".to_string()),
                sound_title: Some("Custom Sound".to_string()),
            },
            Some(9876543210),
            r2,
        )
        .unwrap();

    assert_eq!(updated.id, created.id);
    assert_eq!(updated.label, Some("Updated".to_string()));
    assert_eq!(updated.enabled, false);
    assert_eq!(updated.mode, AlarmMode::Window);
    assert_eq!(updated.window_start, Some("08:00".to_string()));
    assert_eq!(updated.window_end, Some("09:00".to_string()));
    assert_eq!(updated.active_days, vec![0, 6]);
    assert_eq!(updated.sound_uri, Some("custom.mp3".to_string()));
    assert_eq!(updated.next_trigger, Some(9876543210));
    assert_eq!(updated.revision, 2);
}

#[test]
fn test_get_all_empty() {
    let store = RevisionStore::new();
    assert_eq!(store.get_all().len(), 0);
}

#[test]
fn test_get_all_multiple() {
    let mut store = RevisionStore::new();
    for i in 1..=3 {
        let rev = store.next_revision();
        store.save(input(&format!("Alarm {}", i)), None, rev).unwrap();
    }

    let alarms = store.get_all();
    assert_eq!(alarms.len(), 3);
    assert_eq!(alarms[0].label, Some("Alarm 1".to_string()));
    assert_eq!(alarms[1].label, Some("Alarm 2".to_string()));
    assert_eq!(alarms[2].label, Some("Alarm 3".to_string()));
}

#[test]
fn test_get_by_id_success() {
    let mut store = RevisionStore::new();
    let rev = store.next_revision();
    let created = store.save(input("Test Alarm"), None, rev).unwrap();

    let fetched = store.get_by_id(created.id).unwrap();
    assert_eq!(fetched.id, created.id);
    assert_eq!(fetched.label, Some("Test Alarm".to_string()));
}

#[test]
fn test_get_by_id_not_found() {
    let store = RevisionStore::new();
    assert_eq!(store.get_by_id(999).unwrap_err(), AlarmError::NotFound(999));
}

#[test]
fn test_delete_alarm() {
    let mut store = RevisionStore::new();
    let rev = store.next_revision();
    let created = store.save(input("To Delete"), None, rev).unwrap();

    store.delete(created.id);

    assert!(store.get_by_id(created.id).is_err());
}

#[test]
fn test_revision_increments() {
    let mut store = RevisionStore::new();
    let rev1 = store.next_revision();
    let rev2 = store.next_revision();
    assert_eq!(rev2, rev1 + 1);
}

#[test]
fn test_alarm_stamped_with_revision() {
    let mut store = RevisionStore::new();
    let rev = store.next_revision();
    let alarm = store.save(AlarmInput::default(), Some(123456), rev).unwrap();
    assert_eq!(alarm.revision, rev);
}

#[test]
fn test_incremental_sync() {
    let mut store = RevisionStore::new();

    let rev1 = store.next_revision();
    store.save(input("A"), None, rev1).unwrap();

    let rev2 = store.next_revision();
    store.save(input("B"), None, rev2).unwrap();

    let changed = store.get_alarms_since_revision(1);
    assert_eq!(changed.len(), 1);
    assert_eq!(changed[0].revision, 2);
}

#[test]
fn test_delete_with_tombstone() {
    let mut store = RevisionStore::new();

    let rev1 = store.next_revision();
    let alarm = store.save(input("To Delete"), None, rev1).unwrap();

    let rev2 = store.next_revision();
    store.delete_with_revision(alarm.id, rev2, 1_000_000).unwrap();

    let deleted_ids = store.get_deleted_since_revision(rev1);
    assert_eq!(deleted_ids.len(), 1);
    assert_eq!(deleted_ids[0], alarm.id);

    assert!(store.get_by_id(alarm.id).is_err());
}

#[test]
fn second_tombstone_for_one_id_is_refused() {
    let mut store = RevisionStore::new();
    let r1 = store.next_revision();
    store.delete_with_revision(9, r1, 500).unwrap();
    let r2 = store.next_revision();
    assert_eq!(store.delete_with_revision(9, r2, 600).unwrap_err(), AlarmError::Storage(9));
    // The refused delete changed nothing: the one tombstone still stands.
    assert_eq!(store.get_deleted_since_revision(0), vec![9]);
}

#[test]
fn save_unknown_id_is_not_found() {
    let mut store = RevisionStore::new();
    let rev = store.next_revision();
    let result = store.save(AlarmInput { id: Some(41), ..Default::default() }, None, rev);
    assert_eq!(result.unwrap_err(), AlarmError::NotFound(41));
    assert!(store.get_all().is_empty());
}

#[test]
fn tombstone_cleanup_is_time_based() {
    let mut store = RevisionStore::new();
    let day_ms: i64 = 86_400_000;
    let now = 100 * day_ms;

    let r1 = store.next_revision();
    store.delete_with_revision(1, r1, now - 40 * day_ms).unwrap();
    let r2 = store.next_revision();
    store.delete_with_revision(2, r2, now - 10 * day_ms).unwrap();

    store.cleanup_tombstones_older_than_days(30, now);

    // The forty-day-old tombstone is purged, the ten-day-old one kept;
    // the alarms and counter are untouched.
    assert_eq!(store.get_deleted_since_revision(0), vec![2]);
    assert_eq!(store.current_revision(), 2);
}

#[test]
fn ids_are_never_reused() {
    let mut store = RevisionStore::new();
    let r1 = store.next_revision();
    let a = store.save(input("first"), None, r1).unwrap();
    assert_eq!(a.id, 1);

    let r2 = store.next_revision();
    store.delete_with_revision(a.id, r2, 0).unwrap();

    let r3 = store.next_revision();
    let b = store.save(input("second"), None, r3).unwrap();
    assert_eq!(b.id, 2);
}

#[test]
fn update_next_trigger_touches_only_the_trigger() {
    let mut store = RevisionStore::new();
    let r1 = store.next_revision();
    let a = store.save(input("snoozable"), None, r1).unwrap();

    let r2 = store.next_revision();
    let updated = store.update_next_trigger(a.id, Some(777), r2).unwrap();
    assert_eq!(updated.next_trigger, Some(777));
    assert_eq!(updated.revision, r2);
    assert_eq!(updated.label, Some("snoozable".to_string()));
}

#[test]
fn fresh_store_has_insert_headroom() {
    let store = RevisionStore::new();
    assert!(store.can_insert());
}
