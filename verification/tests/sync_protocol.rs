use threshold::models::AlarmInput;
use threshold::store::RevisionStore;
use threshold::sync_protocol::{build_sync_response, determine_sync_type, SyncResponse, SyncType};

#[test]
fn up_to_date_when_revisions_match() {
    assert_eq!(determine_sync_type(42, 42), SyncType::UpToDate);
}

#[test]
fn up_to_date_at_zero() {
    assert_eq!(determine_sync_type(0, 0), SyncType::UpToDate);
}

#[test]
fn incremental_for_small_gap() {
    assert_eq!(determine_sync_type(40, 42), SyncType::Incremental);
}

#[test]
fn incremental_at_gap_of_one() {
    assert_eq!(determine_sync_type(41, 42), SyncType::Incremental);
}

#[test]
fn incremental_at_exact_threshold() {
    assert_eq!(determine_sync_type(0, 100), SyncType::Incremental);
}

#[test]
fn full_sync_beyond_threshold() {
    assert_eq!(determine_sync_type(0, 101), SyncType::FullSync);
}

#[test]
fn full_sync_large_gap() {
    assert_eq!(determine_sync_type(5, 500), SyncType::FullSync);
}

#[test]
fn full_sync_when_watch_ahead_of_phone() {
    // Anomaly: the watch has a higher revision than the phone (e.g. a
    // phone data reset).
    assert_eq!(determine_sync_type(50, 10), SyncType::FullSync);
}

fn store_with_two_alarms() -> RevisionStore {
    let mut store = RevisionStore::new();
    let r1 = store.next_revision();
    store
        .save(AlarmInput { label: Some("A".to_string()), enabled: false, ..Default::default() }, None, r1)
        .unwrap();
    let r2 = store.next_revision();
    store
        .save(AlarmInput { label: Some("B".to_string()), enabled: false, ..Default::default() }, None, r2)
        .unwrap();
    store
}

#[test]
fn sync_response_incremental_carries_exact_diff() {
    let store = store_with_two_alarms();
    match build_sync_response(&store, 1) {
        SyncResponse::Incremental { current_revision, updated_alarms, deleted_alarm_ids } => {
            assert_eq!(current_revision, 2);
            assert_eq!(updated_alarms.len(), 1);
            assert_eq!(updated_alarms[0].label, Some("B".to_string()));
            assert_eq!(updated_alarms[0].revision, 2);
            assert!(deleted_alarm_ids.is_empty());
        }
        other => panic!("Expected Incremental, got: {other:?}"),
    }
}

#[test]
fn sync_response_up_to_date_at_current() {
    let store = store_with_two_alarms();
    match build_sync_response(&store, 2) {
        SyncResponse::UpToDate { current_revision } => assert_eq!(current_revision, 2),
        other => panic!("Expected UpToDate, got: {other:?}"),
    }
}

#[test]
fn sync_response_full_when_watch_ahead() {
    let store = store_with_two_alarms();
    match build_sync_response(&store, 7) {
        SyncResponse::FullSync { current_revision, all_alarms } => {
            assert_eq!(current_revision, 2);
            assert_eq!(all_alarms.len(), 2);
        }
        other => panic!("Expected FullSync, got: {other:?}"),
    }
}
