use threshold::conflict::{validate_alarm_update, validate_watch_revision};
use threshold::error::{ConflictError, Error};

#[test]
fn accepts_matching_revision() {
    assert!(validate_watch_revision(42, 42).is_ok());
}

#[test]
fn accepts_watch_ahead_of_phone() {
    // Unusual but not a conflict — the phone may have reset. The sync
    // protocol handles this via a full sync; the conflict detector only
    // guards edits.
    assert!(validate_watch_revision(50, 42).is_ok());
}

#[test]
fn rejects_stale_watch() {
    let err = validate_watch_revision(40, 42).unwrap_err();
    match err {
        Error::Conflict(ConflictError::StaleUpdate { watch_revision, current_revision }) => {
            assert_eq!(watch_revision, 40);
            assert_eq!(current_revision, 42);
        }
        other => panic!("Expected StaleUpdate, got: {other:?}"),
    }
}

#[test]
fn rejects_stale_watch_by_one() {
    assert!(validate_watch_revision(41, 42).is_err());
}

#[test]
fn accepts_alarm_at_watch_revision() {
    assert!(validate_alarm_update(1, 42, 42).is_ok());
}

#[test]
fn accepts_alarm_older_than_watch() {
    assert!(validate_alarm_update(1, 30, 42).is_ok());
}

#[test]
fn rejects_alarm_modified_after_watch_sync() {
    let err = validate_alarm_update(7, 45, 42).unwrap_err();
    match err {
        Error::Conflict(ConflictError::AlarmModified {
            alarm_id,
            alarm_revision,
            watch_revision,
        }) => {
            assert_eq!(alarm_id, 7);
            assert_eq!(alarm_revision, 45);
            assert_eq!(watch_revision, 42);
        }
        other => panic!("Expected AlarmModified, got: {other:?}"),
    }
}

#[test]
fn rejects_alarm_modified_by_one_revision() {
    assert!(validate_alarm_update(1, 43, 42).is_err());
}
