use threshold::batch::BatchCollector;
use threshold::events::{AlarmsSyncNeeded, SyncReason};
use threshold::wear::{handle_sync_needed, PublishCommand};

#[test]
fn debounce_coalesces_batches() {
    let mut collector = BatchCollector::new(500);

    assert!(collector.add(&vec![1], 10));
    assert!(collector.add(&vec![2], 11));

    let (mut ids, revision) = collector.on_timer_fired().expect("one batch expected");
    ids.sort_unstable();
    assert_eq!(ids, vec![1, 2]);
    assert_eq!(revision, 11);

    // Exactly one publish: the drained collector yields nothing more.
    assert!(collector.on_timer_fired().is_none());
}

#[test]
fn batch_revision_keeps_the_newest() {
    let mut collector = BatchCollector::new(500);
    collector.add(&vec![1], 12);
    collector.add(&vec![2], 11);

    let (_, revision) = collector.on_timer_fired().unwrap();
    assert_eq!(revision, 12);
}

#[test]
fn empty_add_changes_nothing() {
    let mut collector = BatchCollector::new(500);
    assert!(!collector.add(&vec![], 5));
    assert!(collector.on_timer_fired().is_none());
}

#[test]
fn duplicate_ids_are_merged() {
    let mut collector = BatchCollector::new(500);
    collector.add(&vec![3, 3, 4], 1);
    collector.add(&vec![4], 2);

    let (mut ids, _) = collector.on_timer_fired().unwrap();
    ids.sort_unstable();
    assert_eq!(ids, vec![3, 4]);
}

#[test]
fn flush_clears_pending_set() {
    let mut collector = BatchCollector::new(500);
    collector.add(&vec![3, 4], 22);

    let flushed = collector.flush();
    assert!(flushed.is_some());

    let (mut ids, revision) = flushed.unwrap();
    ids.sort_unstable();
    assert_eq!(ids, vec![3, 4]);
    assert_eq!(revision, 22);

    // The cancelled timer can no longer fire, and nothing is drained twice.
    assert!(collector.on_timer_fired().is_none());
    assert!(collector.flush().is_none());
}

#[test]
fn sync_needed_cancels_batch_before_immediate() {
    let mut collector = BatchCollector::new(500);
    collector.add(&vec![9, 10], 40);

    let event = AlarmsSyncNeeded { reason: SyncReason::ForceSync, revision: 41 };
    let command = handle_sync_needed(&mut collector, &event, Vec::new());

    match command {
        PublishCommand::Immediate { reason, revision, snapshot } => {
            assert_eq!(reason, SyncReason::ForceSync);
            assert_eq!(revision, 41);
            assert!(snapshot.is_empty());
        }
        other => panic!("expected an immediate publish, got {other:?}"),
    }

    // The pending batch was suppressed, not queued: the timer yields
    // nothing.
    assert!(collector.on_timer_fired().is_none());
}

#[test]
fn sync_needed_skips_flush_when_nothing_pending() {
    let mut collector = BatchCollector::new(500);

    let event = AlarmsSyncNeeded { reason: SyncReason::Initialize, revision: 1 };
    let command = handle_sync_needed(&mut collector, &event, Vec::new());

    match command {
        PublishCommand::Immediate { reason, revision, .. } => {
            assert_eq!(reason, SyncReason::Initialize);
            assert_eq!(revision, 1);
        }
        other => panic!("expected an immediate publish, got {other:?}"),
    }
}

#[test]
fn sync_needed_handles_reconnect_reason() {
    let mut collector = BatchCollector::new(500);
    collector.add(&vec![1, 2, 3], 10);

    let event = AlarmsSyncNeeded { reason: SyncReason::Reconnect, revision: 11 };
    let command = handle_sync_needed(&mut collector, &event, Vec::new());

    match command {
        PublishCommand::Immediate { reason, .. } => assert_eq!(reason, SyncReason::Reconnect),
        other => panic!("expected an immediate publish, got {other:?}"),
    }
    assert!(collector.on_timer_fired().is_none());
}
