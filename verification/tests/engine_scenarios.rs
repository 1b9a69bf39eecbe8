use blobrepo_factory::config::RepositoryId;
use blobrepo_factory::engine::MultiplexedBlobstore;
use blobrepo_factory::errors::{BlobError, ErrorKind};
use blobrepo_factory::memblob::{GetOutcome, MemBlob};
use blobrepo_factory::multiplex::OutcomeReport;
use blobrepo_factory::sync_queue::{Operation, SyncQueue, SyncQueueEntry};
use blobrepo_factory::time::{Span, Timestamp};

fn at(secs: i64) -> Timestamp {
    Timestamp { secs, nanos: 0 }
}

fn engine_of(repo: i32, ids: &[u64]) -> MultiplexedBlobstore {
    let drivers = ids.iter().map(|id| (*id, MemBlob::new())).collect();
    MultiplexedBlobstore::new(RepositoryId::new(repo), drivers, SyncQueue::new(), None).unwrap()
}

fn found(bytes: &[u8]) -> Option<GetOutcome> {
    Some(GetOutcome::Found(bytes.to_vec()))
}

#[test]
fn write_with_one_member_offline_is_repaired_when_it_returns() {
    let mut engine = engine_of(1, &[1, 2, 3]);
    assert!(engine.set_member_online(2, false));

    assert_eq!(engine.put_at(b"k1", b"v1", at(10)), Ok(()));
    assert_eq!(engine.get_at(b"k1", at(11)), Ok(Some(b"v1".to_vec())));
    assert_eq!(
        engine.queue().rows(),
        vec![SyncQueueEntry {
            repo: RepositoryId::new(1),
            member: 2,
            key: b"k1".to_vec(),
            timestamp: at(10),
            operation: Operation::Write,
        }]
    );
    assert_eq!(engine.member_get(1, b"k1"), found(b"v1"));
    assert_eq!(engine.member_get(3, b"k1"), found(b"v1"));
    assert_eq!(engine.member_get(2, b"k1"), Some(GetOutcome::Failed));

    // While the member is away the row has to wait.
    let report = engine.repair();
    assert_eq!(report.repaired, 0);
    assert!(report.unrecoverable.is_empty());
    assert_eq!(engine.queue().len(), 1);

    assert!(engine.set_member_online(2, true));
    assert_eq!(engine.member_get(2, b"k1"), Some(GetOutcome::Absent));
    let report = engine.repair();
    assert_eq!(report.repaired, 1);
    assert!(report.unrecoverable.is_empty());
    assert_eq!(engine.queue().len(), 0);
    assert_eq!(engine.member_get(2, b"k1"), found(b"v1"));
}

#[test]
fn every_member_converges_after_repair() {
    let mut engine = engine_of(4, &[10, 20, 30, 40]);
    engine.set_member_online(20, false);
    engine.set_member_online(40, false);
    assert_eq!(engine.put_at(b"a", b"1", at(1)), Ok(()));
    engine.set_member_online(20, true);
    engine.set_member_online(30, false);
    assert_eq!(engine.put_at(b"b", b"2", at(2)), Ok(()));
    assert_eq!(engine.queue().len(), 4);

    for id in [10, 20, 30, 40] {
        engine.set_member_online(id, true);
    }
    let report = engine.repair();
    assert_eq!(report.repaired, 4);
    assert_eq!(engine.queue().len(), 0);
    for id in [10, 20, 30, 40] {
        assert_eq!(engine.member_get(id, b"a"), found(b"1"));
        assert_eq!(engine.member_get(id, b"b"), found(b"2"));
    }
}

#[test]
fn unwritten_key_is_absent_and_no_error() {
    let mut engine = engine_of(1, &[1, 2, 3]);
    assert_eq!(engine.put_at(b"other", b"x", at(1)), Ok(()));
    assert_eq!(engine.get_at(b"never", at(2)), Ok(None));
    assert_eq!(engine.queue().len(), 0);
}

#[test]
fn read_fails_when_every_member_fails() {
    let mut engine = engine_of(1, &[1, 2]);
    assert_eq!(engine.put_at(b"k", b"v", at(1)), Ok(()));
    engine.set_member_online(1, false);
    engine.set_member_online(2, false);
    assert_eq!(engine.get_at(b"k", at(2)), Err(BlobError::AllMembersFailed));
    assert_eq!(engine.get_at(b"never", at(2)), Err(BlobError::AllMembersFailed));
}

#[test]
fn read_of_an_engine_without_members_fails() {
    let mut engine = engine_of(1, &[]);
    assert_eq!(engine.get_at(b"k", at(2)), Err(BlobError::AllMembersFailed));
    assert_eq!(engine.put_at(b"k", b"v", at(2)), Err(BlobError::AllMembersFailed));
}

#[test]
fn absent_beats_failed_when_no_member_has_the_key() {
    let mut engine = engine_of(1, &[1, 2]);
    engine.set_member_online(1, false);
    assert_eq!(engine.get_at(b"k", at(2)), Ok(None));
}

#[test]
fn write_fails_when_no_member_takes_it_and_queues_nothing() {
    let mut engine = engine_of(1, &[1, 2]);
    engine.set_member_online(1, false);
    engine.set_member_online(2, false);
    assert_eq!(engine.put_at(b"k", b"v", at(1)), Err(BlobError::AllMembersFailed));
    assert_eq!(engine.queue().len(), 0);
    engine.set_member_online(1, true);
    assert_eq!(engine.member_get(1, b"k"), Some(GetOutcome::Absent));
}

#[test]
fn write_succeeds_though_the_queue_cannot_be_reached() {
    let mut engine = engine_of(1, &[1, 2]);
    engine.set_member_online(2, false);
    engine.set_queue_available(false);
    assert_eq!(engine.put_at(b"k", b"v", at(1)), Ok(()));
    assert_eq!(engine.queue().len(), 0);
    // The row was lost, so the member that missed the write is never repaired.
    engine.set_queue_available(true);
    engine.set_member_online(2, true);
    assert_eq!(engine.repair().repaired, 0);
    assert_eq!(engine.member_get(2, b"k"), Some(GetOutcome::Absent));
    assert_eq!(engine.member_get(1, b"k"), found(b"v"));
}

#[test]
fn disagreeing_read_queues_the_members_that_lack_the_key() {
    let mut engine = engine_of(6, &[1, 2, 3]);
    engine.set_member_online(1, false);
    engine.set_member_online(3, false);
    engine.set_queue_available(false);
    assert_eq!(engine.put_at(b"k", b"v", at(1)), Ok(()));
    engine.set_queue_available(true);
    engine.set_member_online(1, true);

    // Member 1 says absent, member 2 has the value, member 3 fails.
    assert_eq!(engine.get_at(b"k", at(5)), Ok(Some(b"v".to_vec())));
    assert_eq!(
        engine.queue().rows(),
        vec![SyncQueueEntry {
            repo: RepositoryId::new(6),
            member: 1,
            key: b"k".to_vec(),
            timestamp: at(5),
            operation: Operation::ReadRepair,
        }]
    );
    assert_eq!(engine.repair().repaired, 1);
    assert_eq!(engine.member_get(1, b"k"), found(b"v"));
}

#[test]
fn first_member_with_a_value_answers() {
    let mut engine = engine_of(1, &[1, 2]);
    engine.set_member_online(2, false);
    assert_eq!(engine.put_at(b"k", b"old", at(1)), Ok(()));
    engine.set_member_online(2, true);
    engine.set_member_online(1, false);
    assert_eq!(engine.put_at(b"k", b"new", at(2)), Ok(()));
    engine.set_member_online(1, true);
    assert_eq!(engine.get_at(b"k", at(3)), Ok(Some(b"old".to_vec())));
}

#[test]
fn row_for_a_key_that_no_member_has_is_reported_and_kept() {
    let mut queue = SyncQueue::new();
    let lost = SyncQueueEntry {
        repo: RepositoryId::new(1),
        member: 2,
        key: b"gone".to_vec(),
        timestamp: at(1),
        operation: Operation::Write,
    };
    assert_eq!(queue.add(lost.clone()), Ok(()));
    let drivers = vec![(1, MemBlob::new()), (2, MemBlob::new())];
    let mut engine = MultiplexedBlobstore::new(RepositoryId::new(1), drivers, queue, None).unwrap();
    let report = engine.repair();
    assert_eq!(report.repaired, 0);
    assert_eq!(report.unrecoverable, vec![lost.clone()]);
    assert_eq!(engine.queue().rows(), vec![lost.clone()]);

    // With a member away nobody can tell, so the row only waits.
    engine.set_member_online(1, false);
    let report = engine.repair();
    assert!(report.unrecoverable.is_empty());
    assert_eq!(engine.queue().rows(), vec![lost]);
}

#[test]
fn repair_leaves_rows_of_other_repositories_alone() {
    let mut queue = SyncQueue::new();
    let foreign = SyncQueueEntry {
        repo: RepositoryId::new(2),
        member: 2,
        key: b"k".to_vec(),
        timestamp: at(1),
        operation: Operation::Write,
    };
    queue.add(foreign.clone()).unwrap();
    let drivers = vec![(1, MemBlob::new()), (2, MemBlob::new())];
    let mut engine = MultiplexedBlobstore::new(RepositoryId::new(1), drivers, queue, None).unwrap();
    engine.set_member_online(2, false);
    assert_eq!(engine.put_at(b"k", b"v", at(3)), Ok(()));
    engine.set_member_online(2, true);
    assert_eq!(engine.queue().pending(RepositoryId::new(1)).len(), 1);
    assert_eq!(engine.queue().pending(RepositoryId::new(2)), vec![foreign.clone()]);

    let report = engine.repair();
    assert_eq!(report.repaired, 1);
    assert_eq!(engine.queue().rows(), vec![foreign]);
    assert!(engine.queue().pending(RepositoryId::new(1)).is_empty());
}

#[test]
fn repair_waits_while_the_queue_cannot_be_reached() {
    let mut engine = engine_of(1, &[1, 2]);
    engine.set_member_online(2, false);
    assert_eq!(engine.put_at(b"k", b"v", at(1)), Ok(()));
    engine.set_member_online(2, true);
    engine.set_queue_available(false);
    assert_eq!(engine.repair().repaired, 0);
    assert_eq!(engine.queue().len(), 1);
    assert_eq!(engine.member_get(2, b"k"), Some(GetOutcome::Absent));
    engine.set_queue_available(true);
    assert_eq!(engine.repair().repaired, 1);
    assert_eq!(engine.member_get(2, b"k"), found(b"v"));
}

#[test]
fn repair_is_idempotent() {
    let mut engine = engine_of(1, &[1, 2]);
    engine.set_member_online(2, false);
    engine.put_at(b"k", b"v", at(1)).unwrap();
    engine.put_at(b"k", b"v", at(2)).unwrap();
    engine.set_member_online(2, true);
    assert_eq!(engine.queue().len(), 2);
    assert_eq!(engine.repair().repaired, 2);
    assert_eq!(engine.member_get(2, b"k"), found(b"v"));
    assert_eq!(engine.repair().repaired, 0);
}

#[test]
fn engine_rejects_two_drivers_under_one_id() {
    let drivers = vec![(1, MemBlob::new()), (2, MemBlob::new()), (1, MemBlob::new())];
    let r = MultiplexedBlobstore::new(RepositoryId::new(1), drivers, SyncQueue::new(), None);
    assert_eq!(r.err(), Some(ErrorKind::DuplicateMember(1)));
}

#[test]
fn engine_knows_its_members_and_its_repository() {
    let mut engine = engine_of(12, &[5, 6]);
    assert_eq!(engine.repo(), RepositoryId::new(12));
    assert_eq!(engine.member_count(), 2);
    assert!(!engine.set_member_online(7, false));
    assert_eq!(engine.member_get(7, b"k"), None);
    assert!(engine.queue().is_available());
}

#[test]
fn put_and_get_stamp_rows_with_the_clock() {
    let mut engine = engine_of(1, &[1, 2]);
    engine.set_member_online(2, false);
    assert_eq!(engine.put(b"k", b"v"), Ok(()));
    assert_eq!(engine.get(b"k"), Ok(Some(b"v".to_vec())));
    let rows = engine.queue().rows();
    assert_eq!(rows.len(), 1);
    assert_eq!(rows[0].member, 2);
    assert_eq!(rows[0].operation, Operation::Write);
    // The clock of this machine stands after the year 2001.
    assert!(rows[0].timestamp.secs > 1_000_000_000);
    assert!(rows[0].timestamp.nanos < 1_000_000_000);
}

#[test]
fn every_member_outcome_of_a_write_is_reported_once() {
    let drivers = vec![(1, MemBlob::new()), (2, MemBlob::new())];
    let table = Some("blobstore_telemetry".to_string());
    let mut engine =
        MultiplexedBlobstore::new(RepositoryId::new(9), drivers, SyncQueue::new(), table.clone())
            .unwrap();
    assert_eq!(engine.telemetry_table(), &table);
    engine.set_member_online(2, false);
    assert_eq!(engine.put_at(b"k", b"v", at(1)), Ok(()));
    assert_eq!(engine.get_at(b"k", at(2)), Ok(Some(b"v".to_vec())));
    let report = |member, success| OutcomeReport {
        table: "blobstore_telemetry".to_string(),
        repo: RepositoryId::new(9),
        member,
        key: b"k".to_vec(),
        success,
        latency: Span { secs: 0, nanos: 0 },
    };
    assert_eq!(engine.take_reports(), vec![report(1, true), report(2, false)]);
    assert!(engine.take_reports().is_empty());

    // A write that fails as a whole is reported all the same.
    engine.set_member_online(1, false);
    assert_eq!(engine.put_at(b"k", b"w", at(3)), Err(BlobError::AllMembersFailed));
    assert_eq!(engine.take_reports(), vec![report(1, false), report(2, false)]);
}

#[test]
fn telemetry_changes_no_result() {
    let build = |table: Option<String>| {
        let drivers = vec![(1, MemBlob::new()), (2, MemBlob::new()), (3, MemBlob::new())];
        let mut engine =
            MultiplexedBlobstore::new(RepositoryId::new(9), drivers, SyncQueue::new(), table)
                .unwrap();
        engine.set_member_online(3, false);
        engine
    };
    let mut with = build(Some("table".to_string()));
    let mut without = build(None);
    for (key, value) in [(b"a", b"1"), (b"b", b"2"), (b"a", b"3")] {
        assert_eq!(with.put_at(key, value, at(1)), without.put_at(key, value, at(1)));
        // Nobody ever collects the reports of `with`.
        assert_eq!(with.get_at(key, at(2)), without.get_at(key, at(2)));
    }
    assert_eq!(with.get_at(b"never", at(3)), without.get_at(b"never", at(3)));
    assert_eq!(with.queue().rows(), without.queue().rows());
    with.set_member_online(3, true);
    without.set_member_online(3, true);
    assert_eq!(with.repair().repaired, without.repair().repaired);
    for id in [1, 2, 3] {
        assert_eq!(with.member_get(id, b"a"), without.member_get(id, b"a"));
    }
    assert!(without.take_reports().is_empty());
    assert_eq!(with.take_reports().len(), 9);
}
