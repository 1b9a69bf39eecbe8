use blobrepo_factory::config::RepositoryId;
use blobrepo_factory::errors::BlobError;
use blobrepo_factory::memblob::{GetOutcome, MemBlob};
use blobrepo_factory::multiplex::{
    plan_repair, report_put, resolve_get, resolve_put, settle_row, MemberAck, MemberGet,
    OutcomeReport, RepairPlan, RowFate,
};
use blobrepo_factory::sync_queue::{Operation, QueueError, SyncQueue, SyncQueueEntry};
use blobrepo_factory::time::{Span, Timestamp};

fn now() -> Timestamp {
    Timestamp { secs: 42, nanos: 7 }
}

fn row(member: u64, operation: Operation) -> SyncQueueEntry {
    SyncQueueEntry {
        repo: RepositoryId::new(3),
        member,
        key: b"key".to_vec(),
        timestamp: now(),
        operation,
    }
}

fn ack(member: u64, acked: bool) -> MemberAck {
    MemberAck { member, acked, latency: Span { secs: 0, nanos: 1000 * member as u32 } }
}

fn answer(member: u64, outcome: GetOutcome) -> MemberGet {
    MemberGet { member, outcome }
}

#[test]
fn put_succeeds_with_one_ack_and_records_the_rest() {
    let acks = vec![ack(1, false), ack(2, true), ack(3, false)];
    let r = resolve_put(RepositoryId::new(3), b"key", now(), &acks);
    assert!(r.accepted);
    assert_eq!(r.missed, vec![row(1, Operation::Write), row(3, Operation::Write)]);
}

#[test]
fn put_with_every_ack_records_nothing() {
    let r = resolve_put(RepositoryId::new(3), b"key", now(), &vec![ack(1, true), ack(2, true)]);
    assert!(r.accepted);
    assert!(r.missed.is_empty());
}

#[test]
fn put_without_any_ack_fails_and_records_nothing() {
    let r = resolve_put(RepositoryId::new(3), b"key", now(), &vec![ack(1, false), ack(2, false)]);
    assert!(!r.accepted);
    assert!(r.missed.is_empty());
    let r = resolve_put(RepositoryId::new(3), b"key", now(), &vec![]);
    assert!(!r.accepted);
    assert!(r.missed.is_empty());
}

#[test]
fn get_returns_the_first_value_and_records_disagreement() {
    let reads = vec![
        answer(1, GetOutcome::Absent),
        answer(2, GetOutcome::Failed),
        answer(3, GetOutcome::Found(b"first".to_vec())),
        answer(4, GetOutcome::Found(b"second".to_vec())),
        answer(5, GetOutcome::Absent),
    ];
    let r = resolve_get(RepositoryId::new(3), b"key", now(), &reads);
    assert_eq!(r.result, Ok(Some(b"first".to_vec())));
    assert_eq!(r.repairs, vec![row(1, Operation::ReadRepair), row(5, Operation::ReadRepair)]);
}

#[test]
fn get_is_absent_when_all_say_so() {
    let reads = vec![answer(1, GetOutcome::Absent), answer(2, GetOutcome::Absent)];
    let r = resolve_get(RepositoryId::new(3), b"key", now(), &reads);
    assert_eq!(r.result, Ok(None));
    assert!(r.repairs.is_empty());
}

#[test]
fn get_is_absent_when_some_say_so_and_the_others_fail() {
    let reads = vec![answer(1, GetOutcome::Failed), answer(2, GetOutcome::Absent)];
    let r = resolve_get(RepositoryId::new(3), b"key", now(), &reads);
    assert_eq!(r.result, Ok(None));
    assert!(r.repairs.is_empty());
}

#[test]
fn get_is_an_error_when_all_fail() {
    let reads = vec![answer(1, GetOutcome::Failed), answer(2, GetOutcome::Failed)];
    let r = resolve_get(RepositoryId::new(3), b"key", now(), &reads);
    assert_eq!(r.result, Err(BlobError::AllMembersFailed));
    assert!(r.repairs.is_empty());
    let r = resolve_get(RepositoryId::new(3), b"key", now(), &vec![]);
    assert_eq!(r.result, Err(BlobError::AllMembersFailed));
}

#[test]
fn repair_replays_the_first_value() {
    let reads = vec![
        answer(1, GetOutcome::Failed),
        answer(2, GetOutcome::Found(b"v".to_vec())),
        answer(3, GetOutcome::Found(b"w".to_vec())),
    ];
    assert_eq!(plan_repair(&reads), RepairPlan::Replay(b"v".to_vec()));
}

#[test]
fn repair_waits_for_members_that_could_not_answer() {
    let reads = vec![answer(1, GetOutcome::Failed), answer(2, GetOutcome::Absent)];
    assert_eq!(plan_repair(&reads), RepairPlan::Deferred);
}

#[test]
fn repair_gives_up_when_every_member_lacks_the_key() {
    let reads = vec![answer(1, GetOutcome::Absent), answer(2, GetOutcome::Absent)];
    assert_eq!(plan_repair(&reads), RepairPlan::Unrecoverable);
}

#[test]
fn memory_driver_reads_what_was_written() {
    let mut driver = MemBlob::new();
    assert!(driver.is_online());
    assert_eq!(driver.get(b"k"), GetOutcome::Absent);
    assert!(driver.put(b"k".to_vec(), b"v1".to_vec()));
    assert!(driver.put(b"other".to_vec(), b"x".to_vec()));
    assert!(driver.put(b"k".to_vec(), b"v2".to_vec()));
    assert_eq!(driver.get(b"k"), GetOutcome::Found(b"v2".to_vec()));
    assert_eq!(driver.get(b"other"), GetOutcome::Found(b"x".to_vec()));
}

#[test]
fn offline_driver_fails_and_keeps_its_blobs() {
    let mut driver = MemBlob::new();
    assert!(driver.put(b"k".to_vec(), b"v".to_vec()));
    driver.set_online(false);
    assert!(!driver.is_online());
    assert_eq!(driver.get(b"k"), GetOutcome::Failed);
    assert!(!driver.put(b"k".to_vec(), b"changed".to_vec()));
    driver.set_online(true);
    assert_eq!(driver.get(b"k"), GetOutcome::Found(b"v".to_vec()));
}

#[test]
fn queue_keeps_repositories_apart() {
    let mut queue = SyncQueue::new();
    let mine = row(1, Operation::Write);
    let mut theirs = row(2, Operation::ReadRepair);
    theirs.repo = RepositoryId::new(4);
    assert_eq!(queue.add(mine.clone()), Ok(()));
    assert_eq!(queue.add(theirs.clone()), Ok(()));
    assert_eq!(queue.add_all(vec![mine.clone(), theirs.clone()]), Ok(()));
    assert_eq!(queue.len(), 4);
    assert_eq!(queue.pending(RepositoryId::new(3)), vec![mine.clone(), mine.clone()]);
    assert_eq!(queue.pending(RepositoryId::new(4)), vec![theirs.clone(), theirs.clone()]);
    assert!(queue.pending(RepositoryId::new(5)).is_empty());
    assert_eq!(queue.rows(), vec![mine.clone(), theirs.clone(), mine.clone(), theirs]);
    queue.replace(vec![mine.clone()]);
    assert_eq!(queue.rows(), vec![mine]);
}

#[test]
fn unreachable_queue_takes_nothing() {
    let mut queue = SyncQueue::new();
    queue.set_available(false);
    assert!(!queue.is_available());
    assert_eq!(queue.add(row(1, Operation::Write)), Err(QueueError::Unavailable));
    assert_eq!(queue.add_all(vec![row(1, Operation::Write)]), Err(QueueError::Unavailable));
    assert_eq!(queue.len(), 0);
    queue.set_available(true);
    assert_eq!(queue.add(row(1, Operation::Write)), Ok(()));
    assert_eq!(queue.rows()[0].duplicate(), row(1, Operation::Write));
}

#[test]
fn every_member_outcome_is_reported_when_telemetry_is_configured() {
    let acks = vec![ack(1, true), ack(2, false)];
    let repo = RepositoryId::new(3);
    let report = |member: u64, success| OutcomeReport {
        table: "table".to_string(),
        repo,
        member,
        key: b"key".to_vec(),
        success,
        latency: Span { secs: 0, nanos: 1000 * member as u32 },
    };
    assert_eq!(
        report_put(&Some("table".to_string()), repo, b"key", &acks),
        vec![report(1, true), report(2, false)]
    );
    assert!(report_put(&None, repo, b"key", &acks).is_empty());
    assert!(report_put(&Some("table".to_string()), repo, b"key", &vec![]).is_empty());
}

#[test]
fn latency_decides_nothing() {
    let slow = MemberAck { member: 1, acked: true, latency: Span { secs: 3600, nanos: 0 } };
    let fast = MemberAck { member: 1, acked: true, latency: Span { secs: 0, nanos: 0 } };
    let failed = ack(2, false);
    let a = resolve_put(RepositoryId::new(3), b"key", now(), &vec![slow, failed]);
    let b = resolve_put(RepositoryId::new(3), b"key", now(), &vec![fast, failed]);
    assert_eq!(a.accepted, b.accepted);
    assert_eq!(a.missed, b.missed);
    assert_eq!(a.missed, vec![row(2, Operation::Write)]);
}

#[test]
fn row_goes_only_when_the_replay_was_written() {
    let replay = RepairPlan::Replay(b"v".to_vec());
    assert_eq!(settle_row(&replay, true, true), RowFate::Repaired);
    assert_eq!(settle_row(&replay, true, false), RowFate::Kept);
    assert_eq!(settle_row(&replay, false, false), RowFate::Kept);
    assert_eq!(settle_row(&replay, false, true), RowFate::Kept);
    for known in [false, true] {
        for written in [false, true] {
            assert_eq!(settle_row(&RepairPlan::Deferred, known, written), RowFate::Kept);
            assert_eq!(
                settle_row(&RepairPlan::Unrecoverable, known, written),
                RowFate::Unrecoverable
            );
        }
    }
}
