//! The rules of the multiplexed engine, as functions from what the members
//! answered to what the caller is told and what the sync queue is given.
//! They hold for any drivers: whoever talks to the members hands their
//! answers in, in the order in which they arrived.

use vstd::prelude::*;
use crate::config::RepositoryId;
use crate::errors::{BlobError, BlobFault};
use crate::memblob::{GetOutcome, Read};
use crate::sync_queue::{lemma_rows_of_push, rows_of, Operation, QueueRow, SyncQueueEntry};
use crate::table::copy_bytes;
use crate::time::{Span, Timestamp};

verus! {

/// Whether one member acknowledged a write, and how long it took to answer.
#[derive(Clone, Copy, Debug, PartialEq, Eq, Structural)]
pub struct MemberAck {
    pub member: u64,
    pub acked: bool,
    /// Measured by whoever talked to the member. It goes into the
    /// telemetry record and decides nothing.
    pub latency: Span,
}

/// What one member answered to a read.
#[derive(Clone, Debug, PartialEq, Eq)]
pub struct MemberGet {
    pub member: u64,
    pub outcome: GetOutcome,
}

/// What a member's answer holds.
pub struct MemberRead {
    pub member: u64,
    pub read: Read,
}

impl View for MemberGet {
    type V = MemberRead;

    open spec fn view(&self) -> MemberRead {
        MemberRead { member: self.member, read: self.outcome@ }
    }
}

/// What a list of answers holds.
pub open spec fn reads_of(gets: Seq<MemberGet>) -> Seq<MemberRead> {
    Seq::new(gets.len(), |i: int| gets[i]@)
}

/// Whether at least one member acknowledged.
pub open spec fn any_acked(acks: Seq<MemberAck>) -> bool {
    exists|i: int| 0 <= i < acks.len() && (#[trigger] acks[i]).acked
}

/// The row that records `member` as possibly lacking `key`.
pub open spec fn repair_row(
    repo: RepositoryId,
    member: u64,
    key: Seq<u8>,
    now: Timestamp,
    operation: Operation,
) -> QueueRow {
    QueueRow { repo, member, key, timestamp: now, operation }
}

/// One row for each of the first `n` members that did not acknowledge.
pub open spec fn missed_rows(
    repo: RepositoryId,
    key: Seq<u8>,
    now: Timestamp,
    acks: Seq<MemberAck>,
    n: int,
) -> Seq<QueueRow>
    decreases n,
{
    if n <= 0 || n > acks.len() {
        Seq::empty()
    } else if acks[n - 1].acked {
        missed_rows(repo, key, now, acks, n - 1)
    } else {
        missed_rows(repo, key, now, acks, n - 1).push(
            repair_row(repo, acks[n - 1].member, key, now, Operation::Write),
        )
    }
}

/// The rows that a write leaves in the queue: none where it failed as a
/// whole, else one for each member that did not acknowledge.
pub open spec fn put_rows(
    repo: RepositoryId,
    key: Seq<u8>,
    now: Timestamp,
    acks: Seq<MemberAck>,
) -> Seq<QueueRow> {
    if any_acked(acks) {
        missed_rows(repo, key, now, acks, acks.len() as int)
    } else {
        Seq::empty()
    }
}

/// The value of the first answer, at or after `i`, that holds one.
pub open spec fn first_found(reads: Seq<MemberRead>, i: int) -> Option<Seq<u8>>
    decreases reads.len() - i,
{
    if i < 0 || i >= reads.len() {
        None
    } else {
        match reads[i].read {
            Read::Found(value) => Some(value),
            _ => first_found(reads, i + 1),
        }
    }
}

/// Whether some member reported the key absent.
pub open spec fn any_absent(reads: Seq<MemberRead>) -> bool {
    exists|i: int| 0 <= i < reads.len() && (#[trigger] reads[i]).read is Absent
}

/// Whether every member reported the key absent.
pub open spec fn all_absent(reads: Seq<MemberRead>) -> bool {
    forall|i: int| 0 <= i < reads.len() ==> (#[trigger] reads[i]).read is Absent
}

/// Whether every member failed.
pub open spec fn all_failed(reads: Seq<MemberRead>) -> bool {
    forall|i: int| 0 <= i < reads.len() ==> (#[trigger] reads[i]).read is Failed
}

/// One row for each of the first `n` members that reported the key absent.
pub open spec fn absent_rows(
    repo: RepositoryId,
    key: Seq<u8>,
    now: Timestamp,
    reads: Seq<MemberRead>,
    n: int,
) -> Seq<QueueRow>
    decreases n,
{
    if n <= 0 || n > reads.len() {
        Seq::empty()
    } else if reads[n - 1].read is Absent {
        absent_rows(repo, key, now, reads, n - 1).push(
            repair_row(repo, reads[n - 1].member, key, now, Operation::ReadRepair),
        )
    } else {
        absent_rows(repo, key, now, reads, n - 1)
    }
}

/// What a read tells the caller: the first value found; absent where no
/// member has a value and at least one says so; an error where no member
/// could tell.
pub open spec fn get_answer(reads: Seq<MemberRead>) -> Result<Option<Seq<u8>>, BlobFault> {
    match first_found(reads, 0) {
        Some(value) => Ok(Some(value)),
        None => if any_absent(reads) {
            Ok(None)
        } else {
            Err(BlobFault::AllMembersFailed)
        },
    }
}

/// The rows that a read leaves in the queue: where the members disagree,
/// one for each member that reported the key absent.
pub open spec fn get_rows(
    repo: RepositoryId,
    key: Seq<u8>,
    now: Timestamp,
    reads: Seq<MemberRead>,
) -> Seq<QueueRow> {
    if first_found(reads, 0) is Some {
        absent_rows(repo, key, now, reads, reads.len() as int)
    } else {
        Seq::empty()
    }
}

/// What a blob operation's result holds.
pub open spec fn answer_view(r: Result<Option<Vec<u8>>, BlobError>) -> Result<
    Option<Seq<u8>>,
    BlobFault,
> {
    match r {
        Ok(Some(value)) => Ok(Some(value@)),
        Ok(None) => Ok(None),
        Err(e) => Err(e@),
    }
}

/// What to do about one row of the queue.
#[derive(Clone, Debug, PartialEq, Eq)]
pub enum RepairPlan {
    /// Write this value to the member that the row names.
    Replay(Vec<u8>),
    /// No member has the value at present, but one that could not answer
    /// may: leave the row for a later pass.
    Deferred,
    /// Every member answered and none has the value: the row stays, and an
    /// operator has to be told.
    Unrecoverable,
}

/// What a repair plan holds.
pub enum RepairStep {
    Replay(Seq<u8>),
    Deferred,
    Unrecoverable,
}

impl View for RepairPlan {
    type V = RepairStep;

    open spec fn view(&self) -> RepairStep {
        match self {
            RepairPlan::Replay(value) => RepairStep::Replay(value@),
            RepairPlan::Deferred => RepairStep::Deferred,
            RepairPlan::Unrecoverable => RepairStep::Unrecoverable,
        }
    }
}

/// The plan for a row, given what the members answered to a read of its
/// key.
pub open spec fn repair_step(reads: Seq<MemberRead>) -> RepairStep {
    match first_found(reads, 0) {
        Some(value) => RepairStep::Replay(value),
        None => if all_absent(reads) {
            RepairStep::Unrecoverable
        } else {
            RepairStep::Deferred
        },
    }
}

/// What the telemetry collaborator is told of one member.
#[derive(Clone, Debug, PartialEq, Eq)]
pub struct OutcomeReport {
    pub table: String,
    pub repo: RepositoryId,
    pub member: u64,
    pub key: Vec<u8>,
    pub success: bool,
    pub latency: Span,
}

/// What a report holds.
pub struct ReportView {
    pub table: Seq<char>,
    pub repo: RepositoryId,
    pub member: u64,
    pub key: Seq<u8>,
    pub success: bool,
    pub latency: Span,
}

impl View for OutcomeReport {
    type V = ReportView;

    open spec fn view(&self) -> ReportView {
        ReportView {
            table: self.table@,
            repo: self.repo,
            member: self.member,
            key: self.key@,
            success: self.success,
            latency: self.latency,
        }
    }
}

/// What a list of reports holds.
pub open spec fn reports_of(reports: Seq<OutcomeReport>) -> Seq<ReportView> {
    Seq::new(reports.len(), |i: int| reports[i]@)
}

/// One report for every member's outcome, in order, where a telemetry
/// table is configured; none where it is not. Each names the member and
/// the key, and says whether the member took the write and how long it
/// took to answer.
pub open spec fn put_reports(
    table: Option<Seq<char>>,
    repo: RepositoryId,
    key: Seq<u8>,
    acks: Seq<MemberAck>,
) -> Seq<ReportView> {
    match table {
        Some(name) => Seq::new(
            acks.len(),
            |i: int|
                ReportView {
                    table: name,
                    repo,
                    member: acks[i].member,
                    key,
                    success: acks[i].acked,
                    latency: acks[i].latency,
                },
        ),
        None => Seq::empty(),
    }
}

/// What became of a row in a repair pass.
#[derive(Clone, Copy, Debug, PartialEq, Eq, Structural)]
pub enum RowFate {
    /// The value was written to the member, and the row is gone.
    Repaired,
    /// The row stays for a later pass.
    Kept,
    /// The row stays, and no member can produce its key.
    Unrecoverable,
}

/// What becomes of a row, given the plan for it, whether the member that
/// it names is known, and whether that member took the replayed write. A
/// replay that was not written, for want of the member or of its answer,
/// leaves the row for a later pass.
pub open spec fn settled_fate(step: RepairStep, target_known: bool, written: bool) -> RowFate {
    match step {
        RepairStep::Replay(_) => if target_known && written {
            RowFate::Repaired
        } else {
            RowFate::Kept
        },
        RepairStep::Deferred => RowFate::Kept,
        RepairStep::Unrecoverable => RowFate::Unrecoverable,
    }
}

/// What a write comes to.
#[derive(Debug)]
pub struct PutResolution {
    /// Whether the caller is told that the write succeeded.
    pub accepted: bool,
    /// The rows to hand to the sync queue. Whether the queue takes them
    /// does not change `accepted`.
    pub missed: Vec<SyncQueueEntry>,
}

/// What a read comes to.
#[derive(Debug)]
pub struct GetResolution {
    pub result: Result<Option<Vec<u8>>, BlobError>,
    /// The rows to hand to the sync queue.
    pub repairs: Vec<SyncQueueEntry>,
}

/// The row that records `member` as possibly lacking `key`.
fn make_row(repo: RepositoryId, member: u64, key: &[u8], now: Timestamp, operation: Operation) -> (r:
    SyncQueueEntry)
    ensures
        r@ == repair_row(repo, member, key@, now, operation),
{
    SyncQueueEntry { repo, member, key: copy_bytes(key), timestamp: now, operation }
}

/// Resolves a write from the members' acknowledgements. The write succeeds
/// once one member has acknowledged; every member that has not is recorded
/// for repair.
pub fn resolve_put(repo: RepositoryId, key: &[u8], now: Timestamp, acks: &Vec<MemberAck>) -> (r:
    PutResolution)
    ensures
        r.accepted == any_acked(acks@),
        rows_of(r.missed@) == put_rows(repo, key@, now, acks@),
{
    let mut accepted = false;
    let mut missed: Vec<SyncQueueEntry> = Vec::new();
    let mut i: usize = 0;
    assert(rows_of(missed@) =~= missed_rows(repo, key@, now, acks@, 0));
    while i < acks.len()
        invariant
            i <= acks.len(),
            accepted == exists|k: int| 0 <= k < i && (#[trigger] acks@[k]).acked,
            rows_of(missed@) == missed_rows(repo, key@, now, acks@, i as int),
        decreases acks.len() - i,
    {
        if acks[i].acked {
            accepted = true;
        } else {
            let row = make_row(repo, acks[i].member, key, now, Operation::Write);
            proof {
                lemma_rows_of_push(missed@, row);
            }
            missed.push(row);
        }
        i += 1;
    }
    if accepted {
        PutResolution { accepted, missed }
    } else {
        let none: Vec<SyncQueueEntry> = Vec::new();
        assert(rows_of(none@) =~= Seq::<QueueRow>::empty());
        PutResolution { accepted, missed: none }
    }
}

/// A copy of the first value that an answer holds.
fn find_value(reads: &Vec<MemberGet>) -> (r: Option<Vec<u8>>)
    ensures
        match r {
            Some(value) => first_found(reads_of(reads@), 0) == Some(value@),
            None => first_found(reads_of(reads@), 0) is None,
        },
{
    let mut i: usize = 0;
    while i < reads.len()
        invariant
            i <= reads.len(),
            first_found(reads_of(reads@), 0) == first_found(reads_of(reads@), i as int),
        decreases reads.len() - i,
    {
        match &reads[i].outcome {
            GetOutcome::Found(value) => {
                return Some(copy_bytes(value.as_slice()));
            },
            _ => {},
        }
        i += 1;
    }
    None
}

/// Whether some member reported the key absent.
fn some_absent(reads: &Vec<MemberGet>) -> (r: bool)
    ensures
        r == any_absent(reads_of(reads@)),
{
    let mut i: usize = 0;
    while i < reads.len()
        invariant
            i <= reads.len(),
            forall|k: int| 0 <= k < i ==> !((#[trigger] reads_of(reads@)[k]).read is Absent),
        decreases reads.len() - i,
    {
        match &reads[i].outcome {
            GetOutcome::Absent => {
                assert(reads_of(reads@)[i as int].read is Absent);
                return true;
            },
            _ => {},
        }
        i += 1;
    }
    false
}

/// Whether every member reported the key absent.
fn every_absent(reads: &Vec<MemberGet>) -> (r: bool)
    ensures
        r == all_absent(reads_of(reads@)),
{
    let mut i: usize = 0;
    while i < reads.len()
        invariant
            i <= reads.len(),
            forall|k: int| 0 <= k < i ==> (#[trigger] reads_of(reads@)[k]).read is Absent,
        decreases reads.len() - i,
    {
        match &reads[i].outcome {
            GetOutcome::Absent => {},
            _ => {
                assert(!(reads_of(reads@)[i as int].read is Absent));
                return false;
            },
        }
        i += 1;
    }
    true
}

/// Resolves a read from the members' answers. The first value found is
/// returned. Where members disagree, those that reported the key absent are
/// recorded for repair. Where none has a value, the key is absent if a
/// member says so, and the read fails if none could tell.
pub fn resolve_get(repo: RepositoryId, key: &[u8], now: Timestamp, reads: &Vec<MemberGet>) -> (r:
    GetResolution)
    ensures
        answer_view(r.result) == get_answer(reads_of(reads@)),
        rows_of(r.repairs@) == get_rows(repo, key@, now, reads_of(reads@)),
{
    let mut repairs: Vec<SyncQueueEntry> = Vec::new();
    match find_value(reads) {
        Some(value) => {
            let mut i: usize = 0;
            assert(rows_of(repairs@) =~= absent_rows(repo, key@, now, reads_of(reads@), 0));
            while i < reads.len()
                invariant
                    i <= reads.len(),
                    rows_of(repairs@) == absent_rows(repo, key@, now, reads_of(reads@), i as int),
                decreases reads.len() - i,
            {
                match &reads[i].outcome {
                    GetOutcome::Absent => {
                        let row = make_row(repo, reads[i].member, key, now, Operation::ReadRepair);
                        proof {
                            lemma_rows_of_push(repairs@, row);
                        }
                        repairs.push(row);
                    },
                    _ => {},
                }
                i += 1;
            }
            GetResolution { result: Ok(Some(value)), repairs }
        },
        None => {
            assert(rows_of(repairs@) =~= Seq::<QueueRow>::empty());
            if some_absent(reads) {
                GetResolution { result: Ok(None), repairs }
            } else {
                GetResolution { result: Err(BlobError::AllMembersFailed), repairs }
            }
        },
    }
}

/// Plans the repair of one row from the members' answers to a read of its
/// key.
pub fn plan_repair(reads: &Vec<MemberGet>) -> (r: RepairPlan)
    ensures
        r@ == repair_step(reads_of(reads@)),
{
    match find_value(reads) {
        Some(value) => RepairPlan::Replay(value),
        None => if every_absent(reads) {
            RepairPlan::Unrecoverable
        } else {
            RepairPlan::Deferred
        },
    }
}

/// Settles a row of the sync queue after its repair was tried: the row goes
/// if and only if the replayed value was written to the member that the
/// row names. A row whose key no member can produce stays and is marked for
/// the operator.
pub fn settle_row(plan: &RepairPlan, target_known: bool, written: bool) -> (fate: RowFate)
    ensures
        fate == settled_fate(plan@, target_known, written),
{
    match plan {
        RepairPlan::Replay(_) => if target_known && written {
            RowFate::Repaired
        } else {
            RowFate::Kept
        },
        RepairPlan::Deferred => RowFate::Kept,
        RepairPlan::Unrecoverable => RowFate::Unrecoverable,
    }
}

/// The reports that a write owes the telemetry collaborator. They are sent
/// after the write was resolved, and what becomes of them changes nothing.
pub fn report_put(
    table: &Option<String>,
    repo: RepositoryId,
    key: &[u8],
    acks: &Vec<MemberAck>,
) -> (r: Vec<OutcomeReport>)
    ensures
        reports_of(r@) == put_reports(
            match *table {
                Some(name) => Some(name@),
                None => None,
            },
            repo,
            key@,
            acks@,
        ),
{
    let mut reports: Vec<OutcomeReport> = Vec::new();
    match table {
        None => {
            assert(reports_of(reports@) =~= Seq::<ReportView>::empty());
        },
        Some(name) => {
            let mut i: usize = 0;
            while i < acks.len()
                invariant
                    i <= acks.len(),
                    reports@.len() == i,
                    forall|k: int|
                        0 <= k < i ==> (#[trigger] reports@[k])@ == (ReportView {
                            table: name@,
                            repo,
                            member: acks@[k].member,
                            key: key@,
                            success: acks@[k].acked,
                            latency: acks@[k].latency,
                        }),
                decreases acks.len() - i,
            {
                reports.push(
                    OutcomeReport {
                        table: name.clone(),
                        repo,
                        member: acks[i].member,
                        key: copy_bytes(key),
                        success: acks[i].acked,
                        latency: acks[i].latency,
                    },
                );
                i += 1;
            }
            assert(reports_of(reports@) =~= put_reports(Some(name@), repo, key@, acks@));
        },
    }
    reports
}

/// A read that every member fails is an error, never an absent result.
pub proof fn lemma_all_failed_is_error(reads: Seq<MemberRead>)
    requires
        all_failed(reads),
    ensures
        get_answer(reads) == Err::<Option<Seq<u8>>, BlobFault>(BlobFault::AllMembersFailed),
{
    lemma_none_found(reads, 0);
    if any_absent(reads) {
        let i = choose|i: int| 0 <= i < reads.len() && (#[trigger] reads[i]).read is Absent;
        assert(reads[i].read is Failed);
    }
}

/// A read that every member of a multiplex answers with "absent" is
/// absent, never an error.
pub proof fn lemma_all_absent_is_absent(reads: Seq<MemberRead>)
    requires
        reads.len() > 0,
        all_absent(reads),
    ensures
        get_answer(reads) == Ok::<Option<Seq<u8>>, BlobFault>(None),
{
    lemma_none_found(reads, 0);
    assert(reads[0].read is Absent);
}

/// Where no answer holds a value, none is found.
pub proof fn lemma_none_found(reads: Seq<MemberRead>, i: int)
    requires
        0 <= i,
        forall|k: int| i <= k < reads.len() ==> !((#[trigger] reads[k]).read is Found),
    ensures
        first_found(reads, i) is None,
    decreases reads.len() - i,
{
    if i < reads.len() {
        assert(!(reads[i].read is Found));
        lemma_none_found(reads, i + 1);
    }
}

/// A value that is found is the value of some answer.
pub proof fn lemma_found_somewhere(reads: Seq<MemberRead>, i: int)
    requires
        0 <= i,
        first_found(reads, i) is Some,
    ensures
        exists|k: int|
            i <= k < reads.len() && (#[trigger] reads[k]).read == Read::Found(
                first_found(reads, i)->0,
            ),
    decreases reads.len() - i,
{
    if i < reads.len() {
        match reads[i].read {
            Read::Found(value) => {
                assert(reads[i].read == Read::Found(first_found(reads, i)->0));
            },
            _ => {
                lemma_found_somewhere(reads, i + 1);
                let k = choose|k: int|
                    i + 1 <= k < reads.len() && (#[trigger] reads[k]).read == Read::Found(
                        first_found(reads, i + 1)->0,
                    );
                assert(reads[k].read == Read::Found(first_found(reads, i)->0));
            },
        }
    }
}

} // verus!
