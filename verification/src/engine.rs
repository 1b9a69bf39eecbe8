//! The multiplexed engine: several storage drivers behind one blobstore.
//! A write goes to every member and succeeds once one of them has taken it;
//! members that missed it are recorded in the sync queue, and a repair pass
//! brings them up to date later.
//!
//! The members here are memory drivers, each with a switch that takes it
//! offline. Every decision is made by the rules of `multiplex`.

use vstd::prelude::*;
use crate::config::RepositoryId;
use crate::errors::{BlobError, BlobFault, ErrorKind};
use crate::memblob::{read_of, write_to, GetOutcome, MemBlob, MemBlobView};
use crate::multiplex::{
    answer_view, any_acked, get_answer, get_rows, plan_repair, put_reports, put_rows, reads_of,
    repair_step, report_put, reports_of, resolve_get, resolve_put, settle_row, settled_fate,
    MemberAck, MemberGet, MemberRead, OutcomeReport, RepairPlan, RepairStep, ReportView, RowFate,
};
use crate::sync_queue::{
    lemma_rows_of_push, rows_of, QueueRow, SyncQueue, SyncQueueEntry, SyncQueueView,
};
use crate::table::copy_bytes;
use crate::time::{utc_now, Span, Timestamp};

verus! {

/// One member of a multiplex: a driver under an id.
#[derive(Debug)]
pub struct Member {
    id: u64,
    store: MemBlob,
}

/// What a member holds.
pub struct MemberView {
    pub id: u64,
    pub store: MemBlobView,
}

impl View for Member {
    type V = MemberView;

    closed spec fn view(&self) -> MemberView {
        MemberView { id: self.id, store: self.store@ }
    }
}

/// What a list of members holds.
pub open spec fn members_of(members: Seq<Member>) -> Seq<MemberView> {
    Seq::new(members.len(), |i: int| members[i]@)
}

/// What an engine holds.
pub struct EngineView {
    pub repo: RepositoryId,
    pub members: Seq<MemberView>,
    pub queue: SyncQueueView,
    /// The telemetry table, where telemetry is configured.
    pub telemetry: Option<Seq<char>>,
    /// The reports that wait for the telemetry collaborator, oldest first.
    pub reports: Seq<ReportView>,
}

/// What each member answers to a read of `key`.
pub open spec fn member_reads(members: Seq<MemberView>, key: Seq<u8>) -> Seq<MemberRead> {
    Seq::new(
        members.len(),
        |i: int| MemberRead { member: members[i].id, read: read_of(members[i].store, key) },
    )
}

/// Which members take a write. A driver in memory answers at once.
pub open spec fn member_acks(members: Seq<MemberView>) -> Seq<MemberAck> {
    Seq::new(
        members.len(),
        |i: int|
            MemberAck {
                member: members[i].id,
                acked: members[i].store.online,
                latency: Span { secs: 0, nanos: 0 },
            },
    )
}

/// The members after a write has gone to each of them.
pub open spec fn members_written(members: Seq<MemberView>, key: Seq<u8>, value: Seq<u8>) -> Seq<
    MemberView,
> {
    Seq::new(
        members.len(),
        |i: int| MemberView { store: write_to(members[i].store, key, value), ..members[i] },
    )
}

/// The queue after it was handed `rows`: a queue that cannot be reached
/// loses them.
pub open spec fn queue_with(queue: SyncQueueView, rows: Seq<QueueRow>) -> SyncQueueView {
    if queue.available {
        SyncQueueView { rows: queue.rows + rows, ..queue }
    } else {
        queue
    }
}

/// Whether a write succeeds in this state.
pub open spec fn put_accepted(s: EngineView) -> bool {
    any_acked(member_acks(s.members))
}

/// The engine after a write. Where telemetry is configured, the outcome
/// of every member is reported, whether or not the write succeeded.
pub open spec fn after_put(s: EngineView, key: Seq<u8>, value: Seq<u8>, now: Timestamp) -> EngineView {
    EngineView {
        members: members_written(s.members, key, value),
        queue: queue_with(s.queue, put_rows(s.repo, key, now, member_acks(s.members))),
        reports: s.reports + put_reports(s.telemetry, s.repo, key, member_acks(s.members)),
        ..s
    }
}

/// What a read answers in this state.
pub open spec fn get_of(s: EngineView, key: Seq<u8>) -> Result<Option<Seq<u8>>, BlobFault> {
    get_answer(member_reads(s.members, key))
}

/// The engine after a read.
pub open spec fn after_get(s: EngineView, key: Seq<u8>, now: Timestamp) -> EngineView {
    EngineView {
        queue: queue_with(s.queue, get_rows(s.repo, key, now, member_reads(s.members, key))),
        ..s
    }
}

/// The position of the first member, at or after `i`, with the given id.
pub open spec fn target_of(members: Seq<MemberView>, id: u64, i: int) -> Option<int>
    decreases members.len() - i,
{
    if i < 0 || i >= members.len() {
        None
    } else if members[i].id == id {
        Some(i)
    } else {
        target_of(members, id, i + 1)
    }
}

/// What becomes of `row` with the members in this state: a value that
/// some member has is written to the member that the row names, if there is
/// such a member and it is online.
pub open spec fn row_fate(members: Seq<MemberView>, row: QueueRow) -> RowFate {
    settled_fate(
        repair_step(member_reads(members, row.key)),
        target_of(members, row.member, 0) is Some,
        target_of(members, row.member, 0) is Some && members[target_of(
            members,
            row.member,
            0,
        )->0].store.online,
    )
}

/// The members after `row` was handled.
pub open spec fn members_repaired(members: Seq<MemberView>, row: QueueRow) -> Seq<MemberView> {
    match (repair_step(member_reads(members, row.key)), target_of(members, row.member, 0)) {
        (RepairStep::Replay(value), Some(t)) => members.update(
            t,
            MemberView { store: write_to(members[t].store, row.key, value), ..members[t] },
        ),
        _ => members,
    }
}

/// How far a repair pass has come.
pub struct RepairProgress {
    pub members: Seq<MemberView>,
    /// The rows that stay in the queue.
    pub kept: Seq<QueueRow>,
    pub repaired: nat,
    pub unrecoverable: Seq<QueueRow>,
}

/// The pass after one more row. Rows of other repositories are passed over.
pub open spec fn repair_one(repo: RepositoryId, p: RepairProgress, row: QueueRow) -> RepairProgress {
    if row.repo != repo {
        RepairProgress { kept: p.kept.push(row), ..p }
    } else {
        match row_fate(p.members, row) {
            RowFate::Repaired => RepairProgress {
                members: members_repaired(p.members, row),
                repaired: p.repaired + 1,
                ..p
            },
            RowFate::Kept => RepairProgress { kept: p.kept.push(row), ..p },
            RowFate::Unrecoverable => RepairProgress {
                kept: p.kept.push(row),
                unrecoverable: p.unrecoverable.push(row),
                ..p
            },
        }
    }
}

/// The pass after the first `n` rows.
pub open spec fn repair_prefix(
    repo: RepositoryId,
    members: Seq<MemberView>,
    rows: Seq<QueueRow>,
    n: int,
) -> RepairProgress
    decreases n,
{
    if n <= 0 || n > rows.len() {
        RepairProgress { members, kept: Seq::empty(), repaired: 0, unrecoverable: Seq::empty() }
    } else {
        repair_one(repo, repair_prefix(repo, members, rows, n - 1), rows[n - 1])
    }
}

/// A whole pass over the queue. A queue that cannot be reached is left
/// alone, and so are the members.
pub open spec fn repair_all(s: EngineView) -> RepairProgress {
    if s.queue.available {
        repair_prefix(s.repo, s.members, s.queue.rows, s.queue.rows.len() as int)
    } else {
        RepairProgress {
            members: s.members,
            kept: s.queue.rows,
            repaired: 0,
            unrecoverable: Seq::empty(),
        }
    }
}

/// The engine after a repair pass.
pub open spec fn after_repair(s: EngineView) -> EngineView {
    EngineView {
        members: repair_all(s).members,
        queue: SyncQueueView { rows: repair_all(s).kept, ..s.queue },
        ..s
    }
}

/// No two members share an id.
pub open spec fn distinct_ids(members: Seq<MemberView>) -> bool {
    forall|i: int, j: int|
        0 <= i < j < members.len() ==> (#[trigger] members[i]).id != (#[trigger] members[j]).id
}

/// The ids under which drivers are given.
pub open spec fn driver_ids(drivers: Seq<(u64, MemBlob)>) -> Seq<u64> {
    Seq::new(drivers.len(), |i: int| drivers[i].0)
}

/// Whether the id at position `i` occurs before it.
pub open spec fn is_repeated(ids: Seq<u64>, i: int) -> bool {
    exists|k: int| 0 <= k < i && ids[k] == ids[i]
}

/// The first id, at or after position `i`, that occurs before its place.
pub open spec fn first_repeated(ids: Seq<u64>, i: int) -> Option<u64>
    decreases ids.len() - i,
{
    if i < 0 || i >= ids.len() {
        None
    } else if is_repeated(ids, i) {
        Some(ids[i])
    } else {
        first_repeated(ids, i + 1)
    }
}

/// What a repair pass did.
#[derive(Debug)]
pub struct RepairReport {
    /// How many rows were repaired and removed.
    pub repaired: usize,
    /// The rows whose key no member can produce. They stay in the queue;
    /// an operator has to look at them.
    pub unrecoverable: Vec<SyncQueueEntry>,
}

/// Several memory drivers behind one blobstore, with their sync queue.
#[derive(Debug)]
pub struct MultiplexedBlobstore {
    repo: RepositoryId,
    members: Vec<Member>,
    queue: SyncQueue,
    telemetry_table: Option<String>,
    reports: Vec<OutcomeReport>,
}

impl View for MultiplexedBlobstore {
    type V = EngineView;

    closed spec fn view(&self) -> EngineView {
        EngineView {
            repo: self.repo,
            members: members_of(self.members@),
            queue: self.queue@,
            telemetry: match self.telemetry_table {
                Some(table) => Some(table@),
                None => None,
            },
            reports: reports_of(self.reports@),
        }
    }
}

/// The position found for an id is a position of a member with that id.
pub proof fn lemma_target_found(members: Seq<MemberView>, id: u64, i: int)
    requires
        0 <= i,
        target_of(members, id, i) is Some,
    ensures
        i <= target_of(members, id, i)->0 < members.len(),
        members[target_of(members, id, i)->0].id == id,
    decreases members.len() - i,
{
    if i < members.len() && members[i].id != id {
        lemma_target_found(members, id, i + 1);
    }
}

/// Where ids are distinct, the position found for an id is the member's own.
pub proof fn lemma_target_unique(members: Seq<MemberView>, id: u64, t: int)
    requires
        distinct_ids(members),
        0 <= t < members.len(),
        members[t].id == id,
    ensures
        target_of(members, id, 0) == Some(t),
{
    lemma_target_from(members, id, t, 0);
}

/// The same, searching from position `i` on.
proof fn lemma_target_from(members: Seq<MemberView>, id: u64, t: int, i: int)
    requires
        distinct_ids(members),
        0 <= i <= t < members.len(),
        members[t].id == id,
    ensures
        target_of(members, id, i) == Some(t),
    decreases t - i,
{
    if i < t {
        assert(members[i].id != members[t].id);
        lemma_target_from(members, id, t, i + 1);
    }
}

impl MultiplexedBlobstore {
    /// Holds of every engine that `new` made, after any of its methods.
    pub closed spec fn wf(&self) -> bool {
        &&& forall|i: int| 0 <= i < self.members@.len() ==> (#[trigger] self.members@[i]).store.wf()
        &&& distinct_ids(members_of(self.members@))
    }

    /// In an engine no two members share an id.
    pub proof fn lemma_wf(&self)
        requires
            self.wf(),
        ensures
            distinct_ids(self@.members),
    {
    }

    /// An engine over the given drivers, each under its id, in the order
    /// given, with telemetry where a table is named. Two drivers under one
    /// id are rejected: the error names the id of the first driver whose id
    /// was seen before.
    pub fn new(
        repo: RepositoryId,
        drivers: Vec<(u64, MemBlob)>,
        queue: SyncQueue,
        telemetry_table: Option<String>,
    ) -> (r: Result<Self, ErrorKind>)
        requires
            forall|i: int| 0 <= i < drivers@.len() ==> (#[trigger] drivers@[i]).1.wf(),
        ensures
            match first_repeated(driver_ids(drivers@), 0) {
                Some(id) => r is Err && r->Err_0 == ErrorKind::DuplicateMember(id),
                None => {
                    &&& r is Ok
                    &&& r->Ok_0.wf()
                    &&& r->Ok_0@.repo == repo
                    &&& r->Ok_0@.queue == queue@
                    &&& r->Ok_0@.telemetry == match telemetry_table {
                        Some(table) => Some(table@),
                        None => None,
                    }
                    &&& r->Ok_0@.reports == Seq::<ReportView>::empty()
                    &&& r->Ok_0@.members.len() == drivers@.len()
                    &&& forall|i: int|
                        0 <= i < drivers@.len() ==> (#[trigger] r->Ok_0@.members[i]) == (MemberView {
                            id: drivers@[i].0,
                            store: drivers@[i].1@,
                        })
                },
            },
    {
        let ghost given = drivers@;
        let ghost ids = driver_ids(given);
        let mut i: usize = 0;
        while i < drivers.len()
            invariant
                given == drivers@,
                ids == driver_ids(given),
                i <= drivers.len(),
                first_repeated(ids, 0) == first_repeated(ids, i as int),
                forall|a: int, b: int| 0 <= a < b < i ==> given[a].0 != given[b].0,
            decreases drivers.len() - i,
        {
            let mut j: usize = 0;
            while j < i
                invariant
                    given == drivers@,
                    ids == driver_ids(given),
                    j <= i < drivers.len(),
                    first_repeated(ids, 0) == first_repeated(ids, i as int),
                    forall|k: int| 0 <= k < j ==> given[k].0 != given[i as int].0,
                decreases i - j,
            {
                if drivers[j].0 == drivers[i].0 {
                    assert(ids[j as int] == ids[i as int]);
                    assert(is_repeated(ids, i as int));
                    return Err(ErrorKind::DuplicateMember(drivers[i].0));
                }
                j += 1;
            }
            assert(!is_repeated(ids, i as int)) by {
                if is_repeated(ids, i as int) {
                    let k = choose|k: int| 0 <= k < i && ids[k] == ids[i as int];
                    assert(given[k].0 != given[i as int].0);
                }
            }
            i += 1;
        }
        let mut rest = drivers;
        let mut members: Vec<Member> = Vec::new();
        // Drivers are taken from the back, so the members are built in
        // reverse and turned round at the end.
        while rest.len() > 0
            invariant
                given == drivers@,
                rest@.len() <= given.len(),
                rest@ == given.subrange(0, rest@.len() as int),
                members@.len() == given.len() - rest@.len(),
                forall|i: int| 0 <= i < given.len() ==> (#[trigger] given[i]).1.wf(),
                forall|k: int|
                    0 <= k < members@.len() ==> (#[trigger] members@[k])@ == (MemberView {
                        id: given[given.len() - 1 - k].0,
                        store: given[given.len() - 1 - k].1@,
                    }) && members@[k].store.wf(),
            decreases rest@.len(),
        {
            let ghost at = rest@.len() - 1;
            let (id, store) = rest.pop().unwrap();
            assert(given[at] == (id, store));
            members.push(Member { id, store });
        }
        let mut ordered: Vec<Member> = Vec::new();
        let ghost built = members@;
        while members.len() > 0
            invariant
                built.len() == given.len(),
                members@ == built.subrange(0, members@.len() as int),
                ordered@.len() == built.len() - members@.len(),
                forall|k: int|
                    0 <= k < ordered@.len() ==> (#[trigger] ordered@[k]) == built[built.len() - 1
                        - k],
            decreases members@.len(),
        {
            let ghost at = members@.len() - 1;
            let member = members.pop().unwrap();
            assert(member == built[at]);
            ordered.push(member);
        }
        let engine = MultiplexedBlobstore {
            repo,
            members: ordered,
            queue,
            telemetry_table,
            reports: Vec::new(),
        };
        proof {
            assert(engine@.reports =~= Seq::<ReportView>::empty());
            assert forall|i: int| 0 <= i < given.len() implies (#[trigger] engine@.members[i]) == (
            MemberView { id: given[i].0, store: given[i].1@ }) && engine.members@[i].store.wf() by {
                assert(ordered@[i] == built[built.len() - 1 - i]);
            }
            assert(distinct_ids(engine@.members)) by {
                assert forall|i: int, j: int| 0 <= i < j < engine@.members.len() implies (
                #[trigger] engine@.members[i]).id != (#[trigger] engine@.members[j]).id by {
                    assert(given[i].0 != given[j].0);
                }
            }
        }
        Ok(engine)
    }

    pub fn repo(&self) -> (r: RepositoryId)
        ensures
            r == self@.repo,
    {
        self.repo
    }

    pub fn member_count(&self) -> (r: usize)
        ensures
            r == self@.members.len(),
    {
        self.members.len()
    }

    /// The position of the first member with the given id.
    fn find_member(&self, id: u64) -> (r: Option<usize>)
        ensures
            match r {
                Some(t) => target_of(self@.members, id, 0) == Some(t as int),
                None => target_of(self@.members, id, 0) is None,
            },
            r is Some ==> r->0 < self.members@.len(),
    {
        let mut i: usize = 0;
        while i < self.members.len()
            invariant
                i <= self.members.len(),
                target_of(self@.members, id, 0) == target_of(self@.members, id, i as int),
            decreases self.members.len() - i,
        {
            if self.members[i].id == id {
                return Some(i);
            }
            i += 1;
        }
        None
    }

    /// Takes the member with the given id offline or brings it back, and
    /// returns whether there is such a member.
    pub fn set_member_online(&mut self, id: u64, online: bool) -> (found: bool)
        requires
            old(self).wf(),
        ensures
            final(self).wf(),
            found == target_of(old(self)@.members, id, 0) is Some,
            final(self)@.repo == old(self)@.repo,
            final(self)@.queue == old(self)@.queue,
            final(self)@.telemetry == old(self)@.telemetry,
            final(self)@.reports == old(self)@.reports,
            final(self)@.members == match target_of(old(self)@.members, id, 0) {
                Some(t) => old(self)@.members.update(
                    t,
                    MemberView {
                        store: MemBlobView { online, ..old(self)@.members[t].store },
                        ..old(self)@.members[t]
                    },
                ),
                None => old(self)@.members,
            },
    {
        match self.find_member(id) {
            Some(t) => {
                self.members[t].store.set_online(online);
                proof {
                    let before = old(self)@.members;
                    let after = before.update(
                        t as int,
                        MemberView {
                            store: MemBlobView { online, ..before[t as int].store },
                            ..before[t as int]
                        },
                    );
                    assert(self@.members =~= after);
                    assert forall|i: int, j: int| 0 <= i < j < after.len() implies (
                    #[trigger] after[i]).id != (#[trigger] after[j]).id by {
                        assert(before[i].id != before[j].id);
                    }
                }
                true
            },
            None => false,
        }
    }

    /// Makes the sync queue reachable or unreachable. Its rows stay.
    pub fn set_queue_available(&mut self, available: bool)
        requires
            old(self).wf(),
        ensures
            final(self).wf(),
            final(self)@ == (EngineView {
                queue: SyncQueueView { available, ..old(self)@.queue },
                ..old(self)@
            }),
    {
        self.queue.set_available(available);
    }

    /// The telemetry table, where telemetry is configured.
    pub fn telemetry_table(&self) -> (r: &Option<String>)
        ensures
            match *r {
                Some(table) => self@.telemetry == Some(table@),
                None => self@.telemetry is None,
            },
    {
        &self.telemetry_table
    }

    /// Hands out the reports that wait for the telemetry collaborator,
    /// oldest first, and keeps none. What becomes of them is nothing to
    /// the engine.
    pub fn take_reports(&mut self) -> (r: Vec<OutcomeReport>)
        requires
            old(self).wf(),
        ensures
            final(self).wf(),
            reports_of(r@) == old(self)@.reports,
            final(self)@ == (EngineView { reports: Seq::empty(), ..old(self)@ }),
    {
        let mut out: Vec<OutcomeReport> = Vec::new();
        std::mem::swap(&mut out, &mut self.reports);
        assert(reports_of(self.reports@) =~= Seq::<ReportView>::empty());
        out
    }

    /// The sync queue.
    pub fn queue(&self) -> (r: &SyncQueue)
        ensures
            r@ == self@.queue,
    {
        &self.queue
    }

    /// Reads `key` from the member with the given id alone.
    pub fn member_get(&self, id: u64, key: &[u8]) -> (r: Option<GetOutcome>)
        requires
            self.wf(),
        ensures
            match r {
                Some(outcome) => target_of(self@.members, id, 0) is Some && outcome@ == read_of(
                    self@.members[target_of(self@.members, id, 0)->0].store,
                    key@,
                ),
                None => target_of(self@.members, id, 0) is None,
            },
    {
        match self.find_member(id) {
            Some(t) => Some(self.members[t].store.get(key)),
            None => None,
        }
    }

    /// Reads `key` from every member, in order.
    fn read_all(&self, key: &[u8]) -> (reads: Vec<MemberGet>)
        requires
            self.wf(),
        ensures
            reads_of(reads@) == member_reads(self@.members, key@),
    {
        let mut reads: Vec<MemberGet> = Vec::new();
        let mut i: usize = 0;
        while i < self.members.len()
            invariant
                i <= self.members.len(),
                self.wf(),
                reads@.len() == i,
                forall|k: int|
                    0 <= k < i ==> (#[trigger] reads@[k])@ == member_reads(self@.members, key@)[k],
            decreases self.members.len() - i,
        {
            let outcome = self.members[i].store.get(key);
            reads.push(MemberGet { member: self.members[i].id, outcome });
            i += 1;
        }
        assert(reads_of(reads@) =~= member_reads(self@.members, key@));
        reads
    }

    /// Writes `value` under `key` now.
    ///
    /// Succeeds if and only if a member takes the write. Then every member
    /// that did not is recorded in the sync queue; where the queue cannot
    /// be reached the write succeeds just the same and the rows are lost.
    pub fn put(&mut self, key: &[u8], value: &[u8]) -> (r: Result<(), BlobError>)
        requires
            old(self).wf(),
        ensures
            final(self).wf(),
            r is Ok == put_accepted(old(self)@),
            r is Err ==> r->Err_0 == BlobError::AllMembersFailed,
            exists|now: Timestamp| final(self)@ == after_put(old(self)@, key@, value@, now),
    {
        let now = utc_now();
        self.put_at(key, value, now)
    }

    /// Writes `value` under `key`; rows that go to the sync queue carry the
    /// time `now`.
    pub fn put_at(&mut self, key: &[u8], value: &[u8], now: Timestamp) -> (r: Result<(), BlobError>)
        requires
            old(self).wf(),
        ensures
            final(self).wf(),
            r is Ok == put_accepted(old(self)@),
            r is Err ==> r->Err_0 == BlobError::AllMembersFailed,
            final(self)@ == after_put(old(self)@, key@, value@, now),
    {
        let mut acks: Vec<MemberAck> = Vec::new();
        let mut i: usize = 0;
        while i < self.members.len()
            invariant
                i <= self.members.len(),
                self.members@.len() == old(self).members@.len(),
                self.repo == old(self).repo,
                self.queue == old(self).queue,
                self.telemetry_table == old(self).telemetry_table,
                self.reports == old(self).reports,
                acks@.len() == i,
                forall|k: int|
                    0 <= k < self.members@.len() ==> (#[trigger] self.members@[k]).store.wf(),
                forall|k: int|
                    0 <= k < i ==> (#[trigger] self.members@[k])@ == members_written(
                        old(self)@.members,
                        key@,
                        value@,
                    )[k],
                forall|k: int|
                    i <= k < self.members@.len() ==> (#[trigger] self.members@[k])@ == old(
                        self,
                    ).members@[k]@,
                forall|k: int| 0 <= k < i ==> (#[trigger] acks@[k]) == member_acks(old(self)@.members)[k],
            decreases self.members.len() - i,
        {
            let id = self.members[i].id;
            let acked = self.members[i].store.put(copy_bytes(key), copy_bytes(value));
            acks.push(MemberAck { member: id, acked, latency: Span { secs: 0, nanos: 0 } });
            i += 1;
        }
        proof {
            assert(acks@ =~= member_acks(old(self)@.members));
            assert(self@.members =~= members_written(old(self)@.members, key@, value@));
            let after = self@.members;
            let before = old(self)@.members;
            assert forall|a: int, b: int| 0 <= a < b < after.len() implies (#[trigger] after[a]).id
                != (#[trigger] after[b]).id by {
                assert(before[a].id != before[b].id);
            }
        }
        let mut reports = report_put(&self.telemetry_table, self.repo, key, &acks);
        proof {
            assert(reports_of(self.reports@ + reports@) =~= reports_of(self.reports@) + reports_of(
                reports@,
            ));
        }
        self.reports.append(&mut reports);
        let resolution = resolve_put(self.repo, key, now, &acks);
        if resolution.accepted {
            let _ = self.queue.add_all(resolution.missed);
            Ok(())
        } else {
            assert(self@.queue.rows + Seq::<QueueRow>::empty() =~= self@.queue.rows);
            Err(BlobError::AllMembersFailed)
        }
    }

    /// Reads `key` now.
    pub fn get(&mut self, key: &[u8]) -> (r: Result<Option<Vec<u8>>, BlobError>)
        requires
            old(self).wf(),
        ensures
            final(self).wf(),
            answer_view(r) == get_of(old(self)@, key@),
            exists|now: Timestamp| final(self)@ == after_get(old(self)@, key@, now),
    {
        let now = utc_now();
        self.get_at(key, now)
    }

    /// Reads `key` from every member and returns the first value found.
    ///
    /// Where some members have the key and others report it absent, the
    /// latter are recorded in the sync queue under the time `now`. Where no
    /// member has the key, it is absent if a member says so; the read fails
    /// if and only if no member could tell.
    pub fn get_at(&mut self, key: &[u8], now: Timestamp) -> (r: Result<Option<Vec<u8>>, BlobError>)
        requires
            old(self).wf(),
        ensures
            final(self).wf(),
            answer_view(r) == get_of(old(self)@, key@),
            final(self)@ == after_get(old(self)@, key@, now),
    {
        let reads = self.read_all(key);
        let resolution = resolve_get(self.repo, key, now, &reads);
        let _ = self.queue.add_all(resolution.repairs);
        resolution.result
    }

    /// Handles one row of this repository.
    fn repair_row(&mut self, row: &SyncQueueEntry) -> (fate: RowFate)
        requires
            old(self).wf(),
        ensures
            final(self).wf(),
            fate == row_fate(old(self)@.members, row@),
            final(self)@.repo == old(self)@.repo,
            final(self)@.queue == old(self)@.queue,
            final(self)@.telemetry == old(self)@.telemetry,
            final(self)@.reports == old(self)@.reports,
            final(self)@.members == if fate == RowFate::Repaired {
                members_repaired(old(self)@.members, row@)
            } else {
                old(self)@.members
            },
    {
        let reads = self.read_all(row.key.as_slice());
        let plan = plan_repair(&reads);
        let target = self.find_member(row.member);
        let written = match (&plan, target) {
            (RepairPlan::Replay(value), Some(t)) => {
                let acked = self.members[t].store.put(
                    copy_bytes(row.key.as_slice()),
                    copy_bytes(value.as_slice()),
                );
                proof {
                    let before = old(self)@.members;
                    let after = before.update(
                        t as int,
                        MemberView {
                            store: write_to(before[t as int].store, row@.key, value@),
                            ..before[t as int]
                        },
                    );
                    assert(self@.members =~= after);
                    assert forall|a: int, b: int| 0 <= a < b < after.len() implies (
                    #[trigger] after[a]).id != (#[trigger] after[b]).id by {
                        assert(before[a].id != before[b].id);
                    }
                    if !acked {
                        assert(after =~= before);
                    }
                }
                acked
            },
            _ => false,
        };
        settle_row(&plan, target.is_some(), written)
    }

    /// Runs one repair pass over the sync queue.
    ///
    /// For each row of this repository the value is read from the first
    /// member that has it and written to the member that the row names. The
    /// row goes if that write is taken, and stays otherwise. Rows of other
    /// repositories stay untouched. A queue that cannot be reached is left
    /// for a later pass.
    pub fn repair(&mut self) -> (report: RepairReport)
        requires
            old(self).wf(),
        ensures
            final(self).wf(),
            final(self)@ == after_repair(old(self)@),
            report.repaired == repair_all(old(self)@).repaired,
            rows_of(report.unrecoverable@) == repair_all(old(self)@).unrecoverable,
    {
        let mut unrecoverable: Vec<SyncQueueEntry> = Vec::new();
        assert(rows_of(unrecoverable@) =~= Seq::<QueueRow>::empty());
        if !self.queue.is_available() {
            assert(self@ =~= after_repair(old(self)@));
            return RepairReport { repaired: 0, unrecoverable };
        }
        let rows = self.queue.rows();
        let mut kept: Vec<SyncQueueEntry> = Vec::new();
        let mut repaired: usize = 0;
        let mut i: usize = 0;
        assert(rows_of(kept@) =~= Seq::<QueueRow>::empty());
        while i < rows.len()
            invariant
                i <= rows.len(),
                self.wf(),
                self@.repo == old(self)@.repo,
                self@.queue == old(self)@.queue,
                self@.telemetry == old(self)@.telemetry,
                self@.reports == old(self)@.reports,
                rows_of(rows@) == old(self)@.queue.rows,
                repaired <= i,
                self@.members == repair_prefix(
                    old(self)@.repo,
                    old(self)@.members,
                    old(self)@.queue.rows,
                    i as int,
                ).members,
                rows_of(kept@) == repair_prefix(
                    old(self)@.repo,
                    old(self)@.members,
                    old(self)@.queue.rows,
                    i as int,
                ).kept,
                repaired == repair_prefix(
                    old(self)@.repo,
                    old(self)@.members,
                    old(self)@.queue.rows,
                    i as int,
                ).repaired,
                rows_of(unrecoverable@) == repair_prefix(
                    old(self)@.repo,
                    old(self)@.members,
                    old(self)@.queue.rows,
                    i as int,
                ).unrecoverable,
            decreases rows.len() - i,
        {
            assert(rows_of(rows@)[i as int] == rows@[i as int]@);
            let fate = if rows[i].repo.id == self.repo.id {
                self.repair_row(&rows[i])
            } else {
                RowFate::Kept
            };
            match fate {
                RowFate::Repaired => {
                    repaired += 1;
                },
                RowFate::Kept => {
                    let row = rows[i].duplicate();
                    proof {
                        lemma_rows_of_push(kept@, row);
                    }
                    kept.push(row);
                },
                RowFate::Unrecoverable => {
                    let row = rows[i].duplicate();
                    let lost = rows[i].duplicate();
                    proof {
                        lemma_rows_of_push(kept@, row);
                        lemma_rows_of_push(unrecoverable@, lost);
                    }
                    kept.push(row);
                    unrecoverable.push(lost);
                },
            }
            i += 1;
        }
        self.queue.replace(kept);
        RepairReport { repaired, unrecoverable }
    }
}

} // verus!
