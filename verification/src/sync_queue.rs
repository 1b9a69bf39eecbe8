//! The sync queue: a log of rows that each say "this member may not yet
//! have this key's latest value for this repository". Rows of several
//! repositories share one queue and never mix.

use vstd::prelude::*;
use crate::config::RepositoryId;
use crate::table::copy_bytes;
use crate::time::Timestamp;

verus! {

/// What put a row into the queue.
#[derive(Clone, Copy, Debug, PartialEq, Eq, Structural)]
pub enum Operation {
    /// A write that the member did not acknowledge.
    Write,
    /// A read in which the member reported the key absent while another
    /// member had it.
    ReadRepair,
}

/// One row of the queue.
#[derive(Clone, Debug, PartialEq, Eq)]
pub struct SyncQueueEntry {
    pub repo: RepositoryId,
    pub member: u64,
    pub key: Vec<u8>,
    pub timestamp: Timestamp,
    pub operation: Operation,
}

/// What a row holds.
pub struct QueueRow {
    pub repo: RepositoryId,
    pub member: u64,
    pub key: Seq<u8>,
    pub timestamp: Timestamp,
    pub operation: Operation,
}

impl View for SyncQueueEntry {
    type V = QueueRow;

    open spec fn view(&self) -> QueueRow {
        QueueRow {
            repo: self.repo,
            member: self.member,
            key: self.key@,
            timestamp: self.timestamp,
            operation: self.operation,
        }
    }
}

/// What a list of rows holds.
pub open spec fn rows_of(entries: Seq<SyncQueueEntry>) -> Seq<QueueRow> {
    Seq::new(entries.len(), |i: int| entries[i]@)
}

/// A row appended to a list is appended to what the list holds.
pub proof fn lemma_rows_of_push(entries: Seq<SyncQueueEntry>, entry: SyncQueueEntry)
    ensures
        rows_of(entries.push(entry)) == rows_of(entries).push(entry@),
{
    assert(rows_of(entries.push(entry)) =~= rows_of(entries).push(entry@));
}

/// The rows of `repo` among the first `n` rows, in order.
pub open spec fn rows_for(rows: Seq<QueueRow>, repo: RepositoryId, n: int) -> Seq<QueueRow>
    decreases n,
{
    if n <= 0 || n > rows.len() {
        Seq::empty()
    } else if rows[n - 1].repo == repo {
        rows_for(rows, repo, n - 1).push(rows[n - 1])
    } else {
        rows_for(rows, repo, n - 1)
    }
}

/// Whether a row for this repository, member and key is in the queue.
pub open spec fn is_pending(rows: Seq<QueueRow>, repo: RepositoryId, member: u64, key: Seq<u8>) -> bool {
    exists|i: int|
        0 <= i < rows.len() && (#[trigger] rows[i]).repo == repo && rows[i].member == member
            && rows[i].key == key
}

/// The queue could not take a row.
#[derive(Clone, Copy, Debug, PartialEq, Eq, Structural)]
pub enum QueueError {
    Unavailable,
}

/// What a queue holds.
pub struct SyncQueueView {
    pub rows: Seq<QueueRow>,
    /// Whether the queue can be read and written at present.
    pub available: bool,
}

/// The queue itself. It can be switched off, to stand for a store that
/// cannot be reached.
#[derive(Debug)]
pub struct SyncQueue {
    rows: Vec<SyncQueueEntry>,
    available: bool,
}

impl View for SyncQueue {
    type V = SyncQueueView;

    closed spec fn view(&self) -> SyncQueueView {
        SyncQueueView { rows: rows_of(self.rows@), available: self.available }
    }
}

impl SyncQueueEntry {
    /// A copy of the row.
    pub fn duplicate(&self) -> (r: SyncQueueEntry)
        ensures
            r@ == self@,
    {
        SyncQueueEntry {
            repo: self.repo,
            member: self.member,
            key: copy_bytes(self.key.as_slice()),
            timestamp: self.timestamp,
            operation: self.operation,
        }
    }
}

impl SyncQueue {
    /// An empty queue that can be reached.
    pub fn new() -> (r: Self)
        ensures
            r@.rows == Seq::<QueueRow>::empty(),
            r@.available,
    {
        let r = SyncQueue { rows: Vec::new(), available: true };
        assert(r@.rows =~= Seq::<QueueRow>::empty());
        r
    }

    /// Switches the queue on or off. Its rows stay.
    pub fn set_available(&mut self, available: bool)
        ensures
            final(self)@ == (SyncQueueView { available, ..old(self)@ }),
    {
        self.available = available;
    }

    pub fn is_available(&self) -> (r: bool)
        ensures
            r == self@.available,
    {
        self.available
    }

    pub fn len(&self) -> (r: usize)
        ensures
            r == self@.rows.len(),
    {
        self.rows.len()
    }

    /// Appends a row, or fails and changes nothing where the queue cannot
    /// be reached.
    pub fn add(&mut self, entry: SyncQueueEntry) -> (r: Result<(), QueueError>)
        ensures
            r is Ok == old(self)@.available,
            r is Err ==> r->Err_0 == QueueError::Unavailable,
            final(self)@ == if old(self)@.available {
                SyncQueueView { rows: old(self)@.rows.push(entry@), ..old(self)@ }
            } else {
                old(self)@
            },
    {
        if !self.available {
            return Err(QueueError::Unavailable);
        }
        proof {
            lemma_rows_of_push(self.rows@, entry);
        }
        self.rows.push(entry);
        Ok(())
    }

    /// Appends rows in order, or fails and changes nothing where the queue
    /// cannot be reached.
    pub fn add_all(&mut self, entries: Vec<SyncQueueEntry>) -> (r: Result<(), QueueError>)
        ensures
            r is Ok == old(self)@.available,
            r is Err ==> r->Err_0 == QueueError::Unavailable,
            final(self)@ == if old(self)@.available {
                SyncQueueView { rows: old(self)@.rows + rows_of(entries@), ..old(self)@ }
            } else {
                old(self)@
            },
    {
        if !self.available {
            return Err(QueueError::Unavailable);
        }
        let mut i: usize = 0;
        while i < entries.len()
            invariant
                i <= entries.len(),
                self.available,
                self@.available == old(self)@.available,
                self@.rows == old(self)@.rows + rows_of(entries@).subrange(0, i as int),
            decreases entries.len() - i,
        {
            let entry = entries[i].duplicate();
            proof {
                lemma_rows_of_push(self.rows@, entry);
                assert(rows_of(entries@).subrange(0, i + 1) =~= rows_of(entries@).subrange(
                    0,
                    i as int,
                ).push(entry@));
                assert((old(self)@.rows + rows_of(entries@).subrange(0, i as int)).push(entry@)
                    =~= old(self)@.rows + rows_of(entries@).subrange(0, i + 1));
            }
            self.rows.push(entry);
            i += 1;
        }
        assert(rows_of(entries@).subrange(0, entries@.len() as int) =~= rows_of(entries@));
        Ok(())
    }

    /// Copies of the rows of one repository, in order. Rows of other
    /// repositories are never handed out.
    pub fn pending(&self, repo: RepositoryId) -> (r: Vec<SyncQueueEntry>)
        ensures
            rows_of(r@) == rows_for(self@.rows, repo, self@.rows.len() as int),
    {
        let mut out: Vec<SyncQueueEntry> = Vec::new();
        let mut i: usize = 0;
        assert(rows_of(out@) =~= rows_for(self@.rows, repo, 0));
        while i < self.rows.len()
            invariant
                i <= self.rows.len(),
                rows_of(out@) == rows_for(self@.rows, repo, i as int),
            decreases self.rows.len() - i,
        {
            if self.rows[i].repo.id == repo.id {
                let entry = self.rows[i].duplicate();
                proof {
                    lemma_rows_of_push(out@, entry);
                }
                out.push(entry);
            }
            i += 1;
        }
        out
    }

    /// Copies of all rows, in order.
    pub fn rows(&self) -> (r: Vec<SyncQueueEntry>)
        ensures
            rows_of(r@) == self@.rows,
    {
        let mut out: Vec<SyncQueueEntry> = Vec::new();
        let mut i: usize = 0;
        while i < self.rows.len()
            invariant
                i <= self.rows.len(),
                rows_of(out@) == self@.rows.subrange(0, i as int),
            decreases self.rows.len() - i,
        {
            let entry = self.rows[i].duplicate();
            proof {
                lemma_rows_of_push(out@, entry);
                assert(self@.rows.subrange(0, i + 1) =~= self@.rows.subrange(0, i as int).push(
                    entry@,
                ));
            }
            out.push(entry);
            i += 1;
        }
        assert(self@.rows.subrange(0, self@.rows.len() as int) =~= self@.rows);
        out
    }

    /// Puts `rows` in the place of the rows held so far.
    pub fn replace(&mut self, rows: Vec<SyncQueueEntry>)
        ensures
            final(self)@ == (SyncQueueView { rows: rows_of(rows@), ..old(self)@ }),
    {
        self.rows = rows;
    }
}

/// A row added for one repository is never among the rows of another.
pub proof fn lemma_rows_isolated(rows: Seq<QueueRow>, row: QueueRow, repo: RepositoryId)
    requires
        row.repo != repo,
    ensures
        rows_for(rows.push(row), repo, rows.len() as int + 1) == rows_for(
            rows,
            repo,
            rows.len() as int,
        ),
{
    lemma_rows_for_prefix(rows, rows.push(row), repo, rows.len() as int);
}

/// The rows of a repository among the first `n` rows depend on those rows
/// alone.
pub proof fn lemma_rows_for_prefix(a: Seq<QueueRow>, b: Seq<QueueRow>, repo: RepositoryId, n: int)
    requires
        0 <= n <= a.len(),
        n <= b.len(),
        forall|i: int| 0 <= i < n ==> a[i] == b[i],
    ensures
        rows_for(a, repo, n) == rows_for(b, repo, n),
    decreases n,
{
    if n > 0 {
        lemma_rows_for_prefix(a, b, repo, n - 1);
    }
}

/// Every row handed out for a repository belongs to it.
pub proof fn lemma_rows_for_repo(rows: Seq<QueueRow>, repo: RepositoryId, n: int)
    ensures
        forall|i: int|
            0 <= i < rows_for(rows, repo, n).len() ==> (#[trigger] rows_for(rows, repo, n)[i]).repo
                == repo,
    decreases n,
{
    if 0 < n <= rows.len() {
        lemma_rows_for_repo(rows, repo, n - 1);
    }
}

} // verus!
