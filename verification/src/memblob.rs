//! A storage driver that keeps its blobs in process memory. It can be taken
//! offline, and then fails every operation and keeps what it holds.

use vstd::prelude::*;
use crate::table::{as_map, lemma_with_pair, ByteTable};

verus! {

/// What a driver answers to a read.
#[derive(Clone, Debug, PartialEq, Eq)]
pub enum GetOutcome {
    Found(Vec<u8>),
    /// The driver has no such key.
    Absent,
    /// The driver could not tell.
    Failed,
}

/// What a read answer holds.
pub enum Read {
    Found(Seq<u8>),
    Absent,
    Failed,
}

impl View for GetOutcome {
    type V = Read;

    open spec fn view(&self) -> Read {
        match self {
            GetOutcome::Found(bytes) => Read::Found(bytes@),
            GetOutcome::Absent => Read::Absent,
            GetOutcome::Failed => Read::Failed,
        }
    }
}

/// What a memory driver holds.
pub struct MemBlobView {
    pub blobs: Map<Seq<u8>, Seq<u8>>,
    pub online: bool,
}

/// What a driver in this state answers to a read of `key`.
pub open spec fn read_of(driver: MemBlobView, key: Seq<u8>) -> Read {
    if !driver.online {
        Read::Failed
    } else if driver.blobs.contains_key(key) {
        Read::Found(driver.blobs[key])
    } else {
        Read::Absent
    }
}

/// The driver after a write: an offline driver keeps its state.
pub open spec fn write_to(driver: MemBlobView, key: Seq<u8>, value: Seq<u8>) -> MemBlobView {
    if driver.online {
        MemBlobView { blobs: driver.blobs.insert(key, value), ..driver }
    } else {
        driver
    }
}

/// A driver in process memory.
#[derive(Debug)]
pub struct MemBlob {
    table: ByteTable,
    online: bool,
}

impl View for MemBlob {
    type V = MemBlobView;

    closed spec fn view(&self) -> MemBlobView {
        MemBlobView { blobs: as_map(self.table@), online: self.online }
    }
}

impl MemBlob {
    /// Holds of every driver that `new` made, after any of its methods.
    pub closed spec fn wf(&self) -> bool {
        self.table.wf()
    }

    /// An empty driver, online.
    pub fn new() -> (r: Self)
        ensures
            r.wf(),
            r@.blobs == Map::<Seq<u8>, Seq<u8>>::empty(),
            r@.online,
    {
        let r = MemBlob { table: ByteTable::new(), online: true };
        assert(r@.blobs =~= Map::<Seq<u8>, Seq<u8>>::empty());
        r
    }

    /// Takes the driver offline or brings it back. Its blobs stay.
    pub fn set_online(&mut self, online: bool)
        requires
            old(self).wf(),
        ensures
            final(self).wf(),
            final(self)@ == (MemBlobView { online, ..old(self)@ }),
    {
        self.online = online;
    }

    pub fn is_online(&self) -> (r: bool)
        ensures
            r == self@.online,
    {
        self.online
    }

    /// Reads `key`.
    pub fn get(&self, key: &[u8]) -> (r: GetOutcome)
        requires
            self.wf(),
        ensures
            r@ == read_of(self@, key@),
    {
        if !self.online {
            return GetOutcome::Failed;
        }
        match self.table.get(key) {
            Some(value) => GetOutcome::Found(value),
            None => GetOutcome::Absent,
        }
    }

    /// Writes `value` under `key`, and returns whether the write was taken.
    pub fn put(&mut self, key: Vec<u8>, value: Vec<u8>) -> (acked: bool)
        requires
            old(self).wf(),
        ensures
            final(self).wf(),
            acked == old(self)@.online,
            final(self)@ == write_to(old(self)@, key@, value@),
    {
        if !self.online {
            return false;
        }
        proof {
            lemma_with_pair(self.table@, key@, value@);
        }
        self.table.set(key, value);
        true
    }
}

} // verus!
