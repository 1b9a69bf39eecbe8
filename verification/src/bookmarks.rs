//! Bookmarks and the staleness cache in front of them. With a time to live
//! configured, readers are served from a snapshot of the store and may see
//! a bookmark that is up to that old; a snapshot that has reached its time
//! to live is never served.

use vstd::prelude::*;
use crate::table::{
    copy_bytes, distinct_keys, lemma_with_pair, lookup, with_pair, ByteTable, Pair,
};
use crate::time::{utc_now, Span, Timestamp};

verus! {

/// A snapshot of the store and the time at which it was taken.
pub struct SnapshotView {
    pub entries: Seq<Pair>,
    pub taken: Timestamp,
}

/// What the cached store holds.
pub struct CachedBookmarksView {
    /// The bookmarks as they are: the newest first written keeps its place.
    pub store: Seq<Pair>,
    pub ttl: Option<Span>,
    pub snapshot: Option<SnapshotView>,
}

/// Whether a snapshot taken at `taken` has reached its time to live at
/// `now`.
pub open spec fn expired(taken: Timestamp, now: Timestamp, ttl: Span) -> bool {
    now.total_nanos() - taken.total_nanos() >= ttl.total_nanos()
}

/// Whether a read at `now` is served from the snapshot.
pub open spec fn serves_snapshot(s: CachedBookmarksView, now: Timestamp) -> bool {
    s.ttl is Some && s.snapshot is Some && !expired(s.snapshot->0.taken, now, s.ttl->0)
}

/// What a read of `name` at `now` returns.
pub open spec fn bookmark_at(s: CachedBookmarksView, name: Seq<u8>, now: Timestamp) -> Option<
    Seq<u8>,
> {
    if serves_snapshot(s, now) {
        lookup(s.snapshot->0.entries, name)
    } else {
        lookup(s.store, name)
    }
}

/// The cached store after a read at `now`: a read that is not served from
/// the snapshot takes a new one, where a time to live is configured.
pub open spec fn after_read(s: CachedBookmarksView, now: Timestamp) -> CachedBookmarksView {
    if serves_snapshot(s, now) || s.ttl is None {
        s
    } else {
        CachedBookmarksView {
            snapshot: Some(SnapshotView { entries: s.store, taken: now }),
            ..s
        }
    }
}

/// The cached store after an update. The snapshot stays as it is.
pub open spec fn after_update(
    s: CachedBookmarksView,
    name: Seq<u8>,
    target: Seq<u8>,
) -> CachedBookmarksView {
    CachedBookmarksView { store: with_pair(s.store, name, target), ..s }
}

/// Whether `now` is at least `ttl` after `taken`.
pub fn has_expired(taken: Timestamp, now: Timestamp, ttl: Span) -> (r: bool)
    ensures
        r == expired(taken, now, ttl),
{
    let taken_nanos: i128 = (taken.secs as i128) * 1_000_000_000 + (taken.nanos as i128);
    let now_nanos: i128 = (now.secs as i128) * 1_000_000_000 + (now.nanos as i128);
    let ttl_nanos: i128 = (ttl.secs as i128) * 1_000_000_000 + (ttl.nanos as i128);
    now_nanos - taken_nanos >= ttl_nanos
}

/// A bookmark store with an optional staleness cache in front of it.
#[derive(Debug)]
pub struct CachedBookmarks {
    store: ByteTable,
    ttl: Option<Span>,
    snapshot: Option<(ByteTable, Timestamp)>,
}

impl View for CachedBookmarks {
    type V = CachedBookmarksView;

    closed spec fn view(&self) -> CachedBookmarksView {
        CachedBookmarksView {
            store: self.store@,
            ttl: self.ttl,
            snapshot: match self.snapshot {
                Some((entries, taken)) => Some(SnapshotView { entries: entries@, taken }),
                None => None,
            },
        }
    }
}

impl CachedBookmarks {
    /// Holds of every store that `new` made, after any of its methods.
    pub closed spec fn wf(&self) -> bool {
        &&& self.store.wf()
        &&& self.snapshot matches Some((entries, _)) ==> entries.wf()
    }

    /// Neither the store nor a snapshot holds a bookmark twice.
    pub proof fn lemma_wf(&self)
        requires
            self.wf(),
        ensures
            distinct_keys(self@.store),
            self@.snapshot matches Some(s) ==> distinct_keys(s.entries),
    {
    }

    /// An empty store. With a time to live, reads go through a snapshot.
    pub fn new(ttl: Option<Span>) -> (r: Self)
        ensures
            r.wf(),
            r@ == (CachedBookmarksView { store: Seq::empty(), ttl, snapshot: None }),
    {
        CachedBookmarks { store: ByteTable::new(), ttl, snapshot: None }
    }

    /// Moves the bookmark `name` to `target` in the store.
    pub fn update(&mut self, name: &[u8], target: &[u8])
        requires
            old(self).wf(),
        ensures
            final(self).wf(),
            final(self)@ == after_update(old(self)@, name@, target@),
    {
        self.store.set(copy_bytes(name), copy_bytes(target));
    }

    /// Reads the bookmark `name` now.
    pub fn get(&mut self, name: &[u8]) -> (r: Option<Vec<u8>>)
        requires
            old(self).wf(),
        ensures
            final(self).wf(),
            exists|now: Timestamp|
                final(self)@ == after_read(old(self)@, now) && match r {
                    Some(target) => bookmark_at(old(self)@, name@, now) == Some(target@),
                    None => bookmark_at(old(self)@, name@, now) is None,
                },
    {
        let now = utc_now();
        self.get_at(name, now)
    }

    /// Reads the bookmark `name` at the time `now`.
    ///
    /// Without a time to live the store answers. With one, the snapshot
    /// answers as long as it is younger than the time to live; after that a
    /// new snapshot is taken, so the answer is that of the store.
    pub fn get_at(&mut self, name: &[u8], now: Timestamp) -> (r: Option<Vec<u8>>)
        requires
            old(self).wf(),
        ensures
            final(self).wf(),
            match r {
                Some(target) => bookmark_at(old(self)@, name@, now) == Some(target@),
                None => bookmark_at(old(self)@, name@, now) is None,
            },
            final(self)@ == after_read(old(self)@, now),
    {
        let ttl = match self.ttl {
            Some(ttl) => ttl,
            None => {
                return self.store.get(name);
            },
        };
        let fresh = match &self.snapshot {
            Some((_, taken)) => !has_expired(*taken, now, ttl),
            None => false,
        };
        if !fresh {
            self.snapshot = Some((self.store.duplicate(), now));
            return self.store.get(name);
        }
        match &self.snapshot {
            Some((entries, _)) => entries.get(name),
            None => None,
        }
    }
}

/// A read never returns a bookmark that is older than the time to live:
/// when the snapshot has reached it, or there is none, the read returns
/// what the store holds.
pub proof fn lemma_read_after_ttl(s: CachedBookmarksView, name: Seq<u8>, now: Timestamp)
    requires
        s.ttl is None || s.snapshot is None || expired(s.snapshot->0.taken, now, s.ttl->0),
    ensures
        bookmark_at(s, name, now) == lookup(s.store, name),
{
}

/// An update is seen by every read that comes a time to live or more
/// after the snapshot was taken, whatever was read before.
pub proof fn lemma_update_seen_after_ttl(
    s: CachedBookmarksView,
    name: Seq<u8>,
    target: Seq<u8>,
    now: Timestamp,
)
    requires
        distinct_keys(s.store),
        s.ttl is None || s.snapshot is None || expired(s.snapshot->0.taken, now, s.ttl->0),
    ensures
        bookmark_at(after_update(s, name, target), name, now) == Some(target),
{
    lemma_with_pair(s.store, name, target);
}

} // verus!
