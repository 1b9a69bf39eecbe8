//! Cache pools and the local cache tier. A pool is a named, bounded cache
//! region of the process; when it is full, the entry that arrived first
//! makes room. The local cache keeps two pools apart: one for blob bytes,
//! one for whether a key exists at all.

use vstd::prelude::*;
use crate::registry::{CachePoolRegistry, PoolName};
use crate::table::{
    copy_bytes, distinct_keys, has_key, lemma_drop_first, lemma_with_pair, lemma_without_key,
    lookup, with_pair, without_key, ByteTable, Pair,
};

verus! {

/// What a pool holds.
pub struct CachePoolView {
    pub name: Seq<char>,
    pub capacity: usize,
    /// Oldest entry first.
    pub entries: Seq<Pair>,
}

/// The entries of a pool after an insert. A pool without room drops its
/// oldest entry for a new key; a pool of capacity zero takes nothing.
pub open spec fn pool_insert(entries: Seq<Pair>, capacity: usize, key: Seq<u8>, value: Seq<u8>) -> Seq<
    Pair,
> {
    if capacity == 0 {
        entries
    } else if !has_key(entries, key) && entries.len() >= capacity {
        entries.drop_first().push((key, value))
    } else {
        with_pair(entries, key, value)
    }
}

/// An insert never makes a pool return a value that was not put there: the
/// inserted key reads as inserted, and any other key reads as before or not
/// at all.
pub proof fn lemma_pool_insert(entries: Seq<Pair>, capacity: usize, key: Seq<u8>, value: Seq<u8>)
    requires
        distinct_keys(entries),
        entries.len() <= capacity,
    ensures
        distinct_keys(pool_insert(entries, capacity, key, value)),
        pool_insert(entries, capacity, key, value).len() <= capacity,
        capacity > 0 ==> lookup(pool_insert(entries, capacity, key, value), key) == Some(value),
        forall|other: Seq<u8>|
            other != key ==> lookup(pool_insert(entries, capacity, key, value), other) is None
                || lookup(pool_insert(entries, capacity, key, value), other) == lookup(
                entries,
                other,
            ),
        !has_key(entries, key) && entries.len() >= capacity && capacity > 0 ==> pool_insert(
            entries,
            capacity,
            key,
            value,
        ) == with_pair(entries.drop_first(), key, value),
{
    if capacity == 0 {
    } else if !has_key(entries, key) && entries.len() >= capacity {
        let room = entries.drop_first();
        lemma_drop_first(entries);
        lemma_without_key(entries, entries[0].0);
        assert(!has_key(room, key)) by {
            if has_key(room, key) {
                assert(lookup(room, key) is Some);
                if key != entries[0].0 {
                    assert(lookup(entries, key) is Some);
                }
            }
        }
        lemma_with_pair(room, key, value);
    } else {
        lemma_with_pair(entries, key, value);
    }
}

/// A named, bounded cache region.
#[derive(Debug)]
pub struct CachePool {
    name: String,
    capacity: usize,
    table: ByteTable,
}

impl View for CachePool {
    type V = CachePoolView;

    closed spec fn view(&self) -> CachePoolView {
        CachePoolView { name: self.name@, capacity: self.capacity, entries: self.table@ }
    }
}

impl CachePool {
    /// Holds of every pool that `new` made, after any of its methods.
    pub closed spec fn wf(&self) -> bool {
        self.table.wf() && self.table@.len() <= self.capacity
    }

    /// A pool never holds a key twice, nor more entries than its capacity.
    pub proof fn lemma_wf(&self)
        requires
            self.wf(),
        ensures
            distinct_keys(self@.entries),
            self@.entries.len() <= self@.capacity,
    {
    }

    /// An empty pool.
    pub fn new(name: String, capacity: usize) -> (r: Self)
        ensures
            r.wf(),
            r@ == (CachePoolView { name: name@, capacity, entries: Seq::empty() }),
    {
        CachePool { name, capacity, table: ByteTable::new() }
    }

    /// An empty pool of the registered size, or nothing where the registry
    /// does not know the pool.
    pub fn from_registry(registry: &CachePoolRegistry, pool: PoolName) -> (r: Option<Self>)
        ensures
            r is Some == registry.has(pool),
            r is Some ==> r->0.wf() && r->0@ == (CachePoolView {
                name: pool.spec_name(),
                capacity: registry.lookup(pool.spec_name())->0,
                entries: Seq::empty(),
            }),
    {
        let name = pool.name();
        match registry.get_pool(name.as_str()) {
            Some(capacity) => Some(CachePool::new(name, capacity)),
            None => None,
        }
    }

    pub fn name(&self) -> (r: &String)
        ensures
            r@ == self@.name,
    {
        &self.name
    }

    pub fn capacity(&self) -> (r: usize)
        ensures
            r == self@.capacity,
    {
        self.capacity
    }

    pub fn len(&self) -> (r: usize)
        ensures
            r == self@.entries.len(),
    {
        self.table.len()
    }

    /// A copy of what is cached under `key`.
    pub fn get(&self, key: &[u8]) -> (r: Option<Vec<u8>>)
        requires
            self.wf(),
        ensures
            match r {
                Some(value) => lookup(self@.entries, key@) == Some(value@),
                None => lookup(self@.entries, key@) is None,
            },
    {
        self.table.get(key)
    }

    /// Caches `value` under `key`.
    pub fn insert(&mut self, key: &[u8], value: &[u8])
        requires
            old(self).wf(),
        ensures
            final(self).wf(),
            final(self)@ == (CachePoolView {
                entries: pool_insert(old(self)@.entries, old(self)@.capacity, key@, value@),
                ..old(self)@
            }),
    {
        proof {
            lemma_pool_insert(self@.entries, self.capacity, key@, value@);
        }
        if self.capacity == 0 {
            return ;
        }
        if self.table.find(key).is_none() && self.table.len() >= self.capacity {
            self.table.remove_oldest();
        }
        self.table.set(copy_bytes(key), copy_bytes(value));
    }

    /// Drops what is cached under `key`, and returns whether anything was.
    pub fn evict(&mut self, key: &[u8]) -> (r: bool)
        requires
            old(self).wf(),
        ensures
            final(self).wf(),
            r == has_key(old(self)@.entries, key@),
            final(self)@ == (CachePoolView {
                entries: without_key(old(self)@.entries, key@),
                ..old(self)@
            }),
    {
        proof {
            lemma_without_key(self@.entries, key@);
        }
        self.table.remove(key)
    }
}

/// What the local cache knows of a key.
#[derive(Clone, Debug, PartialEq, Eq)]
pub enum CacheAnswer {
    /// The bytes are cached.
    Hit(Vec<u8>),
    /// The key is known not to exist.
    KnownAbsent,
    /// Nothing is known.
    Miss,
}

/// What a cache answer holds.
pub enum CacheLookup {
    Hit(Seq<u8>),
    KnownAbsent,
    Miss,
}

impl View for CacheAnswer {
    type V = CacheLookup;

    open spec fn view(&self) -> CacheLookup {
        match self {
            CacheAnswer::Hit(bytes) => CacheLookup::Hit(bytes@),
            CacheAnswer::KnownAbsent => CacheLookup::KnownAbsent,
            CacheAnswer::Miss => CacheLookup::Miss,
        }
    }
}

/// What the local cache holds.
pub struct LocalCacheView {
    pub blobs: CachePoolView,
    pub presence: CachePoolView,
}

/// The mark under which the presence pool records that a key exists.
pub open spec fn present_mark() -> Seq<u8> {
    seq![1u8]
}

/// The mark under which the presence pool records that a key does not
/// exist.
pub open spec fn absent_mark() -> Seq<u8> {
    seq![0u8]
}

/// The mark for a key that exists, or for one that does not.
pub open spec fn presence_mark(present: bool) -> Seq<u8> {
    if present {
        present_mark()
    } else {
        absent_mark()
    }
}

/// What the cache answers: the presence pool is asked first, then the
/// bytes pool.
pub open spec fn local_lookup(cache: LocalCacheView, key: Seq<u8>) -> CacheLookup {
    if lookup(cache.presence.entries, key) == Some(absent_mark()) {
        CacheLookup::KnownAbsent
    } else {
        match lookup(cache.blobs.entries, key) {
            Some(value) => CacheLookup::Hit(value),
            None => CacheLookup::Miss,
        }
    }
}

/// The cache after it was told the bytes of a key. The presence pool stays
/// as it is.
pub open spec fn with_blob(cache: LocalCacheView, key: Seq<u8>, value: Seq<u8>) -> LocalCacheView {
    LocalCacheView {
        blobs: CachePoolView {
            entries: pool_insert(cache.blobs.entries, cache.blobs.capacity, key, value),
            ..cache.blobs
        },
        ..cache
    }
}

/// The cache after it was told whether a key exists. The bytes pool stays
/// as it is.
pub open spec fn with_presence(cache: LocalCacheView, key: Seq<u8>, present: bool) -> LocalCacheView {
    LocalCacheView {
        presence: CachePoolView {
            entries: pool_insert(
                cache.presence.entries,
                cache.presence.capacity,
                key,
                presence_mark(present),
            ),
            ..cache.presence
        },
        ..cache
    }
}

/// The cache after the bytes of a key were dropped from it.
pub open spec fn without_blob(cache: LocalCacheView, key: Seq<u8>) -> LocalCacheView {
    LocalCacheView {
        blobs: CachePoolView { entries: without_key(cache.blobs.entries, key), ..cache.blobs },
        ..cache
    }
}

/// The cache after all it knew of a key was dropped from it.
pub open spec fn forgotten(cache: LocalCacheView, key: Seq<u8>) -> LocalCacheView {
    LocalCacheView {
        blobs: CachePoolView { entries: without_key(cache.blobs.entries, key), ..cache.blobs },
        presence: CachePoolView {
            entries: without_key(cache.presence.entries, key),
            ..cache.presence
        },
    }
}

/// The cache after it learned what is stored under a key: a value updates
/// both pools; an absent key is marked absent and its bytes are dropped.
pub open spec fn remembered(cache: LocalCacheView, key: Seq<u8>, value: Option<Seq<u8>>) -> LocalCacheView {
    match value {
        Some(bytes) => with_presence(with_blob(cache, key, bytes), key, true),
        None => with_presence(without_blob(cache, key), key, false),
    }
}

/// The process-local cache tier: a pool for blob bytes and a pool for
/// existence, so that lookups of either kind never evict the other's
/// entries.
#[derive(Debug)]
pub struct LocalCache {
    blobs: CachePool,
    presence: CachePool,
}

impl View for LocalCache {
    type V = LocalCacheView;

    closed spec fn view(&self) -> LocalCacheView {
        LocalCacheView { blobs: self.blobs@, presence: self.presence@ }
    }
}

impl LocalCache {
    /// Holds of every cache that `new` made, after any of its methods.
    pub closed spec fn wf(&self) -> bool {
        self.blobs.wf() && self.presence.wf()
    }

    /// Neither pool holds a key twice, nor more entries than its capacity.
    pub proof fn lemma_wf(&self)
        requires
            self.wf(),
        ensures
            distinct_keys(self@.blobs.entries),
            self@.blobs.entries.len() <= self@.blobs.capacity,
            distinct_keys(self@.presence.entries),
            self@.presence.entries.len() <= self@.presence.capacity,
    {
        self.blobs.lemma_wf();
        self.presence.lemma_wf();
    }

    /// A cache over the two given pools.
    pub fn new(blobs: CachePool, presence: CachePool) -> (r: Self)
        requires
            blobs.wf(),
            presence.wf(),
        ensures
            r.wf(),
            r@ == (LocalCacheView { blobs: blobs@, presence: presence@ }),
    {
        LocalCache { blobs, presence }
    }

    /// A cache over fresh pools of the registered sizes. Fails with the
    /// first pool that the registry does not know: the bytes pool, then the
    /// presence pool.
    pub fn from_registry(registry: &CachePoolRegistry) -> (r: Result<Self, PoolName>)
        ensures
            match r {
                Ok(cache) => {
                    &&& cache.wf()
                    &&& registry.has(PoolName::BlobstoreBlobs)
                    &&& registry.has(PoolName::BlobstorePresence)
                    &&& cache@.blobs == (CachePoolView {
                        name: PoolName::BlobstoreBlobs.spec_name(),
                        capacity: registry.lookup(PoolName::BlobstoreBlobs.spec_name())->0,
                        entries: Seq::empty(),
                    })
                    &&& cache@.presence == (CachePoolView {
                        name: PoolName::BlobstorePresence.spec_name(),
                        capacity: registry.lookup(PoolName::BlobstorePresence.spec_name())->0,
                        entries: Seq::empty(),
                    })
                },
                Err(pool) => !registry.has(pool) && if registry.has(PoolName::BlobstoreBlobs) {
                    pool == PoolName::BlobstorePresence
                } else {
                    pool == PoolName::BlobstoreBlobs
                },
            },
    {
        let blobs = match CachePool::from_registry(registry, PoolName::BlobstoreBlobs) {
            Some(pool) => pool,
            None => {
                return Err(PoolName::BlobstoreBlobs);
            },
        };
        let presence = match CachePool::from_registry(registry, PoolName::BlobstorePresence) {
            Some(pool) => pool,
            None => {
                return Err(PoolName::BlobstorePresence);
            },
        };
        Ok(LocalCache::new(blobs, presence))
    }

    /// The pool of blob bytes.
    pub fn blobs(&self) -> (r: &CachePool)
        ensures
            r@ == self@.blobs,
            self.wf() ==> r.wf(),
    {
        &self.blobs
    }

    /// The pool of existence marks.
    pub fn presence(&self) -> (r: &CachePool)
        ensures
            r@ == self@.presence,
            self.wf() ==> r.wf(),
    {
        &self.presence
    }

    /// What the cache knows of `key`.
    pub fn lookup(&self, key: &[u8]) -> (r: CacheAnswer)
        requires
            self.wf(),
        ensures
            r@ == local_lookup(self@, key@),
    {
        match self.presence.get(key) {
            Some(mark) => {
                if mark.len() == 1 && mark[0] == 0 {
                    assert(mark@ =~= absent_mark());
                    return CacheAnswer::KnownAbsent;
                }
                assert(mark@ != absent_mark()) by {
                    if mark@ == absent_mark() {
                        assert(absent_mark().len() == 1 && absent_mark()[0] == 0u8);
                    }
                }
            },
            None => {},
        }
        match self.blobs.get(key) {
            Some(value) => CacheAnswer::Hit(value),
            None => CacheAnswer::Miss,
        }
    }

    /// Caches the bytes of `key`. The presence pool is not touched,
    /// whatever the bytes pool has to drop.
    pub fn remember_blob(&mut self, key: &[u8], value: &[u8])
        requires
            old(self).wf(),
        ensures
            final(self).wf(),
            final(self)@ == with_blob(old(self)@, key@, value@),
            final(self)@.presence == old(self)@.presence,
    {
        self.blobs.insert(key, value);
    }

    /// Caches whether `key` exists. The bytes pool is not touched, whatever
    /// the presence pool has to drop.
    pub fn remember_presence(&mut self, key: &[u8], present: bool)
        requires
            old(self).wf(),
        ensures
            final(self).wf(),
            final(self)@ == with_presence(old(self)@, key@, present),
            final(self)@.blobs == old(self)@.blobs,
    {
        let mut mark: Vec<u8> = Vec::new();
        mark.push(if present {
            1u8
        } else {
            0u8
        });
        assert(mark@ =~= presence_mark(present));
        self.presence.insert(key, mark.as_slice());
    }

    /// Caches what is stored under `key`: its bytes, or that there are
    /// none.
    pub fn remember(&mut self, key: &[u8], value: Option<&[u8]>)
        requires
            old(self).wf(),
        ensures
            final(self).wf(),
            final(self)@ == remembered(
                old(self)@,
                key@,
                match value {
                    Some(bytes) => Some(bytes@),
                    None => None,
                },
            ),
    {
        match value {
            Some(bytes) => {
                self.remember_blob(key, bytes);
                self.remember_presence(key, true);
            },
            None => {
                self.blobs.evict(key);
                self.remember_presence(key, false);
            },
        }
    }

    /// Drops all that is cached of `key`.
    pub fn forget(&mut self, key: &[u8])
        requires
            old(self).wf(),
        ensures
            final(self).wf(),
            final(self)@ == forgotten(old(self)@, key@),
    {
        self.blobs.evict(key);
        self.presence.evict(key);
    }
}

/// The two pools are evicted independently: what the bytes pool takes or
/// drops leaves the presence pool as it is, and the other way round.
pub proof fn lemma_pools_are_independent(
    cache: LocalCacheView,
    key: Seq<u8>,
    value: Seq<u8>,
    present: bool,
)
    ensures
        with_blob(cache, key, value).presence == cache.presence,
        without_blob(cache, key).presence == cache.presence,
        with_presence(cache, key, present).blobs == cache.blobs,
{
}

} // verus!
