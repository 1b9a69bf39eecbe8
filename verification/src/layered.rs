//! The blobstore as callers see it: the censorship filter, the local cache
//! and the distributed cache in front of the storage itself.
//!
//! A denylisted key is refused before any layer is consulted, so no cache
//! and no driver ever sees it. Otherwise a read asks the local cache, then
//! the distributed cache, then the storage, and each layer learns what the
//! one behind it answered. A write goes to the storage first and reaches
//! the caches only when the storage has taken it.

use vstd::prelude::*;
use crate::cache::{
    forgotten, lemma_pool_insert, local_lookup, pool_insert, presence_mark, remembered,
    CacheAnswer, CacheLookup, CachePool, CachePoolView, LocalCache, LocalCacheView,
};
use crate::censor::{lemma_reason_push, reason_of, screened, Ban, CensoredKeys};
use crate::config::{lemma_scoped_is_injective, scoped, scoped_key, RepositoryId};
use crate::engine::{after_get, after_put, get_of, put_accepted, EngineView, MultiplexedBlobstore};
use crate::errors::{BlobError, BlobFault, ErrorKind};
use crate::factory::BlobLayer;
use crate::memblob::{read_of, write_to, GetOutcome, MemBlob, MemBlobView, Read};
use crate::multiplex::answer_view;
use crate::registry::{CachePoolRegistry, PoolName};
use crate::table::{copy_bytes, distinct_keys, lemma_without_key, lookup, without_key};
use crate::time::{utc_now, Timestamp};

verus! {

/// The storage behind the layers.
#[derive(Debug)]
pub enum Backing {
    /// Fails every operation.
    Disabled,
    /// One driver.
    Single(MemBlob),
    /// Several drivers behind a multiplexed engine.
    Multiplexed(MultiplexedBlobstore),
}

/// What the storage holds.
pub enum BackingView {
    Disabled,
    Single(MemBlobView),
    Multiplexed(EngineView),
}

impl View for Backing {
    type V = BackingView;

    open spec fn view(&self) -> BackingView {
        match self {
            Backing::Disabled => BackingView::Disabled,
            Backing::Single(driver) => BackingView::Single(driver@),
            Backing::Multiplexed(engine) => BackingView::Multiplexed(engine@),
        }
    }
}

/// What a write's result holds.
pub open spec fn outcome_view(r: Result<(), BlobError>) -> Result<(), BlobFault> {
    match r {
        Ok(_) => Ok(()),
        Err(e) => Err(e@),
    }
}

/// What the storage answers to a read.
pub open spec fn backing_get(b: BackingView, key: Seq<u8>) -> Result<Option<Seq<u8>>, BlobFault> {
    match b {
        BackingView::Disabled => Err(BlobFault::Disabled),
        BackingView::Single(driver) => match read_of(driver, key) {
            Read::Found(value) => Ok(Some(value)),
            Read::Absent => Ok(None),
            Read::Failed => Err(BlobFault::DriverFailed),
        },
        BackingView::Multiplexed(engine) => get_of(engine, key),
    }
}

/// The storage after a read.
pub open spec fn backing_after_get(b: BackingView, key: Seq<u8>, now: Timestamp) -> BackingView {
    match b {
        BackingView::Multiplexed(engine) => BackingView::Multiplexed(after_get(engine, key, now)),
        _ => b,
    }
}

/// What the storage answers to a write.
pub open spec fn backing_put(b: BackingView) -> Result<(), BlobFault> {
    match b {
        BackingView::Disabled => Err(BlobFault::Disabled),
        BackingView::Single(driver) => if driver.online {
            Ok(())
        } else {
            Err(BlobFault::DriverFailed)
        },
        BackingView::Multiplexed(engine) => if put_accepted(engine) {
            Ok(())
        } else {
            Err(BlobFault::AllMembersFailed)
        },
    }
}

/// The storage after a write.
pub open spec fn backing_after_put(
    b: BackingView,
    key: Seq<u8>,
    value: Seq<u8>,
    now: Timestamp,
) -> BackingView {
    match b {
        BackingView::Disabled => b,
        BackingView::Single(driver) => BackingView::Single(write_to(driver, key, value)),
        BackingView::Multiplexed(engine) => BackingView::Multiplexed(
            after_put(engine, key, value, now),
        ),
    }
}

impl Backing {
    /// Holds of storage whose drivers were made by their constructors.
    pub open spec fn wf(&self) -> bool {
        match self {
            Backing::Disabled => true,
            Backing::Single(driver) => driver.wf(),
            Backing::Multiplexed(engine) => engine.wf(),
        }
    }

    /// Reads `key`; rows that go to a sync queue carry the time `now`.
    pub fn get_at(&mut self, key: &[u8], now: Timestamp) -> (r: Result<Option<Vec<u8>>, BlobError>)
        requires
            old(self).wf(),
        ensures
            final(self).wf(),
            answer_view(r) == backing_get(old(self)@, key@),
            final(self)@ == backing_after_get(old(self)@, key@, now),
    {
        match self {
            Backing::Disabled => Err(BlobError::Disabled),
            Backing::Single(driver) => match driver.get(key) {
                GetOutcome::Found(value) => Ok(Some(value)),
                GetOutcome::Absent => Ok(None),
                GetOutcome::Failed => Err(BlobError::DriverFailed),
            },
            Backing::Multiplexed(engine) => engine.get_at(key, now),
        }
    }

    /// Writes `value` under `key`; rows that go to a sync queue carry the
    /// time `now`.
    pub fn put_at(&mut self, key: &[u8], value: &[u8], now: Timestamp) -> (r: Result<(), BlobError>)
        requires
            old(self).wf(),
        ensures
            final(self).wf(),
            outcome_view(r) == backing_put(old(self)@),
            final(self)@ == backing_after_put(old(self)@, key@, value@, now),
    {
        match self {
            Backing::Disabled => Err(BlobError::Disabled),
            Backing::Single(driver) => {
                if driver.put(copy_bytes(key), copy_bytes(value)) {
                    Ok(())
                } else {
                    Err(BlobError::DriverFailed)
                }
            },
            Backing::Multiplexed(engine) => engine.put_at(key, value, now),
        }
    }
}

/// What the layers in front of the storage hold.
pub struct LayersView {
    /// The repository whose keys these layers cache. In the caches every
    /// key is stored under the repository's scope.
    pub repo: RepositoryId,
    pub censored: Seq<Ban>,
    pub distributed: Option<CachePoolView>,
    pub local: Option<LocalCacheView>,
}

/// What the layered blobstore holds.
pub struct LayeredView {
    pub layers: LayersView,
    pub inner: BackingView,
}

/// What the local cache, if there is one, knows of `key`.
pub open spec fn local_answer(local: Option<LocalCacheView>, key: Seq<u8>) -> CacheLookup {
    match local {
        Some(cache) => local_lookup(cache, key),
        None => CacheLookup::Miss,
    }
}

/// What the distributed cache, if there is one, holds under `key`.
pub open spec fn distributed_answer(distributed: Option<CachePoolView>, key: Seq<u8>) -> Option<
    Seq<u8>,
> {
    match distributed {
        Some(pool) => lookup(pool.entries, key),
        None => None,
    }
}

/// The local cache after it learned what is stored under `key`.
pub open spec fn local_after(
    local: Option<LocalCacheView>,
    key: Seq<u8>,
    value: Option<Seq<u8>>,
) -> Option<LocalCacheView> {
    match local {
        Some(cache) => Some(remembered(cache, key, value)),
        None => None,
    }
}

/// The distributed cache after it learned the value of `key`.
pub open spec fn distributed_after(
    distributed: Option<CachePoolView>,
    key: Seq<u8>,
    value: Seq<u8>,
) -> Option<CachePoolView> {
    match distributed {
        Some(pool) => Some(
            CachePoolView { entries: pool_insert(pool.entries, pool.capacity, key, value), ..pool },
        ),
        None => None,
    }
}

/// How far the layers get with a read on their own.
#[derive(Clone, Debug, PartialEq, Eq)]
pub enum GetStep {
    /// The key is denylisted for this reason.
    Refused(String),
    /// A cache had the answer.
    Done(Option<Vec<u8>>),
    /// The storage has to be asked.
    AskStorage,
}

/// What a step holds.
pub enum GetStepView {
    Refused(Seq<char>),
    Done(Option<Seq<u8>>),
    AskStorage,
}

impl View for GetStep {
    type V = GetStepView;

    open spec fn view(&self) -> GetStepView {
        match self {
            GetStep::Refused(reason) => GetStepView::Refused(reason@),
            GetStep::Done(Some(value)) => GetStepView::Done(Some(value@)),
            GetStep::Done(None) => GetStepView::Done(None),
            GetStep::AskStorage => GetStepView::AskStorage,
        }
    }
}

/// How far the layers get with a read: the denylist is asked first, then
/// the local cache, then the distributed cache.
pub open spec fn begin_get_step(c: LayersView, key: Seq<u8>) -> GetStepView {
    match reason_of(c.censored, key, 0) {
        Some(reason) => GetStepView::Refused(reason),
        None => match local_answer(c.local, scoped(c.repo, key)) {
            CacheLookup::Hit(value) => GetStepView::Done(Some(value)),
            CacheLookup::KnownAbsent => GetStepView::Done(None),
            CacheLookup::Miss => match distributed_answer(c.distributed, scoped(c.repo, key)) {
                Some(value) => GetStepView::Done(Some(value)),
                None => GetStepView::AskStorage,
            },
        },
    }
}

/// The layers after that step: what the distributed cache answered, the
/// local cache has learned.
pub open spec fn after_begin_get(c: LayersView, key: Seq<u8>) -> LayersView {
    if reason_of(c.censored, key, 0) is None && local_answer(c.local, scoped(c.repo, key)) is Miss
        && distributed_answer(c.distributed, scoped(c.repo, key)) is Some {
        LayersView {
            local: local_after(
                c.local,
                scoped(c.repo, key),
                distributed_answer(c.distributed, scoped(c.repo, key)),
            ),
            ..c
        }
    } else {
        c
    }
}

/// The layers after the storage answered a read: both caches learn a
/// value, the local cache learns that a key is absent. A denylisted key
/// teaches them nothing.
pub open spec fn after_storage_answer(c: LayersView, key: Seq<u8>, found: Option<Seq<u8>>) -> LayersView {
    if reason_of(c.censored, key, 0) is Some {
        c
    } else {
        match found {
            Some(value) => LayersView {
                distributed: distributed_after(c.distributed, scoped(c.repo, key), value),
                local: local_after(c.local, scoped(c.repo, key), Some(value)),
                ..c
            },
            None => LayersView { local: local_after(c.local, scoped(c.repo, key), None), ..c },
        }
    }
}

/// What the denylist answers to a write.
pub open spec fn begin_put_step(c: LayersView, key: Seq<u8>) -> Result<(), BlobFault> {
    screened(c.censored, key)
}

/// What a read answers.
pub open spec fn layered_get(s: LayeredView, key: Seq<u8>) -> Result<Option<Seq<u8>>, BlobFault> {
    match begin_get_step(s.layers, key) {
        GetStepView::Refused(reason) => Err(BlobFault::Censored(reason)),
        GetStepView::Done(answer) => Ok(answer),
        GetStepView::AskStorage => backing_get(s.inner, key),
    }
}

/// The blobstore after a read.
pub open spec fn layered_after_get(s: LayeredView, key: Seq<u8>, now: Timestamp) -> LayeredView {
    match begin_get_step(s.layers, key) {
        GetStepView::AskStorage => LayeredView {
            layers: match backing_get(s.inner, key) {
                Ok(found) => after_storage_answer(s.layers, key, found),
                Err(_) => s.layers,
            },
            inner: backing_after_get(s.inner, key, now),
        },
        _ => LayeredView { layers: after_begin_get(s.layers, key), ..s },
    }
}

/// What a write answers.
pub open spec fn layered_put(s: LayeredView, key: Seq<u8>) -> Result<(), BlobFault> {
    match begin_put_step(s.layers, key) {
        Err(e) => Err(e),
        Ok(_) => backing_put(s.inner),
    }
}

/// The blobstore after a write: the caches take the value if and only if
/// the storage did.
pub open spec fn layered_after_put(
    s: LayeredView,
    key: Seq<u8>,
    value: Seq<u8>,
    now: Timestamp,
) -> LayeredView {
    if begin_put_step(s.layers, key) is Err {
        s
    } else {
        LayeredView {
            layers: if backing_put(s.inner) is Ok {
                after_storage_answer(s.layers, key, Some(value))
            } else {
                s.layers
            },
            inner: backing_after_put(s.inner, key, value, now),
        }
    }
}

/// The layers after `key` was denylisted: the key joins the denylist
/// unless it is there already, and all that the caches hold of it is
/// dropped.
pub open spec fn after_censor(c: LayersView, key: Seq<u8>, reason: Seq<char>) -> LayersView {
    LayersView {
        censored: if reason_of(c.censored, key, 0) is Some {
            c.censored
        } else {
            c.censored.push((key, reason))
        },
        distributed: match c.distributed {
            Some(pool) => Some(
                CachePoolView { entries: without_key(pool.entries, scoped(c.repo, key)), ..pool },
            ),
            None => None,
        },
        local: match c.local {
            Some(cache) => Some(forgotten(cache, scoped(c.repo, key))),
            None => None,
        },
        ..c
    }
}

/// The name under which the distributed cache keeps blobs.
pub open spec fn distributed_namespace() -> Seq<char> {
    "multiplexed"@
}

/// What an optional pool holds.
pub open spec fn pool_view(pool: Option<CachePool>) -> Option<CachePoolView> {
    match pool {
        Some(p) => Some(p@),
        None => None,
    }
}

/// What an optional local cache holds.
pub open spec fn cache_view(cache: Option<LocalCache>) -> Option<LocalCacheView> {
    match cache {
        Some(c) => Some(c@),
        None => None,
    }
}

/// Why the layers cannot be built: the local cache needs its two pools.
pub open spec fn layers_fault(layers: Seq<BlobLayer>, registry: CachePoolRegistry) -> Option<
    ErrorKind,
> {
    if !layers.contains(BlobLayer::LocalCache) {
        None
    } else if !registry.has(PoolName::BlobstoreBlobs) {
        Some(ErrorKind::MissingCachePool(PoolName::BlobstoreBlobs))
    } else if !registry.has(PoolName::BlobstorePresence) {
        Some(ErrorKind::MissingCachePool(PoolName::BlobstorePresence))
    } else {
        None
    }
}

/// The layers as they are built: empty caches and an empty denylist.
pub open spec fn layers_from(
    repo: RepositoryId,
    layers: Seq<BlobLayer>,
    registry: CachePoolRegistry,
) -> LayersView {
    LayersView {
        repo,
        censored: Seq::empty(),
        distributed: if layers.contains(BlobLayer::DistributedCache) {
            Some(
                CachePoolView {
                    name: distributed_namespace(),
                    capacity: usize::MAX,
                    entries: Seq::empty(),
                },
            )
        } else {
            None
        },
        local: if layers.contains(BlobLayer::LocalCache) {
            Some(
                LocalCacheView {
                    blobs: CachePoolView {
                        name: PoolName::BlobstoreBlobs.spec_name(),
                        capacity: registry.lookup(PoolName::BlobstoreBlobs.spec_name())->0,
                        entries: Seq::empty(),
                    },
                    presence: CachePoolView {
                        name: PoolName::BlobstorePresence.spec_name(),
                        capacity: registry.lookup(PoolName::BlobstorePresence.spec_name())->0,
                        entries: Seq::empty(),
                    },
                },
            )
        } else {
            None
        },
    }
}

/// The layers that live in this process, outermost first: the denylist
/// and the local cache, as far as they are switched on.
pub open spec fn in_process_layers(layers: Seq<BlobLayer>) -> Seq<BlobLayer> {
    let censorship = if layers.contains(BlobLayer::Censorship) {
        seq![BlobLayer::Censorship]
    } else {
        Seq::empty()
    };
    if layers.contains(BlobLayer::LocalCache) {
        censorship.push(BlobLayer::LocalCache)
    } else {
        censorship
    }
}

/// How the layers are put together where the distributed cache is a
/// service of its own.
#[derive(Debug)]
pub struct LayerSplit {
    /// The layers of this process, outermost first. They go in front of
    /// everything else.
    pub in_process: Vec<BlobLayer>,
    /// Whether the distributed cache is switched on. It goes directly in
    /// front of the storage, behind the layers of this process, so that a
    /// denylisted key never reaches it.
    pub distributed: bool,
}

/// Splits the layers of a plan into those of this process and the
/// distributed cache behind them. The order in which the plan lists them
/// plays no part.
pub fn split_layers(layers: &Vec<BlobLayer>) -> (r: LayerSplit)
    ensures
        r.in_process@ == in_process_layers(layers@),
        r.distributed == layers@.contains(BlobLayer::DistributedCache),
{
    let mut in_process: Vec<BlobLayer> = Vec::new();
    if has_layer(layers, BlobLayer::Censorship) {
        in_process.push(BlobLayer::Censorship);
    }
    if has_layer(layers, BlobLayer::LocalCache) {
        in_process.push(BlobLayer::LocalCache);
    }
    assert(in_process@ =~= in_process_layers(layers@));
    LayerSplit { in_process, distributed: has_layer(layers, BlobLayer::DistributedCache) }
}

/// The layers of this process are built alike whether or not the
/// distributed cache stands behind them: same faults, same denylist, same
/// local cache.
pub proof fn lemma_split_keeps_layers(
    repo: RepositoryId,
    layers: Seq<BlobLayer>,
    registry: CachePoolRegistry,
)
    ensures
        layers_fault(in_process_layers(layers), registry) == layers_fault(layers, registry),
        layers_from(repo, in_process_layers(layers), registry) == (LayersView {
            distributed: None,
            ..layers_from(repo, layers, registry)
        }),
{
    let inner = in_process_layers(layers);
    if layers.contains(BlobLayer::LocalCache) {
        assert(inner[inner.len() - 1] == BlobLayer::LocalCache);
    }
    assert(!inner.contains(BlobLayer::DistributedCache));
    assert(inner.contains(BlobLayer::LocalCache) == layers.contains(BlobLayer::LocalCache));
}

/// A pool as its own rules leave it: no key twice, no more entries than
/// its capacity.
pub open spec fn valid_pool(pool: CachePoolView) -> bool {
    distinct_keys(pool.entries) && pool.entries.len() <= pool.capacity
}

/// Caches as their own rules leave them.
pub open spec fn valid_caches(c: LayersView) -> bool {
    &&& c.distributed matches Some(pool) ==> valid_pool(pool)
    &&& c.local matches Some(cache) ==> valid_pool(cache.blobs) && valid_pool(cache.presence)
}

/// No cache holds anything of `key` for the repository of these layers.
pub open spec fn uncached(c: LayersView, key: Seq<u8>) -> bool {
    &&& distributed_answer(c.distributed, scoped(c.repo, key)) is None
    &&& c.local matches Some(cache) ==> lookup(cache.blobs.entries, scoped(c.repo, key)) is None
        && lookup(cache.presence.entries, scoped(c.repo, key)) is None
}

/// No cache holds anything of a denylisted key.
pub open spec fn clean(c: LayersView) -> bool {
    forall|key: Seq<u8>| #[trigger] reason_of(c.censored, key, 0) is Some ==> uncached(c, key)
}

/// The layers in front of a storage: the denylist and the two caches. They
/// are asked before the storage is, and told what it answered.
#[derive(Debug)]
pub struct CacheLayers {
    repo: RepositoryId,
    censored: CensoredKeys,
    distributed: Option<CachePool>,
    local: Option<LocalCache>,
}

impl View for CacheLayers {
    type V = LayersView;

    closed spec fn view(&self) -> LayersView {
        LayersView {
            repo: self.repo,
            censored: self.censored@,
            distributed: pool_view(self.distributed),
            local: cache_view(self.local),
        }
    }
}

/// Whether `layer` is among `layers`.
fn has_layer(layers: &Vec<BlobLayer>, layer: BlobLayer) -> (r: bool)
    ensures
        r == layers@.contains(layer),
{
    let mut i: usize = 0;
    while i < layers.len()
        invariant
            i <= layers.len(),
            forall|k: int| 0 <= k < i ==> layers@[k] != layer,
        decreases layers.len() - i,
    {
        if layers[i] == layer {
            return true;
        }
        i += 1;
    }
    false
}

impl CacheLayers {
    /// Holds of all layers that a constructor made, after any of their
    /// methods. It includes that no cache holds anything of a denylisted
    /// key.
    pub closed spec fn wf(&self) -> bool {
        &&& self.distributed matches Some(pool) ==> pool.wf()
        &&& self.local matches Some(cache) ==> cache.wf()
        &&& clean(self@)
    }

    /// The caches hold nothing of a denylisted key.
    pub proof fn lemma_wf(&self)
        requires
            self.wf(),
        ensures
            valid_caches(self@),
            clean(self@),
    {
        match self.distributed {
            Some(pool) => {
                pool.lemma_wf();
            },
            None => {},
        }
        match self.local {
            Some(cache) => {
                cache.lemma_wf();
            },
            None => {},
        }
    }

    /// No layer at all.
    pub fn none(repo: RepositoryId) -> (r: Self)
        ensures
            r.wf(),
            r@ == (LayersView { repo, censored: Seq::empty(), distributed: None, local: None }),
    {
        let r = CacheLayers {
            repo,
            censored: CensoredKeys::new(),
            distributed: None,
            local: None,
        };
        assert(clean(r@));
        r
    }

    /// Layers over caches that exist already and may hold the keys of
    /// other repositories. The denylist starts empty.
    pub fn with_caches(
        repo: RepositoryId,
        distributed: Option<CachePool>,
        local: Option<LocalCache>,
    ) -> (r: Self)
        requires
            distributed matches Some(pool) ==> pool.wf(),
            local matches Some(cache) ==> cache.wf(),
        ensures
            r.wf(),
            r@ == (LayersView {
                repo,
                censored: Seq::empty(),
                distributed: pool_view(distributed),
                local: cache_view(local),
            }),
    {
        let r = CacheLayers { repo, censored: CensoredKeys::new(), distributed, local };
        assert(clean(r@));
        r
    }

    /// Hands the caches on, with all they hold: the distributed cache and
    /// the local cache.
    pub fn into_caches(self) -> (r: (Option<CachePool>, Option<LocalCache>))
        ensures
            pool_view(r.0) == self@.distributed,
            cache_view(r.1) == self@.local,
            self.wf() ==> (r.0 matches Some(pool) ==> pool.wf()) && (r.1 matches Some(cache)
                ==> cache.wf()),
    {
        (self.distributed, self.local)
    }

    /// The layers that `layers` switches on, in whatever order it lists
    /// them: a read meets the denylist first, then the local cache, then
    /// the distributed cache. The denylist starts empty and so do the
    /// caches. A local cache takes its pool sizes from the registry and
    /// fails where a pool is not registered.
    pub fn assemble(repo: RepositoryId, layers: &Vec<BlobLayer>, registry: &CachePoolRegistry) -> (r:
        Result<Self, ErrorKind>)
        ensures
            match layers_fault(layers@, *registry) {
                Some(e) => r == Err::<Self, ErrorKind>(e),
                None => r is Ok && r->Ok_0.wf() && r->Ok_0@ == layers_from(
                    repo,
                    layers@,
                    *registry,
                ),
            },
    {
        let local = if has_layer(layers, BlobLayer::LocalCache) {
            match LocalCache::from_registry(registry) {
                Ok(cache) => Some(cache),
                Err(pool) => {
                    return Err(ErrorKind::MissingCachePool(pool));
                },
            }
        } else {
            None
        };
        let distributed = if has_layer(layers, BlobLayer::DistributedCache) {
            Some(CachePool::new("multiplexed".to_owned(), usize::MAX))
        } else {
            None
        };
        let r = CacheLayers { repo, censored: CensoredKeys::new(), distributed, local };
        assert(clean(r@));
        Ok(r)
    }

    /// The local cache, if there is one.
    pub fn local(&self) -> (r: &Option<LocalCache>)
        ensures
            cache_view(*r) == self@.local,
            self.wf() && *r is Some ==> r->0.wf(),
    {
        &self.local
    }

    /// The distributed cache, if there is one.
    pub fn distributed(&self) -> (r: &Option<CachePool>)
        ensures
            pool_view(*r) == self@.distributed,
            self.wf() && *r is Some ==> r->0.wf(),
    {
        &self.distributed
    }

    /// Denylists `key` for the given reason, and drops all that the caches
    /// hold of it. Returns `false`, and keeps the old reason, where the key
    /// is denylisted already.
    pub fn censor(&mut self, key: &[u8], reason: &str) -> (added: bool)
        requires
            old(self).wf(),
        ensures
            final(self).wf(),
            added == (reason_of(old(self)@.censored, key@, 0) is None),
            final(self)@ == after_censor(old(self)@, key@, reason@),
    {
        proof {
            self.lemma_wf();
            lemma_censor_keeps_clean(self@, key@, reason@);
        }
        let cached = scoped_key(self.repo, key);
        match &mut self.distributed {
            Some(pool) => {
                pool.evict(cached.as_slice());
            },
            None => {},
        }
        match &mut self.local {
            Some(cache) => {
                cache.forget(cached.as_slice());
            },
            None => {},
        }
        self.censored.censor(key, reason)
    }

    /// Takes a read as far as the layers can. A denylisted key is refused
    /// and touches nothing. Else the local cache answers if it can, then
    /// the distributed cache, whose answer the local cache learns.
    pub fn begin_get(&mut self, key: &[u8]) -> (step: GetStep)
        requires
            old(self).wf(),
        ensures
            final(self).wf(),
            step@ == begin_get_step(old(self)@, key@),
            final(self)@ == after_begin_get(old(self)@, key@),
    {
        proof {
            self.lemma_wf();
            lemma_begin_get_keeps_clean(self@, key@);
        }
        match self.censored.reason(key) {
            Some(reason) => {
                return GetStep::Refused(reason);
            },
            None => {},
        }
        let cached = scoped_key(self.repo, key);
        let known = match &self.local {
            Some(cache) => cache.lookup(cached.as_slice()),
            None => CacheAnswer::Miss,
        };
        match known {
            CacheAnswer::Hit(value) => {
                return GetStep::Done(Some(value));
            },
            CacheAnswer::KnownAbsent => {
                return GetStep::Done(None);
            },
            CacheAnswer::Miss => {},
        }
        let shared = match &self.distributed {
            Some(pool) => pool.get(cached.as_slice()),
            None => None,
        };
        match shared {
            Some(value) => {
                match &mut self.local {
                    Some(cache) => {
                        cache.remember(cached.as_slice(), Some(value.as_slice()));
                    },
                    None => {},
                }
                GetStep::Done(Some(value))
            },
            None => GetStep::AskStorage,
        }
    }

    /// Tells the layers what the storage holds under `key`: a value, which
    /// both caches take, or nothing, which the local cache notes. An error
    /// of the storage is not for the caches. A key that is denylisted is
    /// not cached.
    pub fn storage_answered(&mut self, key: &[u8], found: Option<&[u8]>)
        requires
            old(self).wf(),
        ensures
            final(self).wf(),
            final(self)@ == after_storage_answer(
                old(self)@,
                key@,
                match found {
                    Some(value) => Some(value@),
                    None => None,
                },
            ),
    {
        proof {
            self.lemma_wf();
            lemma_answer_keeps_clean(
                self@,
                key@,
                match found {
                    Some(value) => Some(value@),
                    None => None,
                },
            );
        }
        if self.censored.reason(key).is_some() {
            return ;
        }
        let cached = scoped_key(self.repo, key);
        match found {
            Some(value) => {
                match &mut self.distributed {
                    Some(pool) => {
                        pool.insert(cached.as_slice(), value);
                    },
                    None => {},
                }
                match &mut self.local {
                    Some(cache) => {
                        cache.remember(cached.as_slice(), Some(value));
                    },
                    None => {},
                }
            },
            None => {
                match &mut self.local {
                    Some(cache) => {
                        cache.remember(cached.as_slice(), None);
                    },
                    None => {},
                }
            },
        }
    }

    /// Lets a write of `key` pass to the storage, or refuses it with the
    /// reason for which the key is denylisted. When the storage has taken
    /// the write, `storage_answered` tells the caches.
    pub fn begin_put(&self, key: &[u8]) -> (r: Result<(), BlobError>)
        ensures
            outcome_view(r) == begin_put_step(self@, key@),
    {
        self.censored.screen(key)
    }
}

/// The storage behind its layers.
#[derive(Debug)]
pub struct LayeredBlobstore {
    layers: CacheLayers,
    inner: Backing,
}

impl View for LayeredBlobstore {
    type V = LayeredView;

    closed spec fn view(&self) -> LayeredView {
        LayeredView { layers: self.layers@, inner: self.inner@ }
    }
}

impl LayeredBlobstore {
    /// Holds of every blobstore that a constructor made, after any of its
    /// methods.
    pub closed spec fn wf(&self) -> bool {
        self.inner.wf() && self.layers.wf()
    }

    /// The caches of a blobstore hold nothing of a denylisted key.
    pub proof fn lemma_wf(&self)
        requires
            self.wf(),
        ensures
            valid_caches(self@.layers),
            clean(self@.layers),
    {
        self.layers.lemma_wf();
    }

    /// The storage of a repository with no layer around it.
    pub fn new(repo: RepositoryId, inner: Backing) -> (r: Self)
        requires
            inner.wf(),
        ensures
            r.wf(),
            r@ == (LayeredView {
                layers: LayersView {
                    repo,
                    censored: Seq::empty(),
                    distributed: None,
                    local: None,
                },
                inner: inner@,
            }),
    {
        LayeredBlobstore { layers: CacheLayers::none(repo), inner }
    }

    /// The storage behind layers that exist already.
    pub fn with_layers(layers: CacheLayers, inner: Backing) -> (r: Self)
        requires
            layers.wf(),
            inner.wf(),
        ensures
            r.wf(),
            r@ == (LayeredView { layers: layers@, inner: inner@ }),
    {
        LayeredBlobstore { layers, inner }
    }

    /// Takes the blobstore apart into its layers and its storage.
    pub fn into_parts(self) -> (r: (CacheLayers, Backing))
        ensures
            r.0@ == self@.layers,
            r.1@ == self@.inner,
            self.wf() ==> r.0.wf() && r.1.wf(),
    {
        (self.layers, self.inner)
    }

    /// Puts the layers that `layers` switches on in front of the storage,
    /// in whatever order it lists them: a read meets the denylist first,
    /// then the local cache, then the distributed cache, then the storage.
    /// The denylist starts empty and so do the caches. A local cache takes
    /// its pool sizes from the registry and fails where a pool is not
    /// registered.
    pub fn assemble(
        repo: RepositoryId,
        inner: Backing,
        layers: &Vec<BlobLayer>,
        registry: &CachePoolRegistry,
    ) -> (r: Result<Self, ErrorKind>)
        requires
            inner.wf(),
        ensures
            match layers_fault(layers@, *registry) {
                Some(e) => r == Err::<Self, ErrorKind>(e),
                None => r is Ok && r->Ok_0.wf() && r->Ok_0@ == (LayeredView {
                    layers: layers_from(repo, layers@, *registry),
                    inner: inner@,
                }),
            },
    {
        match CacheLayers::assemble(repo, layers, registry) {
            Ok(layers) => Ok(LayeredBlobstore { layers, inner }),
            Err(e) => Err(e),
        }
    }

    /// The storage behind the layers.
    pub fn inner(&self) -> (r: &Backing)
        ensures
            r@ == self@.inner,
            self.wf() ==> r.wf(),
    {
        &self.inner
    }

    /// Takes the layers off.
    pub fn into_inner(self) -> (r: Backing)
        ensures
            r@ == self@.inner,
            self.wf() ==> r.wf(),
    {
        self.inner
    }

    /// The local cache, if there is one.
    pub fn local(&self) -> (r: &Option<LocalCache>)
        ensures
            cache_view(*r) == self@.layers.local,
            self.wf() && *r is Some ==> r->0.wf(),
    {
        self.layers.local()
    }

    /// The distributed cache, if there is one.
    pub fn distributed(&self) -> (r: &Option<CachePool>)
        ensures
            pool_view(*r) == self@.layers.distributed,
            self.wf() && *r is Some ==> r->0.wf(),
    {
        self.layers.distributed()
    }

    /// Denylists `key` for the given reason, and drops all that the caches
    /// hold of it. Returns `false`, and keeps the old reason, where the key
    /// is denylisted already.
    pub fn censor(&mut self, key: &[u8], reason: &str) -> (added: bool)
        requires
            old(self).wf(),
        ensures
            final(self).wf(),
            added == (reason_of(old(self)@.layers.censored, key@, 0) is None),
            final(self)@ == (LayeredView {
                layers: after_censor(old(self)@.layers, key@, reason@),
                ..old(self)@
            }),
    {
        self.layers.censor(key, reason)
    }

    /// Reads `key` now.
    pub fn get(&mut self, key: &[u8]) -> (r: Result<Option<Vec<u8>>, BlobError>)
        requires
            old(self).wf(),
        ensures
            final(self).wf(),
            answer_view(r) == layered_get(old(self)@, key@),
            exists|now: Timestamp| final(self)@ == layered_after_get(old(self)@, key@, now),
    {
        let now = utc_now();
        self.get_at(key, now)
    }

    /// Reads `key`.
    ///
    /// A denylisted key fails with the reason and touches nothing. Else the
    /// local cache answers if it can, then the distributed cache, then the
    /// storage; what a layer answers is cached by the layers in front of
    /// it. An error of the storage is handed on and never cached.
    pub fn get_at(&mut self, key: &[u8], now: Timestamp) -> (r: Result<Option<Vec<u8>>, BlobError>)
        requires
            old(self).wf(),
        ensures
            final(self).wf(),
            answer_view(r) == layered_get(old(self)@, key@),
            final(self)@ == layered_after_get(old(self)@, key@, now),
    {
        match self.layers.begin_get(key) {
            GetStep::Refused(reason) => Err(BlobError::Censored(reason)),
            GetStep::Done(answer) => Ok(answer),
            GetStep::AskStorage => {
                let r = self.inner.get_at(key, now);
                match &r {
                    Ok(Some(value)) => {
                        self.layers.storage_answered(key, Some(value.as_slice()));
                    },
                    Ok(None) => {
                        self.layers.storage_answered(key, None);
                    },
                    Err(_) => {},
                }
                r
            },
        }
    }

    /// Writes `value` under `key` now.
    pub fn put(&mut self, key: &[u8], value: &[u8]) -> (r: Result<(), BlobError>)
        requires
            old(self).wf(),
        ensures
            final(self).wf(),
            outcome_view(r) == layered_put(old(self)@, key@),
            exists|now: Timestamp| final(self)@ == layered_after_put(old(self)@, key@, value@, now),
    {
        let now = utc_now();
        self.put_at(key, value, now)
    }

    /// Writes `value` under `key`.
    ///
    /// A denylisted key fails with the reason and touches nothing. Else the
    /// write goes to the storage, and the caches take the value if and only
    /// if the storage did.
    pub fn put_at(&mut self, key: &[u8], value: &[u8], now: Timestamp) -> (r: Result<(), BlobError>)
        requires
            old(self).wf(),
        ensures
            final(self).wf(),
            outcome_view(r) == layered_put(old(self)@, key@),
            final(self)@ == layered_after_put(old(self)@, key@, value@, now),
    {
        match self.layers.begin_put(key) {
            Err(e) => {
                return Err(e);
            },
            Ok(_) => {},
        }
        let r = self.inner.put_at(key, value, now);
        if r.is_ok() {
            self.layers.storage_answered(key, Some(value));
        }
        r
    }
}

/// A denylisted key is always refused with its reason, for reads and for
/// writes, and the refusal leaves every cache and every driver as it was.
pub proof fn lemma_censored_key_is_refused(
    s: LayeredView,
    key: Seq<u8>,
    value: Seq<u8>,
    now: Timestamp,
)
    requires
        reason_of(s.layers.censored, key, 0) is Some,
    ensures
        layered_get(s, key) == Err::<Option<Seq<u8>>, BlobFault>(
            BlobFault::Censored(reason_of(s.layers.censored, key, 0)->0),
        ),
        layered_put(s, key) == Err::<(), BlobFault>(
            BlobFault::Censored(reason_of(s.layers.censored, key, 0)->0),
        ),
        layered_after_get(s, key, now) == s,
        layered_after_put(s, key, value, now) == s,
        forall|found: Option<Seq<u8>>| after_storage_answer(s.layers, key, found) == s.layers,
{
}

/// What a cache learns of one key leaves every other key as it was or
/// drops it.
proof fn lemma_learning_keeps_uncached(
    c: LayersView,
    t: LayersView,
    key: Seq<u8>,
    value: Option<Seq<u8>>,
    other: Seq<u8>,
)
    requires
        valid_caches(c),
        uncached(c, other),
        other != key,
        t.repo == c.repo,
        t.local == c.local || t.local == local_after(c.local, scoped(c.repo, key), value),
        t.distributed == c.distributed || (value is Some && t.distributed == distributed_after(
            c.distributed,
            scoped(c.repo, key),
            value->0,
        )),
    ensures
        uncached(t, other),
{
    let cached = scoped(c.repo, key);
    if scoped(c.repo, other) == cached {
        lemma_scoped_is_injective(c.repo, other, c.repo, key);
    }
    match c.distributed {
        Some(pool) => {
            if value is Some {
                lemma_pool_insert(pool.entries, pool.capacity, cached, value->0);
            }
        },
        None => {},
    }
    match c.local {
        Some(cache) => {
            match value {
                Some(bytes) => {
                    lemma_pool_insert(cache.blobs.entries, cache.blobs.capacity, cached, bytes);
                    lemma_pool_insert(
                        cache.presence.entries,
                        cache.presence.capacity,
                        cached,
                        presence_mark(true),
                    );
                },
                None => {
                    lemma_without_key(cache.blobs.entries, cached);
                    lemma_pool_insert(
                        cache.presence.entries,
                        cache.presence.capacity,
                        cached,
                        presence_mark(false),
                    );
                },
            }
        },
        None => {},
    }
}

/// What the local cache learns from the distributed cache is never a
/// denylisted key.
pub proof fn lemma_begin_get_keeps_clean(c: LayersView, key: Seq<u8>)
    requires
        valid_caches(c),
        clean(c),
    ensures
        clean(after_begin_get(c, key)),
{
    let t = after_begin_get(c, key);
    assert forall|other: Seq<u8>| #[trigger] reason_of(t.censored, other, 0) is Some implies uncached(
        t,
        other,
    ) by {
        if t != c {
            lemma_learning_keeps_uncached(
                c,
                t,
                key,
                distributed_answer(c.distributed, scoped(c.repo, key)),
                other,
            );
        }
    }
}

/// What the storage answers never brings a denylisted key into a cache.
pub proof fn lemma_answer_keeps_clean(c: LayersView, key: Seq<u8>, found: Option<Seq<u8>>)
    requires
        valid_caches(c),
        clean(c),
    ensures
        clean(after_storage_answer(c, key, found)),
{
    let t = after_storage_answer(c, key, found);
    assert forall|other: Seq<u8>| #[trigger] reason_of(t.censored, other, 0) is Some implies uncached(
        t,
        other,
    ) by {
        if reason_of(c.censored, key, 0) is None {
            lemma_learning_keeps_uncached(c, t, key, found, other);
        }
    }
}

/// A read never brings a denylisted key into a cache.
pub proof fn lemma_get_keeps_clean(s: LayeredView, key: Seq<u8>, now: Timestamp)
    requires
        valid_caches(s.layers),
        clean(s.layers),
    ensures
        clean(layered_after_get(s, key, now).layers),
{
    lemma_begin_get_keeps_clean(s.layers, key);
    match backing_get(s.inner, key) {
        Ok(found) => {
            lemma_answer_keeps_clean(s.layers, key, found);
        },
        Err(_) => {},
    }
}

/// A write never brings a denylisted key into a cache.
pub proof fn lemma_put_keeps_clean(s: LayeredView, key: Seq<u8>, value: Seq<u8>, now: Timestamp)
    requires
        valid_caches(s.layers),
        clean(s.layers),
    ensures
        clean(layered_after_put(s, key, value, now).layers),
{
    lemma_answer_keeps_clean(s.layers, key, Some(value));
}

/// Once a key is denylisted, no cache holds anything of it.
pub proof fn lemma_censor_keeps_clean(c: LayersView, key: Seq<u8>, reason: Seq<char>)
    requires
        valid_caches(c),
        clean(c),
    ensures
        clean(after_censor(c, key, reason)),
        reason_of(after_censor(c, key, reason).censored, key, 0) is Some,
{
    let t = after_censor(c, key, reason);
    lemma_reason_push(c.censored, (key, reason), key, 0);
    assert forall|other: Seq<u8>| #[trigger] reason_of(t.censored, other, 0) is Some implies uncached(
        t,
        other,
    ) by {
        lemma_reason_push(c.censored, (key, reason), other, 0);
        let cached = scoped(c.repo, key);
        match c.distributed {
            Some(pool) => {
                lemma_without_key(pool.entries, cached);
            },
            None => {},
        }
        match c.local {
            Some(cache) => {
                lemma_without_key(cache.blobs.entries, cached);
                lemma_without_key(cache.presence.entries, cached);
            },
            None => {},
        }
        if other != key {
            assert(reason_of(c.censored, other, 0) is Some);
            assert(uncached(c, other));
            if scoped(c.repo, other) == cached {
                lemma_scoped_is_injective(c.repo, other, c.repo, key);
            }
        }
    }
}

/// Repositories that share a cache never see each other's entries: what
/// the layers of one repository learn of a key leaves every key of another
/// repository as it was or drops it, and never makes it read as something
/// else.
pub proof fn lemma_shared_cache_keeps_repositories_apart(
    c: LayersView,
    key: Seq<u8>,
    found: Option<Seq<u8>>,
    other_repo: RepositoryId,
    other_key: Seq<u8>,
)
    requires
        valid_caches(c),
        other_repo != c.repo,
    ensures
        ({
            let t = after_storage_answer(c, key, found);
            let seen = scoped(other_repo, other_key);
            &&& distributed_answer(t.distributed, seen) is None || distributed_answer(
                t.distributed,
                seen,
            ) == distributed_answer(c.distributed, seen)
            &&& match (c.local, t.local) {
                (Some(before), Some(after)) => {
                    &&& lookup(after.blobs.entries, seen) is None || lookup(
                        after.blobs.entries,
                        seen,
                    ) == lookup(before.blobs.entries, seen)
                    &&& lookup(after.presence.entries, seen) is None || lookup(
                        after.presence.entries,
                        seen,
                    ) == lookup(before.presence.entries, seen)
                },
                _ => true,
            }
        }),
{
    let cached = scoped(c.repo, key);
    let seen = scoped(other_repo, other_key);
    if seen == cached {
        lemma_scoped_is_injective(other_repo, other_key, c.repo, key);
    }
    if reason_of(c.censored, key, 0) is None {
        match c.distributed {
            Some(pool) => {
                if found is Some {
                    lemma_pool_insert(pool.entries, pool.capacity, cached, found->0);
                }
            },
            None => {},
        }
        match c.local {
            Some(cache) => {
                match found {
                    Some(bytes) => {
                        lemma_pool_insert(cache.blobs.entries, cache.blobs.capacity, cached, bytes);
                        lemma_pool_insert(
                            cache.presence.entries,
                            cache.presence.capacity,
                            cached,
                            presence_mark(true),
                        );
                    },
                    None => {
                        lemma_without_key(cache.blobs.entries, cached);
                        lemma_pool_insert(
                            cache.presence.entries,
                            cache.presence.capacity,
                            cached,
                            presence_mark(false),
                        );
                    },
                }
            },
            None => {},
        }
    }
}

} // verus!
