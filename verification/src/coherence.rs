//! Cache coherence. Where the storage is a single driver that only these
//! layers write to, the caches never disagree with it: what they hold of a
//! key is what the driver holds, and a read through the layers returns what
//! a read of the driver would.

use vstd::prelude::*;
use crate::cache::{absent_mark, lemma_pool_insert, present_mark, presence_mark};
use crate::censor::reason_of;
use crate::config::{lemma_scoped_is_injective, scoped};
use crate::errors::BlobFault;
use crate::layered::{
    after_begin_get, after_storage_answer, backing_get, begin_get_step, distributed_answer,
    layered_after_get, layered_after_put, layered_get, valid_caches, BackingView, GetStepView,
    LayeredView, LayersView,
};
use crate::table::{lemma_without_key, lookup};
use crate::time::Timestamp;

verus! {

/// What the driver holds under `key`, where the storage is one driver.
pub open spec fn stored(b: BackingView, key: Seq<u8>) -> Option<Seq<u8>> {
    match b {
        BackingView::Single(driver) => if driver.blobs.contains_key(key) {
            Some(driver.blobs[key])
        } else {
            None
        },
        _ => None,
    }
}

/// What the caches hold of `key` agrees with `held`, the value that the
/// driver holds under it.
pub open spec fn agrees_with(c: LayersView, key: Seq<u8>, held: Option<Seq<u8>>) -> bool {
    let cached = scoped(c.repo, key);
    &&& distributed_answer(c.distributed, cached) is Some ==> distributed_answer(
        c.distributed,
        cached,
    ) == held
    &&& c.local matches Some(cache) ==> {
        &&& lookup(cache.blobs.entries, cached) is Some ==> lookup(cache.blobs.entries, cached)
            == held
        &&& lookup(cache.presence.entries, cached) == Some(absent_mark()) ==> held is None
        &&& lookup(cache.presence.entries, cached) == Some(present_mark()) ==> held is Some
    }
}

/// The caches agree with the driver on every key.
pub open spec fn coherent(s: LayeredView) -> bool {
    &&& s.inner is Single
    &&& forall|key: Seq<u8>| #[trigger] agrees_with(s.layers, key, stored(s.inner, key))
}

/// What the layers learn of `key` is right about `key` and leaves them
/// right about every other key.
proof fn lemma_answer_keeps_agreement(
    c: LayersView,
    key: Seq<u8>,
    found: Option<Seq<u8>>,
    other: Seq<u8>,
    held: Option<Seq<u8>>,
)
    requires
        valid_caches(c),
        reason_of(c.censored, key, 0) is None,
        other != key || found is None ==> agrees_with(c, other, held),
        other == key ==> held == found,
    ensures
        agrees_with(after_storage_answer(c, key, found), other, held),
{
    let cached = scoped(c.repo, key);
    if other != key && scoped(c.repo, other) == cached {
        lemma_scoped_is_injective(c.repo, other, c.repo, key);
    }
    assert(present_mark() != absent_mark()) by {
        assert(present_mark()[0] == 1u8 && absent_mark()[0] == 0u8);
    }
    match c.distributed {
        Some(pool) => {
            if found is Some {
                lemma_pool_insert(pool.entries, pool.capacity, cached, found->0);
            }
        },
        None => {},
    }
    match c.local {
        Some(cache) => {
            match found {
                Some(bytes) => {
                    lemma_pool_insert(cache.blobs.entries, cache.blobs.capacity, cached, bytes);
                    lemma_pool_insert(
                        cache.presence.entries,
                        cache.presence.capacity,
                        cached,
                        presence_mark(true),
                    );
                },
                None => {
                    lemma_without_key(cache.blobs.entries, cached);
                    lemma_pool_insert(
                        cache.presence.entries,
                        cache.presence.capacity,
                        cached,
                        presence_mark(false),
                    );
                },
            }
        },
        None => {},
    }
}

/// A read leaves the caches coherent.
pub proof fn lemma_get_keeps_coherent(s: LayeredView, key: Seq<u8>, now: Timestamp)
    requires
        valid_caches(s.layers),
        coherent(s),
    ensures
        coherent(layered_after_get(s, key, now)),
{
    let t = layered_after_get(s, key, now);
    assert(t.inner == s.inner);
    assert(agrees_with(s.layers, key, stored(s.inner, key)));
    assert forall|other: Seq<u8>| #[trigger]
        agrees_with(t.layers, other, stored(t.inner, other)) by {
        assert(agrees_with(s.layers, other, stored(s.inner, other)));
        if t.layers != s.layers {
            let learned = match begin_get_step(s.layers, key) {
                GetStepView::AskStorage => backing_get(s.inner, key)->Ok_0,
                _ => distributed_answer(s.layers.distributed, scoped(s.layers.repo, key)),
            };
            assert(learned == stored(s.inner, key));
            lemma_learned_from_distributed(s.layers, key);
            lemma_answer_keeps_agreement(s.layers, key, learned, other, stored(s.inner, other));
        }
    }
}

/// What the local cache learns from the distributed cache is what the
/// layers would learn of the same answer from the storage, as far as the
/// local cache goes.
proof fn lemma_learned_from_distributed(c: LayersView, key: Seq<u8>)
    requires
        valid_caches(c),
    ensures
        begin_get_step(c, key) is Done && after_begin_get(c, key) != c ==> {
            let found = distributed_answer(c.distributed, scoped(c.repo, key));
            &&& found is Some
            &&& after_begin_get(c, key).local == after_storage_answer(
                c,
                key,
                found,
            ).local
            &&& after_begin_get(c, key).distributed == c.distributed
        },
{
}

/// A write leaves the caches coherent.
pub proof fn lemma_put_keeps_coherent(s: LayeredView, key: Seq<u8>, value: Seq<u8>, now: Timestamp)
    requires
        valid_caches(s.layers),
        coherent(s),
    ensures
        coherent(layered_after_put(s, key, value, now)),
{
    let t = layered_after_put(s, key, value, now);
    assert forall|other: Seq<u8>| #[trigger]
        agrees_with(t.layers, other, stored(t.inner, other)) by {
        assert(agrees_with(s.layers, other, stored(s.inner, other)));
        if t.layers != s.layers {
            lemma_answer_keeps_agreement(
                s.layers,
                key,
                Some(value),
                other,
                stored(t.inner, other),
            );
        }
    }
}

/// A read through coherent caches returns what the driver holds, as long
/// as the key is not denylisted and the driver can be reached.
pub proof fn lemma_coherent_read(s: LayeredView, key: Seq<u8>)
    requires
        coherent(s),
        reason_of(s.layers.censored, key, 0) is None,
        s.inner->Single_0.online,
    ensures
        layered_get(s, key) == Ok::<Option<Seq<u8>>, BlobFault>(stored(s.inner, key)),
{
    assert(agrees_with(s.layers, key, stored(s.inner, key)));
}

/// Empty caches are coherent with whatever the driver holds.
pub proof fn lemma_empty_caches_are_coherent(s: LayeredView)
    requires
        s.inner is Single,
        s.layers.distributed matches Some(pool) ==> pool.entries.len() == 0,
        s.layers.local matches Some(cache) ==> cache.blobs.entries.len() == 0
            && cache.presence.entries.len() == 0,
    ensures
        coherent(s),
{
}

} // verus!
