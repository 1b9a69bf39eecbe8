use blobrepo_factory::cache::{CacheAnswer, CachePool, LocalCache};
use blobrepo_factory::censor::CensoredKeys;
use blobrepo_factory::config::{scoped_key, RepositoryId};
use blobrepo_factory::engine::MultiplexedBlobstore;
use blobrepo_factory::errors::{BlobError, ErrorKind};
use blobrepo_factory::factory::BlobLayer;
use blobrepo_factory::layered::{
    split_layers, Backing, CacheLayers, GetStep, LayeredBlobstore,
};
use blobrepo_factory::memblob::{GetOutcome, MemBlob};
use blobrepo_factory::registry::{CachePoolRegistry, PoolName};
use blobrepo_factory::sync_queue::SyncQueue;
use blobrepo_factory::table::{copy_bytes, same_bytes, ByteTable};
use blobrepo_factory::time::Timestamp;

fn at(secs: i64) -> Timestamp {
    Timestamp { secs, nanos: 0 }
}

fn key(n: u32) -> Vec<u8> {
    format!("key-{}", n).into_bytes()
}

fn registry(blobs: usize, presence: usize) -> CachePoolRegistry {
    let mut registry = CachePoolRegistry::new();
    registry.register("blobstore-blobs", blobs);
    registry.register("blobstore-presence", presence);
    registry
}

fn all_layers() -> Vec<BlobLayer> {
    vec![BlobLayer::Censorship, BlobLayer::LocalCache, BlobLayer::DistributedCache]
}

fn repo() -> RepositoryId {
    RepositoryId::new(1)
}

/// The key under which the caches of `repo()` hold `key`.
fn sk(key: &[u8]) -> Vec<u8> {
    scoped_key(repo(), key)
}

fn single() -> Backing {
    Backing::Single(MemBlob::new())
}

fn driver_of(store: &LayeredBlobstore) -> &MemBlob {
    match store.inner() {
        Backing::Single(driver) => driver,
        other => panic!("unexpected storage {:?}", other),
    }
}

#[test]
fn bytes_compare_and_copy() {
    assert!(same_bytes(b"abc", b"abc"));
    assert!(!same_bytes(b"abc", b"abd"));
    assert!(!same_bytes(b"abc", b"ab"));
    assert!(same_bytes(b"", b""));
    assert_eq!(copy_bytes(b"abc"), b"abc".to_vec());
}

#[test]
fn table_sets_finds_and_removes() {
    let mut table = ByteTable::new();
    assert_eq!(table.len(), 0);
    table.set(b"a".to_vec(), b"1".to_vec());
    table.set(b"b".to_vec(), b"2".to_vec());
    table.set(b"a".to_vec(), b"3".to_vec());
    assert_eq!(table.len(), 2);
    assert_eq!(table.find(b"a"), Some(0));
    assert_eq!(table.find(b"b"), Some(1));
    assert_eq!(table.find(b"c"), None);
    assert_eq!(table.get(b"a"), Some(b"3".to_vec()));
    let copy = table.duplicate();
    assert!(table.remove(b"a"));
    assert!(!table.remove(b"a"));
    assert_eq!(table.get(b"a"), None);
    assert_eq!(table.find(b"b"), Some(0));
    table.remove_oldest();
    assert_eq!(table.len(), 0);
    assert_eq!(copy.get(b"a"), Some(b"3".to_vec()));
    assert_eq!(copy.get(b"b"), Some(b"2".to_vec()));
}

#[test]
fn pool_drops_its_oldest_entry_when_full() {
    let mut pool = CachePool::new("p".to_string(), 2);
    assert_eq!(pool.name(), "p");
    assert_eq!(pool.capacity(), 2);
    pool.insert(b"a", b"1");
    pool.insert(b"b", b"2");
    pool.insert(b"a", b"one");
    assert_eq!(pool.len(), 2);
    pool.insert(b"c", b"3");
    assert_eq!(pool.len(), 2);
    assert_eq!(pool.get(b"a"), None);
    assert_eq!(pool.get(b"b"), Some(b"2".to_vec()));
    assert_eq!(pool.get(b"c"), Some(b"3".to_vec()));
    assert!(pool.evict(b"b"));
    assert!(!pool.evict(b"b"));
    assert_eq!(pool.len(), 1);
}

#[test]
fn pool_without_capacity_holds_nothing() {
    let mut pool = CachePool::new("p".to_string(), 0);
    pool.insert(b"a", b"1");
    assert_eq!(pool.len(), 0);
    assert_eq!(pool.get(b"a"), None);
}

#[test]
fn pool_takes_its_size_from_the_registry() {
    let registry = registry(7, 9);
    let pool = CachePool::from_registry(&registry, PoolName::BlobstorePresence).unwrap();
    assert_eq!(pool.name(), "blobstore-presence");
    assert_eq!(pool.capacity(), 9);
    assert!(CachePool::from_registry(&registry, PoolName::Filenodes).is_none());
}

#[test]
fn local_cache_needs_both_pools() {
    let mut only_blobs = CachePoolRegistry::new();
    only_blobs.register("blobstore-blobs", 1);
    assert_eq!(LocalCache::from_registry(&only_blobs).err(), Some(PoolName::BlobstorePresence));
    assert_eq!(
        LocalCache::from_registry(&CachePoolRegistry::new()).err(),
        Some(PoolName::BlobstoreBlobs)
    );
    let cache = LocalCache::from_registry(&registry(3, 4)).unwrap();
    assert_eq!(cache.blobs().capacity(), 3);
    assert_eq!(cache.presence().capacity(), 4);
}

#[test]
fn filling_the_bytes_pool_evicts_no_presence_entry() {
    let mut cache = LocalCache::from_registry(&registry(4, 4)).unwrap();
    for n in 0..4 {
        cache.remember_presence(&key(n), n % 2 == 0);
    }
    // A workload of large payloads, three times the size of the bytes pool.
    for n in 100..112 {
        cache.remember_blob(&key(n), &vec![n as u8; 64]);
    }
    assert_eq!(cache.blobs().len(), 4);
    assert_eq!(cache.presence().len(), 4);
    for n in 0..4u32 {
        let mark = if n % 2 == 0 { vec![1u8] } else { vec![0u8] };
        assert_eq!(cache.presence().get(&key(n)), Some(mark));
    }
    assert_eq!(cache.lookup(&key(1)), CacheAnswer::KnownAbsent);
    assert_eq!(cache.lookup(&key(111)), CacheAnswer::Hit(vec![111u8; 64]));
    assert_eq!(cache.lookup(&key(100)), CacheAnswer::Miss);
}

#[test]
fn filling_the_presence_pool_evicts_no_bytes() {
    let mut cache = LocalCache::from_registry(&registry(4, 4)).unwrap();
    for n in 0..4 {
        cache.remember_blob(&key(n), &[n as u8]);
    }
    // A workload of existence checks, three times the size of the presence pool.
    for n in 100..112 {
        cache.remember_presence(&key(n), false);
    }
    assert_eq!(cache.presence().len(), 4);
    assert_eq!(cache.blobs().len(), 4);
    for n in 0..4u32 {
        assert_eq!(cache.lookup(&key(n)), CacheAnswer::Hit(vec![n as u8]));
    }
    assert_eq!(cache.lookup(&key(111)), CacheAnswer::KnownAbsent);
    assert_eq!(cache.lookup(&key(100)), CacheAnswer::Miss);
}

#[test]
fn local_cache_remembers_values_and_absence() {
    let mut cache = LocalCache::new(
        CachePool::new("b".to_string(), 8),
        CachePool::new("p".to_string(), 8),
    );
    assert_eq!(cache.lookup(b"k"), CacheAnswer::Miss);
    cache.remember(b"k", Some(b"v"));
    assert_eq!(cache.lookup(b"k"), CacheAnswer::Hit(b"v".to_vec()));
    assert_eq!(cache.presence().get(b"k"), Some(vec![1u8]));
    cache.remember(b"k", None);
    assert_eq!(cache.lookup(b"k"), CacheAnswer::KnownAbsent);
    assert_eq!(cache.blobs().get(b"k"), None);
    cache.forget(b"k");
    assert_eq!(cache.lookup(b"k"), CacheAnswer::Miss);
    assert_eq!(cache.presence().len(), 0);
}

#[test]
fn denylist_answers_with_the_reason() {
    let mut censored = CensoredKeys::new();
    assert_eq!(censored.screen(b"k"), Ok(()));
    assert!(censored.censor(b"k", "legal hold"));
    assert!(!censored.censor(b"k", "another reason"));
    assert!(censored.censor(b"j", "spam"));
    assert_eq!(censored.len(), 2);
    assert_eq!(censored.reason(b"k"), Some("legal hold".to_string()));
    assert_eq!(censored.screen(b"k"), Err(BlobError::Censored("legal hold".to_string())));
    assert_eq!(censored.screen(b"j"), Err(BlobError::Censored("spam".to_string())));
    assert_eq!(censored.screen(b"i"), Ok(()));
}

#[test]
fn censored_key_never_reaches_a_cache_or_a_driver() {
    let mut store = LayeredBlobstore::assemble(repo(), single(), &all_layers(), &registry(8, 8)).unwrap();
    assert!(store.censor(b"secret", "takedown"));
    let refused = Err(BlobError::Censored("takedown".to_string()));
    assert_eq!(store.put_at(b"secret", b"bytes", at(1)), refused.clone().map(|_: Vec<u8>| ()));
    assert_eq!(store.get_at(b"secret", at(2)), refused.map(|v: Vec<u8>| Some(v)));
    assert_eq!(store.put(b"secret", b"bytes").is_err(), true);
    assert_eq!(store.get(b"secret").is_err(), true);

    assert_eq!(driver_of(&store).get(b"secret"), GetOutcome::Absent);
    let local = store.local().as_ref().unwrap();
    assert_eq!(local.blobs().len(), 0);
    assert_eq!(local.presence().len(), 0);
    assert_eq!(store.distributed().as_ref().unwrap().len(), 0);
}

#[test]
fn censoring_a_cached_key_drops_it_from_the_caches() {
    let mut store = LayeredBlobstore::assemble(repo(), single(), &all_layers(), &registry(8, 8)).unwrap();
    assert_eq!(store.put_at(b"k", b"v", at(1)), Ok(()));
    assert_eq!(store.put_at(b"other", b"w", at(1)), Ok(()));
    assert_eq!(store.local().as_ref().unwrap().lookup(&sk(b"k")), CacheAnswer::Hit(b"v".to_vec()));
    assert!(store.censor(b"k", "late takedown"));
    assert!(!store.censor(b"k", "again"));
    assert_eq!(store.local().as_ref().unwrap().lookup(&sk(b"k")), CacheAnswer::Miss);
    assert_eq!(store.local().as_ref().unwrap().presence().get(&sk(b"k")), None);
    assert_eq!(store.distributed().as_ref().unwrap().get(&sk(b"k")), None);
    assert_eq!(store.get_at(b"k", at(2)), Err(BlobError::Censored("late takedown".to_string())));
    assert_eq!(store.get_at(b"other", at(2)), Ok(Some(b"w".to_vec())));
}

#[test]
fn write_goes_through_and_fills_both_caches() {
    let mut store = LayeredBlobstore::assemble(repo(), single(), &all_layers(), &registry(8, 8)).unwrap();
    assert_eq!(store.put_at(b"k", b"v", at(1)), Ok(()));
    assert_eq!(driver_of(&store).get(b"k"), GetOutcome::Found(b"v".to_vec()));
    assert_eq!(store.distributed().as_ref().unwrap().get(&sk(b"k")), Some(b"v".to_vec()));
    assert_eq!(store.distributed().as_ref().unwrap().name(), "multiplexed");
    let local = store.local().as_ref().unwrap();
    assert_eq!(local.blobs().get(&sk(b"k")), Some(b"v".to_vec()));
    assert_eq!(local.presence().get(&sk(b"k")), Some(vec![1u8]));
    assert_eq!(store.get_at(b"k", at(2)), Ok(Some(b"v".to_vec())));
}

#[test]
fn read_fills_the_caches_from_the_storage() {
    let mut driver = MemBlob::new();
    driver.put(b"k".to_vec(), b"v".to_vec());
    let mut store =
        LayeredBlobstore::assemble(repo(), Backing::Single(driver), &all_layers(), &registry(8, 8))
            .unwrap();
    assert_eq!(store.local().as_ref().unwrap().lookup(&sk(b"k")), CacheAnswer::Miss);
    assert_eq!(store.get_at(b"k", at(1)), Ok(Some(b"v".to_vec())));
    assert_eq!(store.local().as_ref().unwrap().lookup(&sk(b"k")), CacheAnswer::Hit(b"v".to_vec()));
    assert_eq!(store.distributed().as_ref().unwrap().get(&sk(b"k")), Some(b"v".to_vec()));

    assert_eq!(store.get_at(b"none", at(1)), Ok(None));
    assert_eq!(store.local().as_ref().unwrap().lookup(&sk(b"none")), CacheAnswer::KnownAbsent);
    assert_eq!(store.distributed().as_ref().unwrap().get(&sk(b"none")), None);
    assert_eq!(store.get_at(b"none", at(2)), Ok(None));
}

#[test]
fn cached_value_is_served_while_the_driver_is_away() {
    let mut store = LayeredBlobstore::assemble(repo(), single(), &all_layers(), &registry(8, 8)).unwrap();
    assert_eq!(store.put_at(b"k", b"v", at(1)), Ok(()));
    let mut driver = match store.into_inner() {
        Backing::Single(driver) => driver,
        other => panic!("unexpected storage {:?}", other),
    };
    driver.set_online(false);
    let mut bare = LayeredBlobstore::new(repo(), Backing::Single(driver));
    assert_eq!(bare.get_at(b"k", at(2)), Err(BlobError::DriverFailed));
    assert_eq!(bare.put_at(b"k", b"w", at(2)), Err(BlobError::DriverFailed));
    assert!(bare.local().is_none());
    assert!(bare.distributed().is_none());
}

#[test]
fn distributed_cache_answers_when_the_local_cache_has_dropped_the_key() {
    let mut store = LayeredBlobstore::assemble(repo(), single(), &all_layers(), &registry(1, 1)).unwrap();
    assert_eq!(store.put_at(b"a", b"1", at(1)), Ok(()));
    assert_eq!(store.put_at(b"b", b"2", at(1)), Ok(()));
    assert_eq!(store.local().as_ref().unwrap().lookup(&sk(b"a")), CacheAnswer::Miss);
    assert_eq!(store.get_at(b"a", at(2)), Ok(Some(b"1".to_vec())));
    assert_eq!(store.local().as_ref().unwrap().lookup(&sk(b"a")), CacheAnswer::Hit(b"1".to_vec()));
    assert_eq!(store.local().as_ref().unwrap().lookup(&sk(b"b")), CacheAnswer::Miss);
}

#[test]
fn failed_write_reaches_no_cache() {
    let mut driver = MemBlob::new();
    driver.set_online(false);
    let mut store =
        LayeredBlobstore::assemble(repo(), Backing::Single(driver), &all_layers(), &registry(8, 8))
            .unwrap();
    assert_eq!(store.put_at(b"k", b"v", at(1)), Err(BlobError::DriverFailed));
    assert_eq!(store.get_at(b"k", at(1)), Err(BlobError::DriverFailed));
    assert_eq!(store.local().as_ref().unwrap().blobs().len(), 0);
    assert_eq!(store.local().as_ref().unwrap().presence().len(), 0);
    assert_eq!(store.distributed().as_ref().unwrap().len(), 0);
}

#[test]
fn disabled_storage_fails_every_operation() {
    let mut store = LayeredBlobstore::new(repo(), Backing::Disabled);
    assert_eq!(store.get_at(b"k", at(1)), Err(BlobError::Disabled));
    assert_eq!(store.put_at(b"k", b"v", at(1)), Err(BlobError::Disabled));
}

#[test]
fn layers_are_toggled_one_by_one() {
    let none = LayeredBlobstore::assemble(repo(), single(), &vec![], &CachePoolRegistry::new()).unwrap();
    assert!(none.local().is_none());
    assert!(none.distributed().is_none());

    let shared = vec![BlobLayer::Censorship, BlobLayer::DistributedCache];
    let store = LayeredBlobstore::assemble(repo(), single(), &shared, &CachePoolRegistry::new()).unwrap();
    assert!(store.local().is_none());
    assert!(store.distributed().is_some());

    let local = vec![BlobLayer::LocalCache];
    let store = LayeredBlobstore::assemble(repo(), single(), &local, &registry(2, 3)).unwrap();
    assert!(store.distributed().is_none());
    assert_eq!(store.local().as_ref().unwrap().presence().capacity(), 3);
}

#[test]
fn local_cache_layer_fails_without_its_pools() {
    let r = LayeredBlobstore::assemble(repo(), single(), &all_layers(), &CachePoolRegistry::new());
    assert_eq!(r.err(), Some(ErrorKind::MissingCachePool(PoolName::BlobstoreBlobs)));
    let mut only_blobs = CachePoolRegistry::new();
    only_blobs.register("blobstore-blobs", 1);
    let r = LayeredBlobstore::assemble(repo(), single(), &all_layers(), &only_blobs);
    assert_eq!(r.err(), Some(ErrorKind::MissingCachePool(PoolName::BlobstorePresence)));
}

#[test]
fn layers_sit_in_front_of_a_multiplex() {
    let drivers = vec![(1, MemBlob::new()), (2, MemBlob::new())];
    let mut engine =
        MultiplexedBlobstore::new(RepositoryId::new(1), drivers, SyncQueue::new(), None).unwrap();
    engine.set_member_online(2, false);
    let mut store =
        LayeredBlobstore::assemble(repo(), Backing::Multiplexed(engine), &all_layers(), &registry(8, 8))
            .unwrap();
    assert_eq!(store.put_at(b"k", b"v", at(1)), Ok(()));
    assert_eq!(store.get_at(b"k", at(2)), Ok(Some(b"v".to_vec())));
    assert!(store.censor(b"bad", "policy"));
    assert_eq!(
        store.put_at(b"bad", b"bytes", at(3)),
        Err(BlobError::Censored("policy".to_string()))
    );
    match store.inner() {
        Backing::Multiplexed(engine) => {
            assert_eq!(engine.queue().len(), 1);
            assert_eq!(engine.member_get(1, b"k"), Some(GetOutcome::Found(b"v".to_vec())));
            assert_eq!(engine.member_get(1, b"bad"), Some(GetOutcome::Absent));
        }
        other => panic!("unexpected storage {:?}", other),
    }
}

#[test]
fn scoped_key_carries_the_repository_in_front() {
    assert_eq!(scoped_key(RepositoryId::new(0), b"k"), vec![0x80, 0, 0, 0, b'k']);
    assert_eq!(scoped_key(RepositoryId::new(1), b""), vec![0x80, 0, 0, 1]);
    assert_eq!(scoped_key(RepositoryId::new(0x0102_0304), b"ab"), vec![0x81, 2, 3, 4, b'a', b'b']);
    assert_eq!(scoped_key(RepositoryId::new(-1), b"k"), vec![0x7f, 0xff, 0xff, 0xff, b'k']);
    assert_eq!(scoped_key(RepositoryId::new(i32::MIN), b"k"), vec![0, 0, 0, 0, b'k']);
    assert_eq!(scoped_key(RepositoryId::new(i32::MAX), b"k"), vec![0xff, 0xff, 0xff, 0xff, b'k']);
    assert_ne!(scoped_key(RepositoryId::new(1), b"k"), scoped_key(RepositoryId::new(2), b"k"));
}

#[test]
fn repositories_sharing_caches_never_see_each_other() {
    let first = RepositoryId::new(1);
    let second = RepositoryId::new(2);
    let mut store =
        LayeredBlobstore::assemble(first, single(), &all_layers(), &registry(8, 8)).unwrap();
    assert_eq!(store.put_at(b"k", b"of the first", at(1)), Ok(()));
    assert_eq!(store.get_at(b"gone", at(1)), Ok(None));

    // The caches move on to another repository with all they hold.
    let (layers, _) = store.into_parts();
    let (distributed, local) = layers.into_caches();
    assert_eq!(distributed.as_ref().unwrap().len(), 1);
    let shared = CacheLayers::with_caches(second, distributed, local);
    let mut other = LayeredBlobstore::with_layers(shared, single());

    assert_eq!(other.get_at(b"k", at(2)), Ok(None));
    assert_eq!(other.put_at(b"gone", b"of the second", at(2)), Ok(()));
    assert_eq!(other.get_at(b"gone", at(3)), Ok(Some(b"of the second".to_vec())));
    let pool = other.distributed().as_ref().unwrap();
    assert_eq!(pool.get(&scoped_key(first, b"k")), Some(b"of the first".to_vec()));
    assert_eq!(pool.get(&scoped_key(second, b"gone")), Some(b"of the second".to_vec()));
    assert_eq!(pool.get(&scoped_key(second, b"k")), None);
}

#[test]
fn layers_take_a_read_as_far_as_they_can() {
    let mut layers = CacheLayers::assemble(repo(), &all_layers(), &registry(8, 8)).unwrap();
    assert_eq!(layers.begin_get(b"k"), GetStep::AskStorage);
    layers.storage_answered(b"k", Some(b"v"));
    assert_eq!(layers.begin_get(b"k"), GetStep::Done(Some(b"v".to_vec())));
    layers.storage_answered(b"none", None);
    assert_eq!(layers.begin_get(b"none"), GetStep::Done(None));
    assert_eq!(layers.begin_put(b"k"), Ok(()));

    assert!(layers.censor(b"k", "policy"));
    assert_eq!(layers.begin_get(b"k"), GetStep::Refused("policy".to_string()));
    assert_eq!(layers.begin_put(b"k"), Err(BlobError::Censored("policy".to_string())));
    // An answer that arrives for a key denylisted meanwhile is not cached.
    layers.storage_answered(b"k", Some(b"v"));
    assert_eq!(layers.distributed().as_ref().unwrap().get(&sk(b"k")), None);
    assert_eq!(layers.local().as_ref().unwrap().lookup(&sk(b"k")), CacheAnswer::Miss);
}

#[test]
fn layers_without_caches_always_ask_the_storage() {
    let mut layers = CacheLayers::none(repo());
    assert_eq!(layers.begin_get(b"k"), GetStep::AskStorage);
    layers.storage_answered(b"k", Some(b"v"));
    assert_eq!(layers.begin_get(b"k"), GetStep::AskStorage);
    assert!(layers.local().is_none());
    assert!(layers.distributed().is_none());
}

#[test]
fn reads_through_the_caches_agree_with_the_driver() {
    let mut store = LayeredBlobstore::assemble(repo(), single(), &all_layers(), &registry(2, 2))
        .unwrap();
    let keys: Vec<Vec<u8>> = (0..6).map(key).collect();
    for round in 0..3u8 {
        for (n, k) in keys.iter().enumerate() {
            if (n as u8 + round) % 2 == 0 {
                assert_eq!(store.put_at(k, &[round, n as u8], at(1)), Ok(()));
            }
            for probe in &keys {
                let held = match driver_of(&store).get(probe) {
                    GetOutcome::Found(value) => Some(value),
                    _ => None,
                };
                assert_eq!(store.get_at(probe, at(2)), Ok(held));
            }
        }
    }
}

#[test]
fn order_of_the_layer_list_plays_no_part() {
    let orders = [
        vec![BlobLayer::Censorship, BlobLayer::LocalCache, BlobLayer::DistributedCache],
        vec![BlobLayer::Censorship, BlobLayer::DistributedCache, BlobLayer::LocalCache],
        vec![BlobLayer::DistributedCache, BlobLayer::LocalCache, BlobLayer::Censorship],
        vec![BlobLayer::LocalCache, BlobLayer::LocalCache, BlobLayer::DistributedCache],
    ];
    for layers in orders {
        let mut store =
            LayeredBlobstore::assemble(repo(), single(), &layers, &registry(8, 8)).unwrap();
        assert_eq!(store.put_at(b"k", b"v", at(1)), Ok(()));
        assert!(store.censor(b"k", "policy"));
        // The denylist is asked before any cache, though the caches held the key.
        assert_eq!(store.get_at(b"k", at(2)), Err(BlobError::Censored("policy".to_string())));
        assert_eq!(store.put_at(b"other", b"w", at(3)), Ok(()));
        assert_eq!(
            store.local().as_ref().unwrap().lookup(&sk(b"other")),
            CacheAnswer::Hit(b"w".to_vec())
        );
        assert_eq!(store.distributed().as_ref().unwrap().get(&sk(b"other")), Some(b"w".to_vec()));
    }
}

#[test]
fn layers_split_into_those_of_the_process_and_the_distributed_cache() {
    let split = split_layers(&all_layers());
    assert_eq!(split.in_process, vec![BlobLayer::Censorship, BlobLayer::LocalCache]);
    assert!(split.distributed);

    let split = split_layers(&vec![
        BlobLayer::LocalCache,
        BlobLayer::DistributedCache,
        BlobLayer::Censorship,
        BlobLayer::LocalCache,
    ]);
    assert_eq!(split.in_process, vec![BlobLayer::Censorship, BlobLayer::LocalCache]);
    assert!(split.distributed);

    let split = split_layers(&vec![BlobLayer::LocalCache]);
    assert_eq!(split.in_process, vec![BlobLayer::LocalCache]);
    assert!(!split.distributed);

    let split = split_layers(&vec![]);
    assert!(split.in_process.is_empty());
    assert!(!split.distributed);
}
