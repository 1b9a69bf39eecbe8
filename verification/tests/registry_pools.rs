use blobrepo_factory::config::MetadataDBConfig;
use blobrepo_factory::registry::{CachePoolRegistry, PoolName};

#[test]
fn pool_names_are_stable() {
    assert_eq!(PoolName::BlobstoreBlobs.name(), "blobstore-blobs");
    assert_eq!(PoolName::BlobstorePresence.name(), "blobstore-presence");
    assert_eq!(PoolName::Filenodes.name(), "filenodes");
    assert_eq!(PoolName::Changesets.name(), "changesets");
    assert_eq!(PoolName::BonsaiHgMapping.name(), "bonsai_hg_mapping");
    assert_eq!(PoolName::Bookmarks.name(), "bookmarks");
}

#[test]
fn no_two_pools_share_a_name() {
    let pools = [
        PoolName::BlobstoreBlobs,
        PoolName::BlobstorePresence,
        PoolName::Filenodes,
        PoolName::Changesets,
        PoolName::BonsaiHgMapping,
        PoolName::Bookmarks,
    ];
    for (i, a) in pools.iter().enumerate() {
        for b in &pools[i + 1..] {
            assert_ne!(a.name(), b.name());
        }
    }
}

#[test]
fn registry_finds_what_was_registered() {
    let mut registry = CachePoolRegistry::new();
    assert_eq!(registry.get_pool("filenodes"), None);
    assert!(!registry.has_pool(PoolName::Filenodes));
    assert!(registry.register("filenodes", 64));
    assert!(registry.register("changesets", 32));
    assert_eq!(registry.get_pool("filenodes"), Some(64));
    assert_eq!(registry.get_pool("changesets"), Some(32));
    assert_eq!(registry.get_pool("bookmarks"), None);
    assert!(registry.has_pool(PoolName::Filenodes));
    assert!(!registry.has_pool(PoolName::BlobstoreBlobs));
}

#[test]
fn registered_name_keeps_its_size() {
    let mut registry = CachePoolRegistry::new();
    assert!(registry.register("filenodes", 64));
    assert!(!registry.register("filenodes", 1));
    assert_eq!(registry.get_pool("filenodes"), Some(64));
}

#[test]
fn empty_path_or_address_counts_as_missing() {
    let local = MetadataDBConfig::Local { path: "/p".to_string() };
    assert!(local.is_local());
    assert_eq!(local.get_local_address(), Some("/p".to_string()));
    assert_eq!(local.get_db_address(), None);
    let remote = MetadataDBConfig::Remote { address: "a".to_string(), sharded_filenodes: None };
    assert!(!remote.is_local());
    assert_eq!(remote.get_local_address(), None);
    assert_eq!(remote.get_db_address(), Some("a".to_string()));
    let empty = MetadataDBConfig::Local { path: String::new() };
    assert_eq!(empty.get_local_address(), None);
    let empty = MetadataDBConfig::Remote { address: String::new(), sharded_filenodes: None };
    assert_eq!(empty.get_db_address(), None);
}
