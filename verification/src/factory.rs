//! Repository assembly. Given a storage configuration, these functions decide
//! which drivers, connections, cache layers and pools make up the repository,
//! and in which order failures are reported. Opening the stores is left to
//! the caller, who reports back what happened.

use vstd::prelude::*;
use vstd::string::*;
use crate::config::{
    BlobConfig, MetadataDBConfig, RepositoryId, ShardedFilenodesParams, StorageConfig,
};
use crate::errors::{ErrorKind, StateOpenError};
use crate::registry::{CachePoolRegistry, PoolName};
use crate::time::Span;

verus! {

/// How to reach one SQL-backed store.
#[derive(Clone, Debug, PartialEq, Eq)]
pub enum ConnectionPlan {
    SqliteInMemory,
    SqlitePath { root: String, leaf: String },
    Myrouter { address: String, port: u16 },
    RawXdb { address: String },
    ShardedMyrouter { shard_map: String, port: u16, shard_count: u64 },
    ShardedRawXdb { shard_map: String, shard_count: u64 },
}

/// One concrete storage driver to build.
#[derive(Clone, Debug, PartialEq, Eq)]
pub enum DriverPlan {
    /// Fails every operation for the given reason.
    Disabled { reason: String },
    /// Lives in process memory.
    Memory,
    Files { root: String, leaf: String },
    EmbeddedKV { root: String, leaf: String, create_if_missing: bool },
    EmbeddedSQL { repoid: RepositoryId, root: String, leaf: String },
    /// Every key is stored in the bucket under `key_prefix`.
    RemoteObjectStore { bucket: String, key_prefix: String },
    NetworkBlob { tier: String, export: String, basepath: String },
    ShardedSQLRouted { repoid: RepositoryId, shard_map: String, port: u16, shard_count: u64 },
    ShardedSQLDirect { repoid: RepositoryId, shard_map: String, shard_count: u64 },
}

/// The blobstore to build: one driver, or a multiplex of drivers with its
/// sync queue.
#[derive(Clone, Debug, PartialEq, Eq)]
pub enum BlobstorePlan {
    Single(DriverPlan),
    Multiplexed {
        repoid: RepositoryId,
        queue: ConnectionPlan,
        members: Vec<(u64, DriverPlan)>,
        telemetry_table: Option<String>,
    },
}

/// A layer in front of the blobstore. Whichever layers are switched on, a
/// read meets them in one order: the denylist first, then the local cache,
/// then the distributed cache, then the storage.
#[derive(Clone, Copy, Debug, PartialEq, Eq, Structural)]
pub enum BlobLayer {
    /// Starts with an empty denylist.
    Censorship,
    DistributedCache,
    /// Uses the pools `BlobstoreBlobs` and `BlobstorePresence`.
    LocalCache,
}

/// The cache in front of the file-metadata store.
#[derive(Clone, Debug, PartialEq, Eq)]
pub struct FilenodesCache {
    pub pool: PoolName,
    /// The name of the store behind the cache, part of every cache key.
    pub backing: String,
    /// Part of every cache key, so that deployments that shard differently
    /// never share entries.
    pub tier: String,
}

/// The file-metadata store with its cache.
#[derive(Clone, Debug, PartialEq, Eq)]
pub struct FilenodesPlan {
    pub connection: ConnectionPlan,
    pub cache: FilenodesCache,
}

/// Who builds changeset fetchers.
#[derive(Clone, Copy, Debug, PartialEq, Eq, Structural)]
pub enum FetcherPlan {
    /// The repository's own default.
    Default,
    /// A factory bound to the assembled changeset store and this repository.
    BoundToChangesets { repoid: RepositoryId },
}

/// How derived data is leased.
#[derive(Clone, Copy, Debug, PartialEq, Eq, Structural)]
pub enum LeasePlan {
    Dummy,
    Distributed,
}

impl LeasePlan {
    /// The namespace under which leases are kept in the distributed cache.
    pub open spec fn spec_namespace(self) -> Option<Seq<char>> {
        match self {
            LeasePlan::Dummy => None,
            LeasePlan::Distributed => Some("bonsai-hg-generation"@),
        }
    }

    pub fn namespace(self) -> (r: Option<String>)
        ensures
            match r {
                Some(name) => self.spec_namespace() == Some(name@),
                None => self.spec_namespace() is None,
            },
    {
        match self {
            LeasePlan::Dummy => None,
            LeasePlan::Distributed => Some("bonsai-hg-generation".to_owned()),
        }
    }
}

/// Everything a repository is made of.
#[derive(Clone, Debug, PartialEq, Eq)]
pub struct RepoPlan {
    pub repoid: RepositoryId,
    pub blobstore: BlobstorePlan,
    /// The layers that are switched on, outermost first: the order in which
    /// a read meets them. The order is the same for every plan, so a list
    /// in another order switches the same layers on.
    pub layers: Vec<BlobLayer>,
    pub bookmarks: ConnectionPlan,
    pub bookmarks_pool: Option<PoolName>,
    /// Readers may see a bookmark that is up to this old.
    pub bookmarks_ttl: Option<Span>,
    pub filenodes: ConnectionPlan,
    pub filenodes_cache: Option<FilenodesCache>,
    pub changesets: ConnectionPlan,
    pub changesets_pool: Option<PoolName>,
    pub bonsai_hg_mapping: ConnectionPlan,
    pub bonsai_hg_mapping_pool: Option<PoolName>,
    pub changeset_fetcher: FetcherPlan,
    pub lease: LeasePlan,
}

/// The directory name under which a store of the given kind persists.
pub open spec fn store_dir_name(kind: StateOpenError) -> Seq<char> {
    match kind {
        StateOpenError::Blobstore => "blobs"@,
        StateOpenError::Bookmarks => "bookmarks"@,
        StateOpenError::Filenodes => "filenodes"@,
        StateOpenError::Changesets => "changesets"@,
        StateOpenError::BonsaiHgMapping => "bonsai_hg_mapping"@,
    }
}

/// A connection to the SQLite store in directory `leaf` under `root`.
pub open spec fn is_sqlite_at(plan: ConnectionPlan, root: Seq<char>, leaf: Seq<char>) -> bool {
    plan matches ConnectionPlan::SqlitePath { root: r, leaf: l } && r@ == root && l@ == leaf
}

/// A routed connection where a port is given, a direct one otherwise.
pub open spec fn is_xdb(plan: ConnectionPlan, address: Seq<char>, port: Option<u16>) -> bool {
    match port {
        Some(p) => plan matches ConnectionPlan::Myrouter { address: a, port: q } && a@ == address
            && q == p,
        None => plan matches ConnectionPlan::RawXdb { address: a } && a@ == address,
    }
}

/// The row of the sharding table that applies, and the cache tier with it.
pub open spec fn is_filenodes_plan(
    plan: FilenodesPlan,
    address: Seq<char>,
    sharded: Option<ShardedFilenodesParams>,
    port: Option<u16>,
) -> bool {
    &&& plan.cache.pool == PoolName::Filenodes
    &&& plan.cache.backing@ == "sqlfilenodes"@
    &&& match (sharded, port) {
        (Some(params), Some(p)) => {
            &&& plan.connection matches ConnectionPlan::ShardedMyrouter {
                shard_map: m,
                port: q,
                shard_count: c,
            } && m@ == params.shard_map@ && q == p && c == params.shard_count
            &&& plan.cache.tier@ == params.shard_map@
        },
        (Some(params), None) => {
            &&& plan.connection matches ConnectionPlan::ShardedRawXdb { shard_map: m, shard_count: c }
                && m@ == params.shard_map@ && c == params.shard_count
            &&& plan.cache.tier@ == params.shard_map@
        },
        (None, _) => {
            &&& is_xdb(plan.connection, address, port)
            &&& plan.cache.tier@ == address
        },
    }
}

/// Whether `plan` is the driver that `config` describes.
pub open spec fn driver_plan_for(
    plan: DriverPlan,
    repoid: RepositoryId,
    config: BlobConfig,
    port: Option<u16>,
) -> bool {
    match config {
        BlobConfig::Disabled => plan matches DriverPlan::Disabled { reason } && reason@
            == "Disabled by configuration"@,
        BlobConfig::Files { path } => plan matches DriverPlan::Files { root, leaf } && root@
            == path@ && leaf@ == store_dir_name(StateOpenError::Blobstore),
        BlobConfig::EmbeddedKV { path } => plan matches DriverPlan::EmbeddedKV {
            root,
            leaf,
            create_if_missing,
        } && root@ == path@ && leaf@ == store_dir_name(StateOpenError::Blobstore)
            && create_if_missing,
        BlobConfig::EmbeddedSQL { path } => plan matches DriverPlan::EmbeddedSQL {
            repoid: r,
            root,
            leaf,
        } && r == repoid && root@ == path@ && leaf@ == store_dir_name(StateOpenError::Blobstore),
        BlobConfig::RemoteObjectStore { bucket, prefix } => plan matches DriverPlan::RemoteObjectStore {
            bucket: b,
            key_prefix,
        } && b@ == bucket@ && key_prefix@ == "flat/"@ + prefix@,
        BlobConfig::NetworkBlob { tier, export, basepath } => plan matches DriverPlan::NetworkBlob {
            tier: t,
            export: e,
            basepath: b,
        } && t@ == tier@ && e@ == export@ && b@ == basepath@,
        BlobConfig::ShardedSQL { shard_map, shard_count } => match port {
            Some(p) => plan matches DriverPlan::ShardedSQLRouted {
                repoid: r,
                shard_map: m,
                port: q,
                shard_count: c,
            } && r == repoid && m@ == shard_map@ && q == p && c == shard_count,
            None => plan matches DriverPlan::ShardedSQLDirect {
                repoid: r,
                shard_map: m,
                shard_count: c,
            } && r == repoid && m@ == shard_map@ && c == shard_count,
        },
        BlobConfig::Multiplexed { .. } => false,
    }
}

/// Why a configuration that is not multiplexed yields no driver.
pub open spec fn driver_fault(config: BlobConfig) -> Option<ErrorKind> {
    match config {
        BlobConfig::ShardedSQL { shard_count, .. } => if shard_count == 0 {
            Some(ErrorKind::NoShards)
        } else {
            None
        },
        _ => None,
    }
}

/// Why the sync queue of a multiplex cannot be resolved.
pub open spec fn queue_fault(dbconfig: MetadataDBConfig) -> Option<ErrorKind> {
    if dbconfig.spec_is_local() {
        if dbconfig.spec_local_address() is None {
            Some(ErrorKind::LocalPathMissing)
        } else {
            None
        }
    } else {
        if dbconfig.spec_db_address() is None {
            Some(ErrorKind::RemoteAddressMissing)
        } else {
            None
        }
    }
}

/// The queue lives beside the metadata stores: in a local directory on the
/// local profile, behind the remote address otherwise.
pub open spec fn is_queue_plan(plan: ConnectionPlan, dbconfig: MetadataDBConfig, port: Option<u16>) -> bool {
    if dbconfig.spec_is_local() {
        dbconfig.spec_local_address() is Some && is_sqlite_at(
            plan,
            dbconfig.spec_local_address()->0,
            "blobstore_sync_queue"@,
        )
    } else {
        dbconfig.spec_db_address() is Some && is_xdb(plan, dbconfig.spec_db_address()->0, port)
    }
}

/// Why member `i` of a multiplex cannot be resolved.
pub open spec fn member_fault(members: Seq<(u64, BlobConfig)>, i: int) -> Option<ErrorKind> {
    let id = members[i].0;
    if exists|j: int| 0 <= j < i && members[j].0 == id {
        Some(ErrorKind::DuplicateMember(id))
    } else if members[i].1 is Multiplexed {
        Some(ErrorKind::NestedMultiplex(id))
    } else {
        driver_fault(members[i].1)
    }
}

/// The fault of the first member, at or after `i`, that has one.
pub open spec fn first_member_fault(members: Seq<(u64, BlobConfig)>, i: int) -> Option<ErrorKind>
    decreases members.len() - i,
{
    if i < 0 || i >= members.len() {
        None
    } else if member_fault(members, i) is Some {
        member_fault(members, i)
    } else {
        first_member_fault(members, i + 1)
    }
}

/// Why no blobstore can be planned: for a multiplex the queue is resolved
/// first, then the members in order.
pub open spec fn blobstore_fault(blobconfig: BlobConfig, dbconfig: MetadataDBConfig) -> Option<ErrorKind> {
    match blobconfig {
        BlobConfig::Multiplexed { members, .. } => if queue_fault(dbconfig) is Some {
            queue_fault(dbconfig)
        } else {
            first_member_fault(members@, 0)
        },
        _ => driver_fault(blobconfig),
    }
}

/// Whether two optional table names are the same.
pub open spec fn same_table(a: Option<String>, b: Option<String>) -> bool {
    match (a, b) {
        (Some(x), Some(y)) => x@ == y@,
        (None, None) => true,
        _ => false,
    }
}

/// Whether `plan` is the blobstore that the configuration describes.
pub open spec fn blobstore_plan_for(
    plan: BlobstorePlan,
    repoid: RepositoryId,
    blobconfig: BlobConfig,
    dbconfig: MetadataDBConfig,
    port: Option<u16>,
) -> bool {
    match blobconfig {
        BlobConfig::Multiplexed { telemetry_table, members } => {
            &&& plan matches BlobstorePlan::Multiplexed {
                repoid: r,
                queue,
                members: planned,
                telemetry_table: table,
            }
            &&& r == repoid
            &&& is_queue_plan(queue, dbconfig, port)
            &&& same_table(table, telemetry_table)
            &&& planned@.len() == members@.len()
            &&& forall|i: int|
                0 <= i < members@.len() ==> (#[trigger] planned@[i]).0 == members@[i].0
                    && driver_plan_for(planned@[i].1, repoid, members@[i].1, port)
        },
        _ => plan matches BlobstorePlan::Single(driver) && driver_plan_for(
            driver,
            repoid,
            blobconfig,
            port,
        ),
    }
}

/// The name of the directory in which a store of the given kind persists.
pub fn store_dir(kind: StateOpenError) -> (r: String)
    ensures
        r@ == store_dir_name(kind),
{
    match kind {
        StateOpenError::Blobstore => "blobs".to_owned(),
        StateOpenError::Bookmarks => "bookmarks".to_owned(),
        StateOpenError::Filenodes => "filenodes".to_owned(),
        StateOpenError::Changesets => "changesets".to_owned(),
        StateOpenError::BonsaiHgMapping => "bonsai_hg_mapping".to_owned(),
    }
}

/// A routed connection where a port is given, a direct one otherwise.
pub fn open_xdb(addr: &str, myrouter_port: Option<u16>) -> (r: ConnectionPlan)
    ensures
        is_xdb(r, addr@, myrouter_port),
{
    match myrouter_port {
        Some(port) => ConnectionPlan::Myrouter { address: addr.to_owned(), port },
        None => ConnectionPlan::RawXdb { address: addr.to_owned() },
    }
}

/// Plans the driver of a configuration that is not multiplexed.
fn plan_driver(repoid: RepositoryId, config: &BlobConfig, myrouter_port: Option<u16>) -> (r: Result<
    DriverPlan,
    ErrorKind,
>)
    requires
        !(config is Multiplexed),
    ensures
        match driver_fault(*config) {
            Some(e) => r == Err::<DriverPlan, ErrorKind>(e),
            None => r is Ok && driver_plan_for(r->Ok_0, repoid, *config, myrouter_port),
        },
{
    match config {
        BlobConfig::Disabled => Ok(
            DriverPlan::Disabled { reason: "Disabled by configuration".to_owned() },
        ),
        BlobConfig::Files { path } => Ok(
            DriverPlan::Files { root: path.clone(), leaf: store_dir(StateOpenError::Blobstore) },
        ),
        BlobConfig::EmbeddedKV { path } => Ok(
            DriverPlan::EmbeddedKV {
                root: path.clone(),
                leaf: store_dir(StateOpenError::Blobstore),
                create_if_missing: true,
            },
        ),
        BlobConfig::EmbeddedSQL { path } => Ok(
            DriverPlan::EmbeddedSQL {
                repoid,
                root: path.clone(),
                leaf: store_dir(StateOpenError::Blobstore),
            },
        ),
        BlobConfig::RemoteObjectStore { bucket, prefix } => {
            let key_prefix = "flat/".to_owned().concat(prefix.as_str());
            Ok(DriverPlan::RemoteObjectStore { bucket: bucket.clone(), key_prefix })
        },
        BlobConfig::NetworkBlob { tier, export, basepath } => Ok(
            DriverPlan::NetworkBlob {
                tier: tier.clone(),
                export: export.clone(),
                basepath: basepath.clone(),
            },
        ),
        BlobConfig::ShardedSQL { shard_map, shard_count } => {
            if *shard_count == 0 {
                Err(ErrorKind::NoShards)
            } else {
                match myrouter_port {
                    Some(port) => Ok(
                        DriverPlan::ShardedSQLRouted {
                            repoid,
                            shard_map: shard_map.clone(),
                            port,
                            shard_count: *shard_count,
                        },
                    ),
                    None => Ok(
                        DriverPlan::ShardedSQLDirect {
                            repoid,
                            shard_map: shard_map.clone(),
                            shard_count: *shard_count,
                        },
                    ),
                }
            }
        },
        BlobConfig::Multiplexed { .. } => Err(ErrorKind::NoShards),
    }
}

/// Plans the sync queue of a multiplex.
fn plan_queue(dbconfig: &MetadataDBConfig, myrouter_port: Option<u16>) -> (r: Result<
    ConnectionPlan,
    ErrorKind,
>)
    ensures
        match queue_fault(*dbconfig) {
            Some(e) => r == Err::<ConnectionPlan, ErrorKind>(e),
            None => r is Ok && is_queue_plan(r->Ok_0, *dbconfig, myrouter_port),
        },
{
    if dbconfig.is_local() {
        match dbconfig.get_local_address() {
            None => Err(ErrorKind::LocalPathMissing),
            Some(path) => Ok(
                ConnectionPlan::SqlitePath { root: path, leaf: "blobstore_sync_queue".to_owned() },
            ),
        }
    } else {
        match dbconfig.get_db_address() {
            None => Err(ErrorKind::RemoteAddressMissing),
            Some(address) => Ok(open_xdb(address.as_str(), myrouter_port)),
        }
    }
}

/// Whether the id of member `i` occurs before it.
fn id_taken(members: &Vec<(u64, BlobConfig)>, i: usize) -> (r: bool)
    requires
        i < members.len(),
    ensures
        r == exists|j: int| 0 <= j < i && members@[j].0 == members@[i as int].0,
{
    let mut j: usize = 0;
    while j < i
        invariant
            j <= i < members.len(),
            forall|k: int| 0 <= k < j ==> members@[k].0 != members@[i as int].0,
        decreases i - j,
    {
        if members[j].0 == members[i].0 {
            return true;
        }
        j += 1;
    }
    false
}

/// Plans the blobstore that a configuration describes.
///
/// A multiplex resolves its sync queue first and then every member in
/// order; the first failure aborts the whole plan, so that no partial
/// multiplex ever exists.
#[verifier::loop_isolation(false)]
pub fn make_blobstore(
    repoid: RepositoryId,
    blobconfig: &BlobConfig,
    dbconfig: &MetadataDBConfig,
    myrouter_port: Option<u16>,
) -> (r: Result<BlobstorePlan, ErrorKind>)
    ensures
        match blobstore_fault(*blobconfig, *dbconfig) {
            Some(e) => r == Err::<BlobstorePlan, ErrorKind>(e),
            None => r is Ok && blobstore_plan_for(
                r->Ok_0,
                repoid,
                *blobconfig,
                *dbconfig,
                myrouter_port,
            ),
        },
{
    match blobconfig {
        BlobConfig::Multiplexed { telemetry_table, members } => {
            let queue = match plan_queue(dbconfig, myrouter_port) {
                Err(e) => {
                    return Err(e);
                },
                Ok(queue) => queue,
            };
            let mut planned: Vec<(u64, DriverPlan)> = Vec::new();
            let mut i: usize = 0;
            while i < members.len()
                invariant
                    i <= members.len(),
                    planned@.len() == i,
                    first_member_fault(members@, 0) == first_member_fault(members@, i as int),
                    forall|k: int|
                        0 <= k < i ==> (#[trigger] planned@[k]).0 == members@[k].0
                            && driver_plan_for(planned@[k].1, repoid, members@[k].1, myrouter_port),
                decreases members.len() - i,
            {
                let id = members[i].0;
                if id_taken(members, i) {
                    return Err(ErrorKind::DuplicateMember(id));
                }
                let driver = match &members[i].1 {
                    BlobConfig::Multiplexed { .. } => {
                        return Err(ErrorKind::NestedMultiplex(id));
                    },
                    single => match plan_driver(repoid, single, myrouter_port) {
                        Err(e) => {
                            return Err(e);
                        },
                        Ok(driver) => driver,
                    },
                };
                planned.push((id, driver));
                i += 1;
            }
            let table = match telemetry_table {
                Some(name) => Some(name.clone()),
                None => None,
            };
            Ok(BlobstorePlan::Multiplexed { repoid, queue, members: planned, telemetry_table: table })
        },
        single => match plan_driver(repoid, single, myrouter_port) {
            Err(e) => Err(e),
            Ok(driver) => Ok(BlobstorePlan::Single(driver)),
        },
    }
}

/// The pools that the remote profile needs, in the order in which their
/// absence is reported.
pub open spec fn missing_pool(registry: CachePoolRegistry) -> Option<PoolName> {
    if !registry.has(PoolName::BlobstoreBlobs) {
        Some(PoolName::BlobstoreBlobs)
    } else if !registry.has(PoolName::BlobstorePresence) {
        Some(PoolName::BlobstorePresence)
    } else if !registry.has(PoolName::Filenodes) {
        Some(PoolName::Filenodes)
    } else if !registry.has(PoolName::Changesets) {
        Some(PoolName::Changesets)
    } else if !registry.has(PoolName::BonsaiHgMapping) {
        Some(PoolName::BonsaiHgMapping)
    } else if !registry.has(PoolName::Bookmarks) {
        Some(PoolName::Bookmarks)
    } else {
        None
    }
}

/// Why the sharding parameters cannot be used.
pub open spec fn shards_fault(sharded: Option<ShardedFilenodesParams>) -> Option<ErrorKind> {
    match sharded {
        Some(params) => if params.shard_count == 0 {
            Some(ErrorKind::NoShards)
        } else {
            None
        },
        None => None,
    }
}

/// Why the file-metadata store cannot be planned: its pool is looked up
/// before the sharding parameters are read.
pub open spec fn filenodes_fault(
    registry: CachePoolRegistry,
    sharded: Option<ShardedFilenodesParams>,
) -> Option<ErrorKind> {
    if !registry.has(PoolName::Filenodes) {
        Some(ErrorKind::MissingCachePool(PoolName::Filenodes))
    } else {
        shards_fault(sharded)
    }
}

/// Why the local profile cannot be planned.
pub open spec fn local_fault(dbpath: Seq<char>) -> Option<ErrorKind> {
    if dbpath.len() == 0 {
        Some(ErrorKind::LocalPathMissing)
    } else {
        None
    }
}

/// Why the remote profile cannot be planned: the first missing pool, then
/// a missing address, then the sharding parameters.
pub open spec fn remote_fault(
    address: Seq<char>,
    registry: CachePoolRegistry,
    sharded: Option<ShardedFilenodesParams>,
) -> Option<ErrorKind> {
    if missing_pool(registry) is Some {
        Some(ErrorKind::MissingCachePool(missing_pool(registry)->0))
    } else if address.len() == 0 {
        Some(ErrorKind::RemoteAddressMissing)
    } else {
        shards_fault(sharded)
    }
}

/// The local profile: every store in its own directory under `dbpath`, no
/// cache anywhere, the blobstore as it was resolved.
pub open spec fn is_local_repo_plan(plan: RepoPlan, dbpath: Seq<char>, repoid: RepositoryId) -> bool {
    &&& plan.repoid == repoid
    &&& plan.layers@.len() == 0
    &&& is_sqlite_at(plan.bookmarks, dbpath, store_dir_name(StateOpenError::Bookmarks))
    &&& plan.bookmarks_pool is None
    &&& plan.bookmarks_ttl is None
    &&& is_sqlite_at(plan.filenodes, dbpath, store_dir_name(StateOpenError::Filenodes))
    &&& plan.filenodes_cache is None
    &&& is_sqlite_at(plan.changesets, dbpath, store_dir_name(StateOpenError::Changesets))
    &&& plan.changesets_pool is None
    &&& is_sqlite_at(
        plan.bonsai_hg_mapping,
        dbpath,
        store_dir_name(StateOpenError::BonsaiHgMapping),
    )
    &&& plan.bonsai_hg_mapping_pool is None
    &&& plan.changeset_fetcher == FetcherPlan::Default
    &&& plan.lease == LeasePlan::Dummy
}

/// The three layers of the remote profile, outermost first.
pub open spec fn remote_layers() -> Seq<BlobLayer> {
    seq![BlobLayer::Censorship, BlobLayer::LocalCache, BlobLayer::DistributedCache]
}

/// The remote profile: the blobstore under its three layers, every store
/// behind the remote address and in front of it a cache bound to its own
/// pool; in front of the bookmarks also the staleness cache, where a time
/// to live is given.
pub open spec fn is_remote_repo_plan(
    plan: RepoPlan,
    address: Seq<char>,
    sharded: Option<ShardedFilenodesParams>,
    repoid: RepositoryId,
    port: Option<u16>,
    ttl: Option<Span>,
) -> bool {
    &&& plan.repoid == repoid
    &&& plan.layers@ == remote_layers()
    &&& is_xdb(plan.bookmarks, address, port)
    &&& plan.bookmarks_pool == Some(PoolName::Bookmarks)
    &&& plan.bookmarks_ttl == ttl
    &&& plan.filenodes_cache is Some
    &&& is_filenodes_plan(
        (FilenodesPlan { connection: plan.filenodes, cache: plan.filenodes_cache->0 }),
        address,
        sharded,
        port,
    )
    &&& is_xdb(plan.changesets, address, port)
    &&& plan.changesets_pool == Some(PoolName::Changesets)
    &&& is_xdb(plan.bonsai_hg_mapping, address, port)
    &&& plan.bonsai_hg_mapping_pool == Some(PoolName::BonsaiHgMapping)
    &&& plan.changeset_fetcher == (FetcherPlan::BoundToChangesets { repoid })
    &&& plan.lease == LeasePlan::Distributed
}

/// A repository in memory, for tests: repository 0, every store in memory,
/// no cache anywhere.
pub open spec fn is_memory_repo_plan(plan: RepoPlan) -> bool {
    &&& plan.repoid.id == 0
    &&& plan.layers@.len() == 0
    &&& plan.bookmarks == ConnectionPlan::SqliteInMemory
    &&& plan.bookmarks_pool is None
    &&& plan.bookmarks_ttl is None
    &&& plan.filenodes == ConnectionPlan::SqliteInMemory
    &&& plan.filenodes_cache is None
    &&& plan.changesets == ConnectionPlan::SqliteInMemory
    &&& plan.changesets_pool is None
    &&& plan.bonsai_hg_mapping == ConnectionPlan::SqliteInMemory
    &&& plan.bonsai_hg_mapping_pool is None
    &&& plan.changeset_fetcher == FetcherPlan::Default
    &&& plan.lease == LeasePlan::Dummy
}

/// Why no repository can be planned: the blobstore is resolved first, then
/// the profile that the metadata configuration selects.
pub open spec fn repo_fault(
    storage_config: StorageConfig,
    registry: CachePoolRegistry,
) -> Option<ErrorKind> {
    if blobstore_fault(storage_config.blobstore, storage_config.dbconfig) is Some {
        blobstore_fault(storage_config.blobstore, storage_config.dbconfig)
    } else {
        match storage_config.dbconfig {
            MetadataDBConfig::Local { path } => local_fault(path@),
            MetadataDBConfig::Remote { address, sharded_filenodes } => remote_fault(
                address@,
                registry,
                sharded_filenodes,
            ),
        }
    }
}

/// Whether `plan` is the repository that the configuration describes.
pub open spec fn is_repo_plan(
    plan: RepoPlan,
    storage_config: StorageConfig,
    repoid: RepositoryId,
    port: Option<u16>,
    ttl: Option<Span>,
) -> bool {
    &&& blobstore_plan_for(
        plan.blobstore,
        repoid,
        storage_config.blobstore,
        storage_config.dbconfig,
        port,
    )
    &&& match storage_config.dbconfig {
        MetadataDBConfig::Local { path } => is_local_repo_plan(plan, path@, repoid),
        MetadataDBConfig::Remote { address, sharded_filenodes } => is_remote_repo_plan(
            plan,
            address@,
            sharded_filenodes,
            repoid,
            port,
            ttl,
        ),
    }
}

/// Plans the file-metadata store of the remote profile.
///
/// Sharding parameters and routing port select one of four connections.
/// The cache tier is the shard map where the store is sharded and the plain
/// address where it is not.
pub fn new_filenodes(
    db_address: &String,
    sharded_filenodes: Option<ShardedFilenodesParams>,
    myrouter_port: Option<u16>,
    registry: &CachePoolRegistry,
) -> (r: Result<FilenodesPlan, ErrorKind>)
    ensures
        match filenodes_fault(*registry, sharded_filenodes) {
            Some(e) => r == Err::<FilenodesPlan, ErrorKind>(e),
            None => r is Ok && is_filenodes_plan(
                r->Ok_0,
                db_address@,
                sharded_filenodes,
                myrouter_port,
            ),
        },
{
    if !registry.has_pool(PoolName::Filenodes) {
        return Err(ErrorKind::MissingCachePool(PoolName::Filenodes));
    }
    let (tier, connection) = match (sharded_filenodes, myrouter_port) {
        (Some(ShardedFilenodesParams { shard_map, shard_count }), Some(port)) => {
            if shard_count == 0 {
                return Err(ErrorKind::NoShards);
            }
            let tier = shard_map.clone();
            (tier, ConnectionPlan::ShardedMyrouter { shard_map, port, shard_count })
        },
        (Some(ShardedFilenodesParams { shard_map, shard_count }), None) => {
            if shard_count == 0 {
                return Err(ErrorKind::NoShards);
            }
            let tier = shard_map.clone();
            (tier, ConnectionPlan::ShardedRawXdb { shard_map, shard_count })
        },
        (None, port) => (db_address.clone(), open_xdb(db_address.as_str(), port)),
    };
    Ok(
        FilenodesPlan {
            connection,
            cache: FilenodesCache {
                pool: PoolName::Filenodes,
                backing: "sqlfilenodes".to_owned(),
                tier,
            },
        },
    )
}

/// The connection of the store of the given kind under `dbpath`.
fn sqlite_under(dbpath: &str, kind: StateOpenError) -> (r: ConnectionPlan)
    ensures
        is_sqlite_at(r, dbpath@, store_dir_name(kind)),
{
    ConnectionPlan::SqlitePath { root: dbpath.to_owned(), leaf: store_dir(kind) }
}

/// Plans a repository with purely local state.
pub fn new_local(dbpath: &str, blobstore: BlobstorePlan, repoid: RepositoryId) -> (r: Result<
    RepoPlan,
    ErrorKind,
>)
    ensures
        match local_fault(dbpath@) {
            Some(e) => r == Err::<RepoPlan, ErrorKind>(e),
            None => r is Ok && r->Ok_0.blobstore == blobstore && is_local_repo_plan(
                r->Ok_0,
                dbpath@,
                repoid,
            ),
        },
{
    if dbpath.unicode_len() == 0 {
        return Err(ErrorKind::LocalPathMissing);
    }
    Ok(
        RepoPlan {
            repoid,
            blobstore,
            layers: Vec::new(),
            bookmarks: sqlite_under(dbpath, StateOpenError::Bookmarks),
            bookmarks_pool: None,
            bookmarks_ttl: None,
            filenodes: sqlite_under(dbpath, StateOpenError::Filenodes),
            filenodes_cache: None,
            changesets: sqlite_under(dbpath, StateOpenError::Changesets),
            changesets_pool: None,
            bonsai_hg_mapping: sqlite_under(dbpath, StateOpenError::BonsaiHgMapping),
            bonsai_hg_mapping_pool: None,
            changeset_fetcher: FetcherPlan::Default,
            lease: LeasePlan::Dummy,
        },
    )
}

/// The first pool of the remote profile that is not registered.
fn first_missing_pool(registry: &CachePoolRegistry) -> (r: Option<PoolName>)
    ensures
        r == missing_pool(*registry),
{
    if !registry.has_pool(PoolName::BlobstoreBlobs) {
        Some(PoolName::BlobstoreBlobs)
    } else if !registry.has_pool(PoolName::BlobstorePresence) {
        Some(PoolName::BlobstorePresence)
    } else if !registry.has_pool(PoolName::Filenodes) {
        Some(PoolName::Filenodes)
    } else if !registry.has_pool(PoolName::Changesets) {
        Some(PoolName::Changesets)
    } else if !registry.has_pool(PoolName::BonsaiHgMapping) {
        Some(PoolName::BonsaiHgMapping)
    } else if !registry.has_pool(PoolName::Bookmarks) {
        Some(PoolName::Bookmarks)
    } else {
        None
    }
}

/// Plans a repository for production: the blobstore under censorship,
/// distributed cache and local cache, and every metadata store behind the
/// remote address with a cache of its own.
///
/// Every pool is looked up before anything else is planned, so that a
/// missing pool is reported while no store has been opened.
pub fn new_remote(
    db_address: String,
    sharded_filenodes: Option<ShardedFilenodesParams>,
    blobstore: BlobstorePlan,
    repoid: RepositoryId,
    myrouter_port: Option<u16>,
    bookmarks_cache_ttl: Option<Span>,
    registry: &CachePoolRegistry,
) -> (r: Result<RepoPlan, ErrorKind>)
    ensures
        match remote_fault(db_address@, *registry, sharded_filenodes) {
            Some(e) => r == Err::<RepoPlan, ErrorKind>(e),
            None => r is Ok && r->Ok_0.blobstore == blobstore && is_remote_repo_plan(
                r->Ok_0,
                db_address@,
                sharded_filenodes,
                repoid,
                myrouter_port,
                bookmarks_cache_ttl,
            ),
        },
{
    match first_missing_pool(registry) {
        Some(pool) => {
            return Err(ErrorKind::MissingCachePool(pool));
        },
        None => {},
    }
    if db_address.as_str().unicode_len() == 0 {
        return Err(ErrorKind::RemoteAddressMissing);
    }
    let mut layers: Vec<BlobLayer> = Vec::new();
    layers.push(BlobLayer::Censorship);
    layers.push(BlobLayer::LocalCache);
    layers.push(BlobLayer::DistributedCache);
    assert(layers@ =~= remote_layers());

    let filenodes = match new_filenodes(&db_address, sharded_filenodes, myrouter_port, registry) {
        Err(e) => {
            return Err(e);
        },
        Ok(plan) => plan,
    };
    let bookmarks = open_xdb(db_address.as_str(), myrouter_port);
    let changesets = open_xdb(db_address.as_str(), myrouter_port);
    let bonsai_hg_mapping = open_xdb(db_address.as_str(), myrouter_port);

    Ok(
        RepoPlan {
            repoid,
            blobstore,
            layers,
            bookmarks,
            bookmarks_pool: Some(PoolName::Bookmarks),
            bookmarks_ttl: bookmarks_cache_ttl,
            filenodes: filenodes.connection,
            filenodes_cache: Some(filenodes.cache),
            changesets,
            changesets_pool: Some(PoolName::Changesets),
            bonsai_hg_mapping,
            bonsai_hg_mapping_pool: Some(PoolName::BonsaiHgMapping),
            changeset_fetcher: FetcherPlan::BoundToChangesets { repoid },
            lease: LeasePlan::Distributed,
        },
    )
}

/// Plans a repository that lives in memory. Where no blobstore is given, a
/// memory driver takes its place.
pub fn new_memblob_empty(blobstore: Option<BlobstorePlan>) -> (r: RepoPlan)
    ensures
        is_memory_repo_plan(r),
        match blobstore {
            Some(given) => r.blobstore == given,
            None => r.blobstore == BlobstorePlan::Single(DriverPlan::Memory),
        },
{
    let blobstore = match blobstore {
        Some(given) => given,
        None => BlobstorePlan::Single(DriverPlan::Memory),
    };
    RepoPlan {
        repoid: RepositoryId::new(0),
        blobstore,
        layers: Vec::new(),
        bookmarks: ConnectionPlan::SqliteInMemory,
        bookmarks_pool: None,
        bookmarks_ttl: None,
        filenodes: ConnectionPlan::SqliteInMemory,
        filenodes_cache: None,
        changesets: ConnectionPlan::SqliteInMemory,
        changesets_pool: None,
        bonsai_hg_mapping: ConnectionPlan::SqliteInMemory,
        bonsai_hg_mapping_pool: None,
        changeset_fetcher: FetcherPlan::Default,
        lease: LeasePlan::Dummy,
    }
}

/// Plans a repository from its storage configuration. A local metadata
/// configuration selects the local profile, a remote one the production
/// profile with its full set of caches.
pub fn open_blobrepo(
    storage_config: StorageConfig,
    repoid: RepositoryId,
    myrouter_port: Option<u16>,
    bookmarks_cache_ttl: Option<Span>,
    registry: &CachePoolRegistry,
) -> (r: Result<RepoPlan, ErrorKind>)
    ensures
        match repo_fault(storage_config, *registry) {
            Some(e) => r == Err::<RepoPlan, ErrorKind>(e),
            None => r is Ok && is_repo_plan(
                r->Ok_0,
                storage_config,
                repoid,
                myrouter_port,
                bookmarks_cache_ttl,
            ),
        },
{
    let blobstore = match make_blobstore(
        repoid,
        &storage_config.blobstore,
        &storage_config.dbconfig,
        myrouter_port,
    ) {
        Err(e) => {
            return Err(e);
        },
        Ok(plan) => plan,
    };
    match storage_config.dbconfig {
        MetadataDBConfig::Local { path } => new_local(path.as_str(), blobstore, repoid),
        MetadataDBConfig::Remote { address, sharded_filenodes } => new_remote(
            address,
            sharded_filenodes,
            blobstore,
            repoid,
            myrouter_port,
            bookmarks_cache_ttl,
            registry,
        ),
    }
}

/// What the caller of a plan does next.
#[derive(Clone, Copy, Debug, PartialEq, Eq, Structural)]
pub enum OpenStep {
    /// Open the store of this kind, and report whether it opened.
    Open(StateOpenError),
    /// Every store is open: the repository stands.
    Done,
    /// A store did not open: the assembly has failed, and no further store
    /// is opened.
    Fail(ErrorKind),
}

/// The store that is opened after the store of the given kind: the
/// blobstore first, then bookmarks, file metadata, changesets and the
/// identifier mapping.
pub open spec fn store_after(kind: StateOpenError) -> Option<StateOpenError> {
    match kind {
        StateOpenError::Blobstore => Some(StateOpenError::Bookmarks),
        StateOpenError::Bookmarks => Some(StateOpenError::Filenodes),
        StateOpenError::Filenodes => Some(StateOpenError::Changesets),
        StateOpenError::Changesets => Some(StateOpenError::BonsaiHgMapping),
        StateOpenError::BonsaiHgMapping => None,
    }
}

/// The step that follows on the last one: `last` is the store that was
/// tried last and whether it opened, or nothing where none was tried yet.
pub open spec fn open_step(last: Option<(StateOpenError, bool)>) -> OpenStep {
    match last {
        None => OpenStep::Open(StateOpenError::Blobstore),
        Some((kind, opened)) => if !opened {
            OpenStep::Fail(ErrorKind::StateOpen(kind))
        } else {
            match store_after(kind) {
                Some(next) => OpenStep::Open(next),
                None => OpenStep::Done,
            }
        },
    }
}

/// Leads the caller through the opening of a repository's stores, one at a
/// time and in a fixed order. The first store that does not open fails the
/// assembly, and nothing is opened after it.
pub fn next_open(last: Option<(StateOpenError, bool)>) -> (step: OpenStep)
    ensures
        step == open_step(last),
{
    match last {
        None => OpenStep::Open(StateOpenError::Blobstore),
        Some((kind, false)) => OpenStep::Fail(ErrorKind::StateOpen(kind)),
        Some((StateOpenError::Blobstore, true)) => OpenStep::Open(StateOpenError::Bookmarks),
        Some((StateOpenError::Bookmarks, true)) => OpenStep::Open(StateOpenError::Filenodes),
        Some((StateOpenError::Filenodes, true)) => OpenStep::Open(StateOpenError::Changesets),
        Some((StateOpenError::Changesets, true)) => OpenStep::Open(StateOpenError::BonsaiHgMapping),
        Some((StateOpenError::BonsaiHgMapping, true)) => OpenStep::Done,
    }
}

/// The first of the five stores that did not open, in the order in which
/// they are opened.
pub open spec fn first_unopened(
    blobstore: bool,
    bookmarks: bool,
    filenodes: bool,
    changesets: bool,
    bonsai_hg_mapping: bool,
) -> Option<StateOpenError> {
    if !blobstore {
        Some(StateOpenError::Blobstore)
    } else if !bookmarks {
        Some(StateOpenError::Bookmarks)
    } else if !filenodes {
        Some(StateOpenError::Filenodes)
    } else if !changesets {
        Some(StateOpenError::Changesets)
    } else if !bonsai_hg_mapping {
        Some(StateOpenError::BonsaiHgMapping)
    } else {
        None
    }
}

/// Judges an assembly by which of its five stores opened: it stands if and
/// only if all of them did, and fails with the first that did not.
pub fn assembly_outcome(
    blobstore: bool,
    bookmarks: bool,
    filenodes: bool,
    changesets: bool,
    bonsai_hg_mapping: bool,
) -> (r: Result<(), ErrorKind>)
    ensures
        r is Ok <==> blobstore && bookmarks && filenodes && changesets && bonsai_hg_mapping,
        match first_unopened(blobstore, bookmarks, filenodes, changesets, bonsai_hg_mapping) {
            Some(kind) => r == Err::<(), ErrorKind>(ErrorKind::StateOpen(kind)),
            None => r is Ok,
        },
{
    if !blobstore {
        Err(ErrorKind::StateOpen(StateOpenError::Blobstore))
    } else if !bookmarks {
        Err(ErrorKind::StateOpen(StateOpenError::Bookmarks))
    } else if !filenodes {
        Err(ErrorKind::StateOpen(StateOpenError::Filenodes))
    } else if !changesets {
        Err(ErrorKind::StateOpen(StateOpenError::Changesets))
    } else if !bonsai_hg_mapping {
        Err(ErrorKind::StateOpen(StateOpenError::BonsaiHgMapping))
    } else {
        Ok(())
    }
}

/// Whoever follows `next_open` ends where `assembly_outcome` says: every
/// store before the first that did not open is opened, that store fails
/// the assembly, and the stores behind it are never tried.
pub proof fn lemma_steps_end_in_outcome(
    blobstore: bool,
    bookmarks: bool,
    filenodes: bool,
    changesets: bool,
    bonsai_hg_mapping: bool,
)
    ensures
        ({
            let first = open_step(None);
            let second = open_step(Some((StateOpenError::Blobstore, blobstore)));
            let third = open_step(Some((StateOpenError::Bookmarks, bookmarks)));
            let fourth = open_step(Some((StateOpenError::Filenodes, filenodes)));
            let fifth = open_step(Some((StateOpenError::Changesets, changesets)));
            let last = open_step(Some((StateOpenError::BonsaiHgMapping, bonsai_hg_mapping)));
            let end = if !(second is Open) {
                second
            } else if !(third is Open) {
                third
            } else if !(fourth is Open) {
                fourth
            } else if !(fifth is Open) {
                fifth
            } else {
                last
            };
            &&& first == OpenStep::Open(StateOpenError::Blobstore)
            &&& end == match first_unopened(
                blobstore,
                bookmarks,
                filenodes,
                changesets,
                bonsai_hg_mapping,
            ) {
                Some(kind) => OpenStep::Fail(ErrorKind::StateOpen(kind)),
                None => OpenStep::Done,
            }
        }),
{
}

/// The local profile needs no cache pool: whatever the registry holds, the
/// outcome is the same, and it is never a missing pool. Where the
/// blobstore can be planned and a directory is given, the repository is
/// planned, with no pool registered at all.
pub proof fn lemma_local_profile_needs_no_pool(
    storage_config: StorageConfig,
    registry: CachePoolRegistry,
    other: CachePoolRegistry,
)
    requires
        storage_config.dbconfig is Local,
    ensures
        repo_fault(storage_config, registry) == repo_fault(storage_config, other),
        !(repo_fault(storage_config, registry) matches Some(ErrorKind::MissingCachePool(_))),
        blobstore_fault(storage_config.blobstore, storage_config.dbconfig) is None
            && storage_config.dbconfig->path@.len() > 0 ==> repo_fault(storage_config, registry)
            is None,
{
    lemma_blobstore_fault_is_no_pool(storage_config.blobstore, storage_config.dbconfig);
}

/// Planning a blobstore never reports a missing pool.
pub proof fn lemma_blobstore_fault_is_no_pool(blobconfig: BlobConfig, dbconfig: MetadataDBConfig)
    ensures
        !(blobstore_fault(blobconfig, dbconfig) matches Some(ErrorKind::MissingCachePool(_))),
{
    match blobconfig {
        BlobConfig::Multiplexed { members, .. } => {
            lemma_member_fault_is_no_pool(members@, 0);
        },
        _ => {},
    }
}

/// Resolving members never reports a missing pool.
proof fn lemma_member_fault_is_no_pool(members: Seq<(u64, BlobConfig)>, i: int)
    ensures
        !(first_member_fault(members, i) matches Some(ErrorKind::MissingCachePool(_))),
    decreases members.len() - i,
{
    if 0 <= i < members.len() && member_fault(members, i) is None {
        lemma_member_fault_is_no_pool(members, i + 1);
    }
}

/// On the remote profile a missing pool fails the assembly, and no plan
/// comes back from which a store could be opened. Where the blobstore can
/// be planned, the error names the first missing pool, whatever else is
/// amiss.
pub proof fn lemma_remote_profile_needs_every_pool(
    storage_config: StorageConfig,
    registry: CachePoolRegistry,
    pool: PoolName,
)
    requires
        storage_config.dbconfig is Remote,
        !registry.has(pool),
    ensures
        repo_fault(storage_config, registry) is Some,
        missing_pool(registry) is Some,
        remote_fault(
            storage_config.dbconfig->address@,
            registry,
            storage_config.dbconfig->sharded_filenodes,
        ) == Some(ErrorKind::MissingCachePool(missing_pool(registry)->0)),
        blobstore_fault(storage_config.blobstore, storage_config.dbconfig) is None ==> repo_fault(
            storage_config,
            registry,
        ) == Some(ErrorKind::MissingCachePool(missing_pool(registry)->0)),
{
}

} // verus!
