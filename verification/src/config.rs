//! The declarative storage configuration that assembly consumes.

use vstd::prelude::*;
use vstd::string::*;

verus! {

/// Identifies a repository. Every key, cache namespace and queue row is
/// scoped by it.
#[derive(Clone, Copy, Debug, PartialEq, Eq, Structural)]
pub struct RepositoryId {
    pub id: i32,
}

impl RepositoryId {
    pub fn new(id: i32) -> (r: Self)
        ensures
            r.id == id,
    {
        RepositoryId { id }
    }

    pub fn id(&self) -> (r: i32)
        ensures
            r == self.id,
    {
        self.id
    }
}

/// The four bytes that stand for a repository in front of its keys: the id,
/// moved into the range of unsigned numbers, most significant byte first.
pub open spec fn scope_of(repo: RepositoryId) -> Seq<u8> {
    let n = repo.id + 0x8000_0000;
    seq![
        (n / 0x100_0000) as u8,
        ((n / 0x1_0000) % 0x100) as u8,
        ((n / 0x100) % 0x100) as u8,
        (n % 0x100) as u8,
    ]
}

/// A key as it is stored where repositories share a cache.
pub open spec fn scoped(repo: RepositoryId, key: Seq<u8>) -> Seq<u8> {
    scope_of(repo) + key
}

/// The key under which a shared cache stores `key` for `repo`.
pub fn scoped_key(repo: RepositoryId, key: &[u8]) -> (r: Vec<u8>)
    ensures
        r@ == scoped(repo, key@),
{
    let n: i64 = repo.id as i64 + 0x8000_0000;
    let mut out: Vec<u8> = Vec::new();
    out.push((n / 0x100_0000) as u8);
    out.push(((n / 0x1_0000) % 0x100) as u8);
    out.push(((n / 0x100) % 0x100) as u8);
    out.push((n % 0x100) as u8);
    assert(out@ =~= scope_of(repo));
    let mut i: usize = 0;
    while i < key.len()
        invariant
            i <= key.len(),
            out@ == scope_of(repo) + key@.subrange(0, i as int),
        decreases key.len() - i,
    {
        out.push(key[i]);
        assert(scope_of(repo) + key@.subrange(0, i + 1) =~= (scope_of(repo) + key@.subrange(
            0,
            i as int,
        )).push(key@[i as int]));
        i += 1;
    }
    assert(key@.subrange(0, key@.len() as int) =~= key@);
    out
}

/// Two repositories never meet in a shared cache: scoped keys are equal
/// only for the same key of the same repository.
pub proof fn lemma_scoped_is_injective(
    repo: RepositoryId,
    key: Seq<u8>,
    other_repo: RepositoryId,
    other_key: Seq<u8>,
)
    requires
        scoped(repo, key) == scoped(other_repo, other_key),
    ensures
        repo == other_repo,
        key == other_key,
{
    let a = scoped(repo, key);
    let b = scoped(other_repo, other_key);
    assert(scope_of(repo).len() == 4 && scope_of(other_repo).len() == 4);
    assert(a[0] == b[0] && a[1] == b[1] && a[2] == b[2] && a[3] == b[3]);
    assert(a[0] == scope_of(repo)[0] && a[1] == scope_of(repo)[1] && a[2] == scope_of(repo)[2]
        && a[3] == scope_of(repo)[3]);
    assert(b[0] == scope_of(other_repo)[0] && b[1] == scope_of(other_repo)[1] && b[2] == scope_of(
        other_repo,
    )[2] && b[3] == scope_of(other_repo)[3]);
    let n = repo.id + 0x8000_0000;
    let m = other_repo.id + 0x8000_0000;
    assert(0 <= n < 0x1_0000_0000 && 0 <= m < 0x1_0000_0000);
    assert(n / 0x100_0000 == m / 0x100_0000);
    assert((n / 0x1_0000) % 0x100 == (m / 0x1_0000) % 0x100);
    assert((n / 0x100) % 0x100 == (m / 0x100) % 0x100);
    assert(n % 0x100 == m % 0x100);
    assert(n == m);
    assert(key.len() == other_key.len()) by {
        assert(a.len() == 4 + key.len());
        assert(b.len() == 4 + other_key.len());
    }
    assert(key =~= other_key) by {
        assert forall|i: int| 0 <= i < key.len() implies key[i] == other_key[i] by {
            assert(a[4 + i] == key[i]);
            assert(b[4 + i] == other_key[i]);
        }
    }
}

/// One storage backend. Members of `Multiplexed` must not be `Multiplexed`
/// themselves, and no two of them may share an id.
#[derive(Debug, PartialEq, Eq)]
pub enum BlobConfig {
    Disabled,
    Files { path: String },
    EmbeddedKV { path: String },
    EmbeddedSQL { path: String },
    RemoteObjectStore { bucket: String, prefix: String },
    NetworkBlob { tier: String, export: String, basepath: String },
    ShardedSQL { shard_map: String, shard_count: u64 },
    Multiplexed { telemetry_table: Option<String>, members: Vec<(u64, BlobConfig)> },
}

/// How file metadata is sharded on the remote profile.
#[derive(Clone, Debug, PartialEq, Eq)]
pub struct ShardedFilenodesParams {
    pub shard_map: String,
    pub shard_count: u64,
}

/// Selects the provisioning profile of every metadata store. A path or an
/// address left empty counts as not specified.
#[derive(Clone, Debug, PartialEq, Eq)]
pub enum MetadataDBConfig {
    Local { path: String },
    Remote { address: String, sharded_filenodes: Option<ShardedFilenodesParams> },
}

/// Where blobs go and where metadata goes.
#[derive(Debug, PartialEq, Eq)]
pub struct StorageConfig {
    pub blobstore: BlobConfig,
    pub dbconfig: MetadataDBConfig,
}

impl MetadataDBConfig {
    /// Whether this is the local profile.
    pub open spec fn spec_is_local(&self) -> bool {
        self is Local
    }

    /// The local directory, where this is the local profile and one is given.
    pub open spec fn spec_local_address(&self) -> Option<Seq<char>> {
        match self {
            MetadataDBConfig::Local { path } => if path@.len() > 0 {
                Some(path@)
            } else {
                None
            },
            MetadataDBConfig::Remote { .. } => None,
        }
    }

    /// The remote address, where this is the remote profile and one is given.
    pub open spec fn spec_db_address(&self) -> Option<Seq<char>> {
        match self {
            MetadataDBConfig::Local { .. } => None,
            MetadataDBConfig::Remote { address, .. } => if address@.len() > 0 {
                Some(address@)
            } else {
                None
            },
        }
    }

    /// Whether this is the local profile.
    #[verifier::when_used_as_spec(spec_is_local)]
    pub fn is_local(&self) -> (r: bool)
        ensures
            r == self.spec_is_local(),
    {
        match self {
            MetadataDBConfig::Local { .. } => true,
            MetadataDBConfig::Remote { .. } => false,
        }
    }

    /// The local directory, where this is the local profile and one is given.
    pub fn get_local_address(&self) -> (r: Option<String>)
        ensures
            r is Some == self.spec_local_address() is Some,
            r is Some ==> r->0@ == self.spec_local_address()->0,
    {
        match self {
            MetadataDBConfig::Local { path } => if path.as_str().unicode_len() > 0 {
                Some(path.clone())
            } else {
                None
            },
            MetadataDBConfig::Remote { .. } => None,
        }
    }

    /// The remote address, where this is the remote profile and one is given.
    pub fn get_db_address(&self) -> (r: Option<String>)
        ensures
            r is Some == self.spec_db_address() is Some,
            r is Some ==> r->0@ == self.spec_db_address()->0,
    {
        match self {
            MetadataDBConfig::Local { .. } => None,
            MetadataDBConfig::Remote { address, .. } => if address.as_str().unicode_len() > 0 {
                Some(address.clone())
            } else {
                None
            },
        }
    }
}

} // verus!
