//! The registry of named cache pools. It is built once at process start and
//! handed by reference to whatever needs a pool.

use vstd::prelude::*;
use vstd::string::*;

verus! {

/// The pools that the remote profile needs: two for blobs and one for each
/// metadata store. Each has a stable name of its own, so that pool sizing
/// survives restarts and code changes.
#[derive(Clone, Copy, Debug, PartialEq, Eq, Structural)]
pub enum PoolName {
    BlobstoreBlobs,
    BlobstorePresence,
    Filenodes,
    Changesets,
    BonsaiHgMapping,
    Bookmarks,
}

impl PoolName {
    /// The name under which the pool is registered.
    pub open spec fn spec_name(self) -> Seq<char> {
        match self {
            PoolName::BlobstoreBlobs => "blobstore-blobs"@,
            PoolName::BlobstorePresence => "blobstore-presence"@,
            PoolName::Filenodes => "filenodes"@,
            PoolName::Changesets => "changesets"@,
            PoolName::BonsaiHgMapping => "bonsai_hg_mapping"@,
            PoolName::Bookmarks => "bookmarks"@,
        }
    }

    /// The name under which the pool is registered.
    pub fn name(self) -> (r: String)
        ensures
            r@ == self.spec_name(),
    {
        match self {
            PoolName::BlobstoreBlobs => "blobstore-blobs".to_owned(),
            PoolName::BlobstorePresence => "blobstore-presence".to_owned(),
            PoolName::Filenodes => "filenodes".to_owned(),
            PoolName::Changesets => "changesets".to_owned(),
            PoolName::BonsaiHgMapping => "bonsai_hg_mapping".to_owned(),
            PoolName::Bookmarks => "bookmarks".to_owned(),
        }
    }
}

/// No two pools share a name, so no two stores share a pool.
pub proof fn lemma_pool_names_differ(a: PoolName, b: PoolName)
    requires
        a != b,
    ensures
        a.spec_name() != b.spec_name(),
{
    reveal_strlit("blobstore-blobs");
    reveal_strlit("blobstore-presence");
    reveal_strlit("filenodes");
    reveal_strlit("changesets");
    reveal_strlit("bonsai_hg_mapping");
    reveal_strlit("bookmarks");
    if a.spec_name() == b.spec_name() {
        assert(a.spec_name().len() == b.spec_name().len());
        assert(a.spec_name()[0] == b.spec_name()[0]);
    }
}

/// A registered pool: its name and how many entries it may hold.
#[derive(Clone, Debug, PartialEq, Eq)]
pub struct PoolSize {
    pub name: String,
    pub capacity: usize,
}

/// Names mapped to pool sizes. A name is registered at most once.
#[derive(Debug)]
pub struct CachePoolRegistry {
    pools: Vec<PoolSize>,
}

/// The first position at or after `i` that carries `name`.
pub open spec fn find_pool(pools: Seq<PoolSize>, name: Seq<char>, i: int) -> Option<int>
    decreases pools.len() - i,
{
    if i < 0 || i >= pools.len() {
        None
    } else if pools[i].name@ == name {
        Some(i)
    } else {
        find_pool(pools, name, i + 1)
    }
}

/// A position that is found lies in range and carries the name.
pub proof fn lemma_find_pool_some(pools: Seq<PoolSize>, name: Seq<char>, i: int)
    requires
        0 <= i,
        find_pool(pools, name, i) is Some,
    ensures
        i <= find_pool(pools, name, i)->0 < pools.len(),
        pools[find_pool(pools, name, i)->0].name@ == name,
    decreases pools.len() - i,
{
    if i < pools.len() && pools[i].name@ != name {
        lemma_find_pool_some(pools, name, i + 1);
    }
}

/// A pool added at the end is found only where no earlier pool has its name.
pub proof fn lemma_find_pool_push(pools: Seq<PoolSize>, extra: PoolSize, name: Seq<char>, i: int)
    requires
        0 <= i <= pools.len(),
    ensures
        find_pool(pools.push(extra), name, i) == if find_pool(pools, name, i) is Some {
            find_pool(pools, name, i)
        } else if extra.name@ == name {
            Some(pools.len() as int)
        } else {
            None
        },
    decreases pools.len() - i,
{
    let longer = pools.push(extra);
    if i < pools.len() {
        assert(longer[i] == pools[i]);
        lemma_find_pool_push(pools, extra, name, i + 1);
    } else {
        assert(longer[i] == extra);
        assert(find_pool(longer, name, i + 1) is None);
    }
}

impl CachePoolRegistry {
    pub closed spec fn view(&self) -> Seq<PoolSize> {
        self.pools@
    }

    /// The capacity registered under `name`, if any.
    pub open spec fn lookup(&self, name: Seq<char>) -> Option<usize> {
        match find_pool(self@, name, 0) {
            Some(i) => Some(self@[i].capacity),
            None => None,
        }
    }

    /// Whether the pool is registered.
    pub open spec fn has(&self, pool: PoolName) -> bool {
        self.lookup(pool.spec_name()) is Some
    }

    /// A registry with no pool.
    pub fn new() -> (r: Self)
        ensures
            r@ == Seq::<PoolSize>::empty(),
            forall|name: Seq<char>| r.lookup(name) is None,
    {
        CachePoolRegistry { pools: Vec::new() }
    }

    /// Looks a pool up by name and returns its capacity.
    pub fn get_pool(&self, name: &str) -> (r: Option<usize>)
        ensures
            r == self.lookup(name@),
    {
        let wanted = name.to_owned();
        let mut i: usize = 0;
        while i < self.pools.len()
            invariant
                i <= self.pools.len(),
                wanted@ == name@,
                find_pool(self@, name@, 0) == find_pool(self@, name@, i as int),
            decreases self.pools.len() - i,
        {
            if self.pools[i].name == wanted {
                return Some(self.pools[i].capacity);
            }
            i += 1;
        }
        None
    }

    /// Whether the named pool is registered.
    pub fn has_pool(&self, pool: PoolName) -> (r: bool)
        ensures
            r == self.has(pool),
    {
        let name = pool.name();
        self.get_pool(name.as_str()).is_some()
    }

    /// Registers a pool. A name that is already taken keeps its size, and
    /// the call returns `false`.
    pub fn register(&mut self, name: &str, capacity: usize) -> (r: bool)
        ensures
            r == (old(self).lookup(name@) is None),
            final(self).lookup(name@) == if r {
                Some(capacity)
            } else {
                old(self).lookup(name@)
            },
            forall|other: Seq<char>|
                other != name@ ==> final(self).lookup(other) == old(self).lookup(other),
    {
        if self.get_pool(name).is_some() {
            return false;
        }
        let entry = PoolSize { name: name.to_owned(), capacity };
        let ghost before = self@;
        self.pools.push(entry);
        proof {
            assert(self@ == before.push(entry));
            lemma_find_pool_push(before, entry, name@, 0);
            assert forall|other: Seq<char>| other != name@ implies self.lookup(other) == old(
                self,
            ).lookup(other) by {
                lemma_find_pool_push(before, entry, other, 0);
                if find_pool(before, other, 0) is Some {
                    lemma_find_pool_some(before, other, 0);
                }
            }
        }
        true
    }
}

} // verus!
