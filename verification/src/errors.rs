//! The error taxonomy shared by assembly and by blob operations.

use vstd::prelude::*;
use vstd::string::*;
use crate::registry::PoolName;

verus! {

/// Which store failed to open.
#[derive(Clone, Copy, Debug, PartialEq, Eq, Structural)]
pub enum StateOpenError {
    Blobstore,
    Bookmarks,
    Filenodes,
    Changesets,
    BonsaiHgMapping,
}

/// Errors that abort the assembly of a repository. None of them leaves a
/// partially assembled repository behind.
#[derive(Clone, Copy, Debug, PartialEq, Eq, Structural)]
pub enum ErrorKind {
    /// The local profile is in force but its directory is not specified.
    LocalPathMissing,
    /// The remote profile is in force but its address is not specified.
    RemoteAddressMissing,
    /// A cache pool that a caching layer needs is not registered.
    MissingCachePool(PoolName),
    /// A member of a multiplexed configuration is itself multiplexed.
    NestedMultiplex(u64),
    /// Two members of a multiplexed configuration share an id.
    DuplicateMember(u64),
    /// A sharded configuration names zero shards.
    NoShards,
    /// A store could not be opened.
    StateOpen(StateOpenError),
}

/// Errors of a single blob operation.
#[derive(Clone, Debug, PartialEq, Eq)]
pub enum BlobError {
    /// The store is disabled by configuration.
    Disabled,
    /// The key is denylisted; the reason is carried along.
    Censored(String),
    /// No member of the multiplex could serve the operation.
    AllMembersFailed,
    /// The one driver behind the stack failed.
    DriverFailed,
}

impl StateOpenError {
    /// The store, as error messages name it.
    pub open spec fn spec_name(self) -> Seq<char> {
        match self {
            StateOpenError::Blobstore => "blobstore"@,
            StateOpenError::Bookmarks => "bookmarks"@,
            StateOpenError::Filenodes => "filenodes"@,
            StateOpenError::Changesets => "changesets"@,
            StateOpenError::BonsaiHgMapping => "bonsai_hg_mapping"@,
        }
    }

    pub fn name(self) -> (r: String)
        ensures
            r@ == self.spec_name(),
    {
        match self {
            StateOpenError::Blobstore => "blobstore".to_owned(),
            StateOpenError::Bookmarks => "bookmarks".to_owned(),
            StateOpenError::Filenodes => "filenodes".to_owned(),
            StateOpenError::Changesets => "changesets".to_owned(),
            StateOpenError::BonsaiHgMapping => "bonsai_hg_mapping".to_owned(),
        }
    }
}

impl ErrorKind {
    /// The error in words.
    pub open spec fn spec_message(self) -> Seq<char> {
        match self {
            ErrorKind::LocalPathMissing => "Local db path is not specified"@,
            ErrorKind::RemoteAddressMissing => "remote db address is not specified"@,
            ErrorKind::MissingCachePool(pool) => "Missing cache pool: "@ + pool.spec_name(),
            ErrorKind::NestedMultiplex(_) => "A member of a multiplexed blobstore is itself multiplexed"@,
            ErrorKind::DuplicateMember(_) => "Two members of a multiplexed blobstore share an id"@,
            ErrorKind::NoShards => "A sharded store needs at least one shard"@,
            ErrorKind::StateOpen(kind) => "Error while opening state for "@ + kind.spec_name(),
        }
    }

    /// The error in words.
    pub fn message(&self) -> (r: String)
        ensures
            r@ == self.spec_message(),
    {
        match self {
            ErrorKind::LocalPathMissing => "Local db path is not specified".to_owned(),
            ErrorKind::RemoteAddressMissing => "remote db address is not specified".to_owned(),
            ErrorKind::MissingCachePool(pool) => {
                let name = pool.name();
                "Missing cache pool: ".to_owned().concat(name.as_str())
            },
            ErrorKind::NestedMultiplex(_) => "A member of a multiplexed blobstore is itself multiplexed".to_owned(),
            ErrorKind::DuplicateMember(_) => "Two members of a multiplexed blobstore share an id".to_owned(),
            ErrorKind::NoShards => "A sharded store needs at least one shard".to_owned(),
            ErrorKind::StateOpen(kind) => {
                let name = kind.name();
                "Error while opening state for ".to_owned().concat(name.as_str())
            },
        }
    }
}

impl BlobError {
    /// The error in words. A censored key comes with the reason.
    pub open spec fn spec_message(self) -> Seq<char> {
        match self {
            BlobError::Disabled => "Disabled by configuration"@,
            BlobError::Censored(reason) => "The blob is censored: "@ + reason@,
            BlobError::AllMembersFailed => "All blobstores failed"@,
            BlobError::DriverFailed => "The blobstore failed"@,
        }
    }

    /// The error in words.
    pub fn message(&self) -> (r: String)
        ensures
            r@ == self.spec_message(),
    {
        match self {
            BlobError::Disabled => "Disabled by configuration".to_owned(),
            BlobError::Censored(reason) => "The blob is censored: ".to_owned().concat(reason.as_str()),
            BlobError::AllMembersFailed => "All blobstores failed".to_owned(),
            BlobError::DriverFailed => "The blobstore failed".to_owned(),
        }
    }
}

/// What a blob operation's error holds.
pub enum BlobFault {
    Disabled,
    Censored(Seq<char>),
    AllMembersFailed,
    DriverFailed,
}

impl View for BlobError {
    type V = BlobFault;

    open spec fn view(&self) -> BlobFault {
        match self {
            BlobError::Disabled => BlobFault::Disabled,
            BlobError::Censored(reason) => BlobFault::Censored(reason@),
            BlobError::AllMembersFailed => BlobFault::AllMembersFailed,
            BlobError::DriverFailed => BlobFault::DriverFailed,
        }
    }
}

} // verus!
