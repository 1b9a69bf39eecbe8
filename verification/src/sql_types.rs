//! Fixed-size identifiers as SQL binary values: an identifier is stored as
//! the twenty bytes of its hash and read back from exactly twenty bytes.

use vstd::prelude::*;
use vstd::array::*;
use vstd::slice::*;

verus! {

/// The SQL type of a changeset id column: a binary blob.
#[derive(Clone, Copy, Debug, PartialEq, Eq, Structural)]
pub struct HgChangesetIdSql;

/// The SQL type of a manifest id column: a binary blob.
#[derive(Clone, Copy, Debug, PartialEq, Eq, Structural)]
pub struct HgManifestIdSql;

/// Whether a value was written as SQL `NULL`.
#[derive(Clone, Copy, Debug, PartialEq, Eq, Structural)]
pub enum IsNull {
    Yes,
    No,
}

/// Why a column value is no identifier.
#[derive(Clone, Copy, Debug, PartialEq, Eq, Structural)]
pub enum SqlTypeError {
    /// The column holds `NULL`.
    UnexpectedNull,
    /// The column holds this many bytes instead of twenty.
    InvalidLength(usize),
}

/// A twenty-byte hash.
#[derive(Clone, Copy, Debug, PartialEq, Eq)]
pub struct HgNodeHash {
    bytes: [u8; 20],
}

impl View for HgNodeHash {
    type V = Seq<u8>;

    closed spec fn view(&self) -> Seq<u8> {
        self.bytes@
    }
}

/// What reading a column value yields.
pub open spec fn decoded(column: Option<Seq<u8>>) -> Result<Seq<u8>, SqlTypeError> {
    match column {
        None => Err(SqlTypeError::UnexpectedNull),
        Some(bytes) => if bytes.len() == 20 {
            Ok(bytes)
        } else {
            Err(SqlTypeError::InvalidLength(bytes.len() as usize))
        },
    }
}

/// What a column value holds.
pub open spec fn column_view(column: Option<&[u8]>) -> Option<Seq<u8>> {
    match column {
        Some(bytes) => Some(bytes@),
        None => None,
    }
}

/// Whether `r` is what reading `column` yields.
pub open spec fn is_decoded(r: Result<Seq<u8>, SqlTypeError>, column: Option<&[u8]>) -> bool {
    r == decoded(column_view(column))
}

impl HgNodeHash {
    /// A hash always holds twenty bytes.
    pub proof fn lemma_len(&self)
        ensures
            self@.len() == 20,
    {
        broadcast use group_array_axioms;

    }

    /// Reads a hash from exactly twenty bytes.
    pub fn from_bytes(bytes: &[u8]) -> (r: Result<HgNodeHash, SqlTypeError>)
        ensures
            match r {
                Ok(hash) => bytes@.len() == 20 && hash@ == bytes@,
                Err(e) => bytes@.len() != 20 && e == SqlTypeError::InvalidLength(
                    bytes@.len() as usize,
                ),
            },
    {
        broadcast use group_array_axioms;

        if bytes.len() != 20 {
            return Err(SqlTypeError::InvalidLength(bytes.len()));
        }
        let mut out: [u8; 20] = [0u8;20];
        let mut i: usize = 0;
        while i < 20
            invariant
                i <= 20,
                bytes@.len() == 20,
                forall|k: int| 0 <= k < i ==> out@[k] == bytes@[k],
            decreases 20 - i,
        {
            out[i] = bytes[i];
            i += 1;
        }
        assert(out@ =~= bytes@);
        Ok(HgNodeHash { bytes: out })
    }

    /// Appends the twenty bytes of the hash to `out`.
    pub fn write_to(&self, out: &mut Vec<u8>)
        ensures
            final(out)@ == old(out)@ + self@,
    {
        broadcast use group_array_axioms;

        let mut i: usize = 0;
        while i < 20
            invariant
                i <= 20,
                self@.len() == 20,
                out@ == old(out)@ + self@.subrange(0, i as int),
            decreases 20 - i,
        {
            out.push(self.bytes[i]);
            assert(self@.subrange(0, i + 1) =~= self@.subrange(0, i as int).push(self@[i as int]));
            i += 1;
        }
        assert(self@.subrange(0, 20) =~= self@);
    }
}

/// Identifies a changeset.
#[derive(Clone, Copy, Debug, PartialEq, Eq)]
pub struct HgChangesetId {
    hash: HgNodeHash,
}

/// Identifies a manifest.
#[derive(Clone, Copy, Debug, PartialEq, Eq)]
pub struct HgManifestId {
    hash: HgNodeHash,
}

impl View for HgChangesetId {
    type V = Seq<u8>;

    closed spec fn view(&self) -> Seq<u8> {
        self.hash@
    }
}

impl View for HgManifestId {
    type V = Seq<u8>;

    closed spec fn view(&self) -> Seq<u8> {
        self.hash@
    }
}

impl HgChangesetId {
    pub fn new(hash: HgNodeHash) -> (r: Self)
        ensures
            r@ == hash@,
    {
        HgChangesetId { hash }
    }

    pub fn as_nodehash(&self) -> (r: &HgNodeHash)
        ensures
            r@ == self@,
    {
        &self.hash
    }

    /// Writes the id as a binary column value: its twenty bytes, never
    /// `NULL`.
    pub fn to_sql(&self, out: &mut Vec<u8>) -> (r: IsNull)
        ensures
            r == IsNull::No,
            final(out)@ == old(out)@ + self@,
    {
        self.hash.write_to(out);
        IsNull::No
    }

    /// Reads an id from a binary column value.
    pub fn from_sql(bytes: Option<&[u8]>) -> (r: Result<Self, SqlTypeError>)
        ensures
            match r {
                Ok(id) => is_decoded(Ok(id@), bytes),
                Err(e) => is_decoded(Err(e), bytes),
            },
    {
        match bytes {
            None => Err(SqlTypeError::UnexpectedNull),
            Some(raw) => match HgNodeHash::from_bytes(raw) {
                Ok(hash) => Ok(HgChangesetId::new(hash)),
                Err(e) => Err(e),
            },
        }
    }
}

impl HgManifestId {
    pub fn new(hash: HgNodeHash) -> (r: Self)
        ensures
            r@ == hash@,
    {
        HgManifestId { hash }
    }

    pub fn as_nodehash(&self) -> (r: &HgNodeHash)
        ensures
            r@ == self@,
    {
        &self.hash
    }

    /// Writes the id as a binary column value: its twenty bytes, never
    /// `NULL`.
    pub fn to_sql(&self, out: &mut Vec<u8>) -> (r: IsNull)
        ensures
            r == IsNull::No,
            final(out)@ == old(out)@ + self@,
    {
        self.hash.write_to(out);
        IsNull::No
    }

    /// Reads an id from a binary column value.
    pub fn from_sql(bytes: Option<&[u8]>) -> (r: Result<Self, SqlTypeError>)
        ensures
            match r {
                Ok(id) => is_decoded(Ok(id@), bytes),
                Err(e) => is_decoded(Err(e), bytes),
            },
    {
        match bytes {
            None => Err(SqlTypeError::UnexpectedNull),
            Some(raw) => match HgNodeHash::from_bytes(raw) {
                Ok(hash) => Ok(HgManifestId::new(hash)),
                Err(e) => Err(e),
            },
        }
    }
}

/// What was written for a hash reads back as that hash.
pub proof fn lemma_sql_round_trip(hash: HgNodeHash)
    ensures
        decoded(Some(hash@)) == Ok::<Seq<u8>, SqlTypeError>(hash@),
{
    hash.lemma_len();
}

} // verus!
