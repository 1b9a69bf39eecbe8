//! The censorship filter: a denylist from keys to the reason for which each
//! is blocked.

use vstd::prelude::*;
use crate::errors::{BlobError, BlobFault};
use crate::table::{copy_bytes, same_bytes};

verus! {

/// A denylisted key with the reason.
pub type Ban = (Seq<u8>, Seq<char>);

/// The reason of the first ban, at or after `i`, on `key`.
pub open spec fn reason_of(bans: Seq<Ban>, key: Seq<u8>, i: int) -> Option<Seq<char>>
    decreases bans.len() - i,
{
    if i < 0 || i >= bans.len() {
        None
    } else if bans[i].0 == key {
        Some(bans[i].1)
    } else {
        reason_of(bans, key, i + 1)
    }
}

/// Whether `key` is denylisted.
pub open spec fn is_censored(bans: Seq<Ban>, key: Seq<u8>) -> bool {
    reason_of(bans, key, 0) is Some
}

/// What the filter answers for `key`.
pub open spec fn screened(bans: Seq<Ban>, key: Seq<u8>) -> Result<(), BlobFault> {
    match reason_of(bans, key, 0) {
        Some(reason) => Err(BlobFault::Censored(reason)),
        None => Ok(()),
    }
}

/// A ban added at the end decides only for keys that no earlier ban names.
pub proof fn lemma_reason_push(bans: Seq<Ban>, ban: Ban, key: Seq<u8>, i: int)
    requires
        0 <= i <= bans.len(),
    ensures
        reason_of(bans.push(ban), key, i) == if reason_of(bans, key, i) is Some {
            reason_of(bans, key, i)
        } else if ban.0 == key {
            Some(ban.1)
        } else {
            None
        },
    decreases bans.len() - i,
{
    let longer = bans.push(ban);
    if i < bans.len() {
        assert(longer[i] == bans[i]);
        lemma_reason_push(bans, ban, key, i + 1);
    } else {
        assert(longer[i] == ban);
        assert(reason_of(longer, key, i + 1) is None);
    }
}

/// The denylist.
#[derive(Debug)]
pub struct CensoredKeys {
    bans: Vec<(Vec<u8>, String)>,
}

/// What a stored denylist holds.
pub open spec fn bans_of(stored: Seq<(Vec<u8>, String)>) -> Seq<Ban> {
    Seq::new(stored.len(), |i: int| (stored[i].0@, stored[i].1@))
}

impl View for CensoredKeys {
    type V = Seq<Ban>;

    closed spec fn view(&self) -> Seq<Ban> {
        bans_of(self.bans@)
    }
}

impl CensoredKeys {
    /// The empty denylist: every key passes.
    pub fn new() -> (r: Self)
        ensures
            r@ == Seq::<Ban>::empty(),
            forall|key: Seq<u8>| !is_censored(r@, key),
    {
        let r = CensoredKeys { bans: Vec::new() };
        assert(r@ =~= Seq::<Ban>::empty());
        r
    }

    pub fn len(&self) -> (r: usize)
        ensures
            r == self@.len(),
    {
        self.bans.len()
    }

    /// The reason for which `key` is blocked, if it is.
    pub fn reason(&self, key: &[u8]) -> (r: Option<String>)
        ensures
            match r {
                Some(reason) => reason_of(self@, key@, 0) == Some(reason@),
                None => reason_of(self@, key@, 0) is None,
            },
    {
        let mut i: usize = 0;
        while i < self.bans.len()
            invariant
                i <= self.bans.len(),
                reason_of(self@, key@, 0) == reason_of(self@, key@, i as int),
            decreases self.bans.len() - i,
        {
            if same_bytes(self.bans[i].0.as_slice(), key) {
                return Some(self.bans[i].1.clone());
            }
            i += 1;
        }
        None
    }

    /// Lets `key` pass, or fails with the reason for which it is blocked.
    pub fn screen(&self, key: &[u8]) -> (r: Result<(), BlobError>)
        ensures
            match r {
                Ok(_) => screened(self@, key@) is Ok,
                Err(e) => screened(self@, key@) == Err::<(), BlobFault>(e@),
            },
    {
        match self.reason(key) {
            Some(reason) => Err(BlobError::Censored(reason)),
            None => Ok(()),
        }
    }

    /// Blocks `key` for the given reason. A key that is blocked already
    /// keeps its reason, and the call returns `false`.
    pub fn censor(&mut self, key: &[u8], reason: &str) -> (added: bool)
        ensures
            added == !is_censored(old(self)@, key@),
            final(self)@ == if added {
                old(self)@.push((key@, reason@))
            } else {
                old(self)@
            },
            reason_of(final(self)@, key@, 0) == if added {
                Some(reason@)
            } else {
                reason_of(old(self)@, key@, 0)
            },
            forall|other: Seq<u8>|
                other != key@ ==> reason_of(final(self)@, other, 0) == reason_of(
                    old(self)@,
                    other,
                    0,
                ),
    {
        if self.reason(key).is_some() {
            return false;
        }
        let key = copy_bytes(key);
        let reason = reason.to_owned();
        proof {
            let ban = (key@, reason@);
            lemma_reason_push(self@, ban, key@, 0);
            assert forall|other: Seq<u8>| other != key@ implies reason_of(
                self@.push(ban),
                other,
                0,
            ) == reason_of(self@, other, 0) by {
                lemma_reason_push(self@, ban, other, 0);
            }
            assert(bans_of(self.bans@.push((key, reason))) =~= self@.push(ban));
        }
        self.bans.push((key, reason));
        true
    }
}

} // verus!
