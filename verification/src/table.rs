//! A small table from byte strings to byte strings that remembers the order
//! in which its keys arrived. Memory drivers and cache pools are built on it.

use vstd::prelude::*;
use vstd::slice::*;

verus! {

/// Whether two byte strings hold the same bytes.
pub fn same_bytes(a: &[u8], b: &[u8]) -> (r: bool)
    ensures
        r == (a@ == b@),
{
    if a.len() != b.len() {
        return false;
    }
    let mut i: usize = 0;
    while i < a.len()
        invariant
            i <= a.len(),
            a.len() == b.len(),
            forall|k: int| 0 <= k < i ==> a@[k] == b@[k],
        decreases a.len() - i,
    {
        if a[i] != b[i] {
            return false;
        }
        i += 1;
    }
    assert(a@ =~= b@);
    true
}

/// A copy of a byte string.
pub fn copy_bytes(a: &[u8]) -> (r: Vec<u8>)
    ensures
        r@ == a@,
{
    let mut out: Vec<u8> = Vec::new();
    let mut i: usize = 0;
    while i < a.len()
        invariant
            i <= a.len(),
            out@ == a@.subrange(0, i as int),
        decreases a.len() - i,
    {
        out.push(a[i]);
        assert(a@.subrange(0, i + 1) =~= a@.subrange(0, i as int).push(a@[i as int]));
        i += 1;
    }
    assert(a@.subrange(0, a@.len() as int) =~= a@);
    out
}

/// A key with its value.
pub type Pair = (Seq<u8>, Seq<u8>);

/// Whether some pair carries `key`.
pub open spec fn has_key(pairs: Seq<Pair>, key: Seq<u8>) -> bool {
    exists|i: int| 0 <= i < pairs.len() && (#[trigger] pairs[i]).0 == key
}

/// The position of a pair that carries `key`.
pub open spec fn position_of(pairs: Seq<Pair>, key: Seq<u8>) -> int {
    choose|i: int| 0 <= i < pairs.len() && (#[trigger] pairs[i]).0 == key
}

/// The value stored under `key`, if any.
pub open spec fn lookup(pairs: Seq<Pair>, key: Seq<u8>) -> Option<Seq<u8>> {
    if has_key(pairs, key) {
        Some(pairs[position_of(pairs, key)].1)
    } else {
        None
    }
}

/// No key occurs twice.
pub open spec fn distinct_keys(pairs: Seq<Pair>) -> bool {
    forall|i: int, j: int|
        0 <= i < j < pairs.len() ==> (#[trigger] pairs[i]).0 != (#[trigger] pairs[j]).0
}

/// The pairs as a map.
pub open spec fn as_map(pairs: Seq<Pair>) -> Map<Seq<u8>, Seq<u8>> {
    Map::new(|k: Seq<u8>| has_key(pairs, k), |k: Seq<u8>| lookup(pairs, k)->0)
}

/// The pairs after `key` has been set to `value`: a known key keeps its
/// place, a new one goes to the end.
pub open spec fn with_pair(pairs: Seq<Pair>, key: Seq<u8>, value: Seq<u8>) -> Seq<Pair> {
    if has_key(pairs, key) {
        pairs.update(position_of(pairs, key), (key, value))
    } else {
        pairs.push((key, value))
    }
}

/// The pairs without `key`.
pub open spec fn without_key(pairs: Seq<Pair>, key: Seq<u8>) -> Seq<Pair> {
    if has_key(pairs, key) {
        pairs.remove(position_of(pairs, key))
    } else {
        pairs
    }
}

/// Where keys are distinct, a key is found at its own position.
pub proof fn lemma_position(pairs: Seq<Pair>, i: int)
    requires
        distinct_keys(pairs),
        0 <= i < pairs.len(),
    ensures
        has_key(pairs, pairs[i].0),
        position_of(pairs, pairs[i].0) == i,
        lookup(pairs, pairs[i].0) == Some(pairs[i].1),
{
    let j = position_of(pairs, pairs[i].0);
    if j < i {
        assert(pairs[j].0 != pairs[i].0);
    } else if i < j {
        assert(pairs[i].0 != pairs[j].0);
    }
}

/// Setting a key changes what is stored under that key and nothing else.
pub proof fn lemma_with_pair(pairs: Seq<Pair>, key: Seq<u8>, value: Seq<u8>)
    requires
        distinct_keys(pairs),
    ensures
        distinct_keys(with_pair(pairs, key, value)),
        lookup(with_pair(pairs, key, value), key) == Some(value),
        forall|other: Seq<u8>|
            other != key ==> lookup(with_pair(pairs, key, value), other) == lookup(pairs, other),
        as_map(with_pair(pairs, key, value)) == as_map(pairs).insert(key, value),
{
    let after = with_pair(pairs, key, value);
    let at = if has_key(pairs, key) {
        position_of(pairs, key)
    } else {
        pairs.len() as int
    };
    assert(after.len() > at && after[at] == (key, value));
    assert forall|i: int| 0 <= i < after.len() && i != at implies 0 <= i < pairs.len()
        && #[trigger] after[i] == pairs[i] && after[i].0 != key by {
        if has_key(pairs, key) {
            lemma_position(pairs, i);
        } else {
            assert(pairs[i].0 != key);
        }
    }
    assert(distinct_keys(after)) by {
        assert forall|i: int, j: int| 0 <= i < j < after.len() implies (#[trigger] after[i]).0
            != (#[trigger] after[j]).0 by {
            if i != at && j != at {
                assert(pairs[i].0 != pairs[j].0);
            }
        }
    }
    lemma_position(after, at);
    assert forall|other: Seq<u8>| other != key implies lookup(after, other) == lookup(
        pairs,
        other,
    ) by {
        if has_key(pairs, other) {
            let i = position_of(pairs, other);
            assert(after[i] == pairs[i]);
            lemma_position(after, i);
        } else if has_key(after, other) {
            let i = position_of(after, other);
            assert(pairs[i].0 == other);
        }
    }
    assert(as_map(after) =~= as_map(pairs).insert(key, value)) by {
        assert forall|k: Seq<u8>| has_key(after, k) == (k == key || has_key(pairs, k)) by {
            if k != key {
                assert(lookup(after, k) == lookup(pairs, k));
            }
        }
    }
}

/// Removing a key loses that key and nothing else.
pub proof fn lemma_without_key(pairs: Seq<Pair>, key: Seq<u8>)
    requires
        distinct_keys(pairs),
    ensures
        distinct_keys(without_key(pairs, key)),
        lookup(without_key(pairs, key), key) is None,
        forall|other: Seq<u8>|
            other != key ==> lookup(without_key(pairs, key), other) == lookup(pairs, other),
        without_key(pairs, key).len() <= pairs.len(),
{
    let after = without_key(pairs, key);
    if has_key(pairs, key) {
        let at = position_of(pairs, key);
        assert forall|i: int| 0 <= i < after.len() implies #[trigger] after[i] == pairs[if i
            < at {
            i
        } else {
            i + 1
        }] by {}
        assert(distinct_keys(after)) by {
            assert forall|i: int, j: int| 0 <= i < j < after.len() implies (#[trigger] after[i]).0
                != (#[trigger] after[j]).0 by {
                let pi = if i < at {
                    i
                } else {
                    i + 1
                };
                let pj = if j < at {
                    j
                } else {
                    j + 1
                };
                assert(pairs[pi].0 != pairs[pj].0);
            }
        }
        if has_key(after, key) {
            let i = position_of(after, key);
            let pi = if i < at {
                i
            } else {
                i + 1
            };
            assert(after[i] == pairs[pi]);
            lemma_position(pairs, pi);
        }
        assert forall|other: Seq<u8>| other != key implies lookup(after, other) == lookup(
            pairs,
            other,
        ) by {
            if has_key(pairs, other) {
                let p = position_of(pairs, other);
                let i = if p < at {
                    p
                } else {
                    p - 1
                };
                assert(after[i] == pairs[p]);
                lemma_position(after, i);
            } else if has_key(after, other) {
                let i = position_of(after, other);
                let pi = if i < at {
                    i
                } else {
                    i + 1
                };
                assert(after[i] == pairs[pi]);
                assert(pairs[pi].0 == other);
            }
        }
    }
}

/// Dropping the oldest pair loses its key and nothing else.
pub proof fn lemma_drop_first(pairs: Seq<Pair>)
    requires
        distinct_keys(pairs),
        pairs.len() > 0,
    ensures
        pairs.drop_first() == without_key(pairs, pairs[0].0),
{
    lemma_position(pairs, 0);
    assert(pairs.drop_first() =~= pairs.remove(0));
}

/// A table from byte strings to byte strings, in order of arrival.
#[derive(Debug)]
pub struct ByteTable {
    pairs: Vec<(Vec<u8>, Vec<u8>)>,
}

/// What stored pairs hold.
pub open spec fn pairs_of(stored: Seq<(Vec<u8>, Vec<u8>)>) -> Seq<Pair> {
    Seq::new(stored.len(), |i: int| (stored[i].0@, stored[i].1@))
}

impl View for ByteTable {
    type V = Seq<Pair>;

    closed spec fn view(&self) -> Seq<Pair> {
        pairs_of(self.pairs@)
    }
}

impl ByteTable {
    /// No key occurs twice in a table.
    pub open spec fn wf(&self) -> bool {
        distinct_keys(self@)
    }

    /// The empty table.
    pub fn new() -> (r: Self)
        ensures
            r.wf(),
            r@ == Seq::<Pair>::empty(),
    {
        let r = ByteTable { pairs: Vec::new() };
        assert(r@ =~= Seq::<Pair>::empty());
        r
    }

    pub fn len(&self) -> (r: usize)
        ensures
            r == self@.len(),
    {
        self.pairs.len()
    }

    /// Where `key` is stored, if it is.
    pub fn find(&self, key: &[u8]) -> (r: Option<usize>)
        requires
            self.wf(),
        ensures
            r is Some == has_key(self@, key@),
            r is Some ==> r->0 == position_of(self@, key@),
    {
        let mut i: usize = 0;
        while i < self.pairs.len()
            invariant
                i <= self.pairs.len(),
                distinct_keys(self@),
                forall|k: int| 0 <= k < i ==> (#[trigger] self@[k]).0 != key@,
            decreases self.pairs.len() - i,
        {
            if same_bytes(self.pairs[i].0.as_slice(), key) {
                proof {
                    lemma_position(self@, i as int);
                }
                return Some(i);
            }
            i += 1;
        }
        None
    }

    /// A copy of the value stored under `key`, if any.
    pub fn get(&self, key: &[u8]) -> (r: Option<Vec<u8>>)
        requires
            self.wf(),
        ensures
            match r {
                Some(value) => lookup(self@, key@) == Some(value@),
                None => lookup(self@, key@) is None,
            },
    {
        match self.find(key) {
            Some(i) => Some(copy_bytes(self.pairs[i].1.as_slice())),
            None => None,
        }
    }

    /// Stores `value` under `key`.
    pub fn set(&mut self, key: Vec<u8>, value: Vec<u8>)
        requires
            old(self).wf(),
        ensures
            final(self).wf(),
            final(self)@ == with_pair(old(self)@, key@, value@),
    {
        proof {
            lemma_with_pair(self@, key@, value@);
        }
        match self.find(key.as_slice()) {
            Some(i) => {
                self.pairs[i] = (key, value);
                assert(self@ =~= with_pair(old(self)@, key@, value@));
            },
            None => {
                self.pairs.push((key, value));
                assert(self@ =~= with_pair(old(self)@, key@, value@));
            },
        }
    }

    /// Forgets `key`, and returns whether it was stored.
    pub fn remove(&mut self, key: &[u8]) -> (r: bool)
        requires
            old(self).wf(),
        ensures
            final(self).wf(),
            r == has_key(old(self)@, key@),
            final(self)@ == without_key(old(self)@, key@),
    {
        proof {
            lemma_without_key(self@, key@);
        }
        match self.find(key) {
            Some(i) => {
                self.pairs.remove(i);
                assert(self@ =~= without_key(old(self)@, key@));
                true
            },
            None => false,
        }
    }

    /// A copy of the table.
    pub fn duplicate(&self) -> (r: Self)
        requires
            self.wf(),
        ensures
            r.wf(),
            r@ == self@,
    {
        let mut pairs: Vec<(Vec<u8>, Vec<u8>)> = Vec::new();
        let mut i: usize = 0;
        while i < self.pairs.len()
            invariant
                i <= self.pairs.len(),
                pairs_of(pairs@) == self@.subrange(0, i as int),
            decreases self.pairs.len() - i,
        {
            let key = copy_bytes(self.pairs[i].0.as_slice());
            let value = copy_bytes(self.pairs[i].1.as_slice());
            assert(pairs_of(pairs@.push((key, value))) =~= pairs_of(pairs@).push((key@, value@)));
            assert(self@.subrange(0, i + 1) =~= self@.subrange(0, i as int).push(self@[i as int]));
            pairs.push((key, value));
            i += 1;
        }
        assert(self@.subrange(0, self@.len() as int) =~= self@);
        ByteTable { pairs }
    }

    /// Forgets the pair that arrived first.
    pub fn remove_oldest(&mut self)
        requires
            old(self).wf(),
            old(self)@.len() > 0,
        ensures
            final(self).wf(),
            final(self)@ == old(self)@.drop_first(),
    {
        proof {
            lemma_drop_first(self@);
            lemma_without_key(self@, self@[0].0);
        }
        self.pairs.remove(0);
        assert(self@ =~= old(self)@.drop_first());
    }
}

} // verus!
