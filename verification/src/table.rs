//! A keyed table with byte-string keys: the persistent-storage model of the
//! contracts. Its contents are a finite map from key bytes to values.

use vstd::prelude::*;
use crate::bytes::bytes_eq;

verus! {

/// A finite map from byte-string keys to values.
pub struct Table<V> {
    keys: Vec<Vec<u8>>,
    vals: Vec<V>,
    contents: Ghost<Map<Seq<u8>, V>>,
}

impl<V> View for Table<V> {
    type V = Map<Seq<u8>, V>;

    /// The contents of the table.
    closed spec fn view(&self) -> Map<Seq<u8>, V> {
        self.contents@
    }
}

impl<V> Table<V> {

    /// The table's internal consistency.
    pub closed spec fn wf(&self) -> bool {
        &&& self.keys@.len() == self.vals@.len()
        &&& forall|i: int| 0 <= i < self.keys@.len() ==>
            self.contents@.contains_key(#[trigger] self.keys@[i]@)
            && self.contents@[self.keys@[i]@] == self.vals@[i]
        &&& forall|k: Seq<u8>| self.contents@.contains_key(k) ==>
            exists|i: int| 0 <= i < self.keys@.len() && #[trigger] self.keys@[i]@ == k
        &&& forall|i: int, j: int| 0 <= i < j < self.keys@.len() ==>
            self.keys@[i]@ != self.keys@[j]@
    }

    /// A table with no entries.
    pub fn new() -> (t: Table<V>)
        ensures
            t.wf(),
            t@ == Map::<Seq<u8>, V>::empty(),
    {
        Table { keys: Vec::new(), vals: Vec::new(), contents: Ghost(Map::empty()) }
    }

    /// The position of `key`, if present.
    fn find(&self, key: &[u8]) -> (r: Option<usize>)
        requires
            self.wf(),
        ensures
            match r {
                Some(i) => i < self.keys@.len() && self.keys@[i as int]@ == key@,
                None => !self@.contains_key(key@),
            },
    {
        let n = self.keys.len();
        let mut i: usize = 0;
        while i < n
            invariant
                self.wf(),
                n == self.keys@.len(),
                i <= n,
                forall|j: int| 0 <= j < i ==> self.keys@[j]@ != key@,
            decreases n - i,
        {
            if bytes_eq(self.keys[i].as_slice(), key) {
                return Some(i);
            }
            i += 1;
        }
        None
    }

    /// Whether `key` has an entry.
    pub fn contains(&self, key: &[u8]) -> (r: bool)
        requires
            self.wf(),
        ensures
            r == self@.contains_key(key@),
    {
        match self.find(key) {
            Some(_) => true,
            None => false,
        }
    }

    /// The entry under `key`, if any.
    pub fn get(&self, key: &[u8]) -> (r: Option<&V>)
        requires
            self.wf(),
        ensures
            match r {
                Some(v) => self@.contains_key(key@) && *v == self@[key@],
                None => !self@.contains_key(key@),
            },
    {
        match self.find(key) {
            Some(i) => Some(&self.vals[i]),
            None => None,
        }
    }

    /// Set the entry under `key` to `value`, adding it if absent.
    pub fn insert(&mut self, key: Vec<u8>, value: V)
        requires
            old(self).wf(),
        ensures
            final(self).wf(),
            final(self)@ == old(self)@.insert(key@, value),
    {
        let ghost old_map = self.contents@;
        match self.find(key.as_slice()) {
            Some(i) => {
                self.vals.set(i, value);
                self.contents = Ghost(old_map.insert(key@, value));
                assert forall|k: Seq<u8>| self.contents@.contains_key(k) implies
                    exists|j: int| 0 <= j < self.keys@.len() && #[trigger] self.keys@[j]@ == k by {
                    if k != key@ {
                        assert(old_map.contains_key(k));
                        let j = choose|j: int| 0 <= j < old(self).keys@.len() && #[trigger] old(self).keys@[j]@ == k;
                        assert(self.keys@[j]@ == k);
                    } else {
                        assert(self.keys@[i as int]@ == k);
                    }
                }
            },
            None => {
                let ghost kv = key@;
                self.keys.push(key);
                self.vals.push(value);
                self.contents = Ghost(old_map.insert(kv, value));
                let ghost n = self.keys@.len() - 1;
                assert(self.keys@[n]@ == kv);
                assert forall|k: Seq<u8>| self.contents@.contains_key(k) implies
                    exists|j: int| 0 <= j < self.keys@.len() && #[trigger] self.keys@[j]@ == k by {
                    if k != kv {
                        assert(old_map.contains_key(k));
                        let j = choose|j: int| 0 <= j < old(self).keys@.len() && #[trigger] old(self).keys@[j]@ == k;
                        assert(self.keys@[j]@ == k);
                    } else {
                        assert(self.keys@[n]@ == k);
                    }
                }
                assert forall|a: int, b: int| 0 <= a < b < self.keys@.len() implies
                    self.keys@[a]@ != self.keys@[b]@ by {
                    if b == n {
                        assert(old_map.contains_key(old(self).keys@[a]@));
                    }
                }
            },
        }
    }

    /// Drop the entry under `key`, if any.
    pub fn remove(&mut self, key: &[u8])
        requires
            old(self).wf(),
        ensures
            final(self).wf(),
            final(self)@ == old(self)@.remove(key@),
    {
        let ghost old_map = self.contents@;
        match self.find(key) {
            Some(i) => {
                let ghost old_keys = self.keys@;
                let ghost old_vals = self.vals@;
                let _k = self.keys.remove(i);
                let _v = self.vals.remove(i);
                self.contents = Ghost(old_map.remove(key@));
                assert forall|j: int| 0 <= j < self.keys@.len() implies
                    self.contents@.contains_key(#[trigger] self.keys@[j]@)
                    && self.contents@[self.keys@[j]@] == self.vals@[j] by {
                    if j < i {
                        assert(self.keys@[j] == old_keys[j]);
                        assert(old_keys[j]@ != old_keys[i as int]@);
                    } else {
                        assert(self.keys@[j] == old_keys[j + 1]);
                        assert(self.vals@[j] == old_vals[j + 1]);
                        assert(old_keys[i as int]@ != old_keys[j + 1]@);
                    }
                }
                assert forall|k: Seq<u8>| self.contents@.contains_key(k) implies
                    exists|j: int| 0 <= j < self.keys@.len() && #[trigger] self.keys@[j]@ == k by {
                    assert(old_map.contains_key(k));
                    let j = choose|j: int| 0 <= j < old_keys.len() && #[trigger] old_keys[j]@ == k;
                    assert(j != i);
                    if j < i {
                        assert(self.keys@[j] == old_keys[j]);
                    } else {
                        assert(self.keys@[j - 1] == old_keys[j]);
                    }
                }
                assert forall|a: int, b: int| 0 <= a < b < self.keys@.len() implies
                    self.keys@[a]@ != self.keys@[b]@ by {
                    let a0 = if a < i { a } else { a + 1 };
                    let b0 = if b < i { b } else { b + 1 };
                    assert(self.keys@[a] == old_keys[a0]);
                    assert(self.keys@[b] == old_keys[b0]);
                }
            },
            None => {
                assert(old_map.remove(key@) =~= old_map);
            },
        }
    }

    /// Take the entry under `key` out of the table, if any.
    pub fn take(&mut self, key: &[u8]) -> (r: Option<V>)
        requires
            old(self).wf(),
        ensures
            final(self).wf(),
            final(self)@ == old(self)@.remove(key@),
            match r {
                Some(v) => old(self)@.contains_key(key@) && v == old(self)@[key@],
                None => !old(self)@.contains_key(key@) && *final(self) == *old(self),
            },
    {
        let ghost old_map = self.contents@;
        match self.find(key) {
            Some(i) => {
                let ghost old_keys = self.keys@;
                let ghost old_vals = self.vals@;
                let _k = self.keys.remove(i);
                let v = self.vals.remove(i);
                self.contents = Ghost(old_map.remove(key@));
                assert forall|j: int| 0 <= j < self.keys@.len() implies
                    self.contents@.contains_key(#[trigger] self.keys@[j]@)
                    && self.contents@[self.keys@[j]@] == self.vals@[j] by {
                    if j < i {
                        assert(self.keys@[j] == old_keys[j]);
                        assert(old_keys[j]@ != old_keys[i as int]@);
                    } else {
                        assert(self.keys@[j] == old_keys[j + 1]);
                        assert(self.vals@[j] == old_vals[j + 1]);
                        assert(old_keys[i as int]@ != old_keys[j + 1]@);
                    }
                }
                assert forall|k: Seq<u8>| self.contents@.contains_key(k) implies
                    exists|j: int| 0 <= j < self.keys@.len() && #[trigger] self.keys@[j]@ == k by {
                    assert(old_map.contains_key(k));
                    let j = choose|j: int| 0 <= j < old_keys.len() && #[trigger] old_keys[j]@ == k;
                    assert(j != i);
                    if j < i {
                        assert(self.keys@[j] == old_keys[j]);
                    } else {
                        assert(self.keys@[j - 1] == old_keys[j]);
                    }
                }
                assert forall|a: int, b: int| 0 <= a < b < self.keys@.len() implies
                    self.keys@[a]@ != self.keys@[b]@ by {
                    let a0 = if a < i { a } else { a + 1 };
                    let b0 = if b < i { b } else { b + 1 };
                    assert(self.keys@[a] == old_keys[a0]);
                    assert(self.keys@[b] == old_keys[b0]);
                }
                Some(v)
            },
            None => {
                assert(old_map.remove(key@) =~= old_map);
                None
            },
        }
    }

    /// The number of entries.
    pub fn len(&self) -> (r: usize)
        requires
            self.wf(),
        ensures
            r == self@.dom().len(),
    {
        proof {
            self.lemma_len();
        }
        self.keys.len()
    }

    /// Entry number `i`, in the table's internal order.
    pub fn entry(&self, i: usize) -> (r: (&Vec<u8>, &V))
        requires
            self.wf(),
            i < self@.dom().len(),
        ensures
            self@.contains_key(r.0@),
            self@[r.0@] == *r.1,
    {
        proof {
            self.lemma_len();
        }
        (&self.keys[i], &self.vals[i])
    }

    /// A table holds finitely many entries.
    pub proof fn lemma_finite(&self)
        requires
            self.wf(),
        ensures
            self@.dom().finite(),
    {
        self.lemma_len();
    }

    /// The table has one entry per stored key.
    proof fn lemma_len(&self)
        requires
            self.wf(),
        ensures
            self@.dom().len() == self.keys@.len(),
            self@.dom().finite(),
    {
        let ks = Seq::new(self.keys@.len(), |i: int| self.keys@[i]@);
        assert(ks.no_duplicates()) by {
            assert forall|a: int, b: int| 0 <= a < ks.len() && 0 <= b < ks.len() && a != b implies ks[a] != ks[b] by {
                if a < b {
                    assert(self.keys@[a]@ != self.keys@[b]@);
                } else {
                    assert(self.keys@[b]@ != self.keys@[a]@);
                }
            }
        }
        assert(self@.dom() =~= ks.to_set()) by {
            assert forall|k: Seq<u8>| self@.dom().contains(k) implies ks.to_set().contains(k) by {
                let j = choose|j: int| 0 <= j < self.keys@.len() && #[trigger] self.keys@[j]@ == k;
                assert(ks[j] == k);
            }
            assert forall|k: Seq<u8>| ks.to_set().contains(k) implies self@.dom().contains(k) by {
                let j = choose|j: int| 0 <= j < ks.len() && ks[j] == k;
                assert(self@.contains_key(self.keys@[j]@));
            }
        }
        ks.unique_seq_to_set();
    }
}

} // verus!
