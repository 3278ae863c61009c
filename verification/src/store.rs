//! A finite map from byte-string keys to values, kept as a list of entries.

use vstd::prelude::*;
use vstd::slice::slice_to_vec;

verus! {

/// Compares two byte strings.
pub fn bytes_eq(a: &[u8], b: &[u8]) -> (r: bool)
    ensures
        r == (a@ == b@),
{
    if a.len() != b.len() {
        return false;
    }
    let mut i: usize = 0;
    while i < a.len()
        invariant
            a@.len() == b@.len(),
            i <= a@.len(),
            forall|j: int| 0 <= j < i ==> a@[j] == b@[j],
        decreases a@.len() - i,
    {
        if a[i] != b[i] {
            return false;
        }
        i = i + 1;
    }
    assert(a@ =~= b@);
    true
}

/// A map from byte strings to values. Each key occurs in at most one entry.
pub struct ByteMap<V: View> {
    entries: Vec<(Vec<u8>, V)>,
    contents: Ghost<Map<Seq<u8>, V::V>>,
}

impl<V: View> ByteMap<V> {
    /// The map that the entries stand for, each value taken by its view.
    pub closed spec fn map(&self) -> Map<Seq<u8>, V::V> {
        self.contents@
    }

    /// The entries agree with the map, and no key occurs twice.
    pub closed spec fn wf(&self) -> bool {
        &&& forall|i: int|
            0 <= i < self.entries@.len() ==> {
                &&& #[trigger] self.contents@.contains_key(self.entries@[i].0@)
                &&& self.contents@[self.entries@[i].0@] == self.entries@[i].1@
            }
        &&& forall|k: Seq<u8>|
            #[trigger] self.contents@.contains_key(k) ==> exists|i: int|
                0 <= i < self.entries@.len() && self.entries@[i].0@ == k
        &&& forall|i: int, j: int|
            0 <= i < self.entries@.len() && 0 <= j < self.entries@.len() && i != j
                ==> #[trigger] self.entries@[i].0@ != #[trigger] self.entries@[j].0@
    }

    /// An empty map.
    pub fn new() -> (m: Self)
        ensures
            m.wf(),
            m.map() == Map::<Seq<u8>, V::V>::empty(),
    {
        ByteMap { entries: Vec::new(), contents: Ghost(Map::empty()) }
    }

    fn find(&self, key: &[u8]) -> (r: Option<usize>)
        requires
            self.wf(),
        ensures
            match r {
                Some(i) => i < self.entries@.len() && self.entries@[i as int].0@ == key@,
                None => !self.map().contains_key(key@),
            },
    {
        let mut i: usize = 0;
        while i < self.entries.len()
            invariant
                self.wf(),
                i <= self.entries@.len(),
                forall|j: int| 0 <= j < i ==> self.entries@[j].0@ != key@,
            decreases self.entries@.len() - i,
        {
            if bytes_eq(self.entries[i].0.as_slice(), key) {
                return Some(i);
            }
            i = i + 1;
        }
        None
    }

    /// Whether the key is present.
    pub fn contains_key(&self, key: &[u8]) -> (r: bool)
        requires
            self.wf(),
        ensures
            r == self.map().contains_key(key@),
    {
        match self.find(key) {
            Some(_) => true,
            None => false,
        }
    }

    /// The value stored under the key, if any.
    pub fn get(&self, key: &[u8]) -> (r: Option<&V>)
        requires
            self.wf(),
        ensures
            match r {
                Some(v) => self.map().contains_key(key@) && v@ == self.map()[key@],
                None => !self.map().contains_key(key@),
            },
    {
        match self.find(key) {
            Some(i) => {
                assert(self.contents@.contains_key(self.entries@[i as int].0@));
                Some(&self.entries[i].1)
            },
            None => None,
        }
    }

    /// Takes the value stored under the key out of the map.
    pub fn remove(&mut self, key: &[u8]) -> (r: Option<V>)
        requires
            old(self).wf(),
        ensures
            final(self).wf(),
            final(self).map() == old(self).map().remove(key@),
            match r {
                Some(v) => old(self).map().contains_key(key@) && v@ == old(self).map()[key@],
                None => !old(self).map().contains_key(key@),
            },
    {
        match self.find(key) {
            Some(i) => {
                let ghost old_entries = self.entries@;
                let ghost old_map = self.contents@;
                assert(old_map.contains_key(old_entries[i as int].0@));
                let entry = self.entries.remove(i);
                self.contents = Ghost(self.contents@.remove(key@));
                assert forall|j: int| 0 <= j < self.entries@.len() implies
                    #[trigger] self.contents@.contains_key(self.entries@[j].0@)
                    && self.contents@[self.entries@[j].0@] == self.entries@[j].1@ by {
                    let oj = if j < i { j } else { j + 1 };
                    assert(old_entries[oj] == self.entries@[j]);
                    assert(old_entries[oj].0@ != old_entries[i as int].0@);
                    assert(old_map.contains_key(old_entries[oj].0@));
                }
                assert forall|k: Seq<u8>| #[trigger] self.contents@.contains_key(k) implies
                    exists|j: int| 0 <= j < self.entries@.len() && self.entries@[j].0@ == k by {
                    let j0 = choose|j: int| 0 <= j < old_entries.len() && old_entries[j].0@ == k;
                    if j0 < i {
                        assert(self.entries@[j0].0@ == k);
                    } else {
                        assert(j0 != i);
                        assert(self.entries@[j0 - 1].0@ == k);
                    }
                }
                assert forall|a: int, b: int|
                    0 <= a < self.entries@.len() && 0 <= b < self.entries@.len() && a != b
                    implies #[trigger] self.entries@[a].0@ != #[trigger] self.entries@[b].0@ by {
                    let oa = if a < i { a } else { a + 1 };
                    let ob = if b < i { b } else { b + 1 };
                    assert(old_entries[oa] == self.entries@[a]);
                    assert(old_entries[ob] == self.entries@[b]);
                }
                Some(entry.1)
            },
            None => {
                assert(self.contents@.remove(key@) =~= self.contents@);
                None
            },
        }
    }

    /// Stores the value under the key, replacing any value stored there.
    pub fn insert(&mut self, key: &[u8], value: V)
        requires
            old(self).wf(),
        ensures
            final(self).wf(),
            final(self).map() == old(self).map().insert(key@, value@),
    {
        let _ = self.remove(key);
        let ghost mid = self.entries@;
        let ghost mid_map = self.contents@;
        assert forall|j: int| 0 <= j < mid.len() implies #[trigger] mid[j].0@ != key@ by {
            assert(mid_map.contains_key(mid[j].0@));
        }
        let k = slice_to_vec(key);
        self.entries.push((k, value));
        self.contents = Ghost(self.contents@.insert(key@, value@));
        assert forall|j: int| 0 <= j < self.entries@.len() implies
            #[trigger] self.contents@.contains_key(self.entries@[j].0@)
            && self.contents@[self.entries@[j].0@] == self.entries@[j].1@ by {
            if j < mid.len() {
                assert(mid[j] == self.entries@[j]);
                assert(mid[j].0@ != key@);
                assert(mid_map.contains_key(mid[j].0@));
            }
        }
        assert forall|kk: Seq<u8>| #[trigger] self.contents@.contains_key(kk) implies
            exists|j: int| 0 <= j < self.entries@.len() && self.entries@[j].0@ == kk by {
            if kk == key@ {
                assert(self.entries@[mid.len() as int].0@ == kk);
            } else {
                let j0 = choose|j: int| 0 <= j < mid.len() && mid[j].0@ == kk;
                assert(self.entries@[j0].0@ == kk);
            }
        }
        assert forall|a: int, b: int|
            0 <= a < self.entries@.len() && 0 <= b < self.entries@.len() && a != b
            implies #[trigger] self.entries@[a].0@ != #[trigger] self.entries@[b].0@ by {
            if a < mid.len() {
                assert(mid[a] == self.entries@[a]);
            }
            if b < mid.len() {
                assert(mid[b] == self.entries@[b]);
            }
        }
        assert(self.contents@ =~= old(self).map().insert(key@, value@));
    }
}

} // verus!
