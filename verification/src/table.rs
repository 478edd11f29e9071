use vstd::prelude::*;

use crate::ids::bytes_equal;

verus! {

/// A keyed table of entries, each under a distinct byte-string key: the
/// model of one family of storage entries (all groups, all user histories,
/// all group histories).
pub struct Table<V> {
    keys: Vec<Vec<u8>>,
    vals: Vec<V>,
}

impl<V: DeepView> Table<V> {
    /// Keys and values pair up, and no key occurs twice.
    pub closed spec fn wf(&self) -> bool {
        &&& self.keys.len() == self.vals.len()
        &&& forall|i: int, j: int|
            0 <= i < j < self.keys.len() ==> (#[trigger] self.keys@[i])@ != (#[trigger] self.keys@[j])@
    }

    pub closed spec fn has_key_at(&self, k: Seq<u8>, i: int) -> bool {
        0 <= i < self.keys.len() && self.keys@[i]@ == k
    }

    /// The table as a map from keys to the views of their values.
    pub closed spec fn map(&self) -> Map<Seq<u8>, V::V> {
        Map::new(
            |k: Seq<u8>| exists|i: int| self.has_key_at(k, i),
            |k: Seq<u8>| self.vals@[choose|i: int| self.has_key_at(k, i)].deep_view(),
        )
    }

    /// The number of entries.
    pub closed spec fn size(&self) -> nat {
        self.keys.len() as nat
    }

    proof fn lemma_at(&self, i: int)
        requires
            self.wf(),
            0 <= i < self.keys.len(),
        ensures
            self.map().contains_key(self.keys@[i]@),
            self.map()[self.keys@[i]@] == self.vals@[i].deep_view(),
    {
        let k = self.keys@[i]@;
        assert(self.has_key_at(k, i));
        let j = choose|j: int| self.has_key_at(k, j);
        assert(self.has_key_at(k, j));
        assert(j == i);
    }

    /// An empty table.
    pub fn new() -> (t: Self)
        ensures
            t.wf(),
            t.map() == Map::<Seq<u8>, V::V>::empty(),
    {
        let t = Table { keys: Vec::new(), vals: Vec::new() };
        assert(t.map() =~= Map::<Seq<u8>, V::V>::empty());
        t
    }

    /// The number of entries.
    pub fn len(&self) -> (n: usize)
        ensures
            n == self.size(),
    {
        self.keys.len()
    }

    /// The position of `key`, if the table holds it.
    fn find(&self, key: &Vec<u8>) -> (r: Option<usize>)
        requires
            self.wf(),
        ensures
            match r {
                Some(i) => self.has_key_at(key@, i as int),
                None => !self.map().contains_key(key@),
            },
    {
        let n = self.keys.len();
        let mut i: usize = 0;
        while i < n
            invariant
                n == self.keys.len(),
                i <= n,
                forall|j: int| 0 <= j < i ==> self.keys@[j]@ != key@,
            decreases n - i,
        {
            if bytes_equal(&self.keys[i], key) {
                return Some(i);
            }
            i = i + 1;
        }
        None
    }

    /// Whether the table holds `key`.
    pub fn contains(&self, key: &Vec<u8>) -> (r: bool)
        requires
            self.wf(),
        ensures
            r == self.map().contains_key(key@),
    {
        match self.find(key) {
            Some(i) => {
                proof {
                    self.lemma_at(i as int);
                }
                true
            },
            None => false,
        }
    }

    /// The value under `key`, if any.
    pub fn get(&self, key: &Vec<u8>) -> (r: Option<&V>)
        requires
            self.wf(),
        ensures
            match r {
                Some(v) => self.map().contains_key(key@) && v.deep_view() == self.map()[key@],
                None => !self.map().contains_key(key@),
            },
    {
        match self.find(key) {
            Some(i) => {
                proof {
                    self.lemma_at(i as int);
                }
                Some(&self.vals[i])
            },
            None => None,
        }
    }

    /// The key and value of the entry at position `i`.
    pub fn entry(&self, i: usize) -> (r: (&Vec<u8>, &V))
        requires
            self.wf(),
            i < self.size(),
        ensures
            self.map().contains_key(r.0@),
            self.map()[r.0@] == r.1.deep_view(),
    {
        proof {
            self.lemma_at(i as int);
        }
        (&self.keys[i], &self.vals[i])
    }

    /// Stores `value` under `key`, replacing what was there.
    pub fn set(&mut self, key: Vec<u8>, value: V)
        requires
            old(self).wf(),
        ensures
            final(self).wf(),
            final(self).map() == old(self).map().insert(key@, value.deep_view()),
    {
        let ghost old_map = self.map();
        let ghost kv = key@;
        let ghost vv = value.deep_view();
        match self.find(&key) {
            Some(i) => {
                self.vals.set(i, value);
                proof {
                    let m = self.map();
                    assert forall|k: Seq<u8>| #[trigger] m.contains_key(k) == old_map.insert(kv, vv).contains_key(k) by {
                        if old_map.contains_key(k) {
                            let j = choose|j: int| old(self).has_key_at(k, j);
                            assert(self.has_key_at(k, j));
                        }
                        if m.contains_key(k) {
                            let j = choose|j: int| self.has_key_at(k, j);
                            assert(old(self).has_key_at(k, j));
                        }
                    }
                    assert forall|k: Seq<u8>| #[trigger] m.contains_key(k) implies m[k] == old_map.insert(kv, vv)[k] by {
                        let j = choose|j: int| self.has_key_at(k, j);
                        self.lemma_at(j);
                        if j == i {
                        } else {
                            old(self).lemma_at(j);
                        }
                    }
                    assert(m =~= old_map.insert(kv, vv));
                }
            },
            None => {
                proof {
                    assert forall|i: int| 0 <= i < self.keys.len() implies self.keys@[i]@ != kv by {
                        if self.keys@[i]@ == kv {
                            assert(self.has_key_at(kv, i));
                        }
                    }
                }
                self.keys.push(key);
                self.vals.push(value);
                proof {
                    let n = self.keys.len() - 1;
                    assert forall|i: int, j: int|
                        0 <= i < j < self.keys.len() implies (#[trigger] self.keys@[i])@ != (#[trigger] self.keys@[j])@ by {
                        if j < n {
                            assert(old(self).keys@[i] == self.keys@[i]);
                            assert(old(self).keys@[j] == self.keys@[j]);
                        }
                    }
                    assert(self.wf());
                    let m = self.map();
                    assert forall|k: Seq<u8>| #[trigger] m.contains_key(k) == old_map.insert(kv, vv).contains_key(k) by {
                        if old_map.contains_key(k) {
                            let j = choose|j: int| old(self).has_key_at(k, j);
                            assert(self.has_key_at(k, j));
                        }
                        if k == kv {
                            assert(self.has_key_at(k, n));
                        }
                        if m.contains_key(k) {
                            let j = choose|j: int| self.has_key_at(k, j);
                            if j < n {
                                assert(old(self).has_key_at(k, j));
                            }
                        }
                    }
                    assert forall|k: Seq<u8>| #[trigger] m.contains_key(k) implies m[k] == old_map.insert(kv, vv)[k] by {
                        let j = choose|j: int| self.has_key_at(k, j);
                        self.lemma_at(j);
                        if j < n {
                            assert(old(self).has_key_at(k, j));
                            old(self).lemma_at(j);
                        }
                    }
                    assert(m =~= old_map.insert(kv, vv));
                }
            },
        }
    }
}

} // verus!
