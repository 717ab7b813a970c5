//! A small map keyed by strings, held as a list of distinct keys with their
//! values; its view is a `Map` from the keys' characters to the values.
use vstd::prelude::*;

verus! {

/// Whether `a` and `b` hold the same characters.
pub fn str_eq(a: &str, b: &str) -> (r: bool)
    ensures
        r == (a@ == b@),
{
    let av = crate::text::chars_of(a);
    let bv = crate::text::chars_of(b);
    crate::text::chars_eq(&av, &bv)
}

/// A map from strings to copyable values.
pub struct StrMap<V> {
    entries: Vec<(String, V)>,
}

impl<V: Copy> StrMap<V> {
    /// No key occurs twice.
    pub closed spec fn wf(&self) -> bool {
        forall|i: int, j: int|
            0 <= i < self.entries@.len() && 0 <= j < self.entries@.len() && i != j
                ==> #[trigger] self.entries@[i].0@ != #[trigger] self.entries@[j].0@
    }

    pub closed spec fn has_key_at(&self, k: Seq<char>, i: int) -> bool {
        0 <= i < self.entries@.len() && self.entries@[i].0@ == k
    }

    /// The keys and values, as a map.
    pub closed spec fn view(&self) -> Map<Seq<char>, V> {
        Map::new(
            |k: Seq<char>| exists|i: int| self.has_key_at(k, i),
            |k: Seq<char>| self.entries@[choose|i: int| self.has_key_at(k, i)].1,
        )
    }

    proof fn lemma_at(&self, k: Seq<char>, i: int)
        requires
            self.wf(),
            self.has_key_at(k, i),
        ensures
            self@.contains_key(k),
            self@[k] == self.entries@[i].1,
    {
        let j = choose|j: int| self.has_key_at(k, j);
        assert(self.has_key_at(k, j));
        assert(i == j);
    }

    /// The empty map.
    pub fn new() -> (m: Self)
        ensures
            m.wf(),
            m@ == Map::<Seq<char>, V>::empty(),
    {
        let m = StrMap { entries: Vec::new() };
        assert(m@ =~= Map::<Seq<char>, V>::empty());
        m
    }

    fn index_of(&self, k: &str) -> (r: Option<usize>)
        requires
            self.wf(),
        ensures
            match r {
                Some(i) => self.has_key_at(k@, i as int),
                None => forall|i: int| !self.has_key_at(k@, i),
            },
    {
        let mut i: usize = 0;
        while i < self.entries.len()
            invariant
                i <= self.entries@.len(),
                forall|j: int| 0 <= j < i ==> !self.has_key_at(k@, j),
            decreases self.entries.len() - i,
        {
            if str_eq(self.entries[i].0.as_str(), k) {
                return Some(i);
            }
            i = i + 1;
        }
        None
    }

    /// The value stored under `k`.
    pub fn get(&self, k: &str) -> (r: Option<V>)
        requires
            self.wf(),
        ensures
            r == (if self@.contains_key(k@) {
                Some(self@[k@])
            } else {
                None
            }),
    {
        match self.index_of(k) {
            Some(i) => {
                proof {
                    self.lemma_at(k@, i as int);
                }
                Some(self.entries[i].1)
            },
            None => None,
        }
    }

    /// Whether `k` has a value.
    pub fn contains_key(&self, k: &str) -> (r: bool)
        requires
            self.wf(),
        ensures
            r == self@.contains_key(k@),
    {
        match self.index_of(k) {
            Some(i) => {
                proof {
                    self.lemma_at(k@, i as int);
                }
                true
            },
            None => false,
        }
    }

    /// Stores `v` under `k`, replacing what was there.
    pub fn insert(&mut self, k: String, v: V)
        requires
            old(self).wf(),
        ensures
            final(self).wf(),
            final(self)@ == old(self)@.insert(k@, v),
    {
        let ghost kv = k@;
        match self.index_of(k.as_str()) {
            Some(i) => {
                let ghost before = self.entries@;
                self.entries.set(i, (k, v));
                assert forall|j: int| 0 <= j < self.entries@.len() && j != i implies
                    self.entries@[j] == before[j] by {}
                assert(self@ =~= old(self)@.insert(kv, v)) by {
                    assert forall|q: Seq<char>| #[trigger] self@.contains_key(q)
                        == old(self)@.insert(kv, v).contains_key(q) by {
                        if self@.contains_key(q) {
                            let j = choose|j: int| self.has_key_at(q, j);
                            if j != i {
                                assert(old(self).has_key_at(q, j));
                            }
                        }
                        if old(self)@.contains_key(q) {
                            let j = choose|j: int| old(self).has_key_at(q, j);
                            assert(self.has_key_at(q, j));
                        }
                        if q == kv {
                            assert(self.has_key_at(q, i as int));
                        }
                    }
                    assert forall|q: Seq<char>| #[trigger] self@.contains_key(q) implies self@[q]
                        == old(self)@.insert(kv, v)[q] by {
                        let j = choose|j: int| self.has_key_at(q, j);
                        self.lemma_at(q, j);
                        if q != kv {
                            assert(j != i);
                            assert(old(self).has_key_at(q, j));
                            old(self).lemma_at(q, j);
                        }
                    }
                }
            },
            None => {
                let ghost before = self.entries@;
                self.entries.push((k, v));
                let n = self.entries.len() - 1;
                assert forall|j: int| 0 <= j < n implies self.entries@[j] == before[j] by {}
                assert(self.wf()) by {
                    assert forall|a: int, b: int|
                        0 <= a < self.entries@.len() && 0 <= b < self.entries@.len() && a != b
                            implies #[trigger] self.entries@[a].0@ != #[trigger] self.entries@[b].0@ by {
                        if a == n {
                            assert(!old(self).has_key_at(kv, b));
                        } else if b == n {
                            assert(!old(self).has_key_at(kv, a));
                        }
                    }
                }
                assert(self@ =~= old(self)@.insert(kv, v)) by {
                    assert forall|q: Seq<char>| #[trigger] self@.contains_key(q)
                        == old(self)@.insert(kv, v).contains_key(q) by {
                        if self@.contains_key(q) {
                            let j = choose|j: int| self.has_key_at(q, j);
                            if j != n {
                                assert(old(self).has_key_at(q, j));
                            }
                        }
                        if old(self)@.contains_key(q) {
                            let j = choose|j: int| old(self).has_key_at(q, j);
                            assert(self.has_key_at(q, j));
                        }
                        if q == kv {
                            assert(self.has_key_at(q, n as int));
                        }
                    }
                    assert forall|q: Seq<char>| #[trigger] self@.contains_key(q) implies self@[q]
                        == old(self)@.insert(kv, v)[q] by {
                        let j = choose|j: int| self.has_key_at(q, j);
                        self.lemma_at(q, j);
                        if q != kv {
                            assert(j != n);
                            assert(old(self).has_key_at(q, j));
                            old(self).lemma_at(q, j);
                        }
                    }
                }
            },
        }
    }

    /// Removes `k`, giving back what was stored under it.
    pub fn remove(&mut self, k: &str) -> (r: Option<V>)
        requires
            old(self).wf(),
        ensures
            final(self).wf(),
            final(self)@ == old(self)@.remove(k@),
            r == (if old(self)@.contains_key(k@) {
                Some(old(self)@[k@])
            } else {
                None
            }),
    {
        match self.index_of(k) {
            Some(i) => {
                proof {
                    self.lemma_at(k@, i as int);
                }
                let ghost before = self.entries@;
                let (_, v) = self.entries.remove(i);
                assert forall|j: int| 0 <= j < self.entries@.len() implies self.entries@[j] == (
                if j < i {
                    before[j]
                } else {
                    before[j + 1]
                }) by {}
                assert(self@ =~= old(self)@.remove(k@)) by {
                    assert forall|q: Seq<char>| #[trigger] self@.contains_key(q)
                        == old(self)@.remove(k@).contains_key(q) by {
                        if self@.contains_key(q) {
                            let j = choose|j: int| self.has_key_at(q, j);
                            let oj = if j < i {
                                j
                            } else {
                                j + 1
                            };
                            assert(old(self).has_key_at(q, oj));
                            assert(oj != i);
                        }
                        if old(self)@.remove(k@).contains_key(q) {
                            let j = choose|j: int| old(self).has_key_at(q, j);
                            assert(j != i);
                            let nj = if j < i {
                                j
                            } else {
                                j - 1
                            };
                            assert(self.has_key_at(q, nj));
                        }
                    }
                    assert forall|q: Seq<char>| #[trigger] self@.contains_key(q) implies self@[q]
                        == old(self)@.remove(k@)[q] by {
                        let j = choose|j: int| self.has_key_at(q, j);
                        self.lemma_at(q, j);
                        let oj = if j < i {
                            j
                        } else {
                            j + 1
                        };
                        assert(old(self).has_key_at(q, oj));
                        old(self).lemma_at(q, oj);
                    }
                }
                Some(v)
            },
            None => {
                assert(self@ =~= old(self)@.remove(k@));
                None
            },
        }
    }
}

} // verus!
