//! A map from device names to settings that remembers the order in which
//! names were first inserted, so that listings built from it are
//! reproducible. No name occurs twice.
use vstd::prelude::*;

verus! {

/// Whether no element occurs twice in `s`.
pub open spec fn distinct<T>(s: Seq<T>) -> bool {
    forall|i: int, j: int| 0 <= i < s.len() && 0 <= j < s.len() && i != j ==> s[i] != s[j]
}

/// Name-keyed map with insertion order.
pub struct NamedMap<V> {
    entries: Vec<(String, V)>,
}

impl<V> NamedMap<V> {
    /// The names, in insertion order.
    pub closed spec fn names(&self) -> Seq<Seq<char>> {
        self.entries@.map_values(|e: (String, V)| e.0@)
    }

    /// The values, aligned with `names`.
    pub closed spec fn values(&self) -> Seq<V> {
        self.entries@.map_values(|e: (String, V)| e.1)
    }

    /// Well-formed: names and values align and no name occurs twice.
    pub open spec fn wf(&self) -> bool {
        &&& self.names().len() == self.values().len()
        &&& distinct(self.names())
    }

    /// Number of entries.
    pub open spec fn size(&self) -> nat {
        self.names().len()
    }

    /// Whether `k` is a name of the map.
    pub open spec fn has(&self, k: Seq<char>) -> bool {
        self.names().contains(k)
    }

    /// The value stored under `k`, if any.
    pub open spec fn lookup(&self, k: Seq<char>) -> Option<V> {
        if self.has(k) {
            Some(self.values()[self.names().index_of(k)])
        } else {
            None
        }
    }

    proof fn lemma_views(&self)
        ensures
            self.names().len() == self.entries@.len(),
            self.values().len() == self.entries@.len(),
            forall|i: int|
                0 <= i < self.entries@.len() ==> #[trigger] self.names()[i] == self.entries@[i].0@
                    && self.values()[i] == self.entries@[i].1,
    {
    }

    pub proof fn lemma_lookup_at(&self, i: int)
        requires
            self.wf(),
            0 <= i < self.size(),
        ensures
            self.has(self.names()[i]),
            self.names().index_of(self.names()[i]) == i,
            self.lookup(self.names()[i]) == Some(self.values()[i]),
    {
        let k = self.names()[i];
        assert(self.names().contains(k));
        let j = self.names().index_of(k);
        assert(self.names()[j] == k);
    }

    /// An empty map.
    pub fn new() -> (m: Self)
        ensures
            m.wf(),
            m.names() == Seq::<Seq<char>>::empty(),
            m.values() == Seq::<V>::empty(),
    {
        let m = NamedMap { entries: Vec::new() };
        assert(m.names() =~= Seq::<Seq<char>>::empty());
        assert(m.values() =~= Seq::<V>::empty());
        m
    }

    /// Number of entries.
    pub fn len(&self) -> (n: usize)
        ensures
            n == self.size(),
    {
        proof {
            self.lemma_views();
        }
        self.entries.len()
    }

    /// The name of the `i`-th entry.
    pub fn name_at(&self, i: usize) -> (k: &String)
        requires
            i < self.size(),
        ensures
            k@ == self.names()[i as int],
    {
        proof {
            self.lemma_views();
        }
        &self.entries[i].0
    }

    /// The value of the `i`-th entry.
    pub fn value_at(&self, i: usize) -> (v: &V)
        requires
            self.wf(),
            i < self.size(),
        ensures
            *v == self.values()[i as int],
    {
        proof {
            self.lemma_views();
        }
        &self.entries[i].1
    }

    /// The position of `k`, if it is a name of the map.
    pub fn find(&self, k: &String) -> (r: Option<usize>)
        requires
            self.wf(),
        ensures
            r matches Some(i) ==> i < self.size() && self.names()[i as int] == k@
                && self.names().index_of(k@) == i,
            r is None ==> !self.has(k@),
    {
        proof {
            self.lemma_views();
        }
        let mut i: usize = 0;
        while i < self.entries.len()
            invariant
                self.wf(),
                i <= self.entries@.len(),
                self.names().len() == self.entries@.len(),
                forall|j: int| 0 <= j < i ==> self.names()[j] != k@,
            decreases self.entries@.len() - i,
        {
            if self.entries[i].0 == *k {
                proof {
                    self.lemma_views();
                    self.lemma_lookup_at(i as int);
                }
                return Some(i);
            }
            proof {
                self.lemma_views();
            }
            i += 1;
        }
        None
    }

    /// Whether `k` is a name of the map.
    pub fn contains_key(&self, k: &String) -> (r: bool)
        requires
            self.wf(),
        ensures
            r == self.has(k@),
    {
        self.find(k).is_some()
    }

    /// The value stored under `k`, if any.
    pub fn get(&self, k: &String) -> (r: Option<&V>)
        requires
            self.wf(),
        ensures
            r matches Some(v) ==> self.lookup(k@) == Some(*v),
            r is None ==> self.lookup(k@) is None,
    {
        match self.find(k) {
            Some(i) => {
                proof {
                    self.lemma_lookup_at(i as int);
                }
                Some(self.value_at(i))
            },
            None => None,
        }
    }

    /// Stores `v` under `k`: an existing entry keeps its position and takes
    /// the new value; a new name goes to the end.
    pub fn insert(&mut self, k: String, v: V)
        requires
            old(self).wf(),
        ensures
            final(self).wf(),
            old(self).has(k@) ==> final(self).names() == old(self).names()
                && final(self).values() == old(self).values().update(
                old(self).names().index_of(k@),
                v,
            ),
            !old(self).has(k@) ==> final(self).names() == old(self).names().push(k@)
                && final(self).values() == old(self).values().push(v),
            final(self).lookup(k@) == Some(v),
            forall|other: Seq<char>| other != k@ ==> #[trigger] final(self).lookup(other) == old(self).lookup(other),
    {
        proof {
            self.lemma_views();
        }
        let ghost old_names = self.names();
        let ghost old_values = self.values();
        match self.find(&k) {
            Some(i) => {
                let ghost key = k@;
                self.entries.set(i, (k, v));
                proof {
                    self.lemma_views();
                    assert(self.names() =~= old_names);
                    assert(self.values() =~= old_values.update(i as int, v));
                    self.lemma_lookup_at(i as int);
                    assert forall|other: Seq<char>| other != key implies #[trigger] self.lookup(other)
                        == old(self).lookup(other) by {
                        if self.has(other) {
                            let j = self.names().index_of(other);
                            self.lemma_lookup_at(j);
                            old(self).lemma_lookup_at(j);
                        }
                    }
                }
            },
            None => {
                let ghost key = k@;
                self.entries.push((k, v));
                proof {
                    self.lemma_views();
                    assert(self.names() =~= old_names.push(key));
                    assert(self.values() =~= old_values.push(v));
                    let n = old_names.len() as int;
                    assert(distinct(self.names())) by {
                        assert forall|a: int, b: int|
                            0 <= a < self.names().len() && 0 <= b < self.names().len() && a
                                != b implies self.names()[a] != self.names()[b] by {
                            if a == n {
                                assert(!old_names.contains(key));
                                assert(old_names[b] == self.names()[b]);
                            } else if b == n {
                                assert(!old_names.contains(key));
                                assert(old_names[a] == self.names()[a]);
                            }
                        }
                    }
                    self.lemma_lookup_at(n);
                    assert forall|other: Seq<char>| other != key implies #[trigger] self.lookup(other)
                        == old(self).lookup(other) by {
                        if old(self).has(other) {
                            let j = old_names.index_of(other);
                            old(self).lemma_lookup_at(j);
                            assert(self.names()[j] == other);
                            self.lemma_lookup_at(j);
                        } else if self.has(other) {
                            let j = self.names().index_of(other);
                            assert(self.names()[j] == other);
                            if j < n {
                                assert(old_names[j] == other);
                            }
                        }
                    }
                }
            },
        }
    }
}

} // verus!
