//! A map from text keys to values in which no key occurs twice.
//!
//! Keys are kept in the order in which they were first inserted; a later insertion of
//! the same key replaces the value in place.
use vstd::prelude::*;
use crate::text::{chars_eq, to_chars};

verus! {

pub struct StrMap<V> {
    entries: Vec<(String, V)>,
}

impl<V> StrMap<V> {
    /// The entries of the map, as (key, value) pairs in insertion order.
    pub closed spec fn entries(&self) -> Seq<(String, V)> {
        self.entries@
    }

    /// The characters of each key, in insertion order.
    pub open spec fn keys(&self) -> Seq<Seq<char>> {
        self.entries().map_values(|e: (String, V)| e.0@)
    }

    pub open spec fn has(&self, k: Seq<char>) -> bool {
        self.keys().contains(k)
    }

    /// The value stored under `k`, if any.
    pub open spec fn spec_get(&self, k: Seq<char>) -> Option<V> {
        if self.has(k) {
            Some(self.entries()[self.keys().index_of(k)].1)
        } else {
            None
        }
    }

    /// No key occurs twice.
    #[verifier::type_invariant]
    closed spec fn unique_keys(&self) -> bool {
        self.keys().no_duplicates()
    }

    /// An empty map.
    pub fn new() -> (r: Self)
        ensures
            r.entries().len() == 0,
            r.keys().no_duplicates(),
    {
        StrMap { entries: Vec::new() }
    }

    /// The number of keys.
    pub fn len(&self) -> (r: usize)
        ensures
            r == self.keys().len(),
    {
        self.entries.len()
    }

    /// The entries in insertion order.
    pub fn as_slice(&self) -> (r: &[(String, V)])
        ensures
            r@ == self.entries(),
    {
        self.entries.as_slice()
    }

    /// The entries in insertion order, taken out of the map.
    pub fn into_entries(self) -> (r: Vec<(String, V)>)
        ensures
            r@ == self.entries(),
    {
        self.entries
    }

    /// Where `k` stands among the keys.
    pub fn position(&self, k: &[char]) -> (r: Option<usize>)
        ensures
            match r {
                Some(i) => i < self.keys().len() && self.keys()[i as int] == k@,
                None => !self.has(k@),
            },
    {
        let mut i: usize = 0;
        while i < self.entries.len()
            invariant
                i <= self.keys().len(),
                forall|j: int| 0 <= j < i ==> self.keys()[j] != k@,
            decreases self.keys().len() - i,
        {
            let key = to_chars(self.entries[i].0.as_str());
            if chars_eq(key.as_slice(), k) {
                return Some(i);
            }
            i = i + 1;
        }
        None
    }

    proof fn lemma_index(&self, i: int)
        requires
            self.keys().no_duplicates(),
            0 <= i < self.keys().len(),
        ensures
            self.keys().index_of(self.keys()[i]) == i,
            self.spec_get(self.keys()[i]) == Some(self.entries()[i].1),
    {
        let k = self.keys()[i];
        assert(self.keys().contains(k));
    }

    /// The value stored under `k`, if any.
    pub fn get_chars(&self, k: &[char]) -> (r: Option<&V>)
        ensures
            r.is_some() == self.has(k@),
            r matches Some(v) ==> self.spec_get(k@) == Some(*v),
    {
        proof {
            use_type_invariant(self);
        }
        match self.position(k) {
            Some(i) => {
                proof {
                    self.lemma_index(i as int);
                }
                Some(&self.entries[i].1)
            },
            None => None,
        }
    }

    /// The value stored under `k`, if any.
    pub fn get(&self, k: &str) -> (r: Option<&V>)
        ensures
            r.is_some() == self.has(k@),
            r matches Some(v) ==> self.spec_get(k@) == Some(*v),
    {
        let kc = to_chars(k);
        self.get_chars(kc.as_slice())
    }

    /// Whether some value is stored under `k`.
    pub fn contains_key(&self, k: &str) -> (r: bool)
        ensures
            r == self.has(k@),
    {
        let kc = to_chars(k);
        self.position(kc.as_slice()).is_some()
    }

    /// Stores `v` under `k`, replacing the value stored there before, if any.
    pub fn insert(&mut self, k: String, v: V)
        ensures
            final(self).keys().no_duplicates(),
            final(self).spec_get(k@) == Some(v),
            forall|j: Seq<char>| j != k@ ==> #[trigger] final(self).spec_get(j) == old(self).spec_get(j),
            old(self).has(k@) ==> final(self).keys() == old(self).keys(),
            !old(self).has(k@) ==> final(self).keys() == old(self).keys().push(k@),
    {
        proof {
            use_type_invariant(&*self);
        }
        let kc = to_chars(k.as_str());
        let pos = self.position(kc.as_slice());
        let mut entries: Vec<(String, V)> = Vec::new();
        std::mem::swap(&mut entries, &mut self.entries);
        let ghost old_entries = entries@;
        let ghost old_keys = old_entries.map_values(|e: (String, V)| e.0@);
        match pos {
            Some(i) => {
                entries.set(i, (k, v));
                proof {
                    let new_keys = entries@.map_values(|e: (String, V)| e.0@);
                    assert(new_keys =~= old_keys);
                }
            },
            None => {
                entries.push((k, v));
                proof {
                    let new_keys = entries@.map_values(|e: (String, V)| e.0@);
                    assert(new_keys =~= old_keys.push(kc@));
                    assert forall|a: int, b: int|
                        0 <= a < new_keys.len() && 0 <= b < new_keys.len() && a != b implies new_keys[a]
                        != new_keys[b] by {
                        if a < old_keys.len() && b < old_keys.len() {
                        } else if a < old_keys.len() {
                            assert(old_keys.contains(new_keys[a]));
                        } else {
                            assert(old_keys.contains(new_keys[b]));
                        }
                    }
                }
            },
        }
        self.entries = entries;
        proof {
            assert forall|j: Seq<char>| j != k@ implies #[trigger] self.spec_get(j) == old(
                self,
            ).spec_get(j) by {
                if old(self).has(j) {
                    let idx = old(self).keys().index_of(j);
                    old(self).lemma_index(idx);
                    assert(self.keys()[idx] == j);
                    self.lemma_index(idx);
                } else if self.has(j) {
                    let idx = self.keys().index_of(j);
                    assert(idx < old(self).keys().len());
                    assert(old(self).keys()[idx] == j);
                }
            }
            let idx = self.keys().index_of(k@);
            match pos {
                Some(i) => {
                    assert(self.keys()[i as int] == k@);
                    self.lemma_index(i as int);
                },
                None => {
                    assert(self.keys()[self.keys().len() - 1] == k@);
                    self.lemma_index(self.keys().len() - 1);
                },
            }
        }
    }

    /// Takes out the value stored under `k`, if any.
    pub fn remove(&mut self, k: &[char]) -> (r: Option<V>)
        ensures
            final(self).keys().no_duplicates(),
            r == old(self).spec_get(k@),
            !final(self).has(k@),
            forall|j: Seq<char>| j != k@ ==> #[trigger] final(self).spec_get(j) == old(self).spec_get(j),
            old(self).has(k@) ==> final(self).keys() == old(self).keys().remove(
                old(self).keys().index_of(k@),
            ),
            !old(self).has(k@) ==> final(self).keys() == old(self).keys(),
    {
        proof {
            use_type_invariant(&*self);
        }
        let pos = self.position(k);
        match pos {
            None => {
                None
            },
            Some(i) => {
                proof {
                    self.lemma_index(i as int);
                }
                let mut entries: Vec<(String, V)> = Vec::new();
                std::mem::swap(&mut entries, &mut self.entries);
                let ghost old_entries = entries@;
                let ghost old_keys = old_entries.map_values(|e: (String, V)| e.0@);
                let e = entries.remove(i);
                proof {
                    let new_keys = entries@.map_values(|e: (String, V)| e.0@);
                    assert(new_keys =~= old_keys.remove(i as int));
                    assert(old_keys.index_of(k@) == i);
                    assert forall|a: int, b: int|
                        0 <= a < new_keys.len() && 0 <= b < new_keys.len() && a != b implies new_keys[a]
                        != new_keys[b] by {
                        let a2 = if a < i { a } else { a + 1 };
                        let b2 = if b < i { b } else { b + 1 };
                        assert(new_keys[a] == old_keys[a2]);
                        assert(new_keys[b] == old_keys[b2]);
                    }
                    assert(!new_keys.contains(k@)) by {
                        if new_keys.contains(k@) {
                            let a = new_keys.index_of(k@);
                            let a2 = if a < i { a } else { a + 1 };
                            assert(new_keys[a] == old_keys[a2]);
                        }
                    }
                }
                self.entries = entries;
                proof {
                    assert forall|j: Seq<char>| j != k@ implies #[trigger] self.spec_get(j) == old(
                        self,
                    ).spec_get(j) by {
                        if old(self).has(j) {
                            let idx = old(self).keys().index_of(j);
                            old(self).lemma_index(idx);
                            assert(idx != i);
                            let n = if idx < i { idx } else { idx - 1 };
                            assert(self.keys()[n] == j);
                            self.lemma_index(n);
                        } else if self.has(j) {
                            let idx = self.keys().index_of(j);
                            let o = if idx < i { idx } else { idx + 1 };
                            assert(old(self).keys()[o] == j);
                        }
                    }
                }
                Some(e.1)
            },
        }
    }
}

impl<V: View> View for StrMap<V> {
    type V = Map<Seq<char>, V::V>;

    /// Each key's characters mapped to the view of its value.
    closed spec fn view(&self) -> Map<Seq<char>, V::V> {
        Map::new(|k: Seq<char>| self.has(k), |k: Seq<char>| self.spec_get(k).unwrap()@)
    }
}

impl<V: View> StrMap<V> {
    /// The view holds exactly the keys of the map, each with the view of its value.
    pub proof fn lemma_view(&self)
        ensures
            forall|k: Seq<char>| #[trigger] self@.contains_key(k) == self.has(k),
            forall|k: Seq<char>| self.has(k) ==> #[trigger] self@[k] == self.spec_get(k).unwrap()@,
    {
    }

    /// A map with no entries views as the empty map.
    pub proof fn lemma_view_empty(m: StrMap<V>)
        requires
            m.entries().len() == 0,
        ensures
            m@ == Map::<Seq<char>, V::V>::empty(),
    {
        assert(m@ =~= Map::<Seq<char>, V::V>::empty());
    }

    /// After storing `v` under `k`, the view is the old view with `k` mapped to `v@`.
    pub proof fn lemma_view_insert(a: StrMap<V>, b: StrMap<V>, k: Seq<char>, v: V::V)
        requires
            b.has(k),
            b.spec_get(k).unwrap()@ == v,
            forall|j: Seq<char>| j != k ==> #[trigger] b.spec_get(j) == a.spec_get(j),
        ensures
            b@ == a@.insert(k, v),
    {
        assert forall|j: Seq<char>| #[trigger] b.has(j) == (a.has(j) || j == k) by {
            if j != k {
                assert(b.spec_get(j) == a.spec_get(j));
            }
        }
        assert(b@ =~= a@.insert(k, v));
    }

    /// After taking out `k`, the view is the old view without `k`.
    pub proof fn lemma_view_remove(a: StrMap<V>, b: StrMap<V>, k: Seq<char>)
        requires
            !b.has(k),
            forall|j: Seq<char>| j != k ==> #[trigger] b.spec_get(j) == a.spec_get(j),
        ensures
            b@ == a@.remove(k),
    {
        assert forall|j: Seq<char>| #[trigger] b.has(j) == (a.has(j) && j != k) by {
            if j != k {
                assert(b.spec_get(j) == a.spec_get(j));
            }
        }
        assert(b@ =~= a@.remove(k));
    }
}

} // verus!
