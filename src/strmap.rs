//! A map from strings to values that remembers the order in which keys were
//! first inserted.

use vstd::prelude::*;

verus! {

/// Index of the entry whose key is `k` (meaningful when there is one).
pub closed spec fn key_index<T>(entries: Seq<(String, T)>, k: Seq<char>) -> int {
    choose|i: int| 0 <= i < entries.len() && entries[i].0@ == k
}

/// Map from string keys to values; keys are unique and keep insertion order.
#[derive(Debug)]
pub struct StrMap<T> {
    entries: Vec<(String, T)>,
}

impl<T> View for StrMap<T> {
    type V = Map<Seq<char>, T>;

    closed spec fn view(&self) -> Map<Seq<char>, T> {
        Map::new(
            |k: Seq<char>| exists|i: int| 0 <= i < self.entries@.len() && self.entries@[i].0@ == k,
            |k: Seq<char>| self.entries@[key_index(self.entries@, k)].1,
        )
    }
}

impl<T> StrMap<T> {
    #[verifier::type_invariant]
    closed spec fn keys_unique(&self) -> bool {
        forall|i: int, j: int|
            0 <= i < self.entries@.len() && 0 <= j < self.entries@.len() && i != j
                ==> #[trigger] self.entries@[i].0@ != #[trigger] self.entries@[j].0@
    }

    /// The keys, in the order in which they were first inserted.
    pub closed spec fn keys(&self) -> Seq<Seq<char>> {
        self.entries@.map_values(|e: (String, T)| e.0@)
    }

    proof fn lemma_keys(&self)
        requires
            self.keys_unique(),
        ensures
            self.keys().no_duplicates(),
            self.keys().len() == self@.dom().len(),
            self@.dom().finite(),
            forall|k: Seq<char>| #[trigger] self@.contains_key(k) <==> self.keys().contains(k),
            forall|i: int|
                0 <= i < self.keys().len() ==> #[trigger] self@.contains_key(self.keys()[i]),
    {
        let ks = self.keys();
        assert forall|k: Seq<char>| #[trigger] self@.contains_key(k) <==> ks.contains(k) by {
            if self@.contains_key(k) {
                let i = choose|i: int| 0 <= i < self.entries@.len() && self.entries@[i].0@ == k;
                assert(ks[i] == k);
            }
            if ks.contains(k) {
                let i = choose|i: int| 0 <= i < ks.len() && ks[i] == k;
                assert(self.entries@[i].0@ == k);
            }
        }
        assert(ks.no_duplicates()) by {
            assert forall|i: int, j: int| 0 <= i < ks.len() && 0 <= j < ks.len() && i != j
                implies ks[i] != ks[j] by {
                assert(self.entries@[i].0@ != self.entries@[j].0@);
            }
        }
        assert(self@.dom() =~= ks.to_set());
        vstd::seq_lib::seq_to_set_is_finite(ks);
        ks.unique_seq_to_set();
        assert forall|i: int| 0 <= i < ks.len() implies #[trigger] self@.contains_key(ks[i]) by {
            assert(self.entries@[i].0@ == ks[i]);
        }
    }

    proof fn lemma_value_at(&self, i: int)
        requires
            self.keys_unique(),
            0 <= i < self.entries@.len(),
        ensures
            self@.contains_key(self.entries@[i].0@),
            self@[self.entries@[i].0@] == self.entries@[i].1,
    {
        let k = self.entries@[i].0@;
        let c = key_index(self.entries@, k);
        assert(0 <= c < self.entries@.len() && self.entries@[c].0@ == k);
    }

    /// An empty map.
    pub fn new() -> (r: Self)
        ensures
            r@ == Map::<Seq<char>, T>::empty(),
            r.keys() == Seq::<Seq<char>>::empty(),
    {
        let r = StrMap { entries: Vec::new() };
        assert(r@ =~= Map::<Seq<char>, T>::empty());
        assert(r.keys() =~= Seq::<Seq<char>>::empty());
        r
    }

    /// Number of keys. The keys in order are distinct and are exactly the
    /// domain of the map.
    pub fn len(&self) -> (r: usize)
        ensures
            r == self.keys().len(),
            r == self@.dom().len(),
            self@.dom().finite(),
            self.keys().no_duplicates(),
            forall|k: Seq<char>| #[trigger] self@.contains_key(k) <==> self.keys().contains(k),
            forall|i: int|
                0 <= i < self.keys().len() ==> #[trigger] self@.contains_key(self.keys()[i]),
    {
        proof {
            use_type_invariant(self);
            self.lemma_keys();
        }
        self.entries.len()
    }

    /// Whether the map has no keys.
    pub fn is_empty(&self) -> (r: bool)
        ensures
            r == (self.keys().len() == 0),
            r == (self@.dom().len() == 0),
    {
        proof {
            use_type_invariant(self);
            self.lemma_keys();
        }
        self.entries.len() == 0
    }

    /// The `i`-th key in insertion order.
    pub fn key_at(&self, i: usize) -> (r: &String)
        requires
            i < self.keys().len(),
        ensures
            r@ == self.keys()[i as int],
    {
        &self.entries[i].0
    }

    /// The value stored under the `i`-th key in insertion order.
    pub fn value_at(&self, i: usize) -> (r: &T)
        requires
            i < self.keys().len(),
        ensures
            self@.contains_key(self.keys()[i as int]),
            *r == self@[self.keys()[i as int]],
    {
        proof {
            use_type_invariant(self);
            self.lemma_value_at(i as int);
        }
        &self.entries[i].1
    }

    fn find(&self, key: &String) -> (r: Option<usize>)
        ensures
            match r {
                Some(i) => i < self.entries@.len() && self.entries@[i as int].0@ == key@,
                None => !self@.contains_key(key@),
            },
    {
        let mut i: usize = 0;
        while i < self.entries.len()
            invariant
                0 <= i <= self.entries@.len(),
                forall|j: int| 0 <= j < i ==> self.entries@[j].0@ != key@,
            decreases self.entries@.len() - i,
        {
            if self.entries[i].0 == *key {
                return Some(i);
            }
            i = i + 1;
        }
        None
    }

    /// The value stored under `key`, if any.
    pub fn get(&self, key: &str) -> (r: Option<&T>)
        ensures
            match r {
                Some(v) => self@.contains_key(key@) && *v == self@[key@],
                None => !self@.contains_key(key@),
            },
    {
        let k = key.to_owned();
        match self.find(&k) {
            Some(i) => {
                proof {
                    use_type_invariant(self);
                    self.lemma_value_at(i as int);
                }
                Some(&self.entries[i].1)
            },
            None => None,
        }
    }

    /// Whether `key` is present.
    pub fn contains_key(&self, key: &str) -> (r: bool)
        ensures
            r == self@.contains_key(key@),
    {
        self.get(key).is_some()
    }

    /// Stores `value` under `key`, replacing the value stored there before.
    /// A new key goes last in the key order; an existing key keeps its place.
    pub fn insert(&mut self, key: String, value: T)
        ensures
            final(self)@ == old(self)@.insert(key@, value),
            old(self)@.contains_key(key@) ==> final(self).keys() == old(self).keys(),
            !old(self)@.contains_key(key@) ==> final(self).keys() == old(self).keys().push(key@),
    {
        proof { use_type_invariant(&*self); }
        let found = self.find(&key);
        let ghost old_entries = self.entries@;
        let mut entries: Vec<(String, T)> = Vec::new();
        std::mem::swap(&mut entries, &mut self.entries);
        let ghost k = key@;
        match found {
            Some(i) => {
                entries.set(i, (key, value));
                proof {
                    let ne = entries@;
                    assert forall|a: int, b: int|
                        0 <= a < ne.len() && 0 <= b < ne.len() && a != b
                            implies #[trigger] ne[a].0@ != #[trigger] ne[b].0@ by {
                        assert(old_entries[a].0@ != old_entries[b].0@);
                    }
                }
            },
            None => {
                entries.push((key, value));
                proof {
                    let ne = entries@;
                    assert forall|a: int, b: int|
                        0 <= a < ne.len() && 0 <= b < ne.len() && a != b
                            implies #[trigger] ne[a].0@ != #[trigger] ne[b].0@ by {
                        if a < old_entries.len() && b < old_entries.len() {
                            assert(old_entries[a].0@ != old_entries[b].0@);
                        } else if a < old_entries.len() {
                            assert(old_entries[a].0@ != k);
                        } else {
                            assert(old_entries[b].0@ != k);
                        }
                    }
                }
            },
        }
        self.entries = entries;
        proof {
            let ne = self.entries@;
            let m_old = old(self)@;
            let m_new = self@;
            let expect = m_old.insert(k, value);
            assert forall|q: Seq<char>| #[trigger] m_new.contains_key(q) <==> expect.contains_key(q) by {
                if m_new.contains_key(q) && q != k {
                    let j = choose|j: int| 0 <= j < ne.len() && ne[j].0@ == q;
                    assert(old_entries[j].0@ == q);
                }
                if expect.contains_key(q) && q != k {
                    let j = choose|j: int| 0 <= j < old_entries.len() && old_entries[j].0@ == q;
                    assert(ne[j].0@ == q);
                }
                if q == k {
                    match found {
                        Some(i) => { assert(ne[i as int].0@ == k); },
                        None => { assert(ne[ne.len() - 1].0@ == k); },
                    }
                }
            }
            assert forall|q: Seq<char>| #[trigger] m_new.contains_key(q) implies m_new[q] == expect[q] by {
                let c = key_index(ne, q);
                assert(0 <= c < ne.len() && ne[c].0@ == q);
                if q == k {
                    match found {
                        Some(i) => { assert(ne[i as int].0@ == k); },
                        None => { assert(ne[ne.len() - 1].0@ == k); },
                    }
                } else {
                    assert(old_entries[c].0@ == q);
                    let d = key_index(old_entries, q);
                    assert(0 <= d < old_entries.len() && old_entries[d].0@ == q);
                    assert(old(self).entries@[c].0@ == old(self).entries@[d].0@);
                }
            }
            assert(m_new =~= expect);
            if found is Some {
                assert(self.keys() =~= old(self).keys());
            } else {
                assert(self.keys() =~= old(self).keys().push(k));
            }
        }
    }
}

} // verus!
