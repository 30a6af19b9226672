//! A map from names to values, in insertion order.
//!
//! Profiles and button mappings are looked up by name. The map keeps one entry
//! per name; its mathematical view is a `Map` from the name's characters to the
//! value.

use vstd::prelude::*;

use crate::text::{chars_eq, chars_of};

verus! {

/// A map from names (strings) to values.
#[derive(Debug)]
pub struct NamedMap<V> {
    entries: Vec<(String, V)>,
}

impl<V> NamedMap<V> {
    /// The names of the entries, in order.
    pub closed spec fn names(&self) -> Seq<Seq<char>> {
        self.entries@.map_values(|e: (String, V)| e.0@)
    }

    /// No name occurs twice.
    #[verifier::type_invariant]
    spec fn names_unique(&self) -> bool {
        self.names().no_duplicates()
    }

    /// Position of the entry named `k`.
    spec fn index_of(&self, k: Seq<char>) -> int {
        choose|i: int| 0 <= i < self.entries@.len() && self.entries@[i].0@ == k
    }

    /// The map from names to values.
    pub closed spec fn as_map(&self) -> Map<Seq<char>, V> {
        Map::new(
            |k: Seq<char>| self.names().contains(k),
            |k: Seq<char>| self.entries@[self.index_of(k)].1,
        )
    }

    /// The entry at position `i` gives the map's value for its name.
    proof fn lemma_entry(&self, i: int)
        requires
            self.names_unique(),
            0 <= i < self.entries@.len(),
        ensures
            self.as_map().contains_key(self.entries@[i].0@),
            self.as_map()[self.entries@[i].0@] == self.entries@[i].1,
    {
        let k = self.entries@[i].0@;
        assert(self.names()[i] == k);
        let j = self.index_of(k);
        assert(self.names()[j] == k);
    }

    /// A map holds finitely many names.
    pub proof fn lemma_finite(&self)
        ensures
            self@.dom().finite(),
    {
        assert(self@.dom() =~= self.names().to_set());
        vstd::seq_lib::seq_to_set_is_finite(self.names());
    }

    /// An empty map.
    pub fn new() -> (m: Self)
        ensures
            m@ == Map::<Seq<char>, V>::empty(),
    {
        let m = NamedMap { entries: Vec::new() };
        assert(m.names() =~= Seq::<Seq<char>>::empty());
        assert(m@ =~= Map::<Seq<char>, V>::empty());
        m
    }

    /// Number of entries.
    pub fn len(&self) -> (n: usize)
        ensures
            n == self@.len(),
            self@.dom().finite(),
    {
        proof {
            self.lemma_finite();
            use_type_invariant(self);
            self.names().unique_seq_to_set();
            assert(self@.dom() =~= self.names().to_set());
        }
        self.entries.len()
    }

    /// Position of the entry named `key`, if any.
    fn find(&self, key: &str) -> (r: Option<usize>)
        ensures
            r is None <==> !self@.contains_key(key@),
            r matches Some(i) ==> i < self.entries@.len() && self.entries@[i as int].0@ == key@,
    {
        proof {
            use_type_invariant(self);
        }
        let target = chars_of(key);
        let n = self.entries.len();
        let mut i: usize = 0;
        while i < n
            invariant
                n == self.entries@.len(),
                i <= n,
                target@ == key@,
                forall|j: int| 0 <= j < i ==> self.entries@[j].0@ != key@,
            decreases n - i,
        {
            let name = chars_of(self.entries[i].0.as_str());
            if chars_eq(&name, &target) {
                assert(self.names()[i as int] == key@);
                return Some(i);
            }
            i += 1;
        }
        proof {
            if self.names().contains(key@) {
                let j = choose|j: int| 0 <= j < self.names().len() && self.names()[j] == key@;
                assert(self.entries@[j].0@ == key@);
            }
        }
        None
    }

    /// Whether an entry is named `key`.
    pub fn contains_key(&self, key: &str) -> (r: bool)
        ensures
            r == self@.contains_key(key@),
    {
        self.find(key).is_some()
    }

    /// The value named `key`, if any.
    pub fn get(&self, key: &str) -> (r: Option<&V>)
        ensures
            r is None <==> !self@.contains_key(key@),
            r matches Some(v) ==> *v == self@[key@],
    {
        proof {
            use_type_invariant(self);
        }
        match self.find(key) {
            Some(i) => {
                proof {
                    self.lemma_entry(i as int);
                }
                Some(&self.entries[i].1)
            },
            None => None,
        }
    }

    /// Set the value named `key`, replacing any value it had.
    pub fn insert(&mut self, key: String, value: V)
        ensures
            final(self)@ == old(self)@.insert(key@, value),
    {
        proof {
            use_type_invariant(&*self);
        }
        let found = self.find(key.as_str());
        let ghost k = key@;
        let ghost old_entries = self.entries@;
        let mut entries = Vec::new();
        std::mem::swap(&mut entries, &mut self.entries);
        match found {
            Some(i) => {
                entries.set(i, (key, value));
            },
            None => {
                entries.push((key, value));
            },
        }
        let ghost new_entries = entries@;
        let ghost names = new_entries.map_values(|e: (String, V)| e.0@);
        let ghost old_names = old_entries.map_values(|e: (String, V)| e.0@);
        proof {
            match found {
                Some(i) => {
                    assert(names =~= old_names.update(i as int, k));
                    assert(names.no_duplicates()) by {
                        assert forall|a: int, b: int| 0 <= a < names.len() && 0 <= b < names.len() && a != b implies names[a] != names[b] by {
                            if a != i && b != i {
                                assert(old_names[a] != old_names[b]);
                            } else if a == i {
                                assert(old_names[b] != old_names[i as int]);
                            } else {
                                assert(old_names[a] != old_names[i as int]);
                            }
                        }
                    }
                },
                None => {
                    assert(names =~= old_names.push(k));
                    assert(!old_names.contains(k));
                },
            }
        }
        self.entries = entries;
        proof {
            let m = old(self)@.insert(k, value);
            assert forall|x: Seq<char>| #[trigger] self@.contains_key(x) == m.contains_key(x) by {
                if m.contains_key(x) && x != k {
                    let j = choose|j: int| 0 <= j < old_names.len() && old_names[j] == x;
                    assert(self.names()[j] == x);
                }
                if self@.contains_key(x) && x != k {
                    let j = choose|j: int| 0 <= j < self.names().len() && self.names()[j] == x;
                    assert(old_names[j] == x);
                }
                if x == k {
                    match found {
                        Some(i) => { assert(self.names()[i as int] == k); },
                        None => { assert(self.names()[old_names.len() as int] == k); },
                    }
                }
            }
            assert forall|x: Seq<char>| #[trigger] self@.contains_key(x) implies self@[x] == m[x] by {
                if x != k {
                    let j = choose|j: int| 0 <= j < self.names().len() && self.names()[j] == x;
                    self.lemma_entry(j);
                    assert(old_names[j] == x);
                    old(self).lemma_entry(j);
                } else {
                    match found {
                        Some(i) => { self.lemma_entry(i as int); },
                        None => { self.lemma_entry(old_names.len() as int); },
                    }
                }
            }
            assert(self@ =~= m);
        }
    }

    /// Remove the value named `key`, if any.
    pub fn remove(&mut self, key: &str)
        ensures
            final(self)@ == old(self)@.remove(key@),
    {
        proof {
            use_type_invariant(&*self);
        }
        let found = self.find(key);
        let ghost k = key@;
        let ghost old_names = self.names();
        match found {
            Some(i) => {
                let mut entries = Vec::new();
                std::mem::swap(&mut entries, &mut self.entries);
                let ghost old_entries = entries@;
                entries.remove(i);
                let ghost names = entries@.map_values(|e: (String, V)| e.0@);
                proof {
                    assert(names =~= old_names.remove(i as int));
                    assert forall|a: int, b: int| 0 <= a < names.len() && 0 <= b < names.len() && a != b implies names[a] != names[b] by {
                        let a2 = if a < i { a } else { a + 1 };
                        let b2 = if b < i { b } else { b + 1 };
                        assert(old_names[a2] != old_names[b2]);
                    }
                }
                self.entries = entries;
                proof {
                    let m = old(self)@.remove(k);
                    assert forall|x: Seq<char>| #[trigger] self@.contains_key(x) == m.contains_key(x) by {
                        if m.contains_key(x) {
                            let j = choose|j: int| 0 <= j < old_names.len() && old_names[j] == x;
                            assert(j != i);
                            let j2 = if j < i { j } else { j - 1 };
                            assert(self.names()[j2] == x);
                        }
                        if self@.contains_key(x) {
                            let j = choose|j: int| 0 <= j < self.names().len() && self.names()[j] == x;
                            let j2 = if j < i { j } else { j + 1 };
                            assert(old_names[j2] == x);
                            assert(old_names[i as int] == k);
                        }
                    }
                    assert forall|x: Seq<char>| #[trigger] self@.contains_key(x) implies self@[x] == m[x] by {
                        let j = choose|j: int| 0 <= j < self.names().len() && self.names()[j] == x;
                        self.lemma_entry(j);
                        let j2 = if j < i { j } else { j + 1 };
                        assert(old_names[j2] == x);
                        old(self).lemma_entry(j2);
                    }
                    assert(self@ =~= m);
                }
            },
            None => {
                assert(self@ =~= old(self)@.remove(k));
            },
        }
    }

    /// The names of all entries, each once.
    pub fn keys(&self) -> (ks: Vec<String>)
        ensures
            ks@.map_values(|s: String| s@).no_duplicates(),
            ks@.map_values(|s: String| s@).to_set() == self@.dom(),
            self@.dom().finite(),
    {
        proof {
            self.lemma_finite();
            use_type_invariant(self);
        }
        let mut ks: Vec<String> = Vec::new();
        let n = self.entries.len();
        let mut i: usize = 0;
        while i < n
            invariant
                n == self.entries@.len(),
                i <= n,
                self.names().no_duplicates(),
                ks@.map_values(|s: String| s@) == self.names().subrange(0, i as int),
            decreases n - i,
        {
            let ghost prior = ks@.map_values(|s: String| s@);
            ks.push(self.entries[i].0.clone());
            assert(ks@.map_values(|s: String| s@) =~= prior.push(self.names()[i as int]));
            assert(self.names().subrange(0, i + 1) =~= self.names().subrange(0, i as int).push(self.names()[i as int]));
            i += 1;
        }
        assert(self.names().subrange(0, n as int) =~= self.names());
        assert(self.names().to_set() =~= self@.dom());
        ks
    }
}

impl<V: Clone> Clone for NamedMap<V> {
    /// A copy with the same names, each value cloned.
    fn clone(&self) -> (r: Self)
        ensures
            r@.dom() == self@.dom(),
            forall|k: Seq<char>| #[trigger] self@.contains_key(k) ==> cloned::<V>(self@[k], r@[k]),
    {
        proof {
            use_type_invariant(self);
        }
        let n = self.entries.len();
        let mut entries: Vec<(String, V)> = Vec::new();
        let mut i: usize = 0;
        while i < n
            invariant
                n == self.entries@.len(),
                i <= n,
                entries@.len() == i,
                forall|j: int| 0 <= j < i ==> (#[trigger] entries@[j]).0@ == self.entries@[j].0@,
                forall|j: int| 0 <= j < i ==> cloned::<V>(self.entries@[j].1, #[trigger] entries@[j].1),
            decreases n - i,
        {
            let key = self.entries[i].0.clone();
            let value = self.entries[i].1.clone();
            entries.push((key, value));
            i += 1;
        }
        let ghost names = entries@.map_values(|e: (String, V)| e.0@);
        assert(names =~= self.names());
        let r = NamedMap { entries };
        proof {
            assert forall|k: Seq<char>| #[trigger] r@.contains_key(k) == self@.contains_key(k) by {
                assert(r.names() == self.names());
            }
            assert(r@.dom() =~= self@.dom());
            assert forall|k: Seq<char>| #[trigger] self@.contains_key(k) implies cloned::<V>(self@[k], r@[k]) by {
                let j = choose|j: int| 0 <= j < self.names().len() && self.names()[j] == k;
                self.lemma_entry(j);
                assert(r.names()[j] == k);
                r.lemma_entry(j);
            }
        }
        r
    }
}

impl<V> View for NamedMap<V> {
    type V = Map<Seq<char>, V>;

    closed spec fn view(&self) -> Map<Seq<char>, V> {
        self.as_map()
    }
}

} // verus!
