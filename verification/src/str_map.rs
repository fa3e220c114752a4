use vstd::prelude::*;

use crate::text::str_eq;

verus! {

/// A map keyed by text, holding each key at most once.
pub struct StrMap<V> {
    entries: Vec<(String, V)>,
}

impl<V> StrMap<V> {
    #[verifier::type_invariant]
    spec fn keys_distinct(self) -> bool {
        forall|i: int, j: int|
            0 <= i < j < self.entries@.len() ==> #[trigger] self.entries@[i].0@
                != #[trigger] self.entries@[j].0@
    }

    pub closed spec fn has(self, k: Seq<char>) -> bool {
        exists|i: int| 0 <= i < self.entries@.len() && #[trigger] self.entries@[i].0@ == k
    }

    closed spec fn index_of(self, k: Seq<char>) -> int {
        choose|i: int| 0 <= i < self.entries@.len() && #[trigger] self.entries@[i].0@ == k
    }

    /// The entries in the order they were first inserted.
    pub closed spec fn entry_seq(self) -> Seq<(String, V)> {
        self.entries@
    }

    pub closed spec fn view(self) -> Map<Seq<char>, V> {
        Map::new(|k: Seq<char>| self.has(k), |k: Seq<char>| self.entries@[self.index_of(k)].1)
    }

    proof fn lemma_index(self, i: int)
        requires
            self.keys_distinct(),
            0 <= i < self.entries@.len(),
        ensures
            self.has(self.entries@[i].0@),
            self.index_of(self.entries@[i].0@) == i,
            self@[self.entries@[i].0@] == self.entries@[i].1,
    {
        let k = self.entries@[i].0@;
        assert(self.has(k));
        let j = self.index_of(k);
        if j < i {
            assert(self.entries@[j].0@ != self.entries@[i].0@);
        } else if i < j {
            assert(self.entries@[i].0@ != self.entries@[j].0@);
        }
    }

    proof fn lemma_dom_len(self)
        requires
            self.keys_distinct(),
        ensures
            self@.dom().finite(),
            self@.len() == self.entries@.len(),
    {
        let keys = self.entries@.map_values(|e: (String, V)| e.0@);
        assert forall|i: int, j: int| 0 <= i < j < keys.len() implies keys[i] != keys[j] by {
            assert(self.entries@[i].0@ != self.entries@[j].0@);
        }
        assert(keys.no_duplicates());
        keys.unique_seq_to_set();
        assert(self@.dom() =~= keys.to_set()) by {
            assert forall|k: Seq<char>| self@.dom().contains(k) implies keys.to_set().contains(k) by {
                let i = self.index_of(k);
                assert(keys[i] == k);
            }
            assert forall|k: Seq<char>| keys.to_set().contains(k) implies self@.dom().contains(k) by {
                let i = choose|i: int| 0 <= i < keys.len() && keys[i] == k;
                assert(self.entries@[i].0@ == k);
            }
        }
    }

    pub fn new() -> (m: Self)
        ensures
            m@ == Map::<Seq<char>, V>::empty(),
            m.entry_seq().len() == 0,
    {
        let m = StrMap { entries: Vec::new() };
        assert(m@ =~= Map::<Seq<char>, V>::empty());
        m
    }

    pub fn len(&self) -> (n: usize)
        ensures
            n == self@.len(),
    {
        proof {
            use_type_invariant(self);
            self.lemma_dom_len();
        }
        self.entries.len()
    }

    /// Position of the key among the entries.
    fn position(&self, key: &str) -> (r: Option<usize>)
        ensures
            match r {
                Some(i) => i < self.entries@.len() && self.entries@[i as int].0@ == key@,
                None => !self.has(key@),
            },
    {
        for i in 0..self.entries.len()
            invariant
                forall|j: int| 0 <= j < i ==> self.entries@[j].0@ != key@,
        {
            if str_eq(self.entries[i].0.as_str(), key) {
                return Some(i);
            }
        }
        None
    }

    pub fn contains_key(&self, key: &str) -> (b: bool)
        ensures
            b == self@.contains_key(key@),
    {
        self.position(key).is_some()
    }

    pub fn get(&self, key: &str) -> (r: Option<&V>)
        ensures
            match r {
                Some(v) => self@.contains_key(key@) && *v == self@[key@],
                None => !self@.contains_key(key@),
            },
    {
        proof {
            use_type_invariant(self);
        }
        match self.position(key) {
            Some(i) => {
                proof {
                    self.lemma_index(i as int);
                }
                Some(&self.entries[i].1)
            },
            None => None,
        }
    }

    /// Sets the value of a key, adding the key when it is new.
    pub fn insert(&mut self, key: String, value: V)
        ensures
            final(self)@ == old(self)@.insert(key@, value),
    {
        proof {
            use_type_invariant(&*self);
        }
        let ghost before = *self;
        let pos = self.position(key.as_str());
        let mut entries: Vec<(String, V)> = Vec::new();
        std::mem::swap(&mut entries, &mut self.entries);
        assert(entries@ == before.entries@);
        match pos {
            Some(i) => {
                entries.set(i, (key, value));
            },
            None => {
                entries.push((key, value));
            },
        }
        let ghost after = StrMap { entries };
        proof {
            assert(after.keys_distinct()) by {
                assert forall|a: int, b: int|
                    0 <= a < b < after.entries@.len() implies #[trigger] after.entries@[a].0@
                    != #[trigger] after.entries@[b].0@ by {
                    if a < before.entries@.len() && b < before.entries@.len() {
                        if a != pos.unwrap_or(usize::MAX) as int && b != pos.unwrap_or(
                            usize::MAX,
                        ) as int {
                            assert(before.entries@[a].0@ != before.entries@[b].0@);
                        } else if a == pos.unwrap_or(usize::MAX) as int {
                            assert(before.entries@[a].0@ != before.entries@[b].0@);
                        } else {
                            assert(before.entries@[a].0@ != before.entries@[b].0@);
                        }
                    }
                }
            }
            assert forall|k: Seq<char>| #[trigger] after.has(k) == before@.insert(
                key@,
                value,
            ).contains_key(k) by {
                if after.has(k) {
                    let i = choose|i: int|
                        0 <= i < after.entries@.len() && #[trigger] after.entries@[i].0@ == k;
                    if k != key@ {
                        assert(before.entries@[i].0@ == k);
                        assert(before.has(k));
                    }
                }
                if before.has(k) && k != key@ {
                    let i = choose|i: int|
                        0 <= i < before.entries@.len() && #[trigger] before.entries@[i].0@ == k;
                    assert(after.entries@[i].0@ == k);
                }
                if k == key@ {
                    let i = match pos {
                        Some(p) => p as int,
                        None => before.entries@.len() as int,
                    };
                    assert(after.entries@[i].0@ == k);
                }
            }
            assert forall|k: Seq<char>| #[trigger] after.has(k) implies after@[k] == before@.insert(
                key@,
                value,
            )[k] by {
                let i = after.index_of(k);
                after.lemma_index(i);
                if k == key@ {
                    let p = match pos {
                        Some(p) => p as int,
                        None => before.entries@.len() as int,
                    };
                    assert(after.entries@[p].0@ == k);
                    if p != i {
                        if p < i {
                            assert(after.entries@[p].0@ != after.entries@[i].0@);
                        } else {
                            assert(after.entries@[i].0@ != after.entries@[p].0@);
                        }
                    }
                } else {
                    assert(before.entries@[i].0@ == k);
                    before.lemma_index(i);
                }
            }
            assert(after@ =~= before@.insert(key@, value));
        }
        self.entries = entries;
    }

    /// Removes a key, handing back its value when it was present.
    pub fn remove(&mut self, key: &str) -> (r: Option<V>)
        ensures
            final(self)@ == old(self)@.remove(key@),
            match r {
                Some(v) => old(self)@.contains_key(key@) && v == old(self)@[key@],
                None => !old(self)@.contains_key(key@),
            },
    {
        proof {
            use_type_invariant(&*self);
        }
        let ghost before = *self;
        match self.position(key) {
            None => {
                assert(self@ =~= before@.remove(key@));
                None
            },
            Some(i) => {
                proof {
                    before.lemma_index(i as int);
                }
                let mut entries: Vec<(String, V)> = Vec::new();
        std::mem::swap(&mut entries, &mut self.entries);
                assert(entries@ == before.entries@);
                let (_, value) = entries.remove(i);
                let ghost after = StrMap { entries };
                proof {
                    assert(after.keys_distinct()) by {
                        assert forall|a: int, b: int|
                            0 <= a < b < after.entries@.len() implies #[trigger] after.entries@[a].0@
                            != #[trigger] after.entries@[b].0@ by {
                            let a0 = if a < i { a } else { a + 1 };
                            let b0 = if b < i { b } else { b + 1 };
                            assert(before.entries@[a0].0@ != before.entries@[b0].0@);
                        }
                    }
                    assert forall|k: Seq<char>| #[trigger] after.has(k) == before@.remove(
                        key@,
                    ).contains_key(k) by {
                        if after.has(k) {
                            let a = choose|a: int|
                                0 <= a < after.entries@.len() && #[trigger] after.entries@[a].0@
                                    == k;
                            let a0 = if a < i { a } else { a + 1 };
                            assert(before.entries@[a0].0@ == k);
                            if k == key@ {
                                if a0 < i {
                                    assert(before.entries@[a0].0@ != before.entries@[i as int].0@);
                                } else {
                                    assert(before.entries@[i as int].0@ != before.entries@[a0].0@);
                                }
                            }
                        }
                        if before.has(k) && k != key@ {
                            let b = before.index_of(k);
                            assert(b != i);
                            let a = if b < i { b } else { b - 1 };
                            assert(after.entries@[a].0@ == k);
                        }
                    }
                    assert forall|k: Seq<char>| #[trigger] after.has(k) implies after@[k]
                        == before@.remove(key@)[k] by {
                        let a = after.index_of(k);
                        after.lemma_index(a);
                        let a0 = if a < i { a } else { a + 1 };
                        assert(before.entries@[a0].0@ == k);
                        before.lemma_index(a0);
                    }
                    assert(after@ =~= before@.remove(key@));
                }
                self.entries = entries;
                Some(value)
            },
        }
    }

    /// The entries, in insertion order.
    pub fn entries(&self) -> (r: &Vec<(String, V)>)
        ensures
            r@ == self.entry_seq(),
            self@.dom().finite(),
            self@.len() == r@.len(),
            forall|i: int|
                0 <= i < r@.len() ==> #[trigger] self@.contains_key(r@[i].0@) && self@[r@[i].0@]
                    == r@[i].1,
            forall|k: Seq<char>|
                #[trigger] self@.contains_key(k) ==> exists|i: int|
                    0 <= i < r@.len() && #[trigger] r@[i].0@ == k,
            forall|i: int, j: int| 0 <= i < j < r@.len() ==> r@[i].0@ != r@[j].0@,
    {
        proof {
            use_type_invariant(self);
            assert forall|i: int| 0 <= i < self.entries@.len() implies #[trigger] self@.contains_key(
                self.entries@[i].0@,
            ) && self@[self.entries@[i].0@] == self.entries@[i].1 by {
                self.lemma_index(i);
            }
            assert forall|i: int, j: int| 0 <= i < j < self.entries@.len() implies self.entries@[i].0@
                != self.entries@[j].0@ by {
                assert(self.entries@[i].0@ != self.entries@[j].0@);
            }
            self.lemma_dom_len();
        }
        &self.entries
    }
}

} // verus!
