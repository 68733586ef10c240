//! A map from names to values that remembers the order in which names were
//! first registered.
use vstd::prelude::*;
use crate::text::same_text;

verus! {

/// A map from names to values, in registration order.
pub struct NamedMap<V> {
    keys: Vec<String>,
    values: Vec<V>,
}

impl<V> View for NamedMap<V> {
    type V = Map<Seq<char>, V>;

    closed spec fn view(&self) -> Map<Seq<char>, V> {
        Map::new(
            |k: Seq<char>| self.names().contains(k),
            |k: Seq<char>| self.values@[self.names().index_of(k)],
        )
    }
}

impl<V> NamedMap<V> {
    /// The names, in registration order.
    pub closed spec fn names(&self) -> Seq<Seq<char>> {
        self.keys@.map_values(|k: String| k@)
    }

    /// The invariant: one value per name, and no name twice.
    pub closed spec fn wf(&self) -> bool {
        &&& self.keys@.len() == self.values@.len()
        &&& self.names().no_duplicates()
    }

    /// The names are distinct and are exactly the keys of the map.
    pub proof fn lemma_names(&self)
        requires
            self.wf(),
        ensures
            self.names().no_duplicates(),
            forall|k: Seq<char>| #[trigger] self@.contains_key(k) <==> self.names().contains(k),
    {
    }

    /// The value registered under the name at position `i`.
    proof fn lemma_value_at(&self, i: int)
        requires
            self.wf(),
            0 <= i < self.names().len(),
        ensures
            self@.contains_key(self.names()[i]),
            self@[self.names()[i]] == self.values@[i],
    {
        let k = self.names()[i];
        assert(self.names().contains(k));
        let j = self.names().index_of(k);
        assert(0 <= j < self.names().len() && self.names()[j] == k);
    }

    /// An empty map.
    pub fn new() -> (r: Self)
        ensures
            r.wf(),
            r@ == Map::<Seq<char>, V>::empty(),
            r.names() == Seq::<Seq<char>>::empty(),
    {
        let r = NamedMap { keys: Vec::new(), values: Vec::new() };
        assert(r.names() =~= Seq::<Seq<char>>::empty());
        assert(r@ =~= Map::<Seq<char>, V>::empty());
        r
    }

    /// The number of names.
    pub fn len(&self) -> (r: usize)
        requires
            self.wf(),
        ensures
            r == self.names().len(),
    {
        self.keys.len()
    }

    /// The name at position `i`.
    pub fn key_at(&self, i: usize) -> (r: &String)
        requires
            self.wf(),
            i < self.names().len(),
        ensures
            r@ == self.names()[i as int],
    {
        &self.keys[i]
    }

    /// The value registered under the name at position `i`.
    pub fn value_at(&self, i: usize) -> (r: &V)
        requires
            self.wf(),
            i < self.names().len(),
        ensures
            *r == self@[self.names()[i as int]],
    {
        proof {
            self.lemma_value_at(i as int);
        }
        &self.values[i]
    }

    /// Replaces the value registered under the name at position `i`.
    pub fn set_value_at(&mut self, i: usize, v: V)
        requires
            old(self).wf(),
            i < old(self).names().len(),
        ensures
            final(self).wf(),
            final(self).names() == old(self).names(),
            final(self)@ == old(self)@.insert(old(self).names()[i as int], v),
    {
        let ghost before = *self;
        self.values.set(i, v);
        proof {
            let k = before.names()[i as int];
            assert(self.names() == before.names());
            assert forall|key: Seq<char>| #[trigger]
                self@.contains_key(key) == before@.insert(k, v).contains_key(key) by {}
            assert forall|key: Seq<char>| self@.contains_key(key) implies #[trigger] self@[key]
                == before@.insert(k, v)[key] by {
                let j = self.names().index_of(key);
                self.lemma_value_at(j);
                if key != k {
                    before.lemma_value_at(j);
                }
                before.lemma_value_at(i as int);
            }
            assert(self@ =~= before@.insert(k, v));
        }
    }

    /// Exchanges the value registered under the name at position `i` with
    /// `v`.
    pub fn swap_value_at(&mut self, i: usize, v: &mut V)
        requires
            old(self).wf(),
            i < old(self).names().len(),
        ensures
            final(self).wf(),
            final(self).names() == old(self).names(),
            final(self)@ == old(self)@.insert(old(self).names()[i as int], *old(v)),
            *final(v) == old(self)@[old(self).names()[i as int]],
    {
        let ghost before = *self;
        let ghost given = *v;
        proof {
            before.lemma_value_at(i as int);
        }
        self.values.set_and_swap(i, v);
        proof {
            let k = before.names()[i as int];
            assert(self.names() == before.names());
            assert forall|key: Seq<char>| #[trigger]
                self@.contains_key(key) == before@.insert(k, given).contains_key(key) by {}
            assert forall|key: Seq<char>| self@.contains_key(key) implies #[trigger] self@[key]
                == before@.insert(k, given)[key] by {
                let j = self.names().index_of(key);
                self.lemma_value_at(j);
                if key != k {
                    before.lemma_value_at(j);
                }
            }
            assert(self@ =~= before@.insert(k, given));
        }
    }

    /// The position of `k`, if it is registered.
    pub fn find(&self, k: &str) -> (r: Option<usize>)
        requires
            self.wf(),
        ensures
            match r {
                Some(i) => i < self.names().len() && self.names()[i as int] == k@,
                None => !self@.contains_key(k@),
            },
    {
        let mut i: usize = 0;
        while i < self.keys.len()
            invariant
                self.wf(),
                i <= self.keys@.len(),
                forall|j: int| 0 <= j < i ==> self.names()[j] != k@,
            decreases self.keys@.len() - i,
        {
            if same_text(self.keys[i].as_str(), k) {
                return Some(i);
            }
            i += 1;
        }
        None
    }

    /// The value registered under `k`, if any.
    pub fn get(&self, k: &str) -> (r: Option<&V>)
        requires
            self.wf(),
        ensures
            r is Some <==> self@.contains_key(k@),
            r is Some ==> *r->0 == self@[k@],
    {
        match self.find(k) {
            Some(i) => {
                proof {
                    self.lemma_value_at(i as int);
                }
                Some(&self.values[i])
            },
            None => None,
        }
    }

    /// Whether `k` is registered.
    pub fn contains_key(&self, k: &str) -> (r: bool)
        requires
            self.wf(),
        ensures
            r == self@.contains_key(k@),
    {
        match self.find(k) {
            Some(i) => {
                proof {
                    self.lemma_value_at(i as int);
                }
                true
            },
            None => false,
        }
    }

    /// Registers `v` under `k`, replacing any value registered under it.
    pub fn insert(&mut self, k: String, v: V)
        requires
            old(self).wf(),
        ensures
            final(self).wf(),
            final(self)@ == old(self)@.insert(k@, v),
    {
        match self.find(k.as_str()) {
            Some(i) => {
                self.set_value_at(i, v);
            },
            None => {
                let ghost before = *self;
                let ghost key = k@;
                self.keys.push(k);
                self.values.push(v);
                proof {
                    assert(self.names() =~= before.names().push(key));
                    assert forall|a: int, b: int|
                        0 <= a < self.names().len() && 0 <= b < self.names().len() && a != b
                            implies self.names()[a] != self.names()[b] by {
                        if a < before.names().len() as int && b < before.names().len() as int {
                        } else if a == before.names().len() as int {
                            assert(before.names().contains(self.names()[b]) ==> before@.contains_key(self.names()[b]));
                        } else {
                            assert(before.names().contains(self.names()[a]) ==> before@.contains_key(self.names()[a]));
                        }
                    }
                    assert forall|key2: Seq<char>| #[trigger]
                        self@.contains_key(key2) == before@.insert(key, v).contains_key(key2) by {
                        assert(self.names()[self.names().len() - 1] == key);
                        if before.names().contains(key2) {
                            let j = before.names().index_of(key2);
                            assert(self.names()[j] == key2);
                        }
                        if self.names().contains(key2) && key2 != key {
                            let j = self.names().index_of(key2);
                            assert(before.names()[j] == key2);
                        }
                    }
                    assert forall|key2: Seq<char>| self@.contains_key(key2) implies #[trigger] self@[key2]
                        == before@.insert(key, v)[key2] by {
                        let j = self.names().index_of(key2);
                        self.lemma_value_at(j);
                        if key2 != key {
                            before.lemma_value_at(j);
                        }
                    }
                    assert(self@ =~= before@.insert(key, v));
                }
            },
        }
    }

    /// Removes `k` and returns the value registered under it, if any.
    pub fn remove(&mut self, k: &str) -> (r: Option<V>)
        requires
            old(self).wf(),
        ensures
            final(self).wf(),
            final(self)@ == old(self)@.remove(k@),
            r is Some <==> old(self)@.contains_key(k@),
            r is Some ==> r->0 == old(self)@[k@],
            r is Some ==> final(self).names().len() == old(self).names().len() - 1,
            r is None ==> final(self).names() == old(self).names(),
    {
        match self.find(k) {
            Some(i) => {
                let ghost before = *self;
                proof {
                    before.lemma_value_at(i as int);
                }
                self.keys.remove(i);
                let v = self.values.remove(i);
                proof {
                    let key = k@;
                    assert(self.names() =~= before.names().remove(i as int));
                    assert forall|a: int, b: int|
                        0 <= a < self.names().len() && 0 <= b < self.names().len() && a != b
                            implies self.names()[a] != self.names()[b] by {
                        let a2 = if a < i { a } else { a + 1 };
                        let b2 = if b < i { b } else { b + 1 };
                        assert(self.names()[a] == before.names()[a2]);
                        assert(self.names()[b] == before.names()[b2]);
                    }
                    assert forall|key2: Seq<char>| #[trigger]
                        self@.contains_key(key2) == before@.remove(key).contains_key(key2) by {
                        if before.names().contains(key2) && key2 != key {
                            let j = before.names().index_of(key2);
                            assert(j != i);
                            if j < i {
                                assert(self.names()[j] == key2);
                            } else {
                                assert(self.names()[j - 1] == key2);
                            }
                        }
                        if self.names().contains(key2) {
                            let j = self.names().index_of(key2);
                            let j2 = if j < i { j } else { j + 1 };
                            assert(before.names()[j2] == key2);
                            assert(j2 != i);
                        }
                    }
                    assert forall|key2: Seq<char>| self@.contains_key(key2) implies #[trigger] self@[key2]
                        == before@.remove(key)[key2] by {
                        let j = self.names().index_of(key2);
                        self.lemma_value_at(j);
                        let j2 = if j < i { j } else { j + 1 };
                        assert(before.names()[j2] == key2);
                        before.lemma_value_at(j2);
                    }
                    assert(self@ =~= before@.remove(key));
                }
                Some(v)
            },
            None => {
                proof {
                    assert(self@ =~= self@.remove(k@));
                }
                None
            },
        }
    }
}

} // verus!
