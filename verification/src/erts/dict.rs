//! The process dictionary: values stored under atom keys.
use vstd::prelude::*;

use crate::types::atom::Atom;

verus! {

/// Key-value store of a process, keyed by atom.
///
/// Each key occurs once. Listings (`pairs`, `keys`, `values`) promise no
/// order beyond listing every entry once.
pub struct ProcessDict<T> {
    keys: Vec<Atom>,
    values: Vec<T>,
}

impl<T> ProcessDict<T> {
    /// The invariant: one value per key, no key twice.
    pub closed spec fn wf(&self) -> bool {
        &&& self.keys@.len() == self.values@.len()
        &&& forall|i: int, j: int|
            0 <= i < self.keys@.len() && 0 <= j < self.keys@.len() && i != j ==> #[trigger] self.keys@[i]@
                != #[trigger] self.keys@[j]@
    }

    spec fn has_at(&self, k: u32, i: int) -> bool {
        0 <= i < self.keys@.len() && self.keys@[i]@ == k
    }

    /// The entries, by atom slot.
    pub closed spec fn map(&self) -> Map<u32, T> {
        Map::new(
            |k: u32| exists|i: int| self.has_at(k, i),
            |k: u32| self.values@[choose|i: int| self.has_at(k, i)],
        )
    }

    proof fn lemma_at(&self, i: int)
        requires
            self.wf(),
            0 <= i < self.keys@.len(),
        ensures
            self.map().dom().contains(self.keys@[i]@),
            self.map()[self.keys@[i]@] == self.values@[i],
    {
        let k = self.keys@[i]@;
        assert(self.has_at(k, i));
        let j = choose|j: int| self.has_at(k, j);
        assert(self.has_at(k, j));
        assert(i == j);
    }

    /// Returns `true` if `r` lists the pairs of the dictionary: each entry
    /// once, its value cloned.
    pub open spec fn lists_pairs(&self, r: Seq<(Atom, T)>) -> bool
        where
            T: Clone,
    {
        &&& r.len() == self.map().dom().len()
        &&& forall|i: int| 0 <= i < r.len() ==> #[trigger] self.map().dom().contains(r[i].0@) && cloned(
            self.map()[r[i].0@],
            r[i].1,
        )
        &&& forall|i: int, j: int| 0 <= i < r.len() && 0 <= j < r.len() && i != j ==> #[trigger] r[i].0@ != #[trigger] r[j].0@
        &&& r.map_values(|p: (Atom, T)| p.0@).to_set() == self.map().dom()
    }

    /// Returns `true` if `r` holds the pairs of the dictionary: each entry
    /// once, with its value.
    pub open spec fn holds_pairs(&self, r: Seq<(Atom, T)>) -> bool {
        &&& r.len() == self.map().dom().len()
        &&& forall|i: int| 0 <= i < r.len() ==> #[trigger] self.map().dom().contains(r[i].0@) && self.map()[r[i].0@] == r[i].1
        &&& forall|i: int, j: int| 0 <= i < r.len() && 0 <= j < r.len() && i != j ==> #[trigger] r[i].0@ != #[trigger] r[j].0@
        &&& r.map_values(|p: (Atom, T)| p.0@).to_set() == self.map().dom()
    }

    /// Returns `true` if `r` lists the values of the dictionary: one clone
    /// per entry.
    pub open spec fn lists_values(&self, r: Seq<T>) -> bool
        where
            T: Clone,
    {
        &&& r.len() == self.map().dom().len()
        &&& exists|ks: Seq<u32>|
            #![trigger ks.len()]
            ks.len() == r.len() && ks.no_duplicates() && ks.to_set() == self.map().dom() && forall|i: int|
                0 <= i < r.len() ==> #[trigger] self.map().dom().contains(ks[i]) && cloned(self.map()[ks[i]], r[i])
    }

    /// Creates an empty dictionary.
    pub fn new() -> (r: ProcessDict<T>)
        ensures
            r.wf(),
            r.map() == Map::<u32, T>::empty(),
    {
        let r = ProcessDict { keys: Vec::new(), values: Vec::new() };
        assert(r.map() =~= Map::<u32, T>::empty());
        r
    }

    /// Returns the position of `key`, if it is stored.
    fn find(&self, key: Atom) -> (r: Option<usize>)
        requires
            self.wf(),
        ensures
            r is Some ==> r->0 < self.keys@.len() && self.keys@[r->0 as int]@ == key@,
            r is None ==> !self.map().dom().contains(key@),
    {
        let mut i: usize = 0;
        while i < self.keys.len()
            invariant
                self.wf(),
                i <= self.keys@.len(),
                forall|j: int| 0 <= j < i ==> self.keys@[j]@ != key@,
            decreases self.keys@.len() - i,
        {
            if self.keys[i].into_slot() == key.into_slot() {
                return Some(i);
            }
            i = i + 1;
        }
        None
    }

    /// Returns a clone of the value stored under `key`, if any.
    pub fn get(&self, key: Atom) -> (r: Option<T>)
        where
            T: Clone,
        requires
            self.wf(),
        ensures
            r is Some <==> self.map().dom().contains(key@),
            r is Some ==> cloned(self.map()[key@], r->0),
    {
        match self.find(key) {
            Some(i) => {
                proof {
                    self.lemma_at(i as int);
                }
                Some(self.values[i].clone())
            },
            None => None,
        }
    }

    /// Stores `value` under `key`, returning the value stored there before.
    pub fn insert(&mut self, key: Atom, value: T) -> (r: Option<T>)
        requires
            old(self).wf(),
        ensures
            final(self).wf(),
            final(self).map() == old(self).map().insert(key@, value),
            r is Some <==> old(self).map().dom().contains(key@),
            r is Some ==> r->0 == old(self).map()[key@],
    {
        let ghost before = *self;
        match self.find(key) {
            Some(i) => {
                proof {
                    before.lemma_at(i as int);
                }
                let mut slot: T = value;
                self.values.set_and_swap(i, &mut slot);
                proof {
                    assert forall|k: u32| #[trigger] self.map().dom().contains(k) == before.map().insert(
                        key@,
                        value,
                    ).dom().contains(k) by {
                        if before.map().dom().contains(k) {
                            let j = choose|j: int| before.has_at(k, j);
                            assert(self.has_at(k, j));
                        }
                        if self.map().dom().contains(k) {
                            let j = choose|j: int| self.has_at(k, j);
                            assert(before.has_at(k, j));
                        }
                    }
                    assert forall|k: u32| #[trigger] self.map().dom().contains(k) implies self.map()[k]
                        == before.map().insert(key@, value)[k] by {
                        let j = choose|j: int| self.has_at(k, j);
                        assert(self.has_at(k, j));
                        self.lemma_at(j);
                        assert(before.has_at(k, j));
                        before.lemma_at(j);
                    }
                    assert(self.map() =~= before.map().insert(key@, value));
                }
                Some(slot)
            },
            None => {
                proof {
                    assert forall|i: int| 0 <= i < before.keys@.len() implies before.keys@[i]@ != key@ by {
                        if before.keys@[i]@ == key@ {
                            assert(before.has_at(key@, i));
                        }
                    }
                }
                self.keys.push(key);
                self.values.push(value);
                proof {
                    let n = before.keys@.len() as int;
                    assert(self.wf());
                    assert forall|k: u32| #[trigger] self.map().dom().contains(k) == before.map().insert(
                        key@,
                        value,
                    ).dom().contains(k) by {
                        if before.map().dom().contains(k) {
                            let j = choose|j: int| before.has_at(k, j);
                            assert(self.has_at(k, j));
                        }
                        if k == key@ {
                            assert(self.has_at(k, n));
                        }
                        if self.map().dom().contains(k) {
                            let j = choose|j: int| self.has_at(k, j);
                            if j < n {
                                assert(before.has_at(k, j));
                            }
                        }
                    }
                    assert forall|k: u32| #[trigger] self.map().dom().contains(k) implies self.map()[k]
                        == before.map().insert(key@, value)[k] by {
                        let j = choose|j: int| self.has_at(k, j);
                        assert(self.has_at(k, j));
                        self.lemma_at(j);
                        if j < n {
                            assert(before.has_at(k, j));
                            before.lemma_at(j);
                        }
                    }
                    assert(self.map() =~= before.map().insert(key@, value));
                }
                None
            },
        }
    }

    /// Removes `key`, returning the value that was stored under it.
    pub fn remove(&mut self, key: Atom) -> (r: Option<T>)
        requires
            old(self).wf(),
        ensures
            final(self).wf(),
            final(self).map() == old(self).map().remove(key@),
            r is Some <==> old(self).map().dom().contains(key@),
            r is Some ==> r->0 == old(self).map()[key@],
    {
        let ghost before = *self;
        match self.find(key) {
            Some(i) => {
                proof {
                    before.lemma_at(i as int);
                }
                self.keys.remove(i);
                let value: T = self.values.remove(i);
                proof {
                    let ii = i as int;
                    assert forall|j: int| 0 <= j < self.keys@.len() implies #[trigger] self.keys@[j] == before.keys@[if j
                        < ii {
                        j
                    } else {
                        j + 1
                    }] && self.values@[j] == before.values@[if j < ii {
                        j
                    } else {
                        j + 1
                    }] by {}
                    assert forall|k: u32| #[trigger] self.map().dom().contains(k) == before.map().remove(
                        key@,
                    ).dom().contains(k) by {
                        if before.map().dom().contains(k) && k != key@ {
                            let j = choose|j: int| before.has_at(k, j);
                            if j < ii {
                                assert(self.has_at(k, j));
                            } else {
                                assert(j != ii);
                                assert(self.has_at(k, j - 1));
                            }
                        }
                        if self.map().dom().contains(k) {
                            let j = choose|j: int| self.has_at(k, j);
                            if j < ii {
                                assert(before.has_at(k, j));
                            } else {
                                assert(before.has_at(k, j + 1));
                            }
                        }
                    }
                    assert forall|k: u32| #[trigger] self.map().dom().contains(k) implies self.map()[k]
                        == before.map().remove(key@)[k] by {
                        let j = choose|j: int| self.has_at(k, j);
                        assert(self.has_at(k, j));
                        self.lemma_at(j);
                        let jj = if j < ii {
                            j
                        } else {
                            j + 1
                        };
                        assert(before.has_at(k, jj));
                        before.lemma_at(jj);
                    }
                    assert(self.map() =~= before.map().remove(key@));
                }
                Some(value)
            },
            None => {
                proof {
                    assert(self.map() =~= before.map().remove(key@));
                }
                None
            },
        }
    }

    /// Removes every entry, returning the pairs that were stored.
    pub fn clear(&mut self) -> (r: Vec<(Atom, T)>)
        requires
            old(self).wf(),
        ensures
            final(self).wf(),
            final(self).map() == Map::<u32, T>::empty(),
            old(self).holds_pairs(r@),
    {
        let ghost before = *self;
        proof {
            before.lemma_len();
        }
        let mut r: Vec<(Atom, T)> = Vec::new();
        let mut keys: Vec<Atom> = Vec::new();
        let mut values: Vec<T> = Vec::new();
        std::mem::swap(&mut keys, &mut self.keys);
        std::mem::swap(&mut values, &mut self.values);
        let mut i: usize = 0;
        let n: usize = keys.len();
        while values.len() > 0
            invariant
                before.wf(),
                keys@ == before.keys@,
                n == keys@.len(),
                values@.len() + i == n,
                forall|j: int| 0 <= j < values@.len() ==> values@[j] == before.values@[i + j],
                r@.len() == i,
                forall|j: int| 0 <= j < i ==> #[trigger] r@[j] == (before.keys@[j], before.values@[j]),
            decreases values@.len(),
        {
            let value: T = values.remove(0);
            let key: Atom = keys[i];
            r.push((key, value));
            i = i + 1;
        }
        proof {
            assert forall|j: int| 0 <= j < r@.len() implies #[trigger] before.map().dom().contains(r@[j].0@)
                && before.map()[r@[j].0@] == r@[j].1 by {
                before.lemma_at(j);
            }
            let ks = r@.map_values(|p: (Atom, T)| p.0@);
            assert forall|k: u32| #[trigger] before.map().dom().contains(k) == ks.to_set().contains(k) by {
                if before.map().dom().contains(k) {
                    let j = choose|j: int| before.has_at(k, j);
                    assert(ks[j] == k);
                }
                if ks.to_set().contains(k) {
                    let j = choose|j: int| 0 <= j < ks.len() && ks[j] == k;
                    before.lemma_at(j);
                }
            }
            assert(ks.to_set() =~= before.map().dom());
            assert(self.map() =~= Map::<u32, T>::empty());
        }
        r
    }

    proof fn lemma_len(&self)
        requires
            self.wf(),
        ensures
            self.map().dom().len() == self.keys@.len(),
            self.map().dom() == self.keys@.map_values(|a: Atom| a@).to_set(),
    {
        let ks = self.keys@.map_values(|a: Atom| a@);
        assert forall|k: u32| #[trigger] self.map().dom().contains(k) == ks.to_set().contains(k) by {
            if self.map().dom().contains(k) {
                let j = choose|j: int| self.has_at(k, j);
                assert(ks[j] == k);
            }
            if ks.to_set().contains(k) {
                let j = choose|j: int| 0 <= j < ks.len() && ks[j] == k;
                assert(self.has_at(k, j));
            }
        }
        assert(self.map().dom() =~= ks.to_set());
        assert(ks.no_duplicates());
        ks.unique_seq_to_set();
    }

    /// Returns clones of the stored pairs, each entry once.
    pub fn pairs(&self) -> (r: Vec<(Atom, T)>)
        where
            T: Clone,
        requires
            self.wf(),
        ensures
            self.lists_pairs(r@),
    {
        proof {
            self.lemma_len();
        }
        let mut r: Vec<(Atom, T)> = Vec::new();
        let mut i: usize = 0;
        while i < self.keys.len()
            invariant
                self.wf(),
                i <= self.keys@.len(),
                r@.len() == i,
                forall|j: int| 0 <= j < i ==> #[trigger] r@[j].0 == self.keys@[j] && cloned(self.values@[j], r@[j].1),
            decreases self.keys@.len() - i,
        {
            let value: T = self.values[i].clone();
            r.push((self.keys[i], value));
            i = i + 1;
        }
        proof {
            assert forall|j: int| 0 <= j < r@.len() implies #[trigger] self.map().dom().contains(r@[j].0@) && cloned(
                self.map()[r@[j].0@],
                r@[j].1,
            ) by {
                self.lemma_at(j);
            }
            let ks = r@.map_values(|p: (Atom, T)| p.0@);
            assert forall|k: u32| #[trigger] self.map().dom().contains(k) == ks.to_set().contains(k) by {
                if self.map().dom().contains(k) {
                    let j = choose|j: int| self.has_at(k, j);
                    assert(ks[j] == k);
                }
                if ks.to_set().contains(k) {
                    let j = choose|j: int| 0 <= j < ks.len() && ks[j] == k;
                    self.lemma_at(j);
                }
            }
            assert(ks.to_set() =~= self.map().dom());
        }
        r
    }

    /// Returns the stored keys, each once.
    pub fn keys(&self) -> (r: Vec<Atom>)
        requires
            self.wf(),
        ensures
            r@.len() == self.map().dom().len(),
            forall|i: int| 0 <= i < r@.len() ==> #[trigger] self.map().dom().contains(r@[i]@),
            forall|i: int, j: int| 0 <= i < r@.len() && 0 <= j < r@.len() && i != j ==> #[trigger] r@[i]@ != #[trigger] r@[j]@,
            r@.map_values(|a: Atom| a@).to_set() == self.map().dom(),
    {
        proof {
            self.lemma_len();
        }
        let mut r: Vec<Atom> = Vec::new();
        let mut i: usize = 0;
        while i < self.keys.len()
            invariant
                self.wf(),
                i <= self.keys@.len(),
                r@ == self.keys@.subrange(0, i as int),
            decreases self.keys@.len() - i,
        {
            r.push(self.keys[i]);
            i = i + 1;
        }
        proof {
            assert(r@ == self.keys@);
            assert forall|j: int| 0 <= j < r@.len() implies #[trigger] self.map().dom().contains(r@[j]@) by {
                self.lemma_at(j);
            }
            assert(r@.map_values(|a: Atom| a@) =~= self.keys@.map_values(|a: Atom| a@));
        }
        r
    }

    /// Returns clones of the stored values, one per entry.
    pub fn values(&self) -> (r: Vec<T>)
        where
            T: Clone,
        requires
            self.wf(),
        ensures
            self.lists_values(r@),
    {
        proof {
            self.lemma_len();
        }
        let mut r: Vec<T> = Vec::new();
        let mut i: usize = 0;
        while i < self.keys.len()
            invariant
                self.wf(),
                i <= self.keys@.len(),
                r@.len() == i,
                forall|j: int| 0 <= j < i ==> #[trigger] cloned(self.values@[j], r@[j]),
            decreases self.keys@.len() - i,
        {
            let value: T = self.values[i].clone();
            r.push(value);
            i = i + 1;
        }
        proof {
            let ks = self.keys@.map_values(|a: Atom| a@);
            assert forall|j: int| 0 <= j < r@.len() implies #[trigger] self.map().dom().contains(ks[j]) && cloned(
                self.map()[ks[j]],
                r@[j],
            ) by {
                self.lemma_at(j);
            }
            assert(ks.len() == r@.len());
        }
        r
    }
}


/// What a dictionary gives back: a lookup of a key just stored gives the
/// value stored; deleting a key that was absent before it was stored gives
/// back the dictionary as it was; a deleted key is gone.
pub proof fn law_put_get_delete<T>(map: Map<u32, T>, key: u32, value: T)
    ensures
        map.insert(key, value).dom().contains(key),
        map.insert(key, value)[key] == value,
        !map.dom().contains(key) ==> map.insert(key, value).remove(key) == map,
        !map.insert(key, value).remove(key).dom().contains(key),
{
    assert(!map.dom().contains(key) ==> map.insert(key, value).remove(key) =~= map);
}

} // verus!
