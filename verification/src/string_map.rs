//! A map from strings to strings, kept as a vector of distinct-keyed pairs.

use vstd::prelude::*;
use crate::text::str_equals;

verus! {

/// String-keyed map; each key occurs at most once among the entries.
pub struct StringMap {
    entries: Vec<(String, String)>,
}

impl StringMap {
    pub closed spec fn entry_key(self, i: int) -> Seq<char> {
        self.entries@[i].0@
    }

    /// No key occurs twice.
    pub closed spec fn wf(self) -> bool {
        forall|i: int, j: int|
            0 <= i < j < self.entries@.len() ==> self.entries@[i].0@ != self.entries@[j].0@
    }

    closed spec fn has_key(self, k: Seq<char>) -> bool {
        exists|i: int| 0 <= i < self.entries@.len() && #[trigger] self.entries@[i].0@ == k
    }

    closed spec fn index_of(self, k: Seq<char>) -> int {
        choose|i: int| 0 <= i < self.entries@.len() && #[trigger] self.entries@[i].0@ == k
    }

    pub closed spec fn len(self) -> nat {
        self.entries@.len()
    }

    proof fn lemma_index_of(self, i: int)
        requires
            self.wf(),
            0 <= i < self.entries@.len(),
        ensures
            self.has_key(self.entries@[i].0@),
            self.index_of(self.entries@[i].0@) == i,
    {
        let k = self.entries@[i].0@;
        assert(self.has_key(k));
        let j = self.index_of(k);
        if j != i {
            if j < i {
                assert(self.entries@[j].0@ != self.entries@[i].0@);
            } else {
                assert(self.entries@[i].0@ != self.entries@[j].0@);
            }
        }
    }

    pub fn new() -> (r: Self)
        ensures
            r.wf(),
            r@ == Map::<Seq<char>, Seq<char>>::empty(),
    {
        let r = StringMap { entries: Vec::new() };
        assert(r@ =~= Map::<Seq<char>, Seq<char>>::empty());
        r
    }

    fn find(&self, k: &str) -> (r: Option<usize>)
        requires
            self.wf(),
        ensures
            match r {
                Some(i) => i < self.entries@.len() && self.entries@[i as int].0@ == k@,
                None => !self.has_key(k@),
            },
    {
        let mut i: usize = 0;
        while i < self.entries.len()
            invariant
                i <= self.entries@.len(),
                forall|j: int| 0 <= j < i ==> #[trigger] self.entries@[j].0@ != k@,
            decreases self.entries.len() - i,
        {
            if str_equals(self.entries[i].0.as_str(), k) {
                return Some(i);
            }
            i = i + 1;
        }
        None
    }

    /// The value stored under `k`.
    pub fn get(&self, k: &str) -> (r: Option<String>)
        requires
            self.wf(),
        ensures
            match r {
                Some(v) => self@.contains_key(k@) && self@[k@] == v@,
                None => !self@.contains_key(k@),
            },
    {
        match self.find(k) {
            Some(i) => {
                proof {
                    self.lemma_index_of(i as int);
                }
                Some(self.entries[i].1.clone())
            },
            None => None,
        }
    }

    /// Stores `v` under `k`, replacing any earlier value.
    pub fn insert(&mut self, k: String, v: String)
        requires
            old(self).wf(),
        ensures
            final(self).wf(),
            final(self)@ == old(self)@.insert(k@, v@),
    {
        let ghost before = *self;
        match self.find(k.as_str()) {
            Some(i) => {
                let ghost kv = k@;
                let ghost vv = v@;
                self.entries.set(i, (k, v));
                proof {
                    assert forall|a: int, b: int|
                        0 <= a < b < self.entries@.len() implies self.entries@[a].0@
                        != self.entries@[b].0@ by {
                        if a != i && b != i {
                            assert(before.entries@[a] == self.entries@[a]);
                            assert(before.entries@[b] == self.entries@[b]);
                        }
                    }
                    assert forall|key: Seq<char>|
                        #[trigger] self@.contains_key(key) == before@.insert(kv, vv).contains_key(
                            key,
                        ) by {
                        if key == kv {
                            assert(self.entries@[i as int].0@ == key);
                        }
                        if before.has_key(key) {
                            let j = before.index_of(key);
                            if j != i {
                                assert(self.entries@[j].0@ == key);
                            }
                        }
                        if self.has_key(key) {
                            let j = self.index_of(key);
                            if j != i {
                                assert(before.entries@[j].0@ == key);
                            }
                        }
                    }
                    assert forall|key: Seq<char>| #[trigger]
                        self@.contains_key(key) implies self@[key] == before@.insert(kv, vv)[key] by {
                        let j = self.index_of(key);
                        self.lemma_index_of(j);
                        if j != i {
                            assert(before.entries@[j] == self.entries@[j]);
                            before.lemma_index_of(j);
                        }
                    }
                    assert(self@ =~= before@.insert(kv, vv));
                }
            },
            None => {
                let ghost kv = k@;
                let ghost vv = v@;
                self.entries.push((k, v));
                proof {
                    let n = before.entries@.len() as int;
                    assert forall|a: int, b: int|
                        0 <= a < b < self.entries@.len() implies self.entries@[a].0@
                        != self.entries@[b].0@ by {
                        if b == n {
                            assert(before.entries@[a].0@ != kv);
                        } else {
                            assert(before.entries@[a] == self.entries@[a]);
                            assert(before.entries@[b] == self.entries@[b]);
                        }
                    }
                    assert forall|key: Seq<char>|
                        #[trigger] self@.contains_key(key) == before@.insert(kv, vv).contains_key(
                            key,
                        ) by {
                        if before.has_key(key) {
                            let j = before.index_of(key);
                            assert(self.entries@[j].0@ == key);
                        }
                        if key == kv {
                            assert(self.entries@[n].0@ == key);
                        }
                        if self.has_key(key) {
                            let j = self.index_of(key);
                            if j != n {
                                assert(before.entries@[j].0@ == key);
                            }
                        }
                    }
                    assert forall|key: Seq<char>| #[trigger]
                        self@.contains_key(key) implies self@[key] == before@.insert(kv, vv)[key] by {
                        let j = self.index_of(key);
                        self.lemma_index_of(j);
                        if j != n {
                            assert(before.entries@[j] == self.entries@[j]);
                            before.lemma_index_of(j);
                        }
                    }
                    assert(self@ =~= before@.insert(kv, vv));
                }
            },
        }
    }

    /// Drops the value stored under `k`, if any.
    pub fn remove(&mut self, k: &str)
        requires
            old(self).wf(),
        ensures
            final(self).wf(),
            final(self)@ == old(self)@.remove(k@),
    {
        let ghost before = *self;
        match self.find(k) {
            Some(i) => {
                self.entries.remove(i);
                proof {
                    let shift = |j: int| if j < i { j } else { j + 1 };
                    assert forall|a: int| 0 <= a < self.entries@.len() implies #[trigger]
                        self.entries@[a] == before.entries@[shift(a)] by {}
                    assert forall|a: int, b: int|
                        0 <= a < b < self.entries@.len() implies self.entries@[a].0@
                        != self.entries@[b].0@ by {
                        assert(self.entries@[a] == before.entries@[shift(a)]);
                        assert(self.entries@[b] == before.entries@[shift(b)]);
                    }
                    assert forall|key: Seq<char>|
                        #[trigger] self@.contains_key(key) == before@.remove(k@).contains_key(
                            key,
                        ) by {
                        if before.has_key(key) && key != k@ {
                            let j = before.index_of(key);
                            before.lemma_index_of(i as int);
                            if j < i {
                                assert(self.entries@[j].0@ == key);
                            } else {
                                assert(j != i);
                                assert(self.entries@[j - 1].0@ == key);
                            }
                        }
                        if self.has_key(key) {
                            let j = self.index_of(key);
                            assert(before.entries@[shift(j)].0@ == key);
                            if key == k@ {
                                assert(shift(j) != i);
                                if shift(j) < i {
                                    assert(before.entries@[shift(j)].0@ != before.entries@[i as int].0@);
                                } else {
                                    assert(before.entries@[i as int].0@ != before.entries@[shift(j)].0@);
                                }
                            }
                        }
                    }
                    assert forall|key: Seq<char>| #[trigger]
                        self@.contains_key(key) implies self@[key] == before@.remove(k@)[key] by {
                        let j = self.index_of(key);
                        self.lemma_index_of(j);
                        before.lemma_index_of(shift(j));
                    }
                    assert(self@ =~= before@.remove(k@));
                }
            },
            None => {
                proof {
                    assert forall|key: Seq<char>| #[trigger] self@.contains_key(key) implies key != k@ by {}
                    assert(self@ =~= before@.remove(k@));
                }
            },
        }
    }

    /// The (key, value) pairs, in insertion order: each entry of the map
    /// once.
    pub fn pairs(&self) -> (r: Vec<(String, String)>)
        requires
            self.wf(),
        ensures
            r@.len() == self.len(),
            forall|i: int| 0 <= i < r@.len() ==> #[trigger] r@[i].0@ == self.entry_key(i),
            forall|i: int|
                0 <= i < r@.len() ==> self@.contains_key(#[trigger] r@[i].0@) && self@[r@[i].0@]
                    == r@[i].1@,
            forall|i: int, j: int| 0 <= i < j < r@.len() ==> #[trigger] r@[i].0@ != #[trigger] r@[j].0@,
            forall|k: Seq<char>|
                #[trigger] self@.contains_key(k) ==> exists|i: int| 0 <= i < r@.len() && r@[i].0@ == k,
    {
        let mut r: Vec<(String, String)> = Vec::new();
        let mut i: usize = 0;
        while i < self.entries.len()
            invariant
                self.wf(),
                i <= self.entries@.len(),
                r@.len() == i,
                forall|j: int| 0 <= j < i ==> #[trigger] r@[j] == self.entries@[j],
            decreases self.entries.len() - i,
        {
            let k = self.entries[i].0.clone();
            let v = self.entries[i].1.clone();
            r.push((k, v));
            i = i + 1;
        }
        proof {
            assert forall|i: int| 0 <= i < r@.len() implies self@.contains_key(#[trigger] r@[i].0@)
                && self@[r@[i].0@] == r@[i].1@ by {
                self.lemma_index_of(i);
            }
            assert forall|k: Seq<char>| #[trigger] self@.contains_key(k) implies exists|i: int|
                0 <= i < r@.len() && r@[i].0@ == k by {
                let i = self.index_of(k);
                assert(r@[i].0@ == k);
            }
        }
        r
    }
}

impl View for StringMap {
    type V = Map<Seq<char>, Seq<char>>;

    closed spec fn view(&self) -> Map<Seq<char>, Seq<char>> {
        Map::new(|k: Seq<char>| self.has_key(k), |k: Seq<char>| self.entries@[self.index_of(k)].1@)
    }
}

} // verus!
