//! Keyed storage of one kind of record, as the contract's instance storage
//! holds it: at most one record under each key.

use vstd::prelude::*;

use super::types::{DataKey, DataKeyView};

verus! {

/// Records of one kind, each under its own [`DataKey`].
pub struct KeyedStore<V> {
    entries: Vec<(DataKey, V)>,
}

impl<V: View> KeyedStore<V> {
    /// No key is held twice.
    pub closed spec fn wf(&self) -> bool {
        forall|i: int, j: int|
            0 <= i < j < self.entries@.len() ==> #[trigger] self.entries@[i].0@
                != #[trigger] self.entries@[j].0@
    }

    /// Whether a record is held under `k`.
    pub closed spec fn holds(&self, k: DataKeyView) -> bool {
        exists|i: int| 0 <= i < self.entries@.len() && #[trigger] self.entries@[i].0@ == k
    }

    /// The position of the record held under `k`.
    pub closed spec fn position(&self, k: DataKeyView) -> int {
        choose|i: int| 0 <= i < self.entries@.len() && #[trigger] self.entries@[i].0@ == k
    }

    /// The records held, by key.
    pub closed spec fn contents(&self) -> Map<DataKeyView, V::V> {
        Map::new(|k: DataKeyView| self.holds(k), |k: DataKeyView| self.entries@[self.position(k)].1@)
    }

    proof fn lemma_position(&self, i: int)
        requires
            self.wf(),
            0 <= i < self.entries@.len(),
        ensures
            self.holds(self.entries@[i].0@),
            self.position(self.entries@[i].0@) == i,
    {
        let k = self.entries@[i].0@;
        assert(self.holds(k));
        let j = self.position(k);
        if j != i {
            if j < i {
                assert(self.entries@[j].0@ != self.entries@[i].0@);
            } else {
                assert(self.entries@[i].0@ != self.entries@[j].0@);
            }
        }
    }

    /// An empty store.
    pub fn new() -> (s: Self)
        ensures
            s.wf(),
            s.contents() == Map::<DataKeyView, V::V>::empty(),
    {
        let s = KeyedStore { entries: Vec::new() };
        assert(s.contents() =~= Map::<DataKeyView, V::V>::empty());
        s
    }

    /// Where the record under `k` stands, if one is held.
    fn find(&self, k: &DataKey) -> (r: Option<usize>)
        requires
            self.wf(),
        ensures
            r is None <==> !self.holds(k@),
            r matches Some(i) ==> i < self.entries@.len() && self.entries@[i as int].0@ == k@
                && self.position(k@) == i,
    {
        let n = self.entries.len();
        let mut i: usize = 0;
        while i < n
            invariant
                self.wf(),
                n == self.entries@.len(),
                i <= n,
                forall|j: int| 0 <= j < i ==> #[trigger] self.entries@[j].0@ != k@,
            decreases n - i,
        {
            if self.entries[i].0.same(k) {
                proof {
                    self.lemma_position(i as int);
                }
                return Some(i);
            }
            i = i + 1;
        }
        None
    }

    /// The record held under `k`, if any.
    pub fn get(&self, k: &DataKey) -> (r: Option<&V>)
        requires
            self.wf(),
        ensures
            r is Some <==> self.contents().contains_key(k@),
            r matches Some(v) ==> v@ == self.contents()[k@],
    {
        match self.find(k) {
            Some(i) => Some(&self.entries[i].1),
            None => None,
        }
    }

    /// Hold `v` under `k`, in place of any record held there before.
    pub fn set(&mut self, k: DataKey, v: V)
        requires
            old(self).wf(),
        ensures
            final(self).wf(),
            final(self).contents() == old(self).contents().insert(k@, v@),
    {
        let ghost kv = k@;
        let ghost vv = v@;
        let ghost before = self.contents();
        let ghost old_entries = self.entries@;
        match self.find(&k) {
            Some(i) => {
                self.entries.set(i, (k, v));
                assert(self.wf()) by {
                    assert forall|a: int, b: int|
                        0 <= a < b < self.entries@.len() implies #[trigger] self.entries@[a].0@
                        != #[trigger] self.entries@[b].0@ by {
                        assert(old_entries[a].0@ != old_entries[b].0@);
                    }
                }
                assert forall|key: DataKeyView|
                    #[trigger] self.holds(key) == before.insert(kv, vv).contains_key(key) by {
                    if self.holds(key) {
                        let j = self.position(key);
                        if j != i {
                            assert(old_entries[j].0@ == key);
                        }
                    }
                    if before.contains_key(key) && key != kv {
                        let j = choose|j: int|
                            0 <= j < old_entries.len() && #[trigger] old_entries[j].0@ == key;
                        assert(self.entries@[j].0@ == key);
                    }
                    if key == kv {
                        assert(self.entries@[i as int].0@ == key);
                    }
                }
                assert forall|key: DataKeyView| #[trigger]
                    self.holds(key) implies self.entries@[self.position(key)].1@ == before.insert(
                        kv,
                        vv,
                    )[key] by {
                    let j = self.position(key);
                    self.lemma_position(j);
                    if j != i {
                        assert(old_entries[j].0@ == key);
                        assert(old_entries[j] == self.entries@[j]);
                        let p = choose|p: int|
                            0 <= p < old_entries.len() && #[trigger] old_entries[p].0@ == key;
                        assert(p == j) by {
                            if p < j {
                                assert(old_entries[p].0@ != old_entries[j].0@);
                            } else if p > j {
                                assert(old_entries[j].0@ != old_entries[p].0@);
                            }
                        }
                    }
                }
                assert(self.contents() =~= before.insert(kv, vv));
            },
            None => {
                self.entries.push((k, v));
                let ghost n: int = old_entries.len() as int;
                assert(self.wf()) by {
                    assert forall|a: int, b: int|
                        0 <= a < b < self.entries@.len() implies #[trigger] self.entries@[a].0@
                        != #[trigger] self.entries@[b].0@ by {
                        if b == n {
                            assert(old_entries[a].0@ != kv);
                        } else {
                            assert(old_entries[a].0@ != old_entries[b].0@);
                        }
                    }
                }
                assert forall|key: DataKeyView|
                    #[trigger] self.holds(key) == before.insert(kv, vv).contains_key(key) by {
                    if self.holds(key) {
                        let j = self.position(key);
                        if j != n {
                            assert(old_entries[j].0@ == key);
                        }
                    }
                    if before.contains_key(key) && key != kv {
                        let j = choose|j: int|
                            0 <= j < old_entries.len() && #[trigger] old_entries[j].0@ == key;
                        assert(self.entries@[j].0@ == key);
                    }
                    if key == kv {
                        assert(self.entries@[n].0@ == key);
                    }
                }
                assert forall|key: DataKeyView| #[trigger]
                    self.holds(key) implies self.entries@[self.position(key)].1@ == before.insert(
                        kv,
                        vv,
                    )[key] by {
                    let j = self.position(key);
                    self.lemma_position(j);
                    if j != n {
                        assert(old_entries[j].0@ == key);
                        let p = choose|p: int|
                            0 <= p < old_entries.len() && #[trigger] old_entries[p].0@ == key;
                        assert(p == j) by {
                            if p < j {
                                assert(old_entries[p].0@ != old_entries[j].0@);
                            } else if p > j {
                                assert(old_entries[j].0@ != old_entries[p].0@);
                            }
                        }
                    }
                }
                assert(self.contents() =~= before.insert(kv, vv));
            },
        }
    }
}

} // verus!
