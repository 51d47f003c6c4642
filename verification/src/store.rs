//! The drop store: a keyed collection of drop records with a map model.
//!
//! Each handler checks a drop record out, mutates it, and writes it back:
//! the store is accessed through an exclusive, call-scoped
//! checkout-and-writeback discipline, and every contract is stated over the
//! store's map model [`DropStore::as_map`].

use vstd::prelude::*;

use crate::drops::Drop;
use crate::drops::DropView;

verus! {

/// Keyed collection mapping a drop identifier to its drop record. Keys are
/// unique; the association list is an implementation detail behind
/// [`DropStore::as_map`].
pub struct DropStore {
    pub entries: Vec<(u128, Drop)>,
}

impl DropStore {
    /// No two entries share a key.
    pub open spec fn keys_unique(self) -> bool {
        forall|p: int, q: int|
            0 <= p < self.entries@.len() && 0 <= q < self.entries@.len() && p != q
                ==> (#[trigger] self.entries@[p]).0 != (#[trigger] self.entries@[q]).0
    }

    /// Keys are unique and every stored drop is well formed.
    pub open spec fn wf(self) -> bool {
        &&& self.keys_unique()
        &&& forall|i: int|
            0 <= i < self.entries@.len() ==> (#[trigger] self.entries@[i]).1@.wf()
    }

    /// Whether some entry holds `id`.
    pub open spec fn spec_has(self, id: u128) -> bool {
        exists|i: int| 0 <= i < self.entries@.len() && (#[trigger] self.entries@[i]).0 == id
    }

    /// An index of an entry holding `id`, where one exists.
    pub open spec fn spec_at(self, id: u128) -> int {
        choose|i: int| 0 <= i < self.entries@.len() && (#[trigger] self.entries@[i]).0 == id
    }

    /// The store's map model: drop identifier to drop model.
    pub open spec fn as_map(self) -> Map<u128, DropView> {
        Map::new(
            |id: u128| self.spec_has(id),
            |id: u128| self.entries@[self.spec_at(id)].1@,
        )
    }

    /// An empty store.
    pub fn new() -> (r: DropStore)
        ensures
            r.wf(),
            r.as_map() == Map::<u128, DropView>::empty(),
    {
        let r = DropStore { entries: Vec::new() };
        proof {
            assert(r.as_map() =~= Map::<u128, DropView>::empty());
        }
        r
    }

    /// The position of the entry holding `id`, if any.
    fn find(&self, id: u128) -> (r: Option<usize>)
        ensures
            match r {
                Some(i) => i < self.entries@.len() && self.entries@[i as int].0 == id,
                None => !self.spec_has(id),
            },
    {
        let mut i: usize = 0;
        while i < self.entries.len()
            invariant
                i <= self.entries@.len(),
                forall|j: int| 0 <= j < i ==> (#[trigger] self.entries@[j]).0 != id,
            decreases self.entries@.len() - i,
        {
            if self.entries[i].0 == id {
                return Some(i);
            }
            i += 1;
        }
        None
    }

    /// With unique keys, any entry holding `id` stands at `spec_at(id)`.
    proof fn lemma_at_is(self, id: u128, i: int)
        requires
            self.keys_unique(),
            0 <= i < self.entries@.len(),
            self.entries@[i].0 == id,
        ensures
            self.spec_has(id),
            self.spec_at(id) == i,
    {
        assert(self.spec_has(id));
        let j = self.spec_at(id);
        assert(0 <= j < self.entries@.len() && self.entries@[j].0 == id);
    }

    /// Looks a drop up. Returns the record for `id`, or `None` when the store
    /// holds no drop under that identifier.
    pub fn get(&self, id: u128) -> (r: Option<&Drop>)
        requires
            self.keys_unique(),
        ensures
            match r {
                Some(d) => self.as_map().contains_key(id) && d@ == self.as_map()[id] && (self.wf()
                    ==> d@.wf()),
                None => !self.as_map().contains_key(id),
            },
    {
        let found = self.find(id);
        match found {
            Some(i) => {
                proof {
                    self.lemma_at_is(id, i as int);
                }
                Some(&self.entries[i].1)
            },
            None => None,
        }
    }

    /// Checks the drop for `id` out of the store: removes and returns it.
    /// Returns `None`, leaving the store unchanged, when no drop holds `id`.
    pub fn checkout(&mut self, id: u128) -> (r: Option<Drop>)
        requires
            old(self).keys_unique(),
        ensures
            final(self).keys_unique(),
            old(self).wf() ==> final(self).wf(),
            match r {
                Some(d) => old(self).as_map().contains_key(id) && d@ == old(self).as_map()[id]
                    && final(self).as_map() == old(self).as_map().remove(id) && (old(self).wf()
                    ==> d@.wf()),
                None => !old(self).as_map().contains_key(id) && *final(self) == *old(self),
            },
    {
        let found = self.find(id);
        match found {
            Some(i) => {
                proof {
                    self.lemma_at_is(id, i as int);
                }
                let ghost s0 = *self;
                let (_, d) = self.entries.remove(i);
                proof {
                    s0.entries@.remove_ensures(i as int);
                    let e0 = s0.entries@;
                    let e1 = self.entries@;
                    assert(e1 =~= e0.remove(i as int));
                    assert forall|p: int, q: int|
                        0 <= p < e1.len() && 0 <= q < e1.len() && p != q implies (
                    #[trigger] e1[p]).0 != (#[trigger] e1[q]).0 by {
                        let p0: int = if p < i as int { p } else { p + 1 };
                        let q0: int = if q < i as int { q } else { q + 1 };
                        assert(e1[p] == e0[p0] && e1[q] == e0[q0]);
                    }
                    assert forall|j: int| 0 <= j < e1.len() implies #[trigger] e1[j]
                        == e0[if j < i as int { j } else { j + 1 }] by {}
                    assert(final(self).as_map() =~= s0.as_map().remove(id)) by {
                        assert forall|k: u128| #[trigger] final(self).spec_has(k) implies k != id
                            && s0.spec_has(k) by {
                            let j = final(self).spec_at(k);
                            assert(0 <= j < e1.len() && e1[j].0 == k);
                            let j0: int = if j < i as int { j } else { j + 1 };
                            assert(e0[j0].0 == k);
                            assert(j0 != i as int ==> e0[j0].0 != e0[i as int].0);
                        }
                        assert forall|k: u128| k != id && #[trigger] s0.spec_has(k) implies
                            final(self).spec_has(k) && final(self).as_map()[k]
                            == s0.as_map()[k] by {
                            let j0 = s0.spec_at(k);
                            assert(0 <= j0 < e0.len() && e0[j0].0 == k);
                            assert(j0 != i as int);
                            let j: int = if j0 < i as int { j0 } else { j0 - 1 };
                            assert(e1[j] == e0[j0]);
                            final(self).lemma_at_is(k, j);
                            s0.lemma_at_is(k, j0);
                        }
                    }
                    if s0.wf() {
                        assert forall|j: int| 0 <= j < e1.len() implies (
                        #[trigger] e1[j]).1@.wf() by {
                            let j0: int = if j < i as int { j } else { j + 1 };
                            assert(e1[j] == e0[j0]);
                        }
                    }
                }
                Some(d)
            },
            None => None,
        }
    }

    /// Inserts `d` under `id`, replacing any drop already stored there.
    pub fn insert(&mut self, id: u128, d: Drop)
        requires
            old(self).keys_unique(),
        ensures
            final(self).keys_unique(),
            old(self).wf() && d@.wf() ==> final(self).wf(),
            final(self).as_map() == old(self).as_map().insert(id, d@),
    {
        let ghost s0 = *self;
        let prior = self.checkout(id);
        let ghost s1 = *self;
        let ghost dv = d@;
        self.entries.push((id, d));
        proof {
            let e1 = s1.entries@;
            let e2 = self.entries@;
            let last = e1.len() as int;
            assert(e2[last].0 == id && e2[last].1@ == dv);
            assert(forall|j: int| 0 <= j < last ==> e2[j] == e1[j]);
            assert(!s1.as_map().contains_key(id));
            assert(!s1.spec_has(id));
            assert forall|p: int, q: int|
                0 <= p < e2.len() && 0 <= q < e2.len() && p != q implies (#[trigger] e2[p]).0 != (
            #[trigger] e2[q]).0 by {
                if p < last && q < last {
                    assert(e1[p].0 != e1[q].0);
                } else if p == last {
                    assert(s1.spec_has(id) || e1[q].0 != id);
                } else {
                    assert(s1.spec_has(id) || e1[p].0 != id);
                }
            }
            assert(final(self).as_map() =~= s1.as_map().insert(id, dv)) by {
                final(self).lemma_at_is(id, last);
                assert forall|k: u128| k != id && #[trigger] final(self).spec_has(k) implies
                    s1.spec_has(k) && final(self).as_map()[k] == s1.as_map()[k] by {
                    let j = final(self).spec_at(k);
                    assert(0 <= j < e2.len() && e2[j].0 == k);
                    assert(j != last);
                    s1.lemma_at_is(k, j);
                    final(self).lemma_at_is(k, j);
                }
                assert forall|k: u128| k != id && #[trigger] s1.spec_has(k) implies final(self).spec_has(k) by {
                    let j = s1.spec_at(k);
                    assert(e2[j] == e1[j]);
                }
            }
            if prior is Some {
                assert(s1.as_map() == s0.as_map().remove(id));
                assert(s1.as_map().insert(id, dv) =~= s0.as_map().insert(id, dv));
            }
            if s0.wf() && dv.wf() {
                assert forall|j: int| 0 <= j < e2.len() implies (#[trigger] e2[j]).1@.wf() by {
                    if j < last {
                        assert(e2[j] == e1[j]);
                        assert(s1.wf());
                    }
                }
            }
        }
    }
}

} // verus!
