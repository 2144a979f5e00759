//! The position store: tracked positions by key, with the order in which
//! their keys were first seen.
use std::collections::HashMap;
use vstd::prelude::*;

verus! {

broadcast use vstd::std_specs::hash::group_hash_axioms;

/// Tracked positions by key. Closed positions never stay in it.
pub struct PositionStore<P> {
    positions: HashMap<u64, P>,
    order: Vec<u64>,
}

impl<P> View for PositionStore<P> {
    type V = Map<u64, P>;

    closed spec fn view(&self) -> Map<u64, P> {
        self.positions@
    }
}

impl<P> PositionStore<P> {
    /// The key list names each tracked key exactly once.
    pub closed spec fn wf(&self) -> bool {
        &&& self.order@.to_set() == self.positions@.dom()
        &&& self.order@.no_duplicates()
    }

    /// An empty store.
    pub fn new() -> (r: PositionStore<P>)
        ensures
            r.wf(),
            r@ == Map::<u64, P>::empty(),
    {
        let r = PositionStore { positions: HashMap::new(), order: Vec::new() };
        assert(r.order@.to_set() =~= r.positions@.dom());
        r
    }

    /// The number of tracked positions.
    pub fn len(&self) -> (r: usize)
        requires
            self.wf(),
        ensures
            r == self@.dom().len(),
    {
        proof {
            self.order@.unique_seq_to_set();
        }
        self.order.len()
    }

    /// Whether no position is tracked.
    pub fn is_empty(&self) -> (r: bool)
        requires
            self.wf(),
        ensures
            r == (self@.dom().len() == 0),
    {
        self.len() == 0
    }

    /// Whether `key` is tracked.
    pub fn contains(&self, key: u64) -> (r: bool)
        requires
            self.wf(),
        ensures
            r == self@.contains_key(key),
    {
        self.positions.contains_key(&key)
    }

    /// The position under `key`, if tracked.
    pub fn get(&self, key: u64) -> (r: Option<&P>)
        requires
            self.wf(),
        ensures
            r == (if self@.contains_key(key) { Some(&self@[key]) } else { None::<&P> }),
    {
        self.positions.get(&key)
    }

    /// A snapshot of the tracked keys, each once.
    pub fn keys(&self) -> (r: Vec<u64>)
        requires
            self.wf(),
        ensures
            r@.to_set() == self@.dom(),
            r@.no_duplicates(),
    {
        self.order.clone()
    }

    /// Tracks `position` under `key`, replacing what was there.
    pub fn insert(&mut self, key: u64, position: P)
        requires
            old(self).wf(),
        ensures
            final(self).wf(),
            final(self)@ == old(self)@.insert(key, position),
    {
        let ghost before = self.order@;
        let present = self.positions.contains_key(&key);
        if !present {
            self.order.push(key);
        }
        self.positions.insert(key, position);
        proof {
            assert(before.to_set().contains(key) == present);
            assert forall|x: u64| self.order@.contains(x) <==> (before.contains(x) || x == key) by {
                if !present {
                    assert(self.order@ == before.push(key));
                    if x == key {
                        assert(self.order@[before.len() as int] == key);
                    }
                    if self.order@.contains(x) {
                        let j = choose|j: int| 0 <= j < self.order@.len() && self.order@[j] == x;
                        if j < before.len() {
                            assert(before[j] == x);
                        }
                    }
                    if before.contains(x) {
                        let j = choose|j: int| 0 <= j < before.len() && before[j] == x;
                        assert(self.order@[j] == x);
                    }
                }
            }
            assert(self.order@.to_set() =~= self.positions@.dom());
        }
    }

    /// Stops tracking `key`, handing back its position.
    pub fn remove(&mut self, key: u64) -> (r: Option<P>)
        requires
            old(self).wf(),
        ensures
            final(self).wf(),
            final(self)@ == old(self)@.remove(key),
            r == (if old(self)@.contains_key(key) { Some(old(self)@[key]) } else { None::<P> }),
    {
        let r = self.positions.remove(&key);
        let mut i: usize = 0;
        while i < self.order.len()
            invariant
                i <= self.order@.len(),
                self.order@ == old(self).order@,
                old(self).wf(),
                self.positions@ == old(self).positions@.remove(key),
                r == (if old(self)@.contains_key(key) { Some(old(self)@[key]) } else { None::<P> }),
                forall|j: int| 0 <= j < i ==> self.order@[j] != key,
            decreases self.order@.len() - i,
        {
            if self.order[i] == key {
                let ghost before = self.order@;
                self.order.remove(i);
                proof {
                    assert(self.order@ == before.remove(i as int));
                    assert forall|x: u64| self.order@.contains(x) <==> before.contains(x) && x
                        != key by {
                        if before.contains(x) && x != key {
                            let j = choose|j: int| 0 <= j < before.len() && before[j] == x;
                            if j < i {
                                assert(self.order@[j] == x);
                            } else {
                                assert(self.order@[j - 1] == x);
                            }
                        }
                        if self.order@.contains(x) {
                            let j = choose|j: int| 0 <= j < self.order@.len() && self.order@[j] == x;
                            if j < i {
                                assert(before[j] == x);
                            } else {
                                assert(before[j + 1] == x);
                            }
                        }
                    }
                    assert(self.order@.to_set() =~= self.positions@.dom());
                    assert(self.order@.no_duplicates());
                }
                return r;
            }
            i = i + 1;
        }
        assert(!self.order@.contains(key));
        assert(self.order@.to_set() =~= self.positions@.dom());
        r
    }

    /// Takes in an update of the position under `key` from the update channel:
    /// a closed position leaves the store, an open one replaces what was there.
    /// Returns whether the store is to be persisted.
    pub fn apply_update(&mut self, key: u64, position: P, closed: bool) -> (persist: bool)
        requires
            old(self).wf(),
        ensures
            final(self).wf(),
            final(self)@ == updated(old(self)@, key, position, closed),
            persist == !closed,
    {
        if closed {
            self.remove(key);
            false
        } else {
            self.insert(key, position);
            true
        }
    }

    /// Stops tracking each of `keys`.
    pub fn remove_all(&mut self, keys: &Vec<u64>)
        requires
            old(self).wf(),
        ensures
            final(self).wf(),
            final(self)@ == old(self)@.remove_keys(keys@.to_set()),
    {
        let mut i: usize = 0;
        while i < keys.len()
            invariant
                i <= keys@.len(),
                self.wf(),
                self@ == old(self)@.remove_keys(keys@.subrange(0, i as int).to_set()),
            decreases keys@.len() - i,
        {
            self.remove(keys[i]);
            proof {
                let ghost pre = keys@.subrange(0, i as int);
                assert(keys@.subrange(0, i + 1) =~= pre.push(keys@[i as int]));
                pre.lemma_push_to_set_commute(keys@[i as int]);
                assert(self@ =~= old(self)@.remove_keys(keys@.subrange(0, i + 1).to_set()));
            }
            i = i + 1;
        }
        assert(keys@.subrange(0, i as int) =~= keys@);
    }
}

/// The store after an update of `key` to `position`: without `key` when the
/// position is closed, with `position` under `key` otherwise.
pub open spec fn updated<P>(m: Map<u64, P>, key: u64, position: P, closed: bool) -> Map<u64, P> {
    if closed {
        m.remove(key)
    } else {
        m.insert(key, position)
    }
}

/// Every position in `m` is open, as `is_closed` tells.
pub open spec fn all_open<P>(m: Map<u64, P>, is_closed: spec_fn(P) -> bool) -> bool {
    forall|k: u64| #[trigger] m.contains_key(k) ==> !is_closed(m[k])
}

/// A store that holds no closed position holds none after an update whose
/// flag is the closed test of its position.
pub proof fn lemma_update_keeps_closed_out<P>(
    m: Map<u64, P>,
    key: u64,
    position: P,
    is_closed: spec_fn(P) -> bool,
)
    requires
        all_open(m, is_closed),
    ensures
        all_open(updated(m, key, position, is_closed(position)), is_closed),
{
}

/// Dropping keys from a store that holds no closed position leaves none in it.
pub proof fn lemma_removal_keeps_closed_out<P>(
    m: Map<u64, P>,
    keys: Set<u64>,
    is_closed: spec_fn(P) -> bool,
)
    requires
        all_open(m, is_closed),
    ensures
        all_open(m.remove_keys(keys), is_closed),
{
}

} // verus!
