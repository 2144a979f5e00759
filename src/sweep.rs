//! One liquidability sweep over the tracked positions: which key comes next,
//! how a failed liquidation is classified, and what leaves the store at the end.
use vstd::prelude::*;

use crate::store::PositionStore;

verus! {

/// The words with which the lending protocol refuses to liquidate a position
/// that is not under-collateralised.
pub open spec fn rejection_marker() -> Seq<char> {
    seq!['n', 'o', 't', '-', 'u', 'n', 'd', 'e', 'r', 'c', 'o', 'l', 'l', 'a', 't', 'e', 'r', 'a', 'l', 'i', 'z', 'e', 'd']
}

/// `pattern` occurs in `text` at index `i`.
pub open spec fn occurs_at(text: Seq<char>, pattern: Seq<char>, i: int) -> bool {
    0 <= i && i + pattern.len() <= text.len() && text.subrange(i, i + pattern.len()) == pattern
}

/// `pattern` occurs somewhere in `text`.
pub open spec fn contains_chars(text: Seq<char>, pattern: Seq<char>) -> bool {
    exists|i: int| occurs_at(text, pattern, i)
}

/// Whether a liquidation failure says that the position was not
/// under-collateralised after all.
pub fn is_not_undercollateralized(message: &str) -> (r: bool)
    ensures
        r == contains_chars(message@, rejection_marker()),
{
    let marker = "not-undercollateralized";
    proof {
        reveal_strlit("not-undercollateralized");
        assert(marker@ =~= rejection_marker());
    }
    let n = message.unicode_len();
    let m = marker.unicode_len();
    if m > n {
        assert forall|i: int| !occurs_at(message@, rejection_marker(), i) by {}
        return false;
    }
    let mut i: usize = 0;
    while i <= n - m
        invariant
            n == message@.len(),
            m == marker@.len(),
            marker@ == rejection_marker(),
            m <= n,
            forall|k: int| 0 <= k < i ==> !occurs_at(message@, marker@, k),
        decreases n - m + 1 - i,
    {
        let mut j: usize = 0;
        while j < m && message.get_char(i + j) == marker.get_char(j)
            invariant
                n == message@.len(),
                m == marker@.len(),
                i + m <= n,
                j <= m,
                forall|t: int| 0 <= t < j ==> message@[i + t] == marker@[t],
            decreases m - j,
        {
            j = j + 1;
        }
        if j == m {
            assert(message@.subrange(i as int, i + m) =~= marker@);
            assert(occurs_at(message@, rejection_marker(), i as int));
            return true;
        }
        assert(message@.subrange(i as int, i + m)[j as int] != marker@[j as int]);
        i = i + 1;
    }
    assert forall|k: int| !occurs_at(message@, marker@, k) by {
        if 0 <= k && k + m <= n {
            assert(k < i);
        }
    }
    false
}

/// The keys of one sweep, in the order they are visited, and those that a
/// liquidation attempt showed to be healthy.
pub struct Sweep {
    keys: Vec<u64>,
    next: usize,
    rejected: Vec<u64>,
}

impl Sweep {
    /// The keys that the sweep visits.
    pub closed spec fn visits(&self) -> Seq<u64> {
        self.keys@
    }

    /// How many keys were handed out so far.
    pub closed spec fn visited(&self) -> nat {
        self.next as nat
    }

    /// The keys to drop from the store when the sweep ends.
    pub closed spec fn rejected(&self) -> Seq<u64> {
        self.rejected@
    }

    /// No more keys were handed out than the sweep holds, and it holds each key once.
    pub closed spec fn wf(&self) -> bool {
        &&& self.next <= self.keys@.len()
        &&& self.keys@.no_duplicates()
    }

    /// The keys handed out so far, in order.
    pub open spec fn handed_out(&self) -> Seq<u64> {
        self.visits().take(self.visited() as int)
    }

    /// A sweep over a snapshot of the keys that `store` tracks now.
    pub fn start<P>(store: &PositionStore<P>) -> (r: Sweep)
        requires
            store.wf(),
        ensures
            r.wf(),
            r.visits().to_set() == store@.dom(),
            r.visits().no_duplicates(),
            r.visited() == 0,
            r.rejected() == Seq::<u64>::empty(),
    {
        Sweep { keys: store.keys(), next: 0, rejected: Vec::new() }
    }

    /// The next key to look at, or nothing when every key was visited.
    pub fn next_key(&mut self) -> (r: Option<u64>)
        requires
            old(self).wf(),
        ensures
            final(self).wf(),
            final(self).visits() == old(self).visits(),
            final(self).rejected() == old(self).rejected(),
            old(self).visited() < old(self).visits().len() ==> r == Some(
                old(self).visits()[old(self).visited() as int],
            ) && final(self).visited() == old(self).visited() + 1,
            old(self).visited() == old(self).visits().len() ==> r is None && final(self).visited()
                == old(self).visited(),
            r matches Some(k) ==> !old(self).handed_out().contains(k) && final(self).handed_out()
                == old(self).handed_out().push(k),
            final(self).handed_out().no_duplicates(),
    {
        let ghost before = self.keys@.take(self.next as int);
        if self.next < self.keys.len() {
            let k = self.keys[self.next];
            self.next = self.next + 1;
            proof {
                assert(self.keys@.take(self.next as int) =~= before.push(k));
                if before.contains(k) {
                    let j = choose|j: int| 0 <= j < before.len() && before[j] == k;
                    assert(self.keys@[j] == self.keys@[self.next - 1]);
                }
                assert forall|a: int, b: int|
                    0 <= a < b < self.next ==> self.keys@.take(self.next as int)[a]
                        != self.keys@.take(self.next as int)[b] by {
                    if 0 <= a < b < self.next {
                        assert(self.keys@[a] != self.keys@[b]);
                    }
                }
            }
            Some(k)
        } else {
            proof {
                assert forall|a: int, b: int|
                    0 <= a < b < self.next ==> self.keys@.take(self.next as int)[a]
                        != self.keys@.take(self.next as int)[b] by {
                    if 0 <= a < b < self.next {
                        assert(self.keys@[a] != self.keys@[b]);
                    }
                }
            }
            None
        }
    }

    /// Records that liquidating the position under `key` failed with `message`.
    /// A failure that says the position was healthy queues it for removal;
    /// any other leaves it for the next sweep. Returns whether the position is
    /// to be refreshed from the chain.
    pub fn record_failure(&mut self, key: u64, message: &str) -> (refresh: bool)
        requires
            old(self).wf(),
        ensures
            final(self).wf(),
            final(self).visits() == old(self).visits(),
            final(self).visited() == old(self).visited(),
            refresh == !contains_chars(message@, rejection_marker()),
            final(self).rejected() == (if refresh {
                old(self).rejected()
            } else {
                old(self).rejected().push(key)
            }),
    {
        if is_not_undercollateralized(message) {
            self.rejected.push(key);
            false
        } else {
            true
        }
    }

    /// Ends the sweep: every rejected position leaves the store.
    pub fn finish<P>(self, store: &mut PositionStore<P>)
        requires
            old(store).wf(),
        ensures
            final(store).wf(),
            final(store)@ == old(store)@.remove_keys(self.rejected().to_set()),
    {
        store.remove_all(&self.rejected);
    }
}

/// A position whose liquidation was refused as healthy is gone from the store
/// once the sweep ends, and no later sweep visits it unless an update puts it
/// back.
pub proof fn lemma_rejected_not_retried<P>(
    before: Map<u64, P>,
    rejected: Seq<u64>,
    key: u64,
    later: Seq<u64>,
)
    requires
        rejected.contains(key),
        later.to_set() == before.remove_keys(rejected.to_set()).dom(),
    ensures
        !before.remove_keys(rejected.to_set()).contains_key(key),
        !later.contains(key),
{
    assert(rejected.to_set().contains(key));
    if later.contains(key) {
        assert(later.to_set().contains(key));
    }
}

} // verus!
