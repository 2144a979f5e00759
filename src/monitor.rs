//! The decisions of the monitoring loop: what each wake-up of the loop does to
//! the position store, and what the loop does next.
use vstd::prelude::*;

use crate::store::{all_open, lemma_update_keeps_closed_out, updated, PositionStore};

verus! {

/// What woke the monitoring loop: one source per turn of the loop.
pub enum Wakeup<P> {
    /// The sweep timer fired.
    Tick,
    /// The update channel handed over a refreshed position seen at `block_number`.
    Update { block_number: u64, key: u64, position: P, closed: bool },
    /// The update channel was closed.
    ChannelClosed,
}

/// What the loop does after a wake-up.
#[derive(Debug, Clone, Copy, PartialEq, Eq, Structural)]
pub enum LoopAction {
    /// Sweep the tracked positions for liquidation.
    Sweep,
    /// Persist a snapshot of the store, as seen at `block_number`.
    Persist { block_number: u64 },
    /// Nothing more this turn.
    Idle,
    /// Stop: position data can no longer be trusted.
    Stop,
}

/// The store after `wakeup`: only an update changes it.
pub open spec fn store_after<P>(m: Map<u64, P>, wakeup: Wakeup<P>) -> Map<u64, P> {
    match wakeup {
        Wakeup::Update { key, position, closed, .. } => updated(m, key, position, closed),
        _ => m,
    }
}

/// The action that follows `wakeup`.
pub open spec fn action_after<P>(wakeup: Wakeup<P>) -> LoopAction {
    match wakeup {
        Wakeup::Tick => LoopAction::Sweep,
        Wakeup::Update { block_number, closed, .. } => if closed {
            LoopAction::Idle
        } else {
            LoopAction::Persist { block_number }
        },
        Wakeup::ChannelClosed => LoopAction::Stop,
    }
}

/// Handles one wake-up of the loop.
pub fn on_wakeup<P>(store: &mut PositionStore<P>, wakeup: Wakeup<P>) -> (r: LoopAction)
    requires
        old(store).wf(),
    ensures
        final(store).wf(),
        final(store)@ == store_after(old(store)@, wakeup),
        r == action_after(wakeup),
{
    match wakeup {
        Wakeup::Tick => LoopAction::Sweep,
        Wakeup::Update { block_number, key, position, closed } => {
            if store.apply_update(key, position, closed) {
                LoopAction::Persist { block_number }
            } else {
                LoopAction::Idle
            }
        },
        Wakeup::ChannelClosed => LoopAction::Stop,
    }
}

/// A turn of the loop handles the one source that woke it: a timer tick sweeps
/// and leaves the store as it is, and an update changes the store under its
/// own key alone and starts no sweep.
pub proof fn lemma_wakeup_handles_one_source<P>(m: Map<u64, P>, wakeup: Wakeup<P>)
    ensures
        wakeup is Tick ==> store_after(m, wakeup) == m && action_after(wakeup) == LoopAction::Sweep,
        wakeup matches Wakeup::Update { key, .. } ==> action_after(wakeup) != LoopAction::Sweep
            && forall|k: u64|
            k != key ==> (#[trigger] store_after(m, wakeup).contains_key(k) == m.contains_key(k)
                && (m.contains_key(k) ==> store_after(m, wakeup)[k] == m[k])),
        wakeup is ChannelClosed ==> store_after(m, wakeup) == m && action_after(wakeup)
            == LoopAction::Stop,
{
}

/// A turn of the loop leaves no closed position in a store that held none,
/// where an update's flag is the closed test of its position.
pub proof fn lemma_turn_keeps_closed_out<P>(
    m: Map<u64, P>,
    wakeup: Wakeup<P>,
    is_closed: spec_fn(P) -> bool,
)
    requires
        all_open(m, is_closed),
        wakeup matches Wakeup::Update { position, closed, .. } ==> closed == is_closed(position),
    ensures
        all_open(store_after(m, wakeup), is_closed),
{
    if let Wakeup::Update { key, position, closed, .. } = wakeup {
        lemma_update_keeps_closed_out(m, key, position, is_closed);
    }
}

} // verus!
