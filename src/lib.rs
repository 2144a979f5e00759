//! Position monitoring and liquidation for a collateralised lending protocol:
//! exact 256-bit amounts, the position store and its sweeps, the decisions of
//! the monitoring loop, reading liquidation proceeds out of receipts, and the
//! split of those proceeds between a claimant and a fallback sink.
use vstd::prelude::*;

pub mod distribution;
pub mod event;
pub mod felt;
pub mod monitor;
pub mod selector;
pub mod store;
pub mod sweep;
pub mod value;

verus! {

} // verus!
