//! Splitting the proceeds of a liquidation between a claimant and the
//! fallback sink.
use vstd::prelude::*;

use crate::felt::Felt;
use crate::selector::{is_ascii_name, selector_from_name, selector_of};
use crate::value::{saturating_diff, spec_saturating_sub, U256};

verus! {

/// A call of a contract entry point, as a transaction carries it.
#[derive(Debug, Clone)]
pub struct Call {
    pub contract_address: Felt,
    pub entry_point_selector: Felt,
    pub calldata: Vec<Felt>,
}

/// What a call holds, with its calldata as a sequence.
pub struct CallView {
    pub contract_address: Felt,
    pub entry_point_selector: Felt,
    pub calldata: Seq<Felt>,
}

impl View for Call {
    type V = CallView;

    open spec fn view(&self) -> CallView {
        CallView {
            contract_address: self.contract_address,
            entry_point_selector: self.entry_point_selector,
            calldata: self.calldata@,
        }
    }
}

/// The name of the token entry point that moves an amount to a recipient.
pub open spec fn transfer_name() -> Seq<char> {
    seq!['t', 'r', 'a', 'n', 's', 'f', 'e', 'r']
}

/// `transfer(recipient, amount_low, amount_high)` on `token`, with the given selector.
pub open spec fn transfer_view(selector: Felt, token: Felt, recipient: Felt, amount: U256) -> CallView {
    CallView {
        contract_address: token,
        entry_point_selector: selector,
        calldata: seq![recipient, Felt { high: 0, low: amount.low }, Felt { high: 0, low: amount.high }],
    }
}

/// The transfer call of `amount` of `token` to `recipient`, under `selector`.
pub fn transfer_call(selector: Felt, token: Felt, recipient: Felt, amount: U256) -> (r: Call)
    ensures
        r@ == transfer_view(selector, token, recipient, amount),
{
    let calldata = vec![recipient, Felt::from_u128(amount.low), Felt::from_u128(amount.high)];
    let r = Call { contract_address: token, entry_point_selector: selector, calldata };
    assert(r@.calldata =~= transfer_view(selector, token, recipient, amount).calldata);
    r
}

/// The ERC20 transfer call of `amount` of `token` to `recipient`.
pub fn build_erc20_transfer_call(token: Felt, recipient: Felt, amount: U256) -> (r: Call)
    ensures
        r@ == transfer_view(selector_of(transfer_name()), token, recipient, amount),
{
    let name = "transfer";
    proof {
        reveal_strlit("transfer");
        assert(name@ =~= transfer_name());
        assert(is_ascii_name(name@));
    }
    let selector = selector_from_name(name).unwrap();
    transfer_call(selector, token, recipient, amount)
}

/// The score that divides a claimant's: the reported one, or the claimant's own
/// when none was reported.
pub open spec fn reference_of(claimant_score: u128, reported: Option<u128>) -> u128 {
    match reported {
        Some(s) => s,
        None => claimant_score,
    }
}

/// What to do with the proceeds of one liquidation, once a claimant is known.
#[derive(Debug, Clone, Copy, PartialEq, Eq, Structural)]
pub enum DistributionPlan {
    /// The reference score is zero: no share can be computed.
    ZeroReference,
    /// The receipt holds no decodable liquidation event.
    NoProceeds,
    /// Split `total` of `asset` in the ratio `claimant_score / reference_score`.
    Split { asset: Felt, total: U256, claimant_score: u128, reference_score: u128 },
}

/// The plan for a claimant with `claimant_score`, the reference score that the
/// query service reported (if any), and the proceeds read from the receipt.
pub fn plan_distribution(
    claimant_score: u128,
    reported_reference: Option<u128>,
    proceeds: Option<(Felt, U256)>,
) -> (r: DistributionPlan)
    ensures
        reference_of(claimant_score, reported_reference) == 0 ==> r == DistributionPlan::ZeroReference,
        reference_of(claimant_score, reported_reference) != 0 && proceeds is None ==> r
            == DistributionPlan::NoProceeds,
        proceeds is Some && reference_of(claimant_score, reported_reference) != 0 ==> r == (
        DistributionPlan::Split {
            asset: (proceeds->0).0,
            total: (proceeds->0).1,
            claimant_score,
            reference_score: reference_of(claimant_score, reported_reference),
        }),
{
    let reference_score = match reported_reference {
        Some(s) => s,
        None => claimant_score,
    };
    if reference_score == 0 {
        return DistributionPlan::ZeroReference;
    }
    match proceeds {
        Some((asset, total)) => DistributionPlan::Split {
            asset,
            total,
            claimant_score,
            reference_score,
        },
        None => DistributionPlan::NoProceeds,
    }
}

/// The two transfers of one distribution, in order: `share` to the claimant,
/// and what is left of `total` to the sink.
pub fn distribution_calls(
    asset: Felt,
    claimant: Felt,
    sink: Felt,
    total: U256,
    share: u128,
) -> (r: Vec<Call>)
    ensures
        r@.len() == 2,
        r@[0]@ == transfer_view(selector_of(transfer_name()), asset, claimant, U256::spec_from(share)),
        r@[1]@ == transfer_view(
            selector_of(transfer_name()),
            asset,
            sink,
            spec_saturating_sub(total, U256::spec_from(share)),
        ),
        r@[1]@.calldata.len() == 3,
        saturating_diff(total@, share as nat) == r@[1]@.calldata[1].low as nat + r@[1]@.calldata[2].low as nat * crate::value::limb_base(),
{
    let share_value = U256::from_u128(share);
    let rest = total - share_value;
    let first = build_erc20_transfer_call(asset, claimant, share_value);
    let second = build_erc20_transfer_call(asset, sink, rest);
    vec![first, second]
}

} // verus!
