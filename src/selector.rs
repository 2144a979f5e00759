//! Entry-point and event selectors, computed by the execution layer's SDK.
use vstd::prelude::*;

use crate::felt::Felt;

verus! {

/// The selector of an ASCII name: `starknet_keccak(name)`, or zero for the
/// default entry points.
pub uninterp spec fn selector_of(name: Seq<char>) -> Felt;

/// Every character of `s` is ASCII.
pub open spec fn is_ascii_name(s: Seq<char>) -> bool {
    forall|i: int| 0 <= i < s.len() ==> (s[i] as u32) < 128
}

/// Relies on starknet::core::utils::get_selector_from_name: it succeeds exactly
/// on ASCII names, and its value depends on the name alone.
#[verifier::external_body]
pub(crate) fn selector_from_name(name: &str) -> (r: Option<Felt>)
    ensures
        r is Some <==> is_ascii_name(name@),
        r matches Some(f) ==> f == selector_of(name@) && f.wf(),
{
    match starknet::core::utils::get_selector_from_name(name) {
        Ok(fe) => {
            let b = fe.to_bytes_be();
            let mut high = [0u8; 16];
            let mut low = [0u8; 16];
            high.copy_from_slice(&b[..16]);
            low.copy_from_slice(&b[16..]);
            Some(Felt { high: u128::from_be_bytes(high), low: u128::from_be_bytes(low) })
        },
        Err(_) => None,
    }
}

} // verus!
