//! Field elements of the execution layer, held as two 128-bit limbs.
use vstd::prelude::*;

use crate::value::limb_base;

verus! {

/// The prime that bounds every field element: `2^251 + 17 * 2^192 + 1`.
pub open spec fn field_prime() -> nat {
    0x800000000000011000000000000000000000000000000000000000000000001nat
}

/// A field element: `high * 2^128 + low`, below `field_prime()`.
#[derive(Debug, Clone, Copy, PartialEq, Eq, Structural)]
pub struct Felt {
    pub high: u128,
    pub low: u128,
}

impl View for Felt {
    type V = nat;

    open spec fn view(&self) -> nat {
        self.high as nat * limb_base() + self.low as nat
    }
}

impl Felt {
    /// A valid field element lies below the field prime.
    pub open spec fn wf(&self) -> bool {
        self@ < field_prime()
    }

    /// The element that stands for a 128-bit integer.
    pub fn from_u128(v: u128) -> (r: Felt)
        ensures
            r@ == v as nat,
            r.high == 0 && r.low == v,
            r.wf(),
    {
        Felt { high: 0, low: v }
    }

    /// The element as a 128-bit integer, if it is below `2^128`.
    pub fn to_u128(&self) -> (r: Option<u128>)
        ensures
            r == (if self.high == 0 { Some(self.low) } else { None::<u128> }),
            r is Some <==> self@ < limb_base(),
            r matches Some(v) ==> v as nat == self@,
    {
        if self.high == 0 {
            Some(self.low)
        } else {
            None
        }
    }
}

} // verus!
