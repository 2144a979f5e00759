//! Unsigned 256-bit amounts held as two 128-bit limbs.
use vstd::prelude::*;

verus! {

/// The number of values one 128-bit limb holds.
pub open spec fn limb_base() -> nat {
    0x1_0000_0000_0000_0000_0000_0000_0000_0000nat
}

/// An unsigned 256-bit integer: `high * 2^128 + low`.
#[derive(Debug, Clone, Copy, PartialEq, Eq, Structural)]
pub struct U256 {
    pub low: u128,
    pub high: u128,
}

impl View for U256 {
    type V = nat;

    open spec fn view(&self) -> nat {
        self.high as nat * limb_base() + self.low as nat
    }
}

/// Subtraction that stops at zero instead of wrapping around.
pub open spec fn saturating_diff(a: nat, b: nat) -> nat {
    if a >= b {
        (a - b) as nat
    } else {
        0
    }
}

impl U256 {
    /// The value of a 128-bit integer.
    pub open spec fn spec_from(v: u128) -> U256 {
        U256 { low: v, high: 0 }
    }

    /// The value zero.
    pub fn zero() -> (r: U256)
        ensures
            r@ == 0,
    {
        U256 { low: 0, high: 0 }
    }

    /// A value below `2^128`.
    pub fn from_u128(v: u128) -> (r: U256)
        ensures
            r@ == v as nat,
            r == U256::spec_from(v),
    {
        U256 { low: v, high: 0 }
    }

    /// Whether `self` is at least `rhs`, compared as 256-bit numbers.
    pub fn ge(&self, rhs: &U256) -> (r: bool)
        ensures
            r == (self@ >= rhs@),
    {
        proof {
            lemma_order_by_limbs(*self, *rhs);
        }
        self.high > rhs.high || (self.high == rhs.high && self.low >= rhs.low)
    }

    /// `self - rhs` when `self >= rhs`, zero otherwise.
    pub fn saturating_sub(self, rhs: U256) -> (r: U256)
        ensures
            r@ == saturating_diff(self@, rhs@),
    {
        if !self.ge(&rhs) {
            return U256::zero();
        }
        proof {
            lemma_order_by_limbs(self, rhs);
        }
        if self.low >= rhs.low {
            let r = U256 { low: self.low - rhs.low, high: self.high - rhs.high };
            proof {
                lemma_limbs_sub(self, rhs, r, false);
            }
            r
        } else {
            // The low limb borrows one unit from the high limb.
            let low = self.low.wrapping_sub(rhs.low);
            let r = U256 { low, high: self.high - rhs.high - 1 };
            assert(low as nat == self.low as nat + limb_base() - rhs.low as nat);
            proof {
                lemma_limbs_sub(self, rhs, r, true);
            }
            r
        }
    }
}

/// Comparing two values is comparing their high limbs, then their low limbs.
proof fn lemma_order_by_limbs(a: U256, b: U256)
    ensures
        (a@ >= b@) == (a.high > b.high || (a.high == b.high && a.low >= b.low)),
{
    let base = limb_base() as int;
    let (ah, al, bh, bl) = (a.high as int, a.low as int, b.high as int, b.low as int);
    assert(0 <= al < base && 0 <= bl < base);
    if ah > bh {
        assert(ah * base >= (bh + 1) * base) by (nonlinear_arith)
            requires
                ah >= bh + 1,
                base > 0,
        ;
    } else if ah < bh {
        assert(bh * base >= (ah + 1) * base) by (nonlinear_arith)
            requires
                bh >= ah + 1,
                base > 0,
        ;
    }
}

/// Limb-wise subtraction, with or without a borrow, gives the difference.
proof fn lemma_limbs_sub(a: U256, b: U256, r: U256, borrow: bool)
    requires
        borrow ==> r.low as int == a.low as int + limb_base() - b.low as int,
        !borrow ==> r.low as int == a.low as int - b.low as int,
        r.high as int == a.high as int - b.high as int - (if borrow { 1int } else { 0int }),
    ensures
        r@ == a@ - b@,
{
    let base = limb_base() as int;
    assert(r.high as int * base == a.high as int * base - b.high as int * base - (if borrow {
        base
    } else {
        0
    })) by (nonlinear_arith)
        requires
            r.high as int == a.high as int - b.high as int - (if borrow { 1int } else { 0int }),
    ;
}

impl core::ops::Sub for U256 {
    type Output = U256;

    /// Saturating subtraction: the exact difference, or zero when `rhs` is larger.
    fn sub(self, rhs: U256) -> (r: U256)
        ensures
            r@ == saturating_diff(self@, rhs@),
    {
        self.saturating_sub(rhs)
    }
}

impl vstd::std_specs::ops::SubSpecImpl for U256 {
    open spec fn obeys_sub_spec() -> bool {
        true
    }

    open spec fn sub_req(self, rhs: U256) -> bool {
        true
    }

    open spec fn sub_spec(self, rhs: U256) -> U256 {
        spec_saturating_sub(self, rhs)
    }
}

/// The value whose number is `saturating_diff(a@, b@)`.
pub open spec fn spec_saturating_sub(a: U256, b: U256) -> U256 {
    let d = saturating_diff(a@, b@);
    U256 { low: (d % limb_base()) as u128, high: (d / limb_base()) as u128 }
}

} // verus!
