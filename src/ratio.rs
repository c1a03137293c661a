//! Exact rational values: loads and false-positive rates.
use vstd::prelude::*;

verus! {

/// The value `num / den`. A rate or a load is kept as a pair of counts so
/// that nothing is rounded.
#[derive(Clone, Copy, Debug, PartialEq, Eq, Structural)]
pub struct Ratio {
    pub num: u64,
    pub den: u64,
}

impl Ratio {
    /// A ratio with a positive denominator.
    pub open spec fn wf(self) -> bool {
        self.den > 0
    }

    /// `self <= other` as rational numbers (both denominators positive).
    pub open spec fn spec_le(self, other: Ratio) -> bool {
        self.num * other.den <= other.num * self.den
    }

    /// Compares two ratios by cross-multiplication.
    pub fn le(&self, other: &Ratio) -> (r: bool)
        ensures
            r == self.spec_le(*other),
    {
        proof {
            vstd::arithmetic::mul::lemma_mul_upper_bound(self.num as int, u64::MAX as int, other.den as int, u64::MAX as int);
            vstd::arithmetic::mul::lemma_mul_upper_bound(other.num as int, u64::MAX as int, self.den as int, u64::MAX as int);
        }
        (self.num as u128) * (other.den as u128) <= (other.num as u128) * (self.den as u128)
    }
}

} // verus!
