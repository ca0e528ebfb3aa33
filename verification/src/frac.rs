use vstd::prelude::*;

verus! {

/// A non-negative fraction with an explicit denominator.
///
/// Utilization values and warning thresholds are fractions in `[0, 1]`,
/// held exactly as a numerator over a positive denominator.
#[derive(Clone, Copy, Debug, PartialEq, Eq, Structural)]
pub struct Frac {
    pub num: u64,
    pub den: u64,
}

impl Frac {
    /// A well-formed fraction lies in `[0, 1]`: positive denominator,
    /// numerator no greater than it.
    pub open spec fn wf(self) -> bool {
        self.den > 0 && self.num <= self.den
    }

    pub fn new(num: u64, den: u64) -> (r: Frac)
        requires
            0 < den,
            num <= den,
        ensures
            r == (Frac { num, den }),
            r.wf(),
    {
        Frac { num, den }
    }

    /// Strict order on fractions, by cross-multiplication.
    pub open spec fn spec_gt(self, other: Frac) -> bool {
        self.num * other.den > other.num * self.den
    }

    /// Compares `self > other` exactly, without rounding.
    pub fn gt(&self, other: &Frac) -> (r: bool)
        ensures
            r == self.spec_gt(*other),
    {
        proof {
            vstd::arithmetic::mul::lemma_mul_upper_bound(
                self.num as int,
                u64::MAX as int,
                other.den as int,
                u64::MAX as int,
            );
            vstd::arithmetic::mul::lemma_mul_upper_bound(
                other.num as int,
                u64::MAX as int,
                self.den as int,
                u64::MAX as int,
            );
        }
        (self.num as u128) * (other.den as u128) > (other.num as u128) * (self.den as u128)
    }
}

} // verus!
