//! Exact fractions by which a throughput is scaled.

use vstd::prelude::*;

verus! {

/// Largest numerator a well-formed factor may have: any `u32` times it
/// still fits in 128 bits.
pub const MAX_NUMERATOR: u128 = 0xFFFF_FFFF_FFFF_FFFF_FFFF_FFFF;

/// Largest throughput that can be represented, in bytes per second.
pub const MAX_THROUGHPUT: u32 = 0xFFFF_FFFF;

/// The non-negative fraction `numerator / denominator`.
#[derive(Debug, Clone, Copy, PartialEq, Eq)]
pub struct Factor {
    pub numerator: u128,
    pub denominator: u128,
}

impl Factor {
    /// The denominator is positive and the numerator is small enough to
    /// scale any throughput without overflow.
    pub open spec fn wf(self) -> bool {
        self.denominator > 0 && self.numerator <= MAX_NUMERATOR
    }

    /// `value` times the fraction, rounded down, and held at
    /// `MAX_THROUGHPUT` where the product is larger.
    pub open spec fn scale(self, value: int) -> int {
        let scaled = (value * self.numerator) / (self.denominator as int);
        if scaled > MAX_THROUGHPUT {
            MAX_THROUGHPUT as int
        } else {
            scaled
        }
    }

    /// Whether this fraction is at most `other`, by cross-multiplication.
    pub open spec fn le(self, other: Factor) -> bool {
        self.numerator * other.denominator <= other.numerator * self.denominator
    }

    /// Scales a throughput by the fraction.
    pub fn apply(&self, value: u32) -> (scaled: u32)
        requires
            self.wf(),
        ensures
            scaled == self.scale(value as int),
    {
        assert(value * self.numerator <= 0xFFFF_FFFF * 0xFFFF_FFFF_FFFF_FFFF_FFFF_FFFF) by (nonlinear_arith)
            requires
                value <= 0xFFFF_FFFF,
                self.numerator <= 0xFFFF_FFFF_FFFF_FFFF_FFFF_FFFF,
        ;
        let product: u128 = (value as u128) * self.numerator;
        let scaled: u128 = product / self.denominator;
        if scaled > MAX_THROUGHPUT as u128 {
            MAX_THROUGHPUT
        } else {
            scaled as u32
        }
    }
}

} // verus!
