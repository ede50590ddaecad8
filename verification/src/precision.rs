//! How close the fixed-point harmonic mean comes to the exact one.

use vstd::prelude::*;
use vstd::arithmetic::div_mod::lemma_div_by_multiple;
use vstd::arithmetic::div_mod::lemma_div_is_ordered;
use vstd::arithmetic::div_mod::lemma_fundamental_div_mod;
use vstd::arithmetic::div_mod::lemma_remainder;
use crate::estimator::harmonic_mean;
use crate::estimator::lemma_harmonic_mean_fits;
use crate::estimator::lemma_reciprocal_sum_bounds;
use crate::estimator::reciprocal;
use crate::estimator::reciprocal_sum;
use crate::estimator::FIXED_ONE;

verus! {

/// A sample as the harmonic mean counts it: a throughput of zero counts
/// as one byte per second.
pub open spec fn counted(sample: u32) -> int {
    if sample == 0 {
        1
    } else {
        sample as int
    }
}

/// The product of all samples.
pub open spec fn product(samples: Seq<u32>) -> int
    decreases samples.len(),
{
    if samples.len() == 0 {
        1
    } else {
        product(samples.drop_last()) * counted(samples.last())
    }
}

/// The sum, over the samples, of the product of all the other samples.
/// Divided by `product(samples)` it is the sum of the samples' exact
/// reciprocals.
pub open spec fn cofactor_sum(samples: Seq<u32>) -> int
    decreases samples.len(),
{
    if samples.len() == 0 {
        0
    } else {
        cofactor_sum(samples.drop_last()) * counted(samples.last()) + product(
            samples.drop_last(),
        )
    }
}

/// The harmonic mean of the samples, the number of samples over the sum
/// of their reciprocals, computed without error and then rounded down.
/// Zero for no samples.
pub open spec fn exact_harmonic_mean(samples: Seq<u32>) -> int {
    if samples.len() == 0 {
        0
    } else {
        (samples.len() * product(samples)) / cofactor_sum(samples)
    }
}

/// A fixed-point reciprocal is the exact one rounded down.
proof fn lemma_reciprocal_rounds_down(sample: u32)
    ensures
        reciprocal(sample) * counted(sample) <= FIXED_ONE,
        FIXED_ONE < (reciprocal(sample) + 1) * counted(sample),
{
    let m = counted(sample);
    let f = FIXED_ONE as int;
    if sample != 0 {
        lemma_fundamental_div_mod(f, m);
        lemma_remainder(f, m);
        let q = f / m;
        let r = f % m;
        assert(q * m == m * q && (q + 1) * m == m * q + m) by (nonlinear_arith);
    }
}

/// The sum of the fixed-point reciprocals, against the sum of the exact
/// ones: it is at most that sum, and falls short of it by less than one
/// for each sample.
proof fn lemma_reciprocal_sum_rounds_down(samples: Seq<u32>)
    ensures
        product(samples) > 0,
        cofactor_sum(samples) >= 0,
        samples.len() > 0 ==> cofactor_sum(samples) > 0,
        reciprocal_sum(samples) * product(samples) <= FIXED_ONE * cofactor_sum(samples),
        samples.len() > 0 ==> FIXED_ONE * cofactor_sum(samples) < (reciprocal_sum(samples)
            + samples.len()) * product(samples),
    decreases samples.len(),
{
    if samples.len() > 0 {
        let rest = samples.drop_last();
        lemma_reciprocal_sum_rounds_down(rest);
        lemma_reciprocal_rounds_down(samples.last());
        lemma_reciprocal_sum_bounds(rest);
        let m = counted(samples.last());
        let r = reciprocal(samples.last());
        let f = FIXED_ONE as int;
        let d0 = product(rest);
        let t0 = cofactor_sum(rest);
        let r0 = reciprocal_sum(rest);
        let n0 = rest.len() as int;
        let d = product(samples);
        let t = cofactor_sum(samples);
        let big_r = reciprocal_sum(samples);
        assert(d == d0 * m);
        assert(t == t0 * m + d0);
        assert(big_r == r0 + r);
        assert(d > 0) by (nonlinear_arith)
            requires
                d == d0 * m,
                d0 > 0,
                m > 0,
        ;
        assert(t > 0) by (nonlinear_arith)
            requires
                t == t0 * m + d0,
                t0 >= 0,
                m > 0,
                d0 > 0,
        ;
        assert(big_r * d <= f * t) by (nonlinear_arith)
            requires
                d == d0 * m,
                t == t0 * m + d0,
                big_r == r0 + r,
                r0 * d0 <= f * t0,
                r * m <= f,
                m > 0,
                d0 > 0,
        ;
        if n0 > 0 {
            assert(f * t < (big_r + n0 + 1) * d) by (nonlinear_arith)
                requires
                    d == d0 * m,
                    t == t0 * m + d0,
                    big_r == r0 + r,
                    f * t0 < (r0 + n0) * d0,
                    f < (r + 1) * m,
                    m > 0,
                    d0 > 0,
            ;
        } else {
            assert(r0 == 0 && t0 == 0 && d0 == 1);
            assert(f * t < (big_r + n0 + 1) * d) by (nonlinear_arith)
                requires
                    d == m,
                    t == 1,
                    big_r == r,
                    n0 == 0,
                    f < (r + 1) * m,
            ;
        }
    }
}

/// The fixed-point harmonic mean is the exact harmonic mean rounded
/// down, or one more than that.
pub proof fn lemma_harmonic_mean_is_close(samples: Seq<u32>)
    ensures
        exact_harmonic_mean(samples) <= harmonic_mean(samples) <= exact_harmonic_mean(samples) + 1,
{
    if samples.len() > 0 {
        lemma_reciprocal_sum_rounds_down(samples);
        lemma_reciprocal_sum_bounds(samples);
        lemma_harmonic_mean_fits(samples);
        let n = samples.len() as int;
        let f = FIXED_ONE as int;
        let d = product(samples);
        let t = cofactor_sum(samples);
        let r = reciprocal_sum(samples);
        let exact = exact_harmonic_mean(samples);
        let fixed = harmonic_mean(samples);
        assert(r >= n * 0x1_0000_0001);
        assert(r > 0) by (nonlinear_arith)
            requires
                r >= n * 0x1_0000_0001,
                n >= 1,
        ;
        assert(n * d >= 0) by (nonlinear_arith)
            requires
                n >= 1,
                d > 0,
        ;
        assert(n * f >= 0) by (nonlinear_arith)
            requires
                n >= 1,
                f > 0,
        ;

        // Both quotients are rounded down.
        lemma_fundamental_div_mod(n * d, t);
        lemma_remainder(n * d, t);
        assert(exact * t <= n * d) by (nonlinear_arith)
            requires
                n * d == t * exact + (n * d) % t,
                0 <= (n * d) % t,
        ;
        lemma_fundamental_div_mod(n * f, r);
        lemma_remainder(n * f, r);
        assert(fixed * r <= n * f) by (nonlinear_arith)
            requires
                n * f == r * fixed + (n * f) % r,
                0 <= (n * f) % r,
        ;
        assert(exact >= 0) by (nonlinear_arith)
            requires
                n * d == t * exact + (n * d) % t,
                (n * d) % t < t,
                n * d >= 0,
                t > 0,
        ;

        // The exact mean is no more than the fixed-point mean.
        assert(exact * r <= n * f) by (nonlinear_arith)
            requires
                exact * t <= n * d,
                r * d <= f * t,
                t > 0,
                r > 0,
                d > 0,
                n >= 1,
                exact >= 0,
                f > 0,
        ;
        lemma_div_by_multiple(exact, r);
        lemma_div_is_ordered(exact * r, n * f, r);
        assert(exact <= fixed);

        // The fixed-point mean is no more than one above the exact mean.
        if fixed >= 1 {
            assert((fixed - 1) * (r + n) <= n * f) by (nonlinear_arith)
                requires
                    fixed * r <= n * f,
                    r >= n * 0x1_0000_0001,
                    1 <= fixed <= 0xFFFF_FFFF,
                    n >= 1,
            ;
            assert((fixed - 1) * t <= n * d) by (nonlinear_arith)
                requires
                    (fixed - 1) * (r + n) <= n * f,
                    f * t < (r + n) * d,
                    fixed >= 1,
                    t > 0,
                    d > 0,
                    f > 0,
                    n >= 1,
                    r > 0,
            ;
            lemma_div_by_multiple(fixed - 1, t);
            lemma_div_is_ordered((fixed - 1) * t, n * d, t);
            assert(fixed - 1 <= exact);
        }
    }
}

} // verus!
