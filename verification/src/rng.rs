//! Deterministic pseudo-random numbers.
//!
//! Every stochastic choice in the tracer draws from an explicitly
//! threaded generator, seeded per worker, so renders are reproducible:
//! the same seed always yields the same image.

use vstd::prelude::*;
use crate::fixed::{SCALE, FP_MAX, fp_ok, mul_fp, fmul};

verus! {

/// Multiplier of the linear congruential step.
pub const LCG_MUL: u64 = 6364136223846793005;

/// Increment of the linear congruential step.
pub const LCG_INC: u64 = 1442695040888963407;

/// One step of the linear congruential generator, modulo `2^64`.
pub open spec fn next_state_s(s: u64) -> u64 {
    (((s * LCG_MUL) + LCG_INC) % 0x1_0000_0000_0000_0000) as u64
}

/// The unit-interval sample drawn from a generator state: a scalar in
/// `[0, SCALE)` taken from the state's high bits.
pub open spec fn unit_sample_s(s: u64) -> int {
    ((s >> 33) % (SCALE as u64)) as int
}

/// A deterministic linear congruential generator.
#[derive(Clone, Copy, PartialEq, Eq, Structural, Debug)]
pub struct Rng {
    pub state: u64,
}

impl Rng {
    /// A generator starting from the given seed.
    pub fn new(seed: u64) -> (r: Rng)
        ensures
            r.state == seed,
    {
        Rng { state: seed }
    }

    /// Advance the generator one step.
    pub fn step(&mut self) -> (r: u64)
        ensures
            final(self).state == next_state_s(old(self).state),
            r == final(self).state,
    {
        proof {
            assert((self.state as int) * (LCG_MUL as int) + (LCG_INC as int)
                <= 0xffff_ffff_ffff_ffffu64 * (LCG_MUL as int) + (LCG_INC as int)) by (nonlinear_arith)
                requires
                    self.state <= 0xffff_ffff_ffff_ffffu64,
            {
            }
        }
        let wide: u128 = (self.state as u128) * (LCG_MUL as u128) + (LCG_INC as u128);
        let next: u64 = (wide % 0x1_0000_0000_0000_0000u128) as u64;
        self.state = next;
        next
    }

    /// A sample uniform over `[0, SCALE)`: the fixed-point unit interval.
    pub fn next_unit(&mut self) -> (r: i64)
        ensures
            final(self).state == next_state_s(old(self).state),
            r == unit_sample_s(final(self).state),
            0 <= r < SCALE,
    {
        let s: u64 = self.step();
        ((s >> 33) % (SCALE as u64)) as i64
    }

    /// A sample in `[lo, hi)` (or exactly `lo` when the range is empty),
    /// drawn as `lo + (hi - lo) * u` for a unit-interval `u`.
    pub fn next_range(&mut self, lo: i64, hi: i64) -> (r: i64)
        requires
            fp_ok(lo as int),
            fp_ok(hi as int),
            lo <= hi,
            hi - lo <= FP_MAX,
        ensures
            final(self).state == next_state_s(old(self).state),
            r == lo + mul_fp(hi - lo, unit_sample_s(final(self).state)),
            lo <= r <= hi,
            lo < hi ==> r < hi,
            fp_ok(r as int),
    {
        let u: i64 = self.next_unit();
        let span: i64 = hi - lo;
        proof {
            lemma_unit_scale_bound(span as int, u as int);
        }
        let off: i64 = fmul(span, u);
        lo + off
    }
}

/// A unit sample always lies in the unit interval.
pub proof fn lemma_unit_sample_bounds(s: u64)
    ensures
        0 <= unit_sample_s(s) < SCALE,
{
    vstd::arithmetic::div_mod::lemma_mod_bound((s >> 33) as int, SCALE as int);
}

/// Scaling a nonnegative span by a unit-interval sample stays within
/// the span, and strictly within it when the span is positive.
pub proof fn lemma_unit_scale_bound(span: int, u: int)
    requires
        0 <= span <= FP_MAX,
        0 <= u < SCALE,
    ensures
        0 <= mul_fp(span, u),
        span > 0 ==> mul_fp(span, u) < span,
        span == 0 ==> mul_fp(span, u) == 0,
{
    assert(span * u >= 0) by (nonlinear_arith)
        requires
            span >= 0,
            u >= 0,
    {
    }
    assert(span * u / (SCALE as int) >= 0) by (nonlinear_arith)
        requires
            span * u >= 0,
    {
    }
    if span > 0 {
        assert(span * u / (SCALE as int) < span) by (nonlinear_arith)
            requires
                span > 0,
                0 <= u < SCALE,
        {
        }
    }
}

} // verus!
