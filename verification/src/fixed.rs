//! Fixed-point scalar arithmetic.
//!
//! A scalar counts millionths: the value `1_000_000` stands for one
//! world-space unit. Every operation is total: results outside the
//! representable range `[-FP_MAX, FP_MAX]` saturate at the bound, the
//! way binary floating point saturates at its largest finite values.

use vstd::prelude::*;

verus! {

/// Number of fixed-point steps per world-space unit.
pub const SCALE: i64 = 1_000_000;

/// Largest representable scalar magnitude.
pub const FP_MAX: i64 = 1_000_000_000_000_000_000;

/// A scalar is representable when its magnitude is at most `FP_MAX`.
pub open spec fn fp_ok(a: int) -> bool {
    -FP_MAX <= a <= FP_MAX
}

/// Saturate an unbounded value into the representable range.
pub open spec fn clip_fp(a: int) -> int {
    if a > FP_MAX {
        FP_MAX as int
    } else if a < -FP_MAX {
        -FP_MAX as int
    } else {
        a
    }
}

pub open spec fn add_fp(a: int, b: int) -> int {
    clip_fp(a + b)
}

pub open spec fn sub_fp(a: int, b: int) -> int {
    clip_fp(a - b)
}

pub open spec fn neg_fp(a: int) -> int {
    clip_fp(-a)
}

pub open spec fn abs_fp(a: int) -> int {
    if a >= 0 {
        a
    } else {
        -a
    }
}

/// Fixed-point product `a * b / SCALE`, truncated toward zero.
pub open spec fn mul_fp(a: int, b: int) -> int {
    let m = abs_fp(a) * abs_fp(b) / (SCALE as int);
    clip_fp(if (a < 0) != (b < 0) {
        -m
    } else {
        m
    })
}

/// Quotient of two scalars, truncated toward zero. Division by zero
/// saturates with the sign of the dividend, mirroring how floating
/// point yields an infinity.
pub open spec fn div_fp(a: int, b: int) -> int {
    if b == 0 {
        if a > 0 {
            FP_MAX as int
        } else if a < 0 {
            -FP_MAX as int
        } else {
            0
        }
    } else {
        let m = abs_fp(a) * (SCALE as int) / abs_fp(b);
        clip_fp(if (a < 0) != (b < 0) {
            -m
        } else {
            m
        })
    }
}

pub open spec fn min_fp(a: int, b: int) -> int {
    if a <= b {
        a
    } else {
        b
    }
}

pub open spec fn max_fp(a: int, b: int) -> int {
    if a >= b {
        a
    } else {
        b
    }
}

pub open spec fn clamp_fp(a: int, lo: int, hi: int) -> int {
    if a < lo {
        lo
    } else if a > hi {
        hi
    } else {
        a
    }
}

/// Integer square root, characterised recursively.
pub open spec fn isqrt_s(n: nat) -> nat
    decreases n,
{
    if n == 0 {
        0
    } else {
        let p = isqrt_s((n - 1) as nat);
        if (p + 1) * (p + 1) <= n {
            p + 1
        } else {
            p
        }
    }
}

/// Square root of a scalar: `sqrt_fp(a)` is the greatest `r` with
/// `r * r <= a * SCALE`, so that `r` again counts millionths.
/// Nonpositive inputs yield zero.
pub open spec fn sqrt_fp(a: int) -> int {
    if a <= 0 {
        0
    } else {
        isqrt_s((a * SCALE) as nat) as int
    }
}

pub proof fn lemma_isqrt_bounds(n: nat)
    ensures
        isqrt_s(n) * isqrt_s(n) <= n,
        n < (isqrt_s(n) + 1) * (isqrt_s(n) + 1),
    decreases n,
{
    if n > 0 {
        lemma_isqrt_bounds((n - 1) as nat);
        let p = isqrt_s((n - 1) as nat);
        let q = isqrt_s(n);
        if (p + 1) * (p + 1) <= n {
            assert(q == p + 1);
            assert(n < (q + 1) * (q + 1)) by (nonlinear_arith)
                requires
                    (n - 1) < (p + 1) * (p + 1),
                    q == p + 1,
            {
            }
            assert(n < (isqrt_s(n) + 1) * (isqrt_s(n) + 1));
        } else {
            assert(q == p);
            assert((q + 1) * (q + 1) == (p + 1) * (p + 1));
            assert(n < (isqrt_s(n) + 1) * (isqrt_s(n) + 1));
        }
    } else {
        assert(isqrt_s(n) == 0);
        assert(n < (isqrt_s(n) + 1) * (isqrt_s(n) + 1)) by (nonlinear_arith)
            requires
                n == 0,
                isqrt_s(n) == 0,
        {
        }
    }
}

pub proof fn lemma_isqrt_unique(n: nat, r: nat)
    requires
        r * r <= n,
        n < (r + 1) * (r + 1),
    ensures
        r == isqrt_s(n),
{
    lemma_isqrt_bounds(n);
    let q = isqrt_s(n);
    if r < q {
        assert((r + 1) * (r + 1) <= q * q) by (nonlinear_arith)
            requires
                r + 1 <= q,
        {
        }
    }
    if q < r {
        assert((q + 1) * (q + 1) <= r * r) by (nonlinear_arith)
            requires
                q + 1 <= r,
        {
        }
    }
}

/// Negating one factor negates a fixed-point product.
pub proof fn lemma_mul_fp_neg_left(a: int, b: int)
    ensures
        mul_fp(-a, b) == -mul_fp(a, b),
{
    let s = SCALE as int;
    vstd::arithmetic::mul::lemma_mul_nonnegative(abs_fp(a), abs_fp(b));
    vstd::arithmetic::div_mod::lemma_div_pos_is_pos(abs_fp(a) * abs_fp(b), s);
    assert(abs_fp(-a) == abs_fp(a));
    if a == 0 || b == 0 {
        assert(abs_fp(a) * abs_fp(b) == 0) by (nonlinear_arith)
            requires
                abs_fp(a) == 0 || abs_fp(b) == 0,
        {
        }
        vstd::arithmetic::div_mod::lemma_basic_div_specific_divisor(s);
    }
}

/// Negating both factors leaves a fixed-point product unchanged.
pub proof fn lemma_mul_fp_neg_both(a: int, b: int)
    ensures
        mul_fp(-a, -b) == mul_fp(a, b),
{
    let s = SCALE as int;
    vstd::arithmetic::mul::lemma_mul_nonnegative(abs_fp(a), abs_fp(b));
    vstd::arithmetic::div_mod::lemma_div_pos_is_pos(abs_fp(a) * abs_fp(b), s);
    assert(abs_fp(-a) == abs_fp(a));
    assert(abs_fp(-b) == abs_fp(b));
    if a == 0 || b == 0 {
        assert(abs_fp(a) * abs_fp(b) == 0) by (nonlinear_arith)
            requires
                abs_fp(a) == 0 || abs_fp(b) == 0,
        {
        }
        vstd::arithmetic::div_mod::lemma_basic_div_specific_divisor(s);
    }
}

/// Scaling `a` by a factor of at most one whole unit cannot grow it:
/// `mul_fp(a, b) <= a` whenever `0 <= b <= SCALE`.
pub proof fn lemma_mul_fp_le_left(a: int, b: int)
    requires
        0 <= a <= FP_MAX,
        0 <= b <= SCALE,
    ensures
        0 <= mul_fp(a, b) <= a,
{
    let s = SCALE as int;
    vstd::arithmetic::mul::lemma_mul_nonnegative(a, b);
    vstd::arithmetic::div_mod::lemma_div_pos_is_pos(a * b, s);
    vstd::arithmetic::mul::lemma_mul_inequality(b, s, a);
    assert(a * b == b * a) by (nonlinear_arith);
    assert(a * s == s * a) by (nonlinear_arith);
    vstd::arithmetic::div_mod::lemma_div_is_ordered(a * b, a * s, s);
    vstd::arithmetic::div_mod::lemma_div_multiples_vanish(a, s);
}

/// Division by a nonnegative scalar is monotone in the dividend.
pub proof fn lemma_div_fp_monotone(x: int, y: int, d: int)
    requires
        x <= y,
        d >= 0,
    ensures
        div_fp(x, d) <= div_fp(y, d),
{
    let s = SCALE as int;
    if d > 0 {
        if 0 <= x {
            vstd::arithmetic::mul::lemma_mul_inequality(x, y, s);
            vstd::arithmetic::div_mod::lemma_div_is_ordered(x * s, y * s, d);
            vstd::arithmetic::mul::lemma_mul_nonnegative(x, s);
            vstd::arithmetic::div_mod::lemma_div_pos_is_pos(x * s, d);
        } else if 0 <= y {
            vstd::arithmetic::mul::lemma_mul_nonnegative(-x, s);
            vstd::arithmetic::div_mod::lemma_div_pos_is_pos((-x) * s, d);
            vstd::arithmetic::mul::lemma_mul_nonnegative(y, s);
            vstd::arithmetic::div_mod::lemma_div_pos_is_pos(y * s, d);
        } else {
            vstd::arithmetic::mul::lemma_mul_inequality(-y, -x, s);
            vstd::arithmetic::div_mod::lemma_div_is_ordered((-y) * s, (-x) * s, d);
            vstd::arithmetic::mul::lemma_mul_nonnegative(-y, s);
            vstd::arithmetic::div_mod::lemma_div_pos_is_pos((-y) * s, d);
        }
    }
}

/// A scalar times itself is never negative.
pub proof fn lemma_mul_fp_self_nonneg(a: int)
    ensures
        0 <= mul_fp(a, a),
{
    vstd::arithmetic::mul::lemma_mul_nonnegative(abs_fp(a), abs_fp(a));
    vstd::arithmetic::div_mod::lemma_div_pos_is_pos(abs_fp(a) * abs_fp(a), SCALE as int);
}

/// Saturating addition.
pub fn fadd(a: i64, b: i64) -> (r: i64)
    requires
        fp_ok(a as int),
        fp_ok(b as int),
    ensures
        r == add_fp(a as int, b as int),
        fp_ok(r as int),
{
    let s: i128 = a as i128 + b as i128;
    if s > FP_MAX as i128 {
        FP_MAX
    } else if s < -(FP_MAX as i128) {
        -FP_MAX
    } else {
        s as i64
    }
}

/// Saturating subtraction.
pub fn fsub(a: i64, b: i64) -> (r: i64)
    requires
        fp_ok(a as int),
        fp_ok(b as int),
    ensures
        r == sub_fp(a as int, b as int),
        fp_ok(r as int),
{
    let s: i128 = a as i128 - b as i128;
    if s > FP_MAX as i128 {
        FP_MAX
    } else if s < -(FP_MAX as i128) {
        -FP_MAX
    } else {
        s as i64
    }
}

/// Negation.
pub fn fneg(a: i64) -> (r: i64)
    requires
        fp_ok(a as int),
    ensures
        r == neg_fp(a as int),
        fp_ok(r as int),
{
    -a
}

/// Magnitude of a scalar as an unsigned value.
fn mag_u128(a: i64) -> (r: u128)
    requires
        fp_ok(a as int),
    ensures
        r == abs_fp(a as int),
{
    if a >= 0 {
        a as u128
    } else {
        (-a) as u128
    }
}

/// Saturating fixed-point product: `a * b / SCALE`, truncated toward zero.
pub fn fmul(a: i64, b: i64) -> (r: i64)
    requires
        fp_ok(a as int),
        fp_ok(b as int),
    ensures
        r == mul_fp(a as int, b as int),
        fp_ok(r as int),
{
    let neg: bool = (a < 0) != (b < 0);
    let ma: u128 = mag_u128(a);
    let mb: u128 = mag_u128(b);
    assert(ma * mb <= (FP_MAX as int) * (FP_MAX as int)) by (nonlinear_arith)
        requires
            0 <= ma <= FP_MAX as int,
            0 <= mb <= FP_MAX as int,
    {
    }
    let m: u128 = (ma * mb) / (SCALE as u128);
    let clipped: u128 = if m > FP_MAX as u128 {
        FP_MAX as u128
    } else {
        m
    };
    if neg {
        -(clipped as i64)
    } else {
        clipped as i64
    }
}

/// Saturating fixed-point quotient: `a * SCALE / b`, truncated toward
/// zero; division by zero saturates with the sign of `a`.
pub fn fdiv(a: i64, b: i64) -> (r: i64)
    requires
        fp_ok(a as int),
        fp_ok(b as int),
    ensures
        r == div_fp(a as int, b as int),
        fp_ok(r as int),
{
    if b == 0 {
        if a > 0 {
            FP_MAX
        } else if a < 0 {
            -FP_MAX
        } else {
            0
        }
    } else {
        let neg: bool = (a < 0) != (b < 0);
        let ma: u128 = mag_u128(a);
        let mb: u128 = mag_u128(b);
        let m: u128 = (ma * (SCALE as u128)) / mb;
        assert(ma * (SCALE as int) <= (FP_MAX as int) * (SCALE as int)) by (nonlinear_arith)
            requires
                0 <= ma <= FP_MAX as int,
        {
        }
        let clipped: u128 = if m > FP_MAX as u128 {
            FP_MAX as u128
        } else {
            m
        };
        if neg {
            -(clipped as i64)
        } else {
            clipped as i64
        }
    }
}

/// Absolute value.
pub fn fabs(a: i64) -> (r: i64)
    requires
        fp_ok(a as int),
    ensures
        r == abs_fp(a as int),
        fp_ok(r as int),
{
    if a >= 0 {
        a
    } else {
        -a
    }
}

/// Minimum.
pub fn fmin(a: i64, b: i64) -> (r: i64)
    ensures
        r == min_fp(a as int, b as int),
{
    if a <= b {
        a
    } else {
        b
    }
}

/// Maximum.
pub fn fmax(a: i64, b: i64) -> (r: i64)
    ensures
        r == max_fp(a as int, b as int),
{
    if a >= b {
        a
    } else {
        b
    }
}

/// Clamp into `[lo, hi]`.
pub fn fclamp(a: i64, lo: i64, hi: i64) -> (r: i64)
    requires
        lo <= hi,
    ensures
        r == clamp_fp(a as int, lo as int, hi as int),
{
    if a < lo {
        lo
    } else if a > hi {
        hi
    } else {
        a
    }
}

/// Fixed-point square root: the greatest `r` with `r * r <= a * SCALE`.
pub fn fsqrt(a: i64) -> (r: i64)
    requires
        fp_ok(a as int),
    ensures
        r == sqrt_fp(a as int),
        0 <= r <= 2_000_000_000_000i64,
{
    if a <= 0 {
        return 0;
    }
    let n: u128 = (a as u128) * (SCALE as u128);
    let mut lo: u128 = 0;
    let mut hi: u128 = 2_000_000_000_000;
    assert(n < (hi + 1) * (hi + 1)) by (nonlinear_arith)
        requires
            n <= (FP_MAX as int) * (SCALE as int),
            hi == 2_000_000_000_000int,
    {
    }
    while lo < hi
        invariant
            lo <= hi <= 2_000_000_000_000,
            lo * lo <= n,
            n < (hi + 1) * (hi + 1),
        decreases hi - lo,
    {
        let mid: u128 = lo + (hi - lo + 1) / 2;
        assert(mid * mid < (2_000_000_000_001u128) * (2_000_000_000_001u128)) by (nonlinear_arith)
            requires
                0 <= mid <= 2_000_000_000_000int,
        {
        }
        if mid * mid <= n {
            lo = mid;
        } else {
            proof {
                lemma_sq_monotonic(mid as int, hi as int);
            }
            hi = mid - 1;
        }
    }
    proof {
        lemma_isqrt_unique(n as nat, lo as nat);
    }
    lo as i64
}

/// Sine by truncated Taylor series: `x - x^3/6 + x^5/120 - x^7/5040`,
/// accurate for arguments up to about a right angle.
pub open spec fn sin_fp(x: int) -> int {
    let x2 = mul_fp(x, x);
    let x3 = mul_fp(x2, x);
    let x5 = mul_fp(x3, x2);
    let x7 = mul_fp(x5, x2);
    sub_fp(add_fp(sub_fp(x, div_fp(x3, 6_000_000)), div_fp(x5, 120_000_000)), div_fp(
        x7,
        5_040_000_000,
    ))
}

/// Cosine by truncated Taylor series: `1 - x^2/2 + x^4/24 - x^6/720`.
pub open spec fn cos_fp(x: int) -> int {
    let x2 = mul_fp(x, x);
    let x4 = mul_fp(x2, x2);
    let x6 = mul_fp(x4, x2);
    sub_fp(add_fp(sub_fp(SCALE as int, div_fp(x2, 2_000_000)), div_fp(x4, 24_000_000)), div_fp(
        x6,
        720_000_000,
    ))
}

/// Tangent as the quotient of the series for sine and cosine.
pub open spec fn tan_fp(x: int) -> int {
    div_fp(sin_fp(x), cos_fp(x))
}

/// Sine, by the truncated series `sin_fp`.
pub fn fsin(x: i64) -> (r: i64)
    requires
        fp_ok(x as int),
    ensures
        r == sin_fp(x as int),
        fp_ok(r as int),
{
    let x2: i64 = fmul(x, x);
    let x3: i64 = fmul(x2, x);
    let x5: i64 = fmul(x3, x2);
    let x7: i64 = fmul(x5, x2);
    fsub(fadd(fsub(x, fdiv(x3, 6_000_000)), fdiv(x5, 120_000_000)), fdiv(x7, 5_040_000_000))
}

/// Cosine, by the truncated series `cos_fp`.
pub fn fcos(x: i64) -> (r: i64)
    requires
        fp_ok(x as int),
    ensures
        r == cos_fp(x as int),
        fp_ok(r as int),
{
    let x2: i64 = fmul(x, x);
    let x4: i64 = fmul(x2, x2);
    let x6: i64 = fmul(x4, x2);
    fsub(fadd(fsub(SCALE, fdiv(x2, 2_000_000)), fdiv(x4, 24_000_000)), fdiv(x6, 720_000_000))
}

/// Tangent, by the truncated series `tan_fp`.
pub fn ftan(x: i64) -> (r: i64)
    requires
        fp_ok(x as int),
    ensures
        r == tan_fp(x as int),
        fp_ok(r as int),
{
    fdiv(fsin(x), fcos(x))
}

/// Squares are monotone over the nonnegative integers.
proof fn lemma_sq_monotonic(a: int, b: int)
    requires
        0 <= a <= b,
    ensures
        a * a <= b * b,
{
    assert(a * a <= b * b) by (nonlinear_arith)
        requires
            0 <= a <= b,
    {
    }
}

} // verus!
