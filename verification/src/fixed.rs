//! Signed 64-bit fixed-point arithmetic in micro-units.
//!
//! One unit is `1/1_000_000` of a physical unit (metre, second, degree,
//! newton).  Products and quotients are truncated toward zero, the machine
//! convention, and every result saturates at the `i64` range, so each
//! operation is total and its contract states the exact result.

use vstd::prelude::*;

verus! {

/// Number of raw steps in one unit.
pub const FX_SCALE: i64 = 1_000_000;

/// Magnitude of a mathematical integer.
pub open spec fn spec_abs(v: int) -> int {
    if v >= 0 {
        v
    } else {
        -v
    }
}

/// Saturation of a mathematical integer into the `i64` range.
pub open spec fn spec_clip(v: int) -> int {
    if v > i64::MAX {
        i64::MAX as int
    } else if v < i64::MIN {
        i64::MIN as int
    } else {
        v
    }
}

/// Division truncated toward zero, the machine convention for `/`.
pub open spec fn spec_tdiv(p: int, d: int) -> int
    recommends
        d != 0,
{
    if (p < 0) == (d < 0) {
        spec_abs(p) / spec_abs(d)
    } else {
        -(spec_abs(p) / spec_abs(d))
    }
}

/// `a + b`, saturated.
pub open spec fn spec_fx_add(a: int, b: int) -> int {
    spec_clip(a + b)
}

/// `a - b`, saturated.
pub open spec fn spec_fx_sub(a: int, b: int) -> int {
    spec_clip(a - b)
}

/// `a * b` in fixed point: the product of the raw values scaled back down,
/// truncated toward zero, saturated.
pub open spec fn spec_fx_mul(a: int, b: int) -> int {
    spec_clip(spec_tdiv(a * b, FX_SCALE as int))
}

/// `a / b` in fixed point, truncated toward zero, saturated; zero when the
/// divisor is zero so that the operation is total.
pub open spec fn spec_fx_div(a: int, b: int) -> int {
    if b == 0 {
        0
    } else {
        spec_clip(spec_tdiv(a * (FX_SCALE as int), b))
    }
}

/// Exact halving, truncated toward zero.
pub open spec fn spec_fx_half(v: int) -> int {
    spec_tdiv(v, 2)
}

/// Exact division by six, truncated toward zero.
pub open spec fn spec_fx_sixth(v: int) -> int {
    spec_tdiv(v, 6)
}

/// The square root witness: the unique nonnegative `r` with
/// `r * r <= n < (r + 1) * (r + 1)`.
pub open spec fn spec_isqrt(n: int) -> int {
    choose|r: int| 0 <= r && #[trigger] (r * r) <= n < (r + 1) * (r + 1)
}

/// Fixed-point square root: `sqrt(a / S) * S == sqrt(a * S)` on raw values;
/// zero for non-positive inputs.
pub open spec fn spec_fx_sqrt(a: int) -> int {
    if a <= 0 {
        0
    } else {
        spec_isqrt(a * (FX_SCALE as int))
    }
}

/// Two integer square roots of the same value are equal.
pub proof fn lemma_isqrt_unique(n: int, r1: int, r2: int)
    requires
        0 <= r1,
        r1 * r1 <= n < (r1 + 1) * (r1 + 1),
        0 <= r2,
        r2 * r2 <= n < (r2 + 1) * (r2 + 1),
    ensures
        r1 == r2,
{
    if r1 < r2 {
        assert((r1 + 1) * (r1 + 1) <= r2 * r2) by (nonlinear_arith)
            requires
                0 <= r1,
                r1 + 1 <= r2,
        ;
    }
    if r2 < r1 {
        assert((r2 + 1) * (r2 + 1) <= r1 * r1) by (nonlinear_arith)
            requires
                0 <= r2,
                r2 + 1 <= r1,
        ;
    }
}

/// The magnitude of a product is the product of the magnitudes.
proof fn lemma_abs_mul(a: int, b: int)
    ensures
        spec_abs(a) * spec_abs(b) == spec_abs(a * b),
        (a * b < 0) ==> ((a < 0) != (b < 0)),
        (a * b > 0) ==> ((a < 0) == (b < 0)),
{
    if a >= 0 && b >= 0 {
        assert(a * b >= 0) by (nonlinear_arith)
            requires
                a >= 0,
                b >= 0,
        ;
    } else if a >= 0 && b < 0 {
        assert(a * b <= 0 && a * (-b) == -(a * b)) by (nonlinear_arith)
            requires
                a >= 0,
                b < 0,
        ;
    } else if a < 0 && b >= 0 {
        assert(a * b <= 0 && (-a) * b == -(a * b)) by (nonlinear_arith)
            requires
                a < 0,
                b >= 0,
        ;
    } else {
        assert(a * b > 0 && (-a) * (-b) == a * b) by (nonlinear_arith)
            requires
                a < 0,
                b < 0,
        ;
    }
}

/// Saturates a sign/magnitude pair into the `i64` range.
fn clip_signed(neg: bool, q: u128) -> (r: i64)
    ensures
        r as int == spec_clip(
            if neg {
                -(q as int)
            } else {
                q as int
            },
        ),
{
    if neg {
        if q >= 0x8000_0000_0000_0000u128 {
            i64::MIN
        } else {
            -(q as i64)
        }
    } else {
        if q > i64::MAX as u128 {
            i64::MAX
        } else {
            q as i64
        }
    }
}

/// Splits a value into sign and magnitude.
fn sign_mag(a: i64) -> (r: (bool, u128))
    ensures
        r.1 as int == spec_abs(a as int),
        r.0 == (a < 0),
        r.1 <= 0x8000_0000_0000_0000u128,
{
    let ai: i128 = a as i128;
    if ai < 0 {
        (true, (-ai) as u128)
    } else {
        (false, ai as u128)
    }
}

/// Saturating fixed-point addition.
pub fn fx_add(a: i64, b: i64) -> (r: i64)
    ensures
        r as int == spec_fx_add(a as int, b as int),
{
    let s: i128 = a as i128 + b as i128;
    if s > i64::MAX as i128 {
        i64::MAX
    } else if s < i64::MIN as i128 {
        i64::MIN
    } else {
        s as i64
    }
}

/// Saturating fixed-point subtraction.
pub fn fx_sub(a: i64, b: i64) -> (r: i64)
    ensures
        r as int == spec_fx_sub(a as int, b as int),
{
    let s: i128 = a as i128 - b as i128;
    if s > i64::MAX as i128 {
        i64::MAX
    } else if s < i64::MIN as i128 {
        i64::MIN
    } else {
        s as i64
    }
}

/// Fixed-point multiplication: exact product, scaled back, truncated,
/// saturated.
pub fn fx_mul(a: i64, b: i64) -> (r: i64)
    ensures
        r as int == spec_fx_mul(a as int, b as int),
{
    let (na, ma) = sign_mag(a);
    let (nb, mb) = sign_mag(b);
    proof {
        assert(ma * mb <= 0x8000_0000_0000_0000 * 0x8000_0000_0000_0000) by (nonlinear_arith)
            requires
                ma <= 0x8000_0000_0000_0000u128,
                mb <= 0x8000_0000_0000_0000u128,
        ;
    }
    let p: u128 = ma * mb;
    let q: u128 = p / (FX_SCALE as u128);
    proof {
        lemma_abs_mul(a as int, b as int);
        assert(q as int == spec_abs((a as int) * (b as int)) / (FX_SCALE as int));
    }
    clip_signed((na != nb) && q > 0, q)
}

/// Fixed-point division: zero when the divisor is zero, else exact quotient
/// of the rescaled value, truncated, saturated.
pub fn fx_div(a: i64, b: i64) -> (r: i64)
    ensures
        r as int == spec_fx_div(a as int, b as int),
{
    if b == 0 {
        return 0;
    }
    let (na, ma) = sign_mag(a);
    let (nb, mb) = sign_mag(b);
    proof {
        assert(ma * (FX_SCALE as u128) <= 0x8000_0000_0000_0000u128 * 0x100000u128)
            by (nonlinear_arith)
            requires
                ma <= 0x8000_0000_0000_0000u128,
                (FX_SCALE as u128) <= 0x100000u128,
        ;
    }
    let p: u128 = ma * (FX_SCALE as u128);
    let q: u128 = p / mb;
    proof {
        lemma_abs_mul(a as int, FX_SCALE as int);
        assert(spec_abs((a as int) * (FX_SCALE as int)) == ma * (FX_SCALE as int));
        assert((a as int) * (FX_SCALE as int) < 0 <==> a < 0) by (nonlinear_arith)
            requires
                FX_SCALE == 1_000_000i64,
        ;
    }
    clip_signed((na != nb) && q > 0, q)
}

/// Exact halving, truncated toward zero.
pub fn fx_half(v: i64) -> (r: i64)
    ensures
        r as int == spec_fx_half(v as int),
{
    let (n, m) = sign_mag(v);
    let q: u128 = m / 2;
    clip_signed(n && q > 0, q)
}

/// Exact division by six, truncated toward zero.
pub fn fx_sixth(v: i64) -> (r: i64)
    ensures
        r as int == spec_fx_sixth(v as int),
{
    let (n, m) = sign_mag(v);
    let q: u128 = m / 6;
    clip_signed(n && q > 0, q)
}

/// Integer square root by bisection.
fn isqrt_u128(n: u128) -> (r: u64)
    ensures
        (r as int) * (r as int) <= n as int,
        (n as int) < (r as int + 1) * (r as int + 1),
{
    let mut lo: u128 = 0;
    let mut hi: u128 = 1u128 << 64;
    proof {
        assert((1u128 << 64) == 0x1_0000_0000_0000_0000u128) by (bit_vector);
        assert(n as int <= u128::MAX);
        assert(u128::MAX < 0x1_0000_0000_0000_0000 * 0x1_0000_0000_0000_0000);
        assert((hi as int) * (hi as int) > n as int) by (nonlinear_arith)
            requires
                hi as int == 0x1_0000_0000_0000_0000,
                (n as int) < 0x1_0000_0000_0000_0000 * 0x1_0000_0000_0000_0000,
        ;
    }
    while lo + 1 < hi
        invariant
            lo < hi,
            hi <= 0x1_0000_0000_0000_0000u128,
            (lo as int) * (lo as int) <= n as int,
            (hi as int) * (hi as int) > n as int,
        decreases hi - lo,
    {
        let mid: u128 = lo + (hi - lo) / 2;
        proof {
            assert(mid * mid <= 0xffff_ffff_ffff_ffffu128 * 0xffff_ffff_ffff_ffffu128)
                by (nonlinear_arith)
                requires
                    mid <= 0xffff_ffff_ffff_ffffu128,
            ;
        }
        if mid * mid <= n {
            lo = mid;
        } else {
            hi = mid;
        }
    }
    proof {
        assert(hi as int == lo as int + 1);
    }
    lo as u64
}

/// Fixed-point square root of a nonnegative value; zero for non-positive
/// inputs.
pub fn fx_sqrt(a: i64) -> (r: i64)
    ensures
        r as int == spec_fx_sqrt(a as int),
        r >= 0,
{
    if a <= 0 {
        return 0;
    }
    proof {
        assert((a as u128) * (FX_SCALE as u128) < 0x8000_0000_0000_0000u128 * 0x100000u128)
            by (nonlinear_arith)
            requires
                (a as u128) < 0x8000_0000_0000_0000u128,
                0 < (FX_SCALE as u128) <= 0x100000u128,
        ;
    }
    let n: u128 = (a as u128) * (FX_SCALE as u128);
    let r = isqrt_u128(n);
    proof {
        if r as int >= 0x400_0000_0000 {
            assert((r as int) * (r as int) >= 0x400_0000_0000 * 0x400_0000_0000)
                by (nonlinear_arith)
                requires
                    r as int >= 0x400_0000_0000,
            ;
        }
        assert((n as int) < 0x400_0000_0000 * 0x400_0000_0000);
        assert((r as int) < 0x400_0000_0000);
        let w = spec_isqrt(n as int);
        assert(0 <= r as int && (r as int) * (r as int) <= n as int && (n as int) < (r as int + 1)
            * (r as int + 1));
        lemma_isqrt_unique(n as int, w, r as int);
    }
    r as i64
}

} // verus!
