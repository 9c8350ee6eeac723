//! Saturating fixed-point scalar arithmetic.
//!
//! A scalar is an `i64` holding `SCALE` times its real value, so one stored
//! unit is `1/SCALE`. Every operation clamps its result into
//! `[-FX_MAX, FX_MAX]`, which keeps all stored field values inside a range
//! where sums and products provably fit the machine integers. Division
//! rounds toward negative infinity (the quotient of Euclidean division by a
//! positive divisor), and each executable operation is proved equal to its
//! exact integer specification.

use vstd::arithmetic::div_mod::{lemma_div_is_ordered, lemma_fundamental_div_mod};
use vstd::prelude::*;

verus! {

/// Number of stored units in one real unit.
pub const SCALE: i64 = 1_000_000;

/// Largest magnitude a scalar may hold (one million real units).
pub const FX_MAX: i64 = 1_000_000_000_000;

/// Largest magnitude accepted as an operand: four saturated scalars summed.
pub const FX_ARG_MAX: i64 = 4 * FX_MAX;

pub open spec fn fx_in_range(v: int) -> bool {
    -FX_MAX <= v <= FX_MAX
}

pub open spec fn fx_arg_ok(v: int) -> bool {
    -FX_ARG_MAX <= v <= FX_ARG_MAX
}

/// Saturation of an exact result into the representable range.
pub open spec fn fx_clamp(v: int) -> int {
    if v > FX_MAX {
        FX_MAX as int
    } else if v < -FX_MAX {
        -FX_MAX as int
    } else {
        v
    }
}

pub open spec fn fx_add_s(a: int, b: int) -> int {
    fx_clamp(a + b)
}

pub open spec fn fx_sub_s(a: int, b: int) -> int {
    fx_clamp(a - b)
}

/// Product of two scalars, rescaled with floor rounding.
pub open spec fn fx_mul_s(a: int, b: int) -> int {
    fx_clamp((a * b) / (SCALE as int))
}

/// Quotient of two scalars, rescaled with floor rounding; meaningful for
/// positive divisors only.
pub open spec fn fx_div_s(a: int, b: int) -> int {
    fx_clamp((a * SCALE) / b)
}

/// Midpoint with floor rounding; exact, never clamped.
pub open spec fn fx_avg_s(a: int, b: int) -> int {
    (a + b) / 2
}

/// The quotient of Euclidean division by a positive divisor lies between the
/// dividend and zero.
pub proof fn lemma_div_span(a: int, b: int)
    requires
        b >= 1,
    ensures
        a >= 0 ==> 0 <= a / b <= a,
        a < 0 ==> a <= a / b <= 0,
{
    lemma_fundamental_div_mod(a, b);
    let q = a / b;
    let r = a % b;
    if a >= 0 {
        lemma_div_is_ordered(0, a, b);
        assert(a / b <= a) by (nonlinear_arith)
            requires
                b >= 1,
                a >= 0,
                a == b * (a / b) + (a % b),
                0 <= a % b < b,
        ;
    } else {
        lemma_div_is_ordered(a, 0, b);
        assert(a <= a / b) by (nonlinear_arith)
            requires
                b >= 1,
                a < 0,
                a == b * (a / b) + (a % b),
                0 <= a % b < b,
        ;
    }
}

fn clamp_wide(v: i128) -> (r: i64)
    ensures
        r == fx_clamp(v as int),
        fx_in_range(r as int),
{
    if v > FX_MAX as i128 {
        FX_MAX
    } else if v < -FX_MAX as i128 {
        -FX_MAX
    } else {
        v as i64
    }
}

/// Euclidean (floor) division by a positive divisor.
pub fn floor_div(a: i64, b: i64) -> (r: i64)
    requires
        1 <= b,
    ensures
        r == a as int / b as int,
{
    proof {
        lemma_div_span(a as int, b as int);
    }
    let q = a.checked_div_euclid(b);
    q.unwrap()
}

fn floor_div_wide(a: i128, b: i128) -> (r: i128)
    requires
        1 <= b,
    ensures
        r == a as int / b as int,
{
    proof {
        lemma_div_span(a as int, b as int);
    }
    let q = a.checked_div_euclid(b);
    q.unwrap()
}

/// Saturating sum.
pub fn fx_add(a: i64, b: i64) -> (r: i64)
    requires
        fx_arg_ok(a as int),
        fx_arg_ok(b as int),
    ensures
        r == fx_add_s(a as int, b as int),
        fx_in_range(r as int),
{
    clamp_wide(a as i128 + b as i128)
}

/// Saturating difference.
pub fn fx_sub(a: i64, b: i64) -> (r: i64)
    requires
        fx_arg_ok(a as int),
        fx_arg_ok(b as int),
    ensures
        r == fx_sub_s(a as int, b as int),
        fx_in_range(r as int),
{
    clamp_wide(a as i128 - b as i128)
}

/// Saturating rescaled product.
pub fn fx_mul(a: i64, b: i64) -> (r: i64)
    ensures
        r == fx_mul_s(a as int, b as int),
        fx_in_range(r as int),
{
    proof {
        assert(-0x40000000000000000000000000000000 <= (a as int) * (b as int)
            <= 0x40000000000000000000000000000000) by (nonlinear_arith)
            requires
                i64::MIN <= a <= i64::MAX,
                i64::MIN <= b <= i64::MAX,
        ;
    }
    let wide: i128 = (a as i128) * (b as i128);
    let q = floor_div_wide(wide, SCALE as i128);
    clamp_wide(q)
}

/// Saturating rescaled quotient; the divisor must be positive.
pub fn fx_div(a: i64, b: i64) -> (r: i64)
    requires
        1 <= b,
    ensures
        r == fx_div_s(a as int, b as int),
        fx_in_range(r as int),
{
    proof {
        assert((a as int) * (SCALE as int) <= 0x40000000000000000000000000000000
            && -0x40000000000000000000000000000000 <= (a as int) * (SCALE as int))
            by (nonlinear_arith)
            requires
                i64::MIN <= a <= i64::MAX,
        ;
    }
    let wide: i128 = (a as i128) * (SCALE as i128);
    let q = floor_div_wide(wide, b as i128);
    clamp_wide(q)
}

/// The integer square root: the unique `r` with `r * r <= n < (r + 1) * (r + 1)`.
pub open spec fn isqrt_s(n: nat) -> nat {
    choose|r: nat| #[trigger] (r * r) <= n && n < (r + 1) * (r + 1)
}

/// `isqrt_s` really is that unique root.
pub proof fn lemma_isqrt_unique(n: nat, r: nat)
    requires
        r * r <= n < (r + 1) * (r + 1),
    ensures
        isqrt_s(n) == r,
{
    assert(exists|q: nat| #[trigger] (q * q) <= n && n < (q + 1) * (q + 1)) by {
        assert(r * r <= n && n < (r + 1) * (r + 1));
    }
    let c = isqrt_s(n);
    assert(c == r) by (nonlinear_arith)
        requires
            c * c <= n < (c + 1) * (c + 1),
            r * r <= n < (r + 1) * (r + 1),
    ;
}

/// Integer square root by bisection.
pub fn isqrt(n: u128) -> (r: u64)
    ensures
        (r as int) * (r as int) <= n as int,
        (n as int) < (r as int + 1) * (r as int + 1),
        r as nat == isqrt_s(n as nat),
{
    let mut lo: u128 = 0;
    let mut hi: u128 = 0x10000000000000000;
    proof {
        assert((hi as int) * (hi as int) > u128::MAX as int) by (nonlinear_arith)
            requires
                hi == 0x10000000000000000,
        ;
    }
    while lo + 1 < hi
        invariant
            lo < hi <= 0x10000000000000000,
            (lo as int) * (lo as int) <= n as int,
            (n as int) < (hi as int) * (hi as int),
        decreases hi - lo,
    {
        let gap = hi - lo;
        proof {
            lemma_fundamental_div_mod(gap as int, 2);
        }
        let half = gap / 2;
        let mid = lo + half;
        proof {
            assert((mid as int) * (mid as int) <= u128::MAX as int) by (nonlinear_arith)
                requires
                    mid < 0x10000000000000000,
            ;
        }
        let sq = mid * mid;
        if sq <= n {
            lo = mid;
        } else {
            hi = mid;
        }
    }
    proof {
        lemma_isqrt_unique(n as nat, lo as nat);
    }
    lo as u64
}

/// One full turn, in fixed-point radians.
pub const TWO_PI_FX: i64 = 6_283_185;

/// Half a turn, in fixed-point radians.
pub const PI_FX: i64 = 3_141_592;

/// A quarter turn, in fixed-point radians.
pub const HALF_PI_FX: i64 = 1_570_796;

/// The cosine polynomial `1 - x^2/2 + x^4/24 - x^6/720`, evaluated in fixed
/// point; accurate on a quarter turn.
pub open spec fn cos_poly_s(x: int) -> int {
    let x2 = fx_mul_s(x, x);
    let x4 = fx_mul_s(x2, x2);
    let x6 = fx_mul_s(x4, x2);
    fx_sub_s(fx_add_s(fx_sub_s(SCALE as int, x2 / 2), x4 / 24), x6 / 720)
}

/// Cosine of a nonnegative angle: the angle is reduced into a quarter turn
/// by periodicity and the mirror symmetries of the cosine, then the
/// polynomial is evaluated there.
pub open spec fn cos_s(t: int) -> int {
    let r = t % (TWO_PI_FX as int);
    let r2 = if r > PI_FX {
        TWO_PI_FX - r
    } else {
        r
    };
    if r2 > HALF_PI_FX {
        -cos_poly_s(PI_FX - r2)
    } else {
        cos_poly_s(r2)
    }
}

fn cos_poly(x: i64) -> (r: i64)
    ensures
        r as int == cos_poly_s(x as int),
        fx_in_range(r as int),
{
    let x2 = fx_mul(x, x);
    let x4 = fx_mul(x2, x2);
    let x6 = fx_mul(x4, x2);
    proof {
        lemma_div_span(x2 as int, 2);
        lemma_div_span(x4 as int, 24);
        lemma_div_span(x6 as int, 720);
    }
    let a = fx_sub(SCALE, floor_div(x2, 2));
    let b = fx_add(a, floor_div(x4, 24));
    fx_sub(b, floor_div(x6, 720))
}

/// Cosine of a nonnegative fixed-point angle.
pub fn cos_fx(t: i64) -> (r: i64)
    requires
        0 <= t,
    ensures
        r as int == cos_s(t as int),
        fx_in_range(r as int),
{
    let rem = ((t as u64) % (TWO_PI_FX as u64)) as i64;
    let r2 = if rem > PI_FX {
        TWO_PI_FX - rem
    } else {
        rem
    };
    if r2 > HALF_PI_FX {
        let c = cos_poly(PI_FX - r2);
        -c
    } else {
        cos_poly(r2)
    }
}

/// Exact midpoint of two bounded scalars.
pub fn fx_avg(a: i64, b: i64) -> (r: i64)
    requires
        fx_arg_ok(a as int),
        fx_arg_ok(b as int),
    ensures
        r == fx_avg_s(a as int, b as int),
        fx_arg_ok(r as int),
{
    proof {
        lemma_div_span(a as int + b as int, 2);
    }
    let wide: i128 = a as i128 + b as i128;
    let q = floor_div_wide(wide, 2);
    q as i64
}

} // verus!
