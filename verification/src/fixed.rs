//! Saturating fixed-point scalars.
//!
//! A scalar is an `i64` holding a real number times `SCALE`. Addition and
//! multiplication saturate at the `i64` range instead of overflowing, and
//! multiplication truncates toward zero after rescaling, so every operation
//! is total and its result is pinned exactly by a spec function.

use vstd::prelude::*;

verus! {

/// Number of fixed-point units per 1.0: scalars hold billionths.
pub const SCALE: i64 = 1_000_000_000;

/// Clamp a mathematical integer into the `i64` range.
pub open spec fn sat64(x: int) -> int {
    if x > i64::MAX as int {
        i64::MAX as int
    } else if x < i64::MIN as int {
        i64::MIN as int
    } else {
        x
    }
}

/// Absolute value of a mathematical integer.
pub open spec fn abs_int(x: int) -> int {
    if x < 0 {
        -x
    } else {
        x
    }
}

/// Division truncating toward zero (the rounding the executable code uses),
/// defined for a positive divisor.
pub open spec fn div_trunc(x: int, d: int) -> int
    recommends
        d > 0,
{
    if x >= 0 {
        x / d
    } else {
        -((-x) / d)
    }
}

/// Saturating fixed-point addition.
pub open spec fn fx_add_spec(a: int, b: int) -> int {
    sat64(a + b)
}

/// Saturating fixed-point subtraction.
pub open spec fn fx_sub_spec(a: int, b: int) -> int {
    sat64(a - b)
}

/// Saturating fixed-point multiplication: rescale the exact product by
/// `SCALE`, truncating toward zero.
pub open spec fn fx_mul_spec(a: int, b: int) -> int {
    sat64(div_trunc(a * b, SCALE as int))
}

/// The product of two `i64` values stays well inside the `i128` range.
proof fn lemma_i64_product_fits(a: int, b: int)
    by (nonlinear_arith)
    requires
        i64::MIN <= a <= i64::MAX,
        i64::MIN <= b <= i64::MAX,
    ensures
        a * b <= 0x4000_0000_0000_0000_0000_0000_0000_0000,
        a * b >= -0x4000_0000_0000_0000_0000_0000_0000_0000,
{
}

/// Fixed-point addition; saturates at the `i64` range.
pub fn fx_add(a: i64, b: i64) -> (r: i64)
    ensures
        r == fx_add_spec(a as int, b as int),
{
    let s: i128 = a as i128 + b as i128;
    if s > i64::MAX as i128 {
        i64::MAX
    } else if s < i64::MIN as i128 {
        i64::MIN
    } else {
        s as i64
    }
}

/// Fixed-point subtraction; saturates at the `i64` range.
pub fn fx_sub(a: i64, b: i64) -> (r: i64)
    ensures
        r == fx_sub_spec(a as int, b as int),
{
    let s: i128 = a as i128 - b as i128;
    if s > i64::MAX as i128 {
        i64::MAX
    } else if s < i64::MIN as i128 {
        i64::MIN
    } else {
        s as i64
    }
}

/// Saturating fixed-point division: rescale the dividend by `SCALE`, then
/// divide truncating toward zero. Defined for a positive divisor.
pub open spec fn fx_div_spec(a: int, b: int) -> int
    recommends
        b >= 1,
{
    sat64(div_trunc(a * SCALE, b))
}

/// The integer square root, the largest `r` with `r * r <= x`.
pub open spec fn int_sqrt(x: int) -> int
    decreases x,
{
    if x <= 0 {
        0
    } else {
        let p = int_sqrt(x - 1);
        if (p + 1) * (p + 1) <= x {
            p + 1
        } else {
            p
        }
    }
}

/// Square root of a fixed-point scalar: `sqrt(x / SCALE) * SCALE`
/// rounded down is the integer square root of `x * SCALE`.
pub open spec fn fx_sqrt_spec(x: int) -> int
    recommends
        x >= 0,
{
    int_sqrt(x * SCALE)
}

/// The integer square root is characterized by its two bounds.
pub proof fn lemma_int_sqrt_bounds(x: int)
    requires
        x >= 0,
    ensures
        int_sqrt(x) >= 0,
        int_sqrt(x) * int_sqrt(x) <= x,
        x < (int_sqrt(x) + 1) * (int_sqrt(x) + 1),
    decreases x,
{
    if x > 0 {
        lemma_int_sqrt_bounds(x - 1);
        let p = int_sqrt(x - 1);
        if (p + 1) * (p + 1) <= x {
            assert(x < (p + 2) * (p + 2)) by (nonlinear_arith)
                requires
                    p >= 0,
                    x - 1 < (p + 1) * (p + 1),
                    (p + 1) * (p + 1) <= x,
            ;
        }
    }
}

/// Any value within the square-root bounds is the integer square root.
pub proof fn lemma_int_sqrt_unique(x: int, r: int)
    requires
        x >= 0,
        r >= 0,
        r * r <= x,
        x < (r + 1) * (r + 1),
    ensures
        r == int_sqrt(x),
{
    lemma_int_sqrt_bounds(x);
    let s = int_sqrt(x);
    assert(r == s) by (nonlinear_arith)
        requires
            r >= 0,
            s >= 0,
            r * r <= x,
            x < (r + 1) * (r + 1),
            s * s <= x,
            x < (s + 1) * (s + 1),
    ;
}

/// Integer square root by binary search.
fn isqrt_u128(x: u128) -> (r: u128)
    requires
        x <= 0x4000_0000_0000_0000_0000_0000u128,
    ensures
        r == int_sqrt(x as int),
        r <= 0x1_0000_0000_0000u128,
{
    let mut lo: u128 = 0;
    let mut hi: u128 = 0x1_0000_0000_0001u128;
    proof {
        assert((hi as int) * (hi as int) > x) by (nonlinear_arith)
            requires
                hi == 0x1_0000_0000_0001u128,
                x <= 0x4000_0000_0000_0000_0000_0000u128,
        ;
    }
    while lo + 1 < hi
        invariant
            lo < hi <= 0x1_0000_0000_0001u128,
            (lo as int) * (lo as int) <= x as int,
            (x as int) < (hi as int) * (hi as int),
        decreases hi - lo,
    {
        let mid: u128 = lo + (hi - lo) / 2;
        proof {
            vstd::arithmetic::mul::lemma_mul_upper_bound(
                mid as int,
                0x1_0000_0000_0001,
                mid as int,
                0x1_0000_0000_0001,
            );
        }
        if mid * mid <= x {
            lo = mid;
        } else {
            hi = mid;
        }
    }
    proof {
        lemma_int_sqrt_unique(x as int, lo as int);
    }
    lo
}

/// Fixed-point square root of a non-negative scalar.
pub fn fx_sqrt(x: i64) -> (r: i64)
    requires
        x >= 0,
    ensures
        r == fx_sqrt_spec(x as int),
        r >= 0,
{
    proof {
        lemma_i64_product_fits(x as int, SCALE as int);
    }
    let wide: u128 = (x as u128) * (SCALE as u128);
    let root = isqrt_u128(wide);
    proof {
        lemma_int_sqrt_bounds(wide as int);
    }
    root as i64
}

/// Fixed-point division by a positive divisor; truncates toward zero and
/// saturates.
pub fn fx_div(a: i64, b: i64) -> (r: i64)
    requires
        b >= 1,
    ensures
        r == fx_div_spec(a as int, b as int),
{
    proof {
        lemma_i64_product_fits(a as int, SCALE as int);
    }
    let p: i128 = a as i128 * SCALE as i128;
    if p >= 0 {
        let q: u128 = (p as u128) / (b as u128);
        if q > i64::MAX as u128 {
            i64::MAX
        } else {
            q as i64
        }
    } else {
        let q: u128 = ((-p) as u128) / (b as u128);
        if q >= 9_223_372_036_854_775_808u128 {
            i64::MIN
        } else {
            -(q as i64)
        }
    }
}

/// Fixed-point multiplication; truncates toward zero and saturates.
pub fn fx_mul(a: i64, b: i64) -> (r: i64)
    ensures
        r == fx_mul_spec(a as int, b as int),
{
    proof {
        lemma_i64_product_fits(a as int, b as int);
    }
    let p: i128 = a as i128 * b as i128;
    if p >= 0 {
        let q: u128 = (p as u128) / (SCALE as u128);
        if q > i64::MAX as u128 {
            i64::MAX
        } else {
            q as i64
        }
    } else {
        let q: u128 = ((-p) as u128) / (SCALE as u128);
        if q >= 9_223_372_036_854_775_808u128 {
            i64::MIN
        } else {
            -(q as i64)
        }
    }
}

} // verus!
