//! Fixed-point scalar arithmetic.
//!
//! A coordinate is an `i64` holding a real number scaled by `SCALE` (2^16),
//! so `ONE` is the real number one. Every operation is total: results that
//! would leave the `i64` range saturate to `i64::MIN` / `i64::MAX`, and a
//! division by zero saturates by the sign of the dividend. Each executable
//! operation is pinned to a spec-level function over unbounded integers.

use vstd::prelude::*;

verus! {

/// A real number scaled by `SCALE`.
pub type Fx = i64;

/// Scale factor between a fixed-point value and the real it stands for.
pub const SCALE: i64 = 65536;

/// Fixed-point one.
pub const ONE: i64 = 65536;

pub const MIN_FX: i64 = i64::MIN;

pub const MAX_FX: i64 = i64::MAX;

/// Clamp an unbounded integer into the representable range.
pub open spec fn sat(x: int) -> int {
    if x > MAX_FX as int {
        MAX_FX as int
    } else if x < MIN_FX as int {
        MIN_FX as int
    } else {
        x
    }
}

/// Quotient rounded toward zero, for a positive divisor.
pub open spec fn quot_z(a: int, b: int) -> int {
    if a >= 0 {
        a / b
    } else {
        -((-a) / b)
    }
}

/// What the fixed-point product of `a` and `b` is: the real product, scaled
/// back down toward zero, then clamped.
pub open spec fn spec_mul(a: int, b: int) -> int {
    sat(quot_z(a * b, SCALE as int))
}

/// What the fixed-point quotient of `a` by `b` is. A zero divisor saturates
/// by the sign of the dividend.
pub open spec fn spec_div(a: int, b: int) -> int {
    if b == 0 {
        if a > 0 {
            MAX_FX as int
        } else if a < 0 {
            MIN_FX as int
        } else {
            0
        }
    } else if b > 0 {
        sat(quot_z(a * SCALE, b))
    } else {
        sat(-quot_z(a * SCALE, -b))
    }
}

/// Clamp a wide intermediate result back into the fixed-point range.
fn clamp_wide(x: i128) -> (r: i64)
    ensures
        r as int == sat(x as int),
{
    if x > MAX_FX as i128 {
        MAX_FX
    } else if x < MIN_FX as i128 {
        MIN_FX
    } else {
        x as i64
    }
}

/// Saturating fixed-point sum.
pub fn add(a: i64, b: i64) -> (r: i64)
    ensures
        r as int == sat(a + b),
{
    clamp_wide(a as i128 + b as i128)
}

/// Saturating fixed-point difference.
pub fn sub(a: i64, b: i64) -> (r: i64)
    ensures
        r as int == sat(a - b),
{
    clamp_wide(a as i128 - b as i128)
}

/// Saturating negation.
pub fn neg(a: i64) -> (r: i64)
    ensures
        r as int == sat(-a),
{
    clamp_wide(-(a as i128))
}

/// Quotient of a wide value by `SCALE`, rounded toward zero.
fn quot_scale(p: i128) -> (q: i128)
    requires
        -0x8000_0000_0000_0000_0000_0000_0000_0000 < p,
    ensures
        q as int == quot_z(p as int, SCALE as int),
{
    if p >= 0 {
        let m: u128 = p as u128;
        let q: u128 = m / 65536;
        q as i128
    } else {
        let m: u128 = (-p) as u128;
        let q: u128 = m / 65536;
        -(q as i128)
    }
}

/// A product of two magnitude-bounded factors is magnitude-bounded.
pub proof fn lemma_mul_bound(a: int, b: int, m: int)
    requires
        -m <= a <= m,
        -m <= b <= m,
    ensures
        -(m * m) <= a * b <= m * m,
{
    let ma = if a >= 0 { a } else { -a };
    let mb = if b >= 0 { b } else { -b };
    assert(ma * mb <= m * m) by (nonlinear_arith)
        requires
            0 <= ma <= m,
            0 <= mb <= m,
    ;
    assert(a * b == ma * mb || a * b == -(ma * mb)) by (nonlinear_arith)
        requires
            ma == if a >= 0 { a } else { -a },
            mb == if b >= 0 { b } else { -b },
    ;
}

/// Saturating fixed-point product.
pub fn mul(a: i64, b: i64) -> (r: i64)
    ensures
        r as int == spec_mul(a as int, b as int),
{
    proof {
        lemma_mul_bound(a as int, b as int, 0x8000_0000_0000_0000);
    }
    let p: i128 = a as i128 * b as i128;
    clamp_wide(quot_scale(p))
}

/// Saturating fixed-point quotient; a zero divisor saturates by the sign of
/// the dividend.
pub fn div(a: i64, b: i64) -> (r: i64)
    ensures
        r as int == spec_div(a as int, b as int),
{
    if b == 0 {
        if a > 0 {
            MAX_FX
        } else if a < 0 {
            MIN_FX
        } else {
            0
        }
    } else {
        let ma: u128 = if a >= 0 {
            a as u128
        } else {
            (-(a as i128)) as u128
        };
        let mb: u128 = if b >= 0 {
            b as u128
        } else {
            (-(b as i128)) as u128
        };
        let q: u128 = (ma * 65536) / mb;
        let negative: bool = (a < 0) != (b < 0);
        proof {
            lemma_div_magnitudes(a as int, b as int, ma as int, mb as int, q as int);
        }
        if negative {
            clamp_wide(-(q as i128))
        } else {
            clamp_wide(q as i128)
        }
    }
}

/// A plain integer taken onto the fixed-point grid, saturating.
pub fn to_fx(n: i64) -> (r: i64)
    ensures
        r as int == sat(n * SCALE),
{
    clamp_wide(n as i128 * 65536)
}

/// Quotient of a fixed-point value by a plain positive count, rounded toward
/// zero (the count does not carry the scale).
pub fn div_count(a: i64, n: u64) -> (r: i64)
    requires
        n > 0,
    ensures
        r as int == quot_z(a as int, n as int),
{
    if a >= 0 {
        let q: u64 = (a as u64) / n;
        q as i64
    } else {
        let m: u128 = (-(a as i128)) as u128;
        let q: u128 = m / (n as u128);
        (-(q as i128)) as i64
    }
}

/// `r` is the integer square root of `n`.
pub open spec fn is_sqrt_of(n: int, r: int) -> bool {
    0 <= r && r * r <= n && n < (r + 1) * (r + 1)
}

/// What the fixed-point square root of `a` is: the integer square root of
/// `a * SCALE`, which stands for the real square root of `a / SCALE` rounded
/// down to the grid. Nonpositive inputs yield zero.
pub open spec fn spec_sqrt(a: int) -> int {
    if a <= 0 {
        0
    } else {
        choose|r: int| #[trigger] is_sqrt_of(a * SCALE, r)
    }
}

/// Every nonnegative integer has an integer square root.
pub proof fn lemma_sqrt_exists(n: int)
    requires
        n >= 0,
    ensures
        exists|r: int| #[trigger] is_sqrt_of(n, r),
    decreases n,
{
    if n == 0 {
        assert(is_sqrt_of(0, 0));
    } else {
        lemma_sqrt_exists(n - 1);
        let r = choose|r: int| #[trigger] is_sqrt_of(n - 1, r);
        if n < (r + 1) * (r + 1) {
            assert(is_sqrt_of(n, r));
        } else {
            assert(n == (r + 1) * (r + 1)) by (nonlinear_arith)
                requires
                    r * r <= n - 1,
                    n - 1 < (r + 1) * (r + 1),
                    n >= (r + 1) * (r + 1),
            ;
            assert((r + 1) * (r + 1) < (r + 2) * (r + 2)) by (nonlinear_arith)
                requires r >= 0,
            ;
            assert(is_sqrt_of(n, r + 1));
        }
    }
}

/// The fixed-point square root is never negative.
pub proof fn lemma_spec_sqrt_nonneg(a: int)
    ensures
        spec_sqrt(a) >= 0,
{
    if a > 0 {
        lemma_sqrt_exists(a * SCALE);
        let w = choose|r: int| #[trigger] is_sqrt_of(a * SCALE, r);
        assert(is_sqrt_of(a * SCALE, w));
    }
}

/// Integer square roots are unique.
pub proof fn lemma_sqrt_unique(n: int, r1: int, r2: int)
    requires
        is_sqrt_of(n, r1),
        is_sqrt_of(n, r2),
    ensures
        r1 == r2,
{
    assert(r1 == r2) by (nonlinear_arith)
        requires
            0 <= r1,
            r1 * r1 <= n,
            n < (r1 + 1) * (r1 + 1),
            0 <= r2,
            r2 * r2 <= n,
            n < (r2 + 1) * (r2 + 1),
    ;
}

/// Saturation-free fixed-point square root, by binary search.
pub fn sqrt(a: i64) -> (r: i64)
    ensures
        r as int == spec_sqrt(a as int),
        0 <= r,
{
    if a <= 0 {
        return 0;
    }
    let n: u128 = (a as u128) * 65536;
    let mut lo: u128 = 0;
    let mut hi: u128 = 0x1_0000_0000_0000;
    while lo + 1 < hi
        invariant
            lo * lo <= n,
            n < hi * hi,
            lo < hi <= 0x1_0000_0000_0000,
        decreases hi - lo,
    {
        let mid = lo + (hi - lo) / 2;
        proof {
            lemma_mul_bound(mid as int, mid as int, 0x1_0000_0000_0000);
        }
        if mid * mid <= n {
            lo = mid;
        } else {
            hi = mid;
        }
    }
    proof {
        assert(n as int == (a as int) * (SCALE as int));
        assert(is_sqrt_of(n as int, lo as int));
        let w = choose|r: int| #[trigger] is_sqrt_of((a as int) * SCALE, r);
        assert(is_sqrt_of((a as int) * SCALE, w));
        lemma_sqrt_unique(n as int, lo as int, w);
    }
    lo as i64
}

/// Smaller of two values.
pub fn min(a: i64, b: i64) -> (r: i64)
    ensures
        r as int == vstd::math::min(a as int, b as int),
{
    if a <= b {
        a
    } else {
        b
    }
}

/// Larger of two values.
pub fn max(a: i64, b: i64) -> (r: i64)
    ensures
        r as int == vstd::math::max(a as int, b as int),
{
    if a >= b {
        a
    } else {
        b
    }
}

/// A value clamped into the real interval [0, 1].
pub open spec fn spec_clamp01(a: int) -> int {
    if a < 0 {
        0
    } else if a > ONE as int {
        ONE as int
    } else {
        a
    }
}

/// Clamp a channel value into the real interval [0, 1].
pub fn clamp01(a: i64) -> (r: i64)
    ensures
        r as int == spec_clamp01(a as int),
{
    if a < 0 {
        0
    } else if a > ONE {
        ONE
    } else {
        a
    }
}

/// What the `e`-th fixed-point power of `b` is.
pub open spec fn spec_pow(b: int, e: nat) -> int
    decreases e,
{
    if e == 0 {
        ONE as int
    } else {
        spec_mul(b, spec_pow(b, (e - 1) as nat))
    }
}

/// Fixed-point power with a nonnegative integer exponent.
pub fn pow(b: i64, e: u32) -> (r: i64)
    ensures
        r as int == spec_pow(b as int, e as nat),
{
    let mut acc: i64 = ONE;
    let mut i: u32 = 0;
    while i < e
        invariant
            i <= e,
            acc as int == spec_pow(b as int, i as nat),
        decreases e - i,
    {
        acc = crate::fixed::mul(b, acc);
        i = i + 1;
    }
    acc
}

/// Truncating division is monotone in the dividend, for a positive divisor.
pub proof fn lemma_quot_z_monotone(x: int, y: int, d: int)
    requires
        x <= y,
        d > 0,
    ensures
        quot_z(x, d) <= quot_z(y, d),
{
    if x >= 0 {
        vstd::arithmetic::div_mod::lemma_div_is_ordered(x, y, d);
    } else if y >= 0 {
        vstd::arithmetic::div_mod::lemma_div_pos_is_pos(-x, d);
        vstd::arithmetic::div_mod::lemma_div_pos_is_pos(y, d);
    } else {
        vstd::arithmetic::div_mod::lemma_div_is_ordered(-y, -x, d);
    }
}

/// Fixed-point division is monotone in the dividend, for a nonnegative
/// divisor.
pub proof fn lemma_spec_div_monotone(x: int, y: int, d: int)
    requires
        x <= y,
        d >= 0,
    ensures
        spec_div(x, d) <= spec_div(y, d),
{
    if d > 0 {
        lemma_quot_z_monotone(x * SCALE, y * SCALE, d);
    }
}

/// A fixed-point square is never negative.
pub proof fn lemma_square_nonneg(x: int)
    ensures
        spec_mul(x, x) >= 0,
{
    assert(x * x >= 0) by (nonlinear_arith);
    if x * x > 0 {
        vstd::arithmetic::div_mod::lemma_div_pos_is_pos(x * x, SCALE as int);
    }
}

/// The magnitude computation inside `div` agrees with `spec_div` up to sign.
proof fn lemma_div_magnitudes(a: int, b: int, ma: int, mb: int, q: int)
    requires
        b != 0,
        ma == if a >= 0 { a } else { -a },
        mb == if b >= 0 { b } else { -b },
        q == (ma * SCALE as int) / mb,
    ensures
        spec_div(a, b) == if (a < 0) != (b < 0) { sat(-q) } else { sat(q) },
{
    assert(ma * SCALE as int == if a >= 0 { a * SCALE as int } else { -(a * SCALE as int) })
        by (nonlinear_arith)
        requires ma == if a >= 0 { a } else { -a },
    ;
}

} // verus!
