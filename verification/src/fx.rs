//! Fixed-point scalar arithmetic.
//!
//! A scalar is an `i64` holding a real number with six decimal places:
//! the stored integer is the real value times [`SCALE`]. Every operation
//! computes the exact wide result, divides toward zero where the real
//! operation divides, and saturates at the symmetric range limit
//! [`FX_MAX`], so every function here is total and its result is pinned
//! exactly by the `ensures` clause.

use vstd::prelude::*;
use vstd::arithmetic::div_mod::{lemma_div_nonincreasing, lemma_div_pos_is_pos};

verus! {

/// Number of fixed-point units in one: scalars carry six decimal places.
pub const SCALE: i64 = 1_000_000;

/// Greatest magnitude a scalar may hold. The range is symmetric so that
/// negation never leaves it.
pub const FX_MAX: i64 = i64::MAX;

/// Saturation to the symmetric scalar range.
pub open spec fn sat(x: int) -> int {
    if x > FX_MAX {
        FX_MAX as int
    } else if x < -(FX_MAX as int) {
        -(FX_MAX as int)
    } else {
        x
    }
}

/// Integer division rounding toward zero, the rounding every scalar
/// operation uses. It is an odd function of the numerator, so mirrored
/// inputs give mirrored results.
pub open spec fn dz(a: int, b: int) -> int
    recommends
        b > 0,
{
    if a >= 0 {
        a / b
    } else {
        -((-a) / b)
    }
}

/// The exact value of fixed-point multiplication: the wide product,
/// scaled back down and saturated.
pub open spec fn fxm(a: int, b: int) -> int {
    sat(dz(a * b, SCALE as int))
}

/// The exact value of fixed-point division: the widened numerator over
/// the divisor, saturated.
pub open spec fn fxd(a: int, b: int) -> int
    recommends
        b > 0,
{
    sat(dz(a * (SCALE as int), b))
}

/// Clamping into a closed interval.
pub open spec fn clampv(x: int, lo: int, hi: int) -> int {
    if x < lo {
        lo
    } else if x > hi {
        hi
    } else {
        x
    }
}

/// Division toward zero never grows the magnitude and keeps the sign
/// weakly: the quotient lies between `-abs(a)` and `abs(a)`, and is
/// non-negative exactly when `a` is (or the quotient is zero).
pub proof fn lemma_dz_bounds(a: int, b: int)
    requires
        b >= 1,
    ensures
        a >= 0 ==> 0 <= dz(a, b) <= a,
        a < 0 ==> a <= dz(a, b) <= 0,
{
    if a >= 0 {
        lemma_div_pos_is_pos(a, b);
        lemma_div_nonincreasing(a, b);
    } else {
        lemma_div_pos_is_pos(-a, b);
        lemma_div_nonincreasing(-a, b);
    }
}

/// A saturated value that lands strictly inside the range was not
/// clipped: saturation is the identity there.
pub proof fn lemma_sat_within_id(x: int, vb: int)
    requires
        vb < FX_MAX as int,
        -vb <= sat(x) <= vb,
    ensures
        sat(x) == x,
{
}

/// Division toward zero by two, used for averages and half-extents.
pub fn half_i128(a: i128) -> (q: i128)
    requires
        a != i128::MIN,
    ensures
        q as int == dz(a as int, 2),
{
    div_z_i128(a, 2)
}

/// Exec division toward zero on wide integers, matching [`dz`]. Signs
/// are handled explicitly so the unsigned machine division below always
/// sees non-negative operands.
pub fn div_z_i128(a: i128, b: i128) -> (q: i128)
    requires
        b > 0,
        a != i128::MIN,
    ensures
        q as int == dz(a as int, b as int),
{
    proof {
        lemma_dz_bounds(a as int, b as int);
    }
    if a >= 0 {
        let ua: u128 = a as u128;
        let ub: u128 = b as u128;
        let uq: u128 = ua / ub;
        assert(uq == a as int / b as int);
        uq as i128
    } else {
        let ua: u128 = (-a) as u128;
        let ub: u128 = b as u128;
        let uq: u128 = ua / ub;
        assert(uq == (-(a as int)) / (b as int));
        let qi: i128 = uq as i128;
        -qi
    }
}

/// Saturating narrowing from the wide intermediate type to a scalar.
pub fn sat_i128(x: i128) -> (r: i64)
    ensures
        r as int == sat(x as int),
{
    if x > i64::MAX as i128 {
        i64::MAX
    } else if x < -(i64::MAX as i128) {
        -i64::MAX
    } else {
        x as i64
    }
}

/// Saturating scalar addition.
pub fn fx_add(a: i64, b: i64) -> (r: i64)
    ensures
        r as int == sat(a + b),
{
    let s: i128 = a as i128 + b as i128;
    sat_i128(s)
}

/// Saturating scalar subtraction.
pub fn fx_sub(a: i64, b: i64) -> (r: i64)
    ensures
        r as int == sat(a - b),
{
    let s: i128 = a as i128 - b as i128;
    sat_i128(s)
}

/// Saturating scalar negation.
pub fn fx_neg(a: i64) -> (r: i64)
    ensures
        r as int == sat(-(a as int)),
{
    let s: i128 = -(a as i128);
    sat_i128(s)
}

/// Saturating scalar absolute value.
pub fn fx_abs(a: i64) -> (r: i64)
    ensures
        r as int == sat(vstd::math::abs(a as int) as int),
{
    if a >= 0 {
        a
    } else {
        let s: i128 = -(a as i128);
        sat_i128(s)
    }
}

/// The product of two scalars lies well inside the wide range: at most
/// `2^126` in magnitude, so two such products can still be added as
/// wide integers (the positive corner case is handled where it occurs).
pub proof fn lemma_product_in_wide_range(a: int, b: int)
    requires
        -0x8000_0000_0000_0000 <= a <= 0x7FFF_FFFF_FFFF_FFFF,
        -0x8000_0000_0000_0000 <= b <= 0x7FFF_FFFF_FFFF_FFFF,
    ensures
        -0x4000_0000_0000_0000_0000_0000_0000_0000 + 0x8000_0000_0000_0000 <= a * b
            <= 0x4000_0000_0000_0000_0000_0000_0000_0000,
{
    assert(-0x4000_0000_0000_0000_0000_0000_0000_0000 + 0x8000_0000_0000_0000 <= a * b
        <= 0x4000_0000_0000_0000_0000_0000_0000_0000) by (nonlinear_arith)
        requires
            -0x8000_0000_0000_0000 <= a <= 0x7FFF_FFFF_FFFF_FFFF,
            -0x8000_0000_0000_0000 <= b <= 0x7FFF_FFFF_FFFF_FFFF,
    {}
}

/// The product of two saturated scalars is small enough that two such
/// products can be added without leaving the wide range.
pub proof fn lemma_sat_product_in_range(a: int, b: int)
    requires
        -(FX_MAX as int) <= a <= FX_MAX as int,
        -(FX_MAX as int) <= b <= FX_MAX as int,
    ensures
        -0x3FFF_FFFF_FFFF_FFFF_0000_0000_0000_0001 <= a * b
            <= 0x3FFF_FFFF_FFFF_FFFF_0000_0000_0000_0001,
{
    assert(-0x3FFF_FFFF_FFFF_FFFF_0000_0000_0000_0001 <= a * b
        <= 0x3FFF_FFFF_FFFF_FFFF_0000_0000_0000_0001) by (nonlinear_arith)
        requires
            -0x7FFF_FFFF_FFFF_FFFF <= a <= 0x7FFF_FFFF_FFFF_FFFF,
            -0x7FFF_FFFF_FFFF_FFFF <= b <= 0x7FFF_FFFF_FFFF_FFFF,
    {}
}

/// Fixed-point multiplication: exact value [`fxm`].
pub fn fx_mul(a: i64, b: i64) -> (r: i64)
    ensures
        r as int == fxm(a as int, b as int),
{
    proof {
        lemma_product_in_wide_range(a as int, b as int);
    }
    let p: i128 = (a as i128) * (b as i128);
    let q: i128 = div_z_i128(p, SCALE as i128);
    proof {
        lemma_dz_bounds(p as int, SCALE as int);
    }
    sat_i128(q)
}

/// Fixed-point division: exact value [`fxd`]. The divisor must be
/// positive; every divisor in this crate is a distance, a mass or a
/// total inverse mass that the caller has shown positive.
pub fn fx_div(a: i64, b: i64) -> (r: i64)
    requires
        b > 0,
    ensures
        r as int == fxd(a as int, b as int),
{
    proof {
        lemma_product_in_wide_range(a as int, SCALE as int);
    }
    let p: i128 = (a as i128) * (SCALE as i128);
    let q: i128 = div_z_i128(p, b as i128);
    proof {
        lemma_dz_bounds(p as int, b as int);
    }
    sat_i128(q)
}

/// Clamp a scalar into a closed interval.
pub fn fx_clamp(x: i64, lo: i64, hi: i64) -> (r: i64)
    requires
        lo <= hi,
    ensures
        r as int == clampv(x as int, lo as int, hi as int),
{
    if x < lo {
        lo
    } else if x > hi {
        hi
    } else {
        x
    }
}

/// Average of two scalars, rounding toward zero as the resolver's
/// restitution and friction averages do.
pub fn fx_avg(a: i64, b: i64) -> (r: i64)
    ensures
        r as int == dz(a + b, 2),
{
    let s: i128 = a as i128 + b as i128;
    let q: i128 = half_i128(s);
    proof {
        lemma_dz_bounds(s as int, 2);
    }
    q as i64
}

/// The integer square root: the greatest `r` with `r * r <= n`.
/// Stated as a recursion so that it is well defined for every input;
/// `lemma_sqrt_z_bounds` gives the usual characterisation.
pub open spec fn sqrt_z(n: nat) -> nat
    decreases n,
{
    if n == 0 {
        0
    } else {
        let p = sqrt_z((n - 1) as nat);
        if (p + 1) * (p + 1) <= n {
            p + 1
        } else {
            p
        }
    }
}

/// Squaring preserves order on non-negative values.
proof fn lemma_sq_mono(x: nat, y: nat)
    requires
        x <= y,
    ensures
        x * x <= y * y,
{
    assert(x * x <= y * y) by (nonlinear_arith)
        requires
            0 <= x <= y,
    {}
}

/// Squaring preserves strict order on non-negative values.
proof fn lemma_sq_mono_strict(x: nat, y: nat)
    requires
        x < y,
    ensures
        x * x < y * y,
{
    assert(x * x < y * y) by (nonlinear_arith)
        requires
            0 <= x < y,
    {}
}

/// `sqrt_z(n)` is the floor of the real square root of `n`.
pub proof fn lemma_sqrt_z_bounds(n: nat)
    ensures
        sqrt_z(n) * sqrt_z(n) <= n,
        n < (sqrt_z(n) + 1) * (sqrt_z(n) + 1),
    decreases n,
{
    if n == 0 {
        assert(sqrt_z(n) == 0);
        assert(n < (sqrt_z(n) + 1) * (sqrt_z(n) + 1)) by {
            assert((sqrt_z(n) + 1) * (sqrt_z(n) + 1) == 1) by (nonlinear_arith)
                requires
                    sqrt_z(n) == 0,
            {}
        };
    } else {
        let m = (n - 1) as nat;
        lemma_sqrt_z_bounds(m);
        let p = sqrt_z(m);
        assert(sqrt_z(n) == if (p + 1) * (p + 1) <= n {
            p + 1
        } else {
            p
        });
        if (p + 1) * (p + 1) <= n {
            assert(n <= (p + 1) * (p + 1)) by {
                assert(m < (p + 1) * (p + 1));
            };
            lemma_sq_mono_strict(p + 1, p + 2);
            assert(n < (p + 2) * (p + 2));
        } else {
            assert(p * p <= m);
        }
    }
}

/// The integer square root is monotone.
pub proof fn lemma_sqrt_z_mono(a: nat, b: nat)
    requires
        a <= b,
    ensures
        sqrt_z(a) <= sqrt_z(b),
{
    lemma_sqrt_z_bounds(a);
    lemma_sqrt_z_bounds(b);
    if sqrt_z(a) > sqrt_z(b) {
        lemma_sq_mono(sqrt_z(b) + 1, sqrt_z(a));
        assert(b < (sqrt_z(b) + 1) * (sqrt_z(b) + 1));
        assert(sqrt_z(a) * sqrt_z(a) <= a);
        assert(false);
    }
}

/// The integer square root of a perfect square is its root.
pub proof fn lemma_sqrt_z_of_square(x: nat)
    ensures
        sqrt_z(x * x) == x,
{
    lemma_sq_mono_strict(x, x + 1);
    lemma_sqrt_z_unique(x * x, x);
}

/// A quotient stays below any multiple of the divisor that bounds the
/// numerator, on both sides of zero.
pub proof fn lemma_dz_quotient_bound(a: int, b: int, c: int)
    requires
        b >= 1,
        c >= 0,
        -(c * b) <= a <= c * b,
    ensures
        -c <= dz(a, b) <= c,
{
    if a >= 0 {
        vstd::arithmetic::div_mod::lemma_div_is_ordered(a, c * b, b);
        vstd::arithmetic::div_mod::lemma_div_by_multiple(c, b);
        lemma_dz_bounds(a, b);
    } else {
        vstd::arithmetic::div_mod::lemma_div_is_ordered(-a, c * b, b);
        vstd::arithmetic::div_mod::lemma_div_by_multiple(c, b);
        lemma_dz_bounds(a, b);
    }
}

/// Any integer in the floor-square-root window equals `sqrt_z(n)`.
pub proof fn lemma_sqrt_z_unique(n: nat, r: nat)
    requires
        r * r <= n,
        n < (r + 1) * (r + 1),
    ensures
        r == sqrt_z(n),
{
    lemma_sqrt_z_bounds(n);
    let s = sqrt_z(n);
    if r < s {
        lemma_sq_mono(r + 1, s);
        assert(s * s <= n);
        assert(false);
    }
    if s < r {
        lemma_sq_mono(s + 1, r);
        assert(r * r <= n);
        assert(false);
    }
}

/// Integer square root of a wide non-negative value, by binary search
/// over the answer.
pub fn isqrt_u128(n: u128) -> (r: u128)
    ensures
        r as nat == sqrt_z(n as nat),
        r * r <= n,
        n < (r + 1) * (r + 1),
        r <= 0xFFFF_FFFF_FFFF_FFFF,
{
    let mut lo: u128 = 0;
    let mut hi: u128 = 0xFFFF_FFFF_FFFF_FFFF;
    proof {
        assert((hi + 1) * (hi + 1) > u128::MAX as int);
    }
    while lo < hi
        invariant
            lo <= hi,
            hi <= 0xFFFF_FFFF_FFFF_FFFF,
            lo * lo <= n,
            n < (hi + 1) * (hi + 1),
        decreases hi - lo,
    {
        let mid: u128 = lo + (hi - lo + 1) / 2;
        assert(lo < mid <= hi);
        proof {
            lemma_sq_mono(mid as nat, 0xFFFF_FFFF_FFFF_FFFF as nat);
        }
        let sq: u128 = mid * mid;
        if sq <= n {
            lo = mid;
        } else {
            hi = mid - 1;
        }
    }
    proof {
        lemma_sqrt_z_unique(n as nat, lo as nat);
    }
    lo
}

} // verus!
