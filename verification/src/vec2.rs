//! 2D vectors of fixed-point scalars, with the exact integer meaning of
//! each operation stated over [`crate::fx`]'s spec functions.

use vstd::prelude::*;
use crate::fx::{fx_add, fx_mul, fx_neg, fx_sub, fxm, sat, sat_i128, sqrt_z, div_z_i128, dz, SCALE,
    lemma_dz_bounds};

verus! {

/// A 2D vector (or point) of fixed-point scalars.
#[derive(Clone, Copy, Debug, PartialEq, Eq, Structural)]
pub struct Vec2 {
    pub x: i64,
    pub y: i64,
}

/// The exact value of the dot product: the wide sum of products,
/// scaled back down and saturated.
pub open spec fn dot_of(a: Vec2, b: Vec2) -> int {
    sat(dz(a.x * b.x + a.y * b.y, SCALE as int))
}

/// The exact value of the Euclidean norm: the integer square root of
/// the wide sum of squares, saturated. Because components carry the
/// scale once and the sum of squares carries it twice, the root carries
/// it once again, so no rescaling is needed.
pub open spec fn norm_of(a: Vec2) -> int {
    sat(sqrt_z((a.x * a.x + a.y * a.y) as nat) as int)
}

/// Componentwise saturated addition.
pub open spec fn add_of(a: Vec2, b: Vec2) -> Vec2 {
    Vec2 { x: sat(a.x + b.x) as i64, y: sat(a.y + b.y) as i64 }
}

/// Componentwise saturated subtraction.
pub open spec fn sub_of(a: Vec2, b: Vec2) -> Vec2 {
    Vec2 { x: sat(a.x - b.x) as i64, y: sat(a.y - b.y) as i64 }
}

/// Componentwise saturated negation.
pub open spec fn neg_of(a: Vec2) -> Vec2 {
    Vec2 { x: sat(-a.x) as i64, y: sat(-a.y) as i64 }
}

/// Scaling by a fixed-point scalar.
pub open spec fn scale_of(a: Vec2, k: int) -> Vec2 {
    Vec2 { x: fxm(a.x as int, k) as i64, y: fxm(a.y as int, k) as i64 }
}

impl Vec2 {
    /// Build a vector from its components.
    pub fn new(x: i64, y: i64) -> (r: Vec2)
        ensures
            r == (Vec2 { x, y }),
    {
        Vec2 { x, y }
    }

    /// The zero vector.
    pub fn zero() -> (r: Vec2)
        ensures
            r == (Vec2 { x: 0i64, y: 0i64 }),
    {
        Vec2 { x: 0, y: 0 }
    }

    /// Saturated vector addition.
    pub fn add(self, o: Vec2) -> (r: Vec2)
        ensures
            r == add_of(self, o),
    {
        Vec2 { x: fx_add(self.x, o.x), y: fx_add(self.y, o.y) }
    }

    /// Saturated vector subtraction.
    pub fn sub(self, o: Vec2) -> (r: Vec2)
        ensures
            r == sub_of(self, o),
    {
        Vec2 { x: fx_sub(self.x, o.x), y: fx_sub(self.y, o.y) }
    }

    /// Saturated vector negation.
    pub fn neg(self) -> (r: Vec2)
        ensures
            r == neg_of(self),
    {
        Vec2 { x: fx_neg(self.x), y: fx_neg(self.y) }
    }

    /// Scaling by a fixed-point scalar.
    pub fn scale(self, k: i64) -> (r: Vec2)
        ensures
            r == scale_of(self, k as int),
    {
        Vec2 { x: fx_mul(self.x, k), y: fx_mul(self.y, k) }
    }

    /// Dot product of two vectors, exact value [`dot_of`]. The one sum
    /// that cannot be formed as a wide integer (both products at their
    /// greatest) saturates, which is also what the exact value does.
    pub fn dot(self, o: Vec2) -> (r: i64)
        ensures
            r as int == dot_of(self, o),
    {
        proof {
            crate::fx::lemma_product_in_wide_range(self.x as int, o.x as int);
            crate::fx::lemma_product_in_wide_range(self.y as int, o.y as int);
        }
        let p1: i128 = (self.x as i128) * (o.x as i128);
        let p2: i128 = (self.y as i128) * (o.y as i128);
        if p1 > 0 && p2 > i128::MAX - p1 {
            proof {
                lemma_sum_past_wide_range_saturates(p1 as int, p2 as int);
            }
            crate::fx::FX_MAX
        } else {
            let p: i128 = p1 + p2;
            let q: i128 = div_z_i128(p, SCALE as i128);
            proof {
                lemma_dz_bounds(p as int, SCALE as int);
            }
            sat_i128(q)
        }
    }

    /// Euclidean norm of a vector, exact value [`norm_of`]. Squares are
    /// non-negative, so the sum is formed in the unsigned wide type,
    /// where it always fits.
    pub fn norm(self) -> (r: i64)
        ensures
            r as int == norm_of(self),
            r >= 0,
    {
        let ax: u128 = abs_u128(self.x);
        let ay: u128 = abs_u128(self.y);
        proof {
            assert(ax * ax == self.x * self.x && ay * ay == self.y * self.y) by (nonlinear_arith)
                requires
                    ax == vstd::math::abs(self.x as int),
                    ay == vstd::math::abs(self.y as int),
            {}
            crate::fx::lemma_product_in_wide_range(self.x as int, self.x as int);
            crate::fx::lemma_product_in_wide_range(self.y as int, self.y as int);
            assert(ax * ax <= 0x4000_0000_0000_0000_0000_0000_0000_0000);
            assert(ay * ay <= 0x4000_0000_0000_0000_0000_0000_0000_0000);
        }
        let p: u128 = ax * ax + ay * ay;
        let s: u128 = crate::fx::isqrt_u128(p);
        sat_i128(s as i128)
    }
}

/// Magnitude of a scalar as an unsigned wide integer.
fn abs_u128(x: i64) -> (r: u128)
    ensures
        r == vstd::math::abs(x as int),
{
    if x >= 0 {
        x as u128
    } else {
        let w: i128 = -(x as i128);
        w as u128
    }
}

/// When the exact sum of two products leaves the wide range, the scaled
/// and saturated result is the range limit itself.
proof fn lemma_sum_past_wide_range_saturates(p1: int, p2: int)
    requires
        p1 + p2 > i128::MAX,
    ensures
        sat(dz(p1 + p2, SCALE as int)) == crate::fx::FX_MAX as int,
{
    let s = p1 + p2;
    let lim: int = 0x8000_0000_0000_0000;
    let t: int = lim * (SCALE as int);
    assert(s >= t);
    vstd::arithmetic::div_mod::lemma_div_is_ordered(t, s, SCALE as int);
    vstd::arithmetic::div_mod::lemma_div_by_multiple(lim, SCALE as int);
    assert(s / (SCALE as int) >= lim);
}

} // verus!
