//! Three-component vectors over fixed-point scalars.
//!
//! Every operation is specified exactly by a `_s` spec companion built
//! from the scalar operations in [`crate::fixed`].

use vstd::prelude::*;
use crate::fixed::FX_ONE;
use crate::fixed::fx_add;
use crate::fixed::fx_add_s;
use crate::fixed::fx_div;
use crate::fixed::fx_div_s;
use crate::fixed::fx_mul;
use crate::fixed::fx_mul_s;
use crate::fixed::fx_neg;
use crate::fixed::fx_neg_s;
use crate::fixed::fx_sqrt;
use crate::fixed::fx_sqrt_s;
use crate::fixed::fx_sub;
use crate::fixed::fx_sub_s;
use crate::fixed::fx_tdiv;
use crate::fixed::is_sqrt;
use crate::fixed::lemma_sqrt_bounds;
use crate::fixed::lemma_sqrt_unique;
use crate::fixed::lemma_tdiv_envelope;
use crate::fixed::lemma_tdiv_shrinks;
use crate::fixed::fx_abs;

verus! {

/// A point or direction in space; components are fixed-point scalars.
#[derive(Clone, Copy, Debug, PartialEq, Eq, Structural)]
pub struct Vector3 {
    pub x: i64,
    pub y: i64,
    pub z: i64,
}

/// The zero vector.
pub open spec fn vzero_s() -> Vector3 {
    Vector3 { x: 0, y: 0, z: 0 }
}

/// The all-ones vector.
pub open spec fn vone_s() -> Vector3 {
    Vector3 { x: FX_ONE, y: FX_ONE, z: FX_ONE }
}

/// Componentwise sum.
pub open spec fn vadd_s(a: Vector3, b: Vector3) -> Vector3 {
    Vector3 {
        x: fx_add_s(a.x as int, b.x as int) as i64,
        y: fx_add_s(a.y as int, b.y as int) as i64,
        z: fx_add_s(a.z as int, b.z as int) as i64,
    }
}

/// Componentwise difference.
pub open spec fn vsub_s(a: Vector3, b: Vector3) -> Vector3 {
    Vector3 {
        x: fx_sub_s(a.x as int, b.x as int) as i64,
        y: fx_sub_s(a.y as int, b.y as int) as i64,
        z: fx_sub_s(a.z as int, b.z as int) as i64,
    }
}

/// Componentwise product.
pub open spec fn vmul_s(a: Vector3, b: Vector3) -> Vector3 {
    Vector3 {
        x: fx_mul_s(a.x as int, b.x as int) as i64,
        y: fx_mul_s(a.y as int, b.y as int) as i64,
        z: fx_mul_s(a.z as int, b.z as int) as i64,
    }
}

/// Product with a scalar.
pub open spec fn vscale_s(a: Vector3, k: int) -> Vector3 {
    Vector3 {
        x: fx_mul_s(a.x as int, k) as i64,
        y: fx_mul_s(a.y as int, k) as i64,
        z: fx_mul_s(a.z as int, k) as i64,
    }
}

/// Quotient by a nonzero scalar.
pub open spec fn vdiv_s(a: Vector3, k: int) -> Vector3
    recommends
        k != 0,
{
    Vector3 {
        x: fx_div_s(a.x as int, k) as i64,
        y: fx_div_s(a.y as int, k) as i64,
        z: fx_div_s(a.z as int, k) as i64,
    }
}

/// Componentwise quotient by a vector of nonzero components.
pub open spec fn vdiv_vec_s(a: Vector3, b: Vector3) -> Vector3
    recommends
        b.x != 0,
        b.y != 0,
        b.z != 0,
{
    Vector3 {
        x: fx_div_s(a.x as int, b.x as int) as i64,
        y: fx_div_s(a.y as int, b.y as int) as i64,
        z: fx_div_s(a.z as int, b.z as int) as i64,
    }
}

/// Componentwise negation.
pub open spec fn vneg_s(a: Vector3) -> Vector3 {
    Vector3 {
        x: fx_neg_s(a.x as int) as i64,
        y: fx_neg_s(a.y as int) as i64,
        z: fx_neg_s(a.z as int) as i64,
    }
}

/// Dot product.
pub open spec fn dot_s(a: Vector3, b: Vector3) -> int {
    fx_add_s(
        fx_add_s(fx_mul_s(a.x as int, b.x as int), fx_mul_s(a.y as int, b.y as int)),
        fx_mul_s(a.z as int, b.z as int),
    )
}

/// Squared length: the dot product of a vector with itself.
pub open spec fn sq_len_s(a: Vector3) -> int {
    dot_s(a, a)
}

/// Length: the fixed-point square root of the squared length.
pub open spec fn length_s(a: Vector3) -> int
    recommends
        sq_len_s(a) >= 0,
{
    fx_sqrt_s(sq_len_s(a))
}

/// Cross product.
pub open spec fn cross_s(a: Vector3, b: Vector3) -> Vector3 {
    Vector3 {
        x: fx_sub_s(fx_mul_s(a.y as int, b.z as int), fx_mul_s(a.z as int, b.y as int)) as i64,
        y: fx_neg_s(fx_sub_s(fx_mul_s(a.x as int, b.z as int), fx_mul_s(a.z as int, b.x as int)))
            as i64,
        z: fx_sub_s(fx_mul_s(a.x as int, b.y as int), fx_mul_s(a.y as int, b.x as int)) as i64,
    }
}

/// The normalized vector: each component scaled by the reciprocal of the
/// length. Meaningful only for a positive length; the caller must guard.
pub open spec fn unit_s(a: Vector3) -> Vector3
    recommends
        length_s(a) > 0,
{
    vscale_s(a, fx_div_s(FX_ONE as int, length_s(a)))
}

/// A square is never negative, also after descaling.
pub proof fn lemma_square_nonneg(a: int)
    ensures
        fx_mul_s(a, a) >= 0,
{
    assert(a * a >= 0) by (nonlinear_arith);
    lemma_tdiv_shrinks(a * a, FX_ONE as int);
}

/// Squared lengths are never negative.
pub proof fn lemma_sq_len_nonneg(a: Vector3)
    ensures
        sq_len_s(a) >= 0,
{
    lemma_square_nonneg(a.x as int);
    lemma_square_nonneg(a.y as int);
    lemma_square_nonneg(a.z as int);
}

/// Lengths are never negative, and vanish exactly with the squared length.
pub proof fn lemma_length_basics(a: Vector3)
    ensures
        length_s(a) >= 0,
        sq_len_s(a) == 0 ==> length_s(a) == 0,
        sq_len_s(a) >= 1 ==> length_s(a) >= 1,
{
    lemma_sq_len_nonneg(a);
    let n = sq_len_s(a) * (FX_ONE as int);
    lemma_sqrt_bounds(n);
    if sq_len_s(a) == 0 {
        assert(is_sqrt(0, 0)) by (nonlinear_arith);
        lemma_sqrt_unique(0, 0);
    }
    if sq_len_s(a) >= 1 {
        assert(n >= 65536);
    }
}

/// One component's share of the normalization argument: the quotient of
/// a squared component, its envelope, and its bound.
proof fn lemma_unit_component(x: int, k: int, l: int)
    requires
        fx_abs(x) <= l + 2,
        65536 <= l,
        1 <= k <= 65536,
        k * l <= 4294967296 < k * l + l,
    ensures
        fx_mul_s(x, k) == fx_tdiv(x * k, 65536),
        fx_abs(fx_tdiv(x * k, 65536)) <= 65538,
        ({
            let q = fx_abs(fx_tdiv(x * k, 65536));
            &&& 65536 * q <= fx_abs(x) * k < 65536 * q + 65536
        }),
{
    let ax = fx_abs(x);
    assert(ax * k >= 0 && ax * k == fx_abs(x * k)) by (nonlinear_arith)
        requires
            ax == fx_abs(x),
            k >= 1,
    ;
    lemma_tdiv_envelope(ax * k, 65536);
    let q = fx_tdiv(ax * k, 65536);
    assert(ax * k <= (l + 2) * k) by (nonlinear_arith)
        requires
            ax <= l + 2,
            k >= 0,
    ;
    assert((l + 2) * k == l * k + 2 * k) by (nonlinear_arith);
    assert(l * k == k * l) by (nonlinear_arith);
    assert(ax * k <= 4294967296 + 131072);
    assert(65536 * q <= ax * k);
    assert(q <= 65538);
    if x >= 0 {
        assert(x * k == ax * k);
    } else {
        assert(x * k == -(ax * k)) by (nonlinear_arith)
            requires
                ax == -x,
        ;
    }
}

/// A normalized vector has length one within a small tolerance: for any
/// vector whose length lies between one and sixteen, the squared length
/// of its unit vector strays from one by at most `42 / FX_ONE`, and its
/// length by at most `22 / FX_ONE`. (The component bound only rules the
/// saturating range out of the arithmetic.) The scalar grain is
/// `1 / FX_ONE`, so no finer tolerance is expressible; and for much
/// longer vectors the truncated reciprocal length grows coarser in
/// proportion, so the stray widens with the length bound.
pub proof fn lemma_unit_length_close(v: Vector3)
    requires
        FX_ONE <= length_s(v) <= 16 * FX_ONE,
        fx_abs(v.x as int) <= 0x1_0000_0000,
        fx_abs(v.y as int) <= 0x1_0000_0000,
        fx_abs(v.z as int) <= 0x1_0000_0000,
    ensures
        FX_ONE - 42 <= sq_len_s(unit_s(v)) <= FX_ONE + 5,
        FX_ONE - 22 <= length_s(unit_s(v)) <= FX_ONE + 2,
{
    let x = v.x as int;
    let y = v.y as int;
    let z = v.z as int;
    let xx = x * x;
    let yy = y * y;
    let zz = z * z;
    let big = xx + yy + zz;

    // the squared length misses the exact sum by under three grains
    assert(0 <= xx <= 0x1_0000_0000_0000_0000) by (nonlinear_arith)
        requires
            fx_abs(x) <= 0x1_0000_0000,
            xx == x * x,
    ;
    assert(0 <= yy <= 0x1_0000_0000_0000_0000) by (nonlinear_arith)
        requires
            fx_abs(y) <= 0x1_0000_0000,
            yy == y * y,
    ;
    assert(0 <= zz <= 0x1_0000_0000_0000_0000) by (nonlinear_arith)
        requires
            fx_abs(z) <= 0x1_0000_0000,
            zz == z * z,
    ;
    lemma_tdiv_envelope(xx, 65536);
    lemma_tdiv_envelope(yy, 65536);
    lemma_tdiv_envelope(zz, 65536);
    let sq = sq_len_s(v);
    assert(sq == fx_tdiv(xx, 65536) + fx_tdiv(yy, 65536) + fx_tdiv(zz, 65536));
    assert(65536 * sq <= big < 65536 * sq + 3 * 65536);

    // the computed length squares into the exact sum's neighborhood
    let l = length_s(v);
    lemma_sq_len_nonneg(v);
    lemma_sqrt_bounds(sq * 65536);
    assert(l * l <= sq * 65536 < (l + 1) * (l + 1));
    assert(65536 * sq == sq * 65536);
    assert(l * l <= big);
    assert(big < (l + 1) * (l + 1) + 3 * 65536);
    assert((l + 1) * (l + 1) == l * l + 2 * l + 1) by (nonlinear_arith);
    assert(big <= l * l + 2 * l + 3 * 65536);

    // the reciprocal length k = 1 / l
    lemma_tdiv_envelope(4294967296, l);
    let k = fx_tdiv(4294967296, l);
    assert(l * k <= 4294967296 < l * k + l);
    assert(k >= 1) by (nonlinear_arith)
        requires
            k >= 0,
            4294967296 < l * k + l,
            l <= 1048576,
    ;
    assert(k <= 65536) by (nonlinear_arith)
        requires
            l * k <= 4294967296,
            65536 <= l,
            k >= 0,
    ;
    assert(k * l == l * k) by (nonlinear_arith);
    assert(fx_div_s(FX_ONE as int, l) == k);

    // every component is within two grains of the length
    assert(xx <= big && yy <= big && zz <= big);
    assert(fx_abs(x) <= l + 2) by (nonlinear_arith)
        requires
            xx == x * x,
            xx <= l * l + 2 * l + 3 * 65536,
            65536 <= l,
    ;
    assert(fx_abs(y) <= l + 2) by (nonlinear_arith)
        requires
            yy == y * y,
            yy <= l * l + 2 * l + 3 * 65536,
            65536 <= l,
    ;
    assert(fx_abs(z) <= l + 2) by (nonlinear_arith)
        requires
            zz == z * z,
            zz <= l * l + 2 * l + 3 * 65536,
            65536 <= l,
    ;

    // the scaled components and their envelopes
    lemma_unit_component(x, k, l);
    lemma_unit_component(y, k, l);
    lemma_unit_component(z, k, l);
    let rx = fx_tdiv(x * k, 65536);
    let ry = fx_tdiv(y * k, 65536);
    let rz = fx_tdiv(z * k, 65536);
    let u = unit_s(v);
    assert(u.x == rx && u.y == ry && u.z == rz);
    let qx = fx_abs(rx);
    let qy = fx_abs(ry);
    let qz = fx_abs(rz);

    // upper: each envelope squares to r^2 S^2 <= x^2 k^2
    assert(rx * rx == qx * qx && 65536 * 65536 * (qx * qx) <= xx * (k * k)) by (nonlinear_arith)
        requires
            qx == fx_abs(rx),
            65536 * qx <= fx_abs(x) * k,
            xx == x * x,
            k >= 0,
    ;
    assert(ry * ry == qy * qy && 65536 * 65536 * (qy * qy) <= yy * (k * k)) by (nonlinear_arith)
        requires
            qy == fx_abs(ry),
            65536 * qy <= fx_abs(y) * k,
            yy == y * y,
            k >= 0,
    ;
    assert(rz * rz == qz * qz && 65536 * 65536 * (qz * qz) <= zz * (k * k)) by (nonlinear_arith)
        requires
            qz == fx_abs(rz),
            65536 * qz <= fx_abs(z) * k,
            zz == z * z,
            k >= 0,
    ;
    let rsq = rx * rx + ry * ry + rz * rz;
    assert(65536 * 65536 * rsq <= big * (k * k)) by (nonlinear_arith)
        requires
            65536 * 65536 * (qx * qx) <= xx * (k * k),
            65536 * 65536 * (qy * qy) <= yy * (k * k),
            65536 * 65536 * (qz * qz) <= zz * (k * k),
            rsq == qx * qx + qy * qy + qz * qz,
            big == xx + yy + zz,
    ;
    assert(big * (k * k) <= 65536 * 65536 * (65536 * 65536) + 5 * (65536 * 65536 * 65536)) by (
        nonlinear_arith)
        requires
            big <= l * l + 2 * l + 3 * 65536,
            l * k <= 4294967296,
            1 <= k <= 65536,
            65536 <= l,
            big >= 0,
    ;
    assert(rsq <= 65536 * 65536 + 5 * 65536);

    // lower: each envelope caps x^2 k^2 under S^2 (r^2 + 2 |r| + 1)
    assert(xx * (k * k) < 65536 * 65536 * (qx * qx) + 65536 * 65536 * (2 * qx + 1)) by (
        nonlinear_arith)
        requires
            qx == fx_abs(rx),
            fx_abs(x) * k < 65536 * qx + 65536,
            xx == x * x,
            qx >= 0,
            k >= 0,
    ;
    assert(yy * (k * k) < 65536 * 65536 * (qy * qy) + 65536 * 65536 * (2 * qy + 1)) by (
        nonlinear_arith)
        requires
            qy == fx_abs(ry),
            fx_abs(y) * k < 65536 * qy + 65536,
            yy == y * y,
            qy >= 0,
            k >= 0,
    ;
    assert(zz * (k * k) < 65536 * 65536 * (qz * qz) + 65536 * 65536 * (2 * qz + 1)) by (
        nonlinear_arith)
        requires
            qz == fx_abs(rz),
            fx_abs(z) * k < 65536 * qz + 65536,
            zz == z * z,
            qz >= 0,
            k >= 0,
    ;
    assert(big * (k * k) >= 65536 * 65536 * (65536 * 65536) - 2 * (65536 * 65536) * l) by (
        nonlinear_arith)
        requires
            l * l <= big,
            4294967296 < l * k + l,
            65536 <= l <= 16 * 65536,
            1 <= k <= 65536,
    ;
    assert(65536 * 65536 * rsq > 65536 * 65536 * (65536 * 65536) - 2 * (65536 * 65536) * l - 65536
        * 65536 * (2 * (qx + qy + qz) + 3)) by (nonlinear_arith)
        requires
            big * (k * k) >= 65536 * 65536 * (65536 * 65536) - 2 * (65536 * 65536) * l,
            xx * (k * k) < 65536 * 65536 * (qx * qx) + 65536 * 65536 * (2 * qx + 1),
            yy * (k * k) < 65536 * 65536 * (qy * qy) + 65536 * 65536 * (2 * qy + 1),
            zz * (k * k) < 65536 * 65536 * (qz * qz) + 65536 * 65536 * (2 * qz + 1),
            rsq == qx * qx + qy * qy + qz * qz,
            big == xx + yy + zz,
    ;
    assert(qx + qy + qz <= 3 * 65538);
    assert(rsq > 65536 * 65536 - 2 * l - (2 * 3 * 65538 + 3)) by (nonlinear_arith)
        requires
            65536 * 65536 * rsq > 65536 * 65536 * (65536 * 65536) - 2 * (65536 * 65536) * l
                - 65536 * 65536 * (2 * (qx + qy + qz) + 3),
            qx + qy + qz <= 3 * 65538,
    ;
    assert(rsq >= 65536 * 65536 - 32 * 65536 - 393231);

    // the unit vector's squared length sits inside rsq's envelope
    assert(rx * rx >= 0 && ry * ry >= 0 && rz * rz >= 0) by (nonlinear_arith);
    lemma_tdiv_envelope(rx * rx, 65536);
    lemma_tdiv_envelope(ry * ry, 65536);
    lemma_tdiv_envelope(rz * rz, 65536);
    let usq = sq_len_s(u);
    assert(rx * rx <= 65538 * 65538 && ry * ry <= 65538 * 65538 && rz * rz <= 65538 * 65538) by (
        nonlinear_arith)
        requires
            fx_abs(rx) <= 65538,
            fx_abs(ry) <= 65538,
            fx_abs(rz) <= 65538,
    ;
    assert(usq == fx_tdiv(rx * rx, 65536) + fx_tdiv(ry * ry, 65536) + fx_tdiv(rz * rz, 65536));
    assert(65536 * usq <= rsq < 65536 * usq + 3 * 65536);
    assert(usq <= 65536 + 5);
    assert(usq >= 65536 - 42);

    // and the length follows by squaring the candidate bounds
    lemma_sqrt_bounds(usq * 65536);
    let lu = length_s(u);
    assert(lu * lu <= usq * 65536 < (lu + 1) * (lu + 1));
    assert(lu <= 65536 + 2) by (nonlinear_arith)
        requires
            lu >= 0,
            lu * lu <= usq * 65536,
            usq <= 65536 + 5,
    ;
    assert(lu >= 65536 - 22) by (nonlinear_arith)
        requires
            lu >= 0,
            usq * 65536 < (lu + 1) * (lu + 1),
            usq >= 65536 - 42,
    ;
}

impl Vector3 {
    /// Componentwise sum.
    pub fn plus(self, other: Vector3) -> (r: Vector3)
        ensures
            r == vadd_s(self, other),
    {
        Vector3 {
            x: fx_add(self.x, other.x),
            y: fx_add(self.y, other.y),
            z: fx_add(self.z, other.z),
        }
    }

    /// Componentwise difference.
    pub fn minus(self, other: Vector3) -> (r: Vector3)
        ensures
            r == vsub_s(self, other),
    {
        Vector3 {
            x: fx_sub(self.x, other.x),
            y: fx_sub(self.y, other.y),
            z: fx_sub(self.z, other.z),
        }
    }

    /// Componentwise product.
    pub fn times(self, other: Vector3) -> (r: Vector3)
        ensures
            r == vmul_s(self, other),
    {
        Vector3 {
            x: fx_mul(self.x, other.x),
            y: fx_mul(self.y, other.y),
            z: fx_mul(self.z, other.z),
        }
    }

    /// Product with a scalar.
    pub fn scale(self, k: i64) -> (r: Vector3)
        ensures
            r == vscale_s(self, k as int),
    {
        Vector3 { x: fx_mul(self.x, k), y: fx_mul(self.y, k), z: fx_mul(self.z, k) }
    }

    /// Quotient by a nonzero scalar.
    pub fn div_by(self, k: i64) -> (r: Vector3)
        requires
            k != 0,
        ensures
            r == vdiv_s(self, k as int),
    {
        Vector3 { x: fx_div(self.x, k), y: fx_div(self.y, k), z: fx_div(self.z, k) }
    }

    /// Componentwise quotient. Each divisor component must be nonzero:
    /// division by zero is a precondition violation, never a silent
    /// overflow value.
    pub fn div_components(self, other: Vector3) -> (r: Vector3)
        requires
            other.x != 0,
            other.y != 0,
            other.z != 0,
        ensures
            r == vdiv_vec_s(self, other),
    {
        Vector3 {
            x: fx_div(self.x, other.x),
            y: fx_div(self.y, other.y),
            z: fx_div(self.z, other.z),
        }
    }

    /// Componentwise negation.
    pub fn neg(self) -> (r: Vector3)
        ensures
            r == vneg_s(self),
    {
        Vector3 { x: fx_neg(self.x), y: fx_neg(self.y), z: fx_neg(self.z) }
    }

    /// Dot product.
    pub fn dot(self, other: &Vector3) -> (r: i64)
        ensures
            r == dot_s(self, *other),
    {
        fx_add(fx_add(fx_mul(self.x, other.x), fx_mul(self.y, other.y)), fx_mul(self.z, other.z))
    }

    /// Cross product.
    pub fn cross(self, other: Vector3) -> (r: Vector3)
        ensures
            r == cross_s(self, other),
    {
        Vector3 {
            x: fx_sub(fx_mul(self.y, other.z), fx_mul(self.z, other.y)),
            y: fx_neg(fx_sub(fx_mul(self.x, other.z), fx_mul(self.z, other.x))),
            z: fx_sub(fx_mul(self.x, other.y), fx_mul(self.y, other.x)),
        }
    }

    /// Squared length.
    pub fn squared_length(self) -> (r: i64)
        ensures
            r == sq_len_s(self),
            r >= 0,
    {
        proof {
            lemma_sq_len_nonneg(self);
        }
        self.dot(&self)
    }

    /// Length.
    pub fn length(self) -> (r: i64)
        ensures
            r == length_s(self),
            r >= 0,
    {
        let sq: i64 = self.squared_length();
        fx_sqrt(sq)
    }

    /// Apply one scalar function to each component.
    pub fn modify<F: Fn(i64) -> i64>(self, modification: F) -> (r: Vector3)
        requires
            call_requires(modification, (self.x,)),
            call_requires(modification, (self.y,)),
            call_requires(modification, (self.z,)),
        ensures
            call_ensures(modification, (self.x,), r.x),
            call_ensures(modification, (self.y,), r.y),
            call_ensures(modification, (self.z,), r.z),
    {
        Vector3 {
            x: modification(self.x),
            y: modification(self.y),
            z: modification(self.z),
        }
    }

    /// The normalized vector. The caller must guard against a vanishing
    /// length, which would mean a division by zero.
    pub fn as_unit_vector(self) -> (r: Vector3)
        requires
            length_s(self) > 0,
        ensures
            r == unit_s(self),
    {
        let len: i64 = self.length();
        let k: i64 = fx_div(FX_ONE, len);
        self.scale(k)
    }

    /// The normalized vector, or nothing when the length vanishes.
    pub fn try_as_unit_vector(self) -> (r: Option<Vector3>)
        ensures
            length_s(self) == 0 ==> r is None,
            length_s(self) > 0 ==> r == Some(unit_s(self)),
    {
        proof {
            lemma_length_basics(self);
        }
        let len: i64 = self.length();
        if len == 0 {
            None
        } else {
            Some(self.as_unit_vector())
        }
    }

    /// The zero vector.
    pub fn zero() -> (r: Vector3)
        ensures
            r == vzero_s(),
    {
        Vector3 { x: 0, y: 0, z: 0 }
    }

    /// The all-ones vector.
    pub fn one() -> (r: Vector3)
        ensures
            r == vone_s(),
    {
        Vector3 { x: FX_ONE, y: FX_ONE, z: FX_ONE }
    }
}

} // verus!
