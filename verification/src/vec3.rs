//! Three-component integer vectors.
//!
//! A `Vec3` holds fixed-point world coordinates: the real coordinate is the
//! stored integer divided by the global scale (`camera::SCALE`). Addition,
//! subtraction, negation, scalar multiplication and dot products are exact;
//! their contracts are stated over `Vec3i`, the mathematical-integer view.

use vstd::prelude::*;
use crate::sqrt::KFRAC;
use crate::sqrt::floor_div_sqrt;
use crate::sqrt::is_floor_div_sqrt;
use crate::sqrt::lemma_floor_div_sqrt_range;
use crate::sqrt::mul_sqrt_le;

verus! {

/// Mathematical view of a vector: unbounded integer components.
pub ghost struct Vec3i {
    pub x: int,
    pub y: int,
    pub z: int,
}

/// A 3-component vector of fixed-point coordinates.
#[derive(Clone, Copy, Debug, PartialEq, Eq, Structural)]
pub struct Vec3 {
    pub x: i64,
    pub y: i64,
    pub z: i64,
}

/// Positions are vectors from the world origin.
pub type Point3 = Vec3;

impl View for Vec3 {
    type V = Vec3i;

    open spec fn view(&self) -> Vec3i {
        Vec3i { x: self.x as int, y: self.y as int, z: self.z as int }
    }
}

pub open spec fn add_v(a: Vec3i, b: Vec3i) -> Vec3i {
    Vec3i { x: a.x + b.x, y: a.y + b.y, z: a.z + b.z }
}

pub open spec fn sub_v(a: Vec3i, b: Vec3i) -> Vec3i {
    Vec3i { x: a.x - b.x, y: a.y - b.y, z: a.z - b.z }
}

pub open spec fn neg_v(a: Vec3i) -> Vec3i {
    Vec3i { x: -a.x, y: -a.y, z: -a.z }
}

pub open spec fn scale_v(s: int, a: Vec3i) -> Vec3i {
    Vec3i { x: s * a.x, y: s * a.y, z: s * a.z }
}

pub open spec fn dot_v(a: Vec3i, b: Vec3i) -> int {
    a.x * b.x + a.y * b.y + a.z * b.z
}

/// Squared length of a vector.
pub open spec fn norm2_v(a: Vec3i) -> int {
    dot_v(a, a)
}

pub open spec fn is_zero_v(a: Vec3i) -> bool {
    a.x == 0 && a.y == 0 && a.z == 0
}

/// All components within `[-bound, bound]`.
pub open spec fn in_range_v(a: Vec3i, bound: int) -> bool {
    -bound <= a.x <= bound && -bound <= a.y <= bound && -bound <= a.z <= bound
}

/// Largest component magnitude accepted by `dot`: products of two such
/// values, summed three times, stay inside `i128`.
pub const DOT_LIMIT: i64 = 2_000_000_000_000_000_000;

impl Vec3 {
    pub fn new(x: i64, y: i64, z: i64) -> (v: Vec3)
        ensures
            v@ == (Vec3i { x: x as int, y: y as int, z: z as int }),
    {
        Vec3 { x, y, z }
    }

    pub fn add(&self, other: &Vec3) -> (r: Vec3)
        requires
            i64::MIN <= self.x + other.x <= i64::MAX,
            i64::MIN <= self.y + other.y <= i64::MAX,
            i64::MIN <= self.z + other.z <= i64::MAX,
        ensures
            r@ == add_v(self@, other@),
    {
        Vec3 { x: self.x + other.x, y: self.y + other.y, z: self.z + other.z }
    }

    pub fn sub(&self, other: &Vec3) -> (r: Vec3)
        requires
            i64::MIN <= self.x - other.x <= i64::MAX,
            i64::MIN <= self.y - other.y <= i64::MAX,
            i64::MIN <= self.z - other.z <= i64::MAX,
        ensures
            r@ == sub_v(self@, other@),
    {
        Vec3 { x: self.x - other.x, y: self.y - other.y, z: self.z - other.z }
    }

    pub fn neg(&self) -> (r: Vec3)
        requires
            self.x != i64::MIN,
            self.y != i64::MIN,
            self.z != i64::MIN,
        ensures
            r@ == neg_v(self@),
    {
        Vec3 { x: -self.x, y: -self.y, z: -self.z }
    }

    pub fn scaled(&self, s: i64) -> (r: Vec3)
        requires
            i64::MIN <= s * self.x <= i64::MAX,
            i64::MIN <= s * self.y <= i64::MAX,
            i64::MIN <= s * self.z <= i64::MAX,
        ensures
            r@ == scale_v(s as int, self@),
    {
        Vec3 { x: s * self.x, y: s * self.y, z: s * self.z }
    }

    /// Dot product, exact: `dot(a,b) = a.x*b.x + a.y*b.y + a.z*b.z`.
    pub fn dot(&self, other: &Vec3) -> (r: i128)
        requires
            in_range_v(self@, DOT_LIMIT as int),
            in_range_v(other@, DOT_LIMIT as int),
        ensures
            r == dot_v(self@, other@),
    {
        proof {
            lemma_bounded_mul(self.x as int, other.x as int, DOT_LIMIT as int);
            lemma_bounded_mul(self.y as int, other.y as int, DOT_LIMIT as int);
            lemma_bounded_mul(self.z as int, other.z as int, DOT_LIMIT as int);
        }
        (self.x as i128) * (other.x as i128) + (self.y as i128) * (other.y as i128) + (self.z
            as i128) * (other.z as i128)
    }

    /// Squared length: `dot(v, v)`.
    pub fn length_squared(&self) -> (r: i128)
        requires
            in_range_v(self@, DOT_LIMIT as int),
        ensures
            r == norm2_v(self@),
    {
        self.dot(self)
    }

    pub fn is_zero(&self) -> (r: bool)
        ensures
            r == is_zero_v(self@),
    {
        self.x == 0 && self.y == 0 && self.z == 0
    }

    /// The unit vector `v / length(v)` of a nonzero vector, in `KFRAC`
    /// fixed point: each returned component is the exact floor of
    /// `KFRAC * component / length(v)`. The vector must be nonzero; a zero
    /// vector has no direction to normalize.
    pub fn unit_vector(&self) -> (u: UnitVec)
        requires
            !is_zero_v(self@),
            in_range_v(self@, KFRAC as int),
        ensures
            is_floor_div_sqrt(u.x as int, (KFRAC as int) * self@.x, norm2_v(self@)),
            is_floor_div_sqrt(u.y as int, (KFRAC as int) * self@.y, norm2_v(self@)),
            is_floor_div_sqrt(u.z as int, (KFRAC as int) * self@.z, norm2_v(self@)),
    {
        proof {
            lemma_norm2_pos(self@);
            lemma_component_square_le_norm2(self@);
        }
        let n: i128 = self.length_squared();
        UnitVec {
            x: floor_div_sqrt(self.x, n as u128),
            y: floor_div_sqrt(self.y, n as u128),
            z: floor_div_sqrt(self.z, n as u128),
        }
    }
}

/// A normalized direction in `KFRAC` fixed point: each component is the
/// floor of `KFRAC` times the corresponding unit-vector component.
#[derive(Clone, Copy, Debug, PartialEq, Eq, Structural)]
pub struct UnitVec {
    pub x: i64,
    pub y: i64,
    pub z: i64,
}

/// The product of two values bounded by `ma` and `mb` is bounded by `ma * mb`.
pub proof fn lemma_mul_bound2(a: int, b: int, ma: int, mb: int) by (nonlinear_arith)
    requires
        0 <= ma,
        0 <= mb,
        -ma <= a <= ma,
        -mb <= b <= mb,
    ensures
        -(ma * mb) <= a * b <= ma * mb,
{
}

/// The product of two values bounded by `m` is bounded by `m * m`.
pub proof fn lemma_bounded_mul(a: int, b: int, m: int) by (nonlinear_arith)
    requires
        0 <= m,
        -m <= a <= m,
        -m <= b <= m,
    ensures
        -(m * m) <= a * b <= m * m,
{
}

/// Adding a vector and then subtracting it gives back the first vector.
pub proof fn lemma_add_sub_cancel(a: Vec3i, b: Vec3i)
    ensures
        sub_v(add_v(a, b), b) == a,
{
}

/// The dot product is symmetric in its arguments.
pub proof fn lemma_dot_symmetric(a: Vec3i, b: Vec3i)
    ensures
        dot_v(a, b) == dot_v(b, a),
{
}

/// A squared length is never negative.
pub proof fn lemma_norm2_nonneg(a: Vec3i)
    ensures
        norm2_v(a) >= 0,
{
    lemma_bounded_square(a.x);
    lemma_bounded_square(a.y);
    lemma_bounded_square(a.z);
}

/// A square is never negative.
pub proof fn lemma_bounded_square(a: int) by (nonlinear_arith)
    ensures
        a * a >= 0,
{
}

/// Each component's square is at most the vector's squared length.
pub proof fn lemma_component_square_le_norm2(a: Vec3i)
    ensures
        a.x * a.x <= norm2_v(a),
        a.y * a.y <= norm2_v(a),
        a.z * a.z <= norm2_v(a),
{
    lemma_bounded_square(a.x);
    lemma_bounded_square(a.y);
    lemma_bounded_square(a.z);
}

/// Two-sided bounds that a floor of `KFRAC * y / sqrt(n)` puts on its own
/// square: `q*q*n` brackets `KFRAC^2 * y^2` on the side of `q`'s sign.
proof fn lemma_floor_sq_bounds(q: int, y: int, n: int)
    requires
        n > 0,
        y * y <= n,
        is_floor_div_sqrt(q, (KFRAC as int) * y, n),
    ensures
        q >= 0 ==> q * q * n <= (KFRAC as int) * (KFRAC as int) * (y * y) < (q + 1) * (q + 1) * n,
        q < 0 ==> (q + 1) * (q + 1) * n < (KFRAC as int) * (KFRAC as int) * (y * y) <= q * q * n,
{
    let k = KFRAC as int;
    let b = k * y;
    assert(b * b == k * k * (y * y)) by (nonlinear_arith)
        requires
            b == k * y,
    ;
    assert(b * b >= 0) by (nonlinear_arith);
    if q >= 0 {
        assert(mul_sqrt_le(q, b, n));
        if q == 0 {
            if b < 0 {
                assert(q * q * n == 0) by (nonlinear_arith)
                    requires
                        q == 0,
                ;
                assert(b * b <= 0);
                assert(b == 0) by (nonlinear_arith)
                    requires
                        b * b <= 0,
                ;
            }
            assert(b >= 0);
            assert(q * q * n <= b * b) by (nonlinear_arith)
                requires
                    q == 0,
                    b * b >= 0,
            ;
        } else {
            assert(b >= 0 && q * q * n <= b * b);
        }
        assert(!mul_sqrt_le(q + 1, b, n));
        assert(b * b < (q + 1) * (q + 1) * n);
    } else {
        assert(q + 1 <= 0);
        assert(!mul_sqrt_le(q + 1, b, n));
        assert(b < 0 && (q + 1) * (q + 1) * n < b * b);
        assert(mul_sqrt_le(q, b, n));
        assert(q * q * n >= b * b);
    }
}

/// The unit vector of any nonzero vector has length one, up to the
/// fixed-point quantization: the sum of the squares of its `KFRAC`-scaled
/// components differs from `KFRAC^2` by at most `6*KFRAC + 3`, so the
/// squared length differs from one by at most about `6 / KFRAC`.
pub proof fn lemma_unit_vector_length(v: Vec3i, ux: int, uy: int, uz: int)
    requires
        !is_zero_v(v),
        is_floor_div_sqrt(ux, (KFRAC as int) * v.x, norm2_v(v)),
        is_floor_div_sqrt(uy, (KFRAC as int) * v.y, norm2_v(v)),
        is_floor_div_sqrt(uz, (KFRAC as int) * v.z, norm2_v(v)),
    ensures
        (KFRAC as int) * (KFRAC as int) - 6 * (KFRAC as int) - 3 <= ux * ux + uy * uy + uz * uz,
        ux * ux + uy * uy + uz * uz <= (KFRAC as int) * (KFRAC as int) + 6 * (KFRAC as int) + 3,
{
    let k = KFRAC as int;
    let n = norm2_v(v);
    lemma_norm2_pos(v);
    lemma_component_square_le_norm2(v);
    lemma_floor_sq_bounds(ux, v.x, n);
    lemma_floor_sq_bounds(uy, v.y, n);
    lemma_floor_sq_bounds(uz, v.z, n);
    lemma_floor_div_sqrt_range(ux, v.x, n);
    lemma_floor_div_sqrt_range(uy, v.y, n);
    lemma_floor_div_sqrt_range(uz, v.z, n);
    let lox = if ux >= 0 { ux * ux } else { (ux + 1) * (ux + 1) };
    let hix = if ux >= 0 { (ux + 1) * (ux + 1) } else { ux * ux };
    let loy = if uy >= 0 { uy * uy } else { (uy + 1) * (uy + 1) };
    let hiy = if uy >= 0 { (uy + 1) * (uy + 1) } else { uy * uy };
    let loz = if uz >= 0 { uz * uz } else { (uz + 1) * (uz + 1) };
    let hiz = if uz >= 0 { (uz + 1) * (uz + 1) } else { uz * uz };
    assert(lox * n <= k * k * (v.x * v.x) <= hix * n);
    assert(loy * n <= k * k * (v.y * v.y) <= hiy * n);
    assert(loz * n <= k * k * (v.z * v.z) <= hiz * n);
    assert(k * k * (v.x * v.x) + k * k * (v.y * v.y) + k * k * (v.z * v.z) == k * k * n)
        by (nonlinear_arith)
        requires
            n == v.x * v.x + v.y * v.y + v.z * v.z,
    ;
    assert((lox + loy + loz) * n == lox * n + loy * n + loz * n) by (nonlinear_arith);
    assert((hix + hiy + hiz) * n == hix * n + hiy * n + hiz * n) by (nonlinear_arith);
    assert((lox + loy + loz) * n <= (k * k) * n) by (nonlinear_arith)
        requires
            (lox + loy + loz) * n == lox * n + loy * n + loz * n,
            lox * n + loy * n + loz * n <= k * k * n,
            (k * k) * n == k * k * n,
    ;
    assert(lox + loy + loz <= k * k) by (nonlinear_arith)
        requires
            (lox + loy + loz) * n <= (k * k) * n,
            n > 0,
    ;
    assert(k * k <= hix + hiy + hiz) by (nonlinear_arith)
        requires
            (k * k) * n <= (hix + hiy + hiz) * n,
            n > 0,
            (hix + hiy + hiz) * n == hix * n + hiy * n + hiz * n,
            k * k * n <= hix * n + hiy * n + hiz * n,
            (k * k) * n == k * k * n,
    ;
    assert((ux + 1) * (ux + 1) == ux * ux + 2 * ux + 1) by (nonlinear_arith);
    assert((uy + 1) * (uy + 1) == uy * uy + 2 * uy + 1) by (nonlinear_arith);
    assert((uz + 1) * (uz + 1) == uz * uz + 2 * uz + 1) by (nonlinear_arith);
    assert(hix - 2 * k - 1 <= ux * ux <= lox + 2 * k);
    assert(hiy - 2 * k - 1 <= uy * uy <= loy + 2 * k);
    assert(hiz - 2 * k - 1 <= uz * uz <= loz + 2 * k);
}

/// A nonzero vector has positive squared length.
pub proof fn lemma_norm2_pos(a: Vec3i)
    requires
        !is_zero_v(a),
    ensures
        norm2_v(a) > 0,
{
    lemma_bounded_square(a.x);
    lemma_bounded_square(a.y);
    lemma_bounded_square(a.z);
    if a.x != 0 {
        assert(a.x * a.x > 0) by (nonlinear_arith)
            requires
                a.x != 0,
        ;
    } else if a.y != 0 {
        assert(a.y * a.y > 0) by (nonlinear_arith)
            requires
                a.y != 0,
        ;
    } else {
        assert(a.z * a.z > 0) by (nonlinear_arith)
            requires
                a.z != 0,
        ;
    }
}

} // verus!
