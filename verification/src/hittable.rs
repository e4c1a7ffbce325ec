//! Ray-sphere intersection.
//!
//! The test is the quadratic discriminant check: with `oc = origin - center`,
//! `a = dot(direction, direction)`, `b = 2 * dot(oc, direction)` and
//! `c = dot(oc, oc) - radius^2`, the ray hits exactly when
//! `b^2 - 4*a*c > 0`. The comparison is strictly greater: a tangent ray
//! (discriminant exactly zero) counts as a miss. The sign of the intersection
//! parameter is never examined, so a sphere lying entirely behind the ray's
//! origin is still reported as a hit; both are deliberate traits of this
//! renderer, kept as stated.
//!
//! All quantities are fixed-point integers sharing the global scale; the
//! discriminant here is the real one multiplied by the fourth power of the
//! scale, which leaves its sign unchanged.

use vstd::prelude::*;
use crate::ray::Ray;
use crate::vec3::Point3;
use crate::vec3::Vec3i;
use crate::vec3::dot_v;
use crate::vec3::in_range_v;
use crate::vec3::neg_v;
use crate::vec3::sub_v;
use crate::vec3::lemma_mul_bound2;

verus! {

/// Largest magnitude accepted for position coordinates and radii.
pub const POS_LIMIT: i64 = 1_000_000;

/// Largest magnitude accepted for direction coordinates.
pub const DIR_LIMIT: i64 = 1_000_000_000;

/// The discriminant `b^2 - 4*a*c` of the ray-sphere quadratic.
pub open spec fn discriminant_v(center: Vec3i, radius: int, origin: Vec3i, dir: Vec3i) -> int {
    let oc = sub_v(origin, center);
    let a = dot_v(dir, dir);
    let b = 2 * dot_v(oc, dir);
    let c = dot_v(oc, oc) - radius * radius;
    b * b - 4 * a * c
}

/// A ray hits a sphere exactly when the discriminant is strictly positive.
pub open spec fn sphere_hit_v(center: Vec3i, radius: int, origin: Vec3i, dir: Vec3i) -> bool {
    discriminant_v(center, radius, origin, dir) > 0
}

/// Magnitude bound on a dot product from bounds on the two vectors.
pub proof fn lemma_dot_bound(a: Vec3i, b: Vec3i, ma: int, mb: int)
    requires
        0 <= ma,
        0 <= mb,
        in_range_v(a, ma),
        in_range_v(b, mb),
    ensures
        -3 * (ma * mb) <= dot_v(a, b) <= 3 * (ma * mb),
{
    lemma_mul_bound2(a.x, b.x, ma, mb);
    lemma_mul_bound2(a.y, b.y, ma, mb);
    lemma_mul_bound2(a.z, b.z, ma, mb);
}

/// Whether a ray hits the sphere of the given center and radius.
pub fn hit_sphere(center: &Point3, radius: i64, r: &Ray) -> (hit: bool)
    requires
        in_range_v(center@, POS_LIMIT as int),
        in_range_v(r.origin@, POS_LIMIT as int),
        in_range_v(r.direction@, DIR_LIMIT as int),
        0 <= radius <= POS_LIMIT,
    ensures
        hit == sphere_hit_v(center@, radius as int, r.origin@, r.direction@),
{
    let oc = r.origin.sub(center);
    let a: i128 = r.direction.dot(&r.direction);
    let half_b: i128 = oc.dot(&r.direction);
    proof {
        lemma_dot_bound(r.direction@, r.direction@, DIR_LIMIT as int, DIR_LIMIT as int);
        lemma_dot_bound(oc@, r.direction@, 2_000_000, DIR_LIMIT as int);
        lemma_dot_bound(oc@, oc@, 2_000_000, 2_000_000);
        lemma_mul_bound2(radius as int, radius as int, POS_LIMIT as int, POS_LIMIT as int);
    }
    let b: i128 = 2 * half_b;
    let c: i128 = oc.dot(&oc) - (radius as i128) * (radius as i128);
    proof {
        lemma_mul_bound2(b as int, b as int, 6_000_000_000_000_000_0, 6_000_000_000_000_000_0);
        lemma_mul_bound2(a as int, c as int, 3_000_000_000_000_000_000, 13_000_000_000_000);
    }
    let disc: i128 = b * b - 4 * (a * c);
    proof {
        assert(4 * (a * c) == (4 * a) * c) by (nonlinear_arith);
    }
    disc > 0
}

/// The scene's objects that a ray can strike; a single variant for now.
pub enum Hittable {
    Sphere { center: Point3, radius: i64 },
}

impl Hittable {
    /// Coordinates and radius within the accepted fixed-point range.
    pub open spec fn wf(self) -> bool {
        match self {
            Hittable::Sphere { center, radius } => in_range_v(center@, POS_LIMIT as int) && 0
                <= radius <= POS_LIMIT,
        }
    }

    /// Whether the ray from `origin` along `dir` strikes this object.
    pub open spec fn hit_v(self, origin: Vec3i, dir: Vec3i) -> bool {
        match self {
            Hittable::Sphere { center, radius } => sphere_hit_v(
                center@,
                radius as int,
                origin,
                dir,
            ),
        }
    }

    pub fn hits(&self, r: &Ray) -> (hit: bool)
        requires
            self.wf(),
            in_range_v(r.origin@, POS_LIMIT as int),
            in_range_v(r.direction@, DIR_LIMIT as int),
        ensures
            hit == self.hit_v(r.origin@, r.direction@),
    {
        match self {
            Hittable::Sphere { center, radius } => hit_sphere(center, *radius, r),
        }
    }
}

/// A ray exactly tangent to a sphere (discriminant zero) is a miss: the
/// comparison is strictly greater than zero.
pub proof fn lemma_tangent_ray_misses(center: Vec3i, radius: int, origin: Vec3i, dir: Vec3i)
    requires
        discriminant_v(center, radius, origin, dir) == 0,
    ensures
        !sphere_hit_v(center, radius, origin, dir),
{
}

/// A ray whose discriminant is positive, however slightly, is a hit.
pub proof fn lemma_positive_discriminant_hits(center: Vec3i, radius: int, origin: Vec3i, dir: Vec3i)
    requires
        discriminant_v(center, radius, origin, dir) > 0,
    ensures
        sphere_hit_v(center, radius, origin, dir),
{
}

/// The test is purely algebraic and ignores the sign of the intersection
/// parameter: reversing the ray's direction never changes the outcome, so a
/// sphere entirely behind the origin still counts as a hit.
pub proof fn lemma_hit_ignores_direction_sign(
    center: Vec3i,
    radius: int,
    origin: Vec3i,
    dir: Vec3i,
)
    ensures
        sphere_hit_v(center, radius, origin, dir) == sphere_hit_v(
            center,
            radius,
            origin,
            neg_v(dir),
        ),
{
    let oc = sub_v(origin, center);
    let nd = neg_v(dir);
    assert(dot_v(nd, nd) == dot_v(dir, dir)) by (nonlinear_arith)
        requires
            nd.x == -dir.x,
            nd.y == -dir.y,
            nd.z == -dir.z,
    ;
    assert(dot_v(oc, nd) == -dot_v(oc, dir)) by (nonlinear_arith)
        requires
            nd.x == -dir.x,
            nd.y == -dir.y,
            nd.z == -dir.z,
    ;
    let m = dot_v(oc, dir);
    assert((2 * m) * (2 * m) == (2 * (-m)) * (2 * (-m))) by (nonlinear_arith);
}

} // verus!
