//! Per-pixel shading.
//!
//! A ray that hits the scene's sphere (center `(0,0,-1)`, radius `0.5` in
//! world units) is colored flat red `(1,0,0)`. A ray that misses is colored
//! by the vertical sky gradient: with `unit_direction = direction/|direction|`
//! and `t = 0.5 * (unit_direction.y + 1)`,
//! `color = (1-t)*(1,1,1) + t*(0.5,0.7,1.0)`.
//!
//! The irrational `unit_direction.y` is represented by its exact
//! `KFRAC`-fixed-point floor `qn`, so `t = (KFRAC + qn) / (2*KFRAC)` and the
//! channels come out over the common denominator `20*KFRAC`:
//! `r = (15*KFRAC - 5*qn) / (20*KFRAC)`, `g = (17*KFRAC - 3*qn) / (20*KFRAC)`,
//! `b = 1`.

use vstd::prelude::*;
use crate::color::Color;
use crate::color::ColorV;
use crate::color::color_wf_v;
use crate::color::CHANNEL_DEN_LIMIT;
use crate::hittable::Hittable;
use crate::hittable::POS_LIMIT;
use crate::hittable::DIR_LIMIT;
use crate::hittable::sphere_hit_v;
use crate::ray::Ray;
use crate::sqrt::KFRAC;
use crate::sqrt::floor_div_sqrt;
use crate::sqrt::is_floor_div_sqrt;
use crate::sqrt::lemma_floor_div_sqrt_monotone;
use crate::sqrt::lemma_floor_div_sqrt_range;
use crate::sqrt::lemma_floor_div_sqrt_unique;
use crate::vec3::Vec3;
use crate::vec3::Vec3i;
use crate::vec3::in_range_v;
use crate::vec3::is_zero_v;
use crate::vec3::norm2_v;
use crate::vec3::lemma_bounded_square;
use crate::vec3::lemma_component_square_le_norm2;
use crate::vec3::lemma_norm2_pos;

verus! {

/// The scene sphere's center `(0, 0, -1)` in fixed-point coordinates.
pub const SPHERE_CENTER_Z: i64 = -57456;

/// The scene sphere's radius `0.5` in fixed-point units: `SCALE / 2`.
pub const SPHERE_RADIUS_S: i64 = 28728;

/// Common denominator of the gradient channels: `20 * KFRAC`.
pub const GRADIENT_DEN: i64 = 20_000_000_000;

pub open spec fn scene_center_v() -> Vec3i {
    Vec3i { x: 0, y: 0, z: SPHERE_CENTER_Z as int }
}

/// The flat hit color, pure red `(1, 0, 0)`.
pub open spec fn red_v() -> ColorV {
    ColorV { r: 1, g: 0, b: 0, den: 1 }
}

/// The sky gradient color for a unit-direction y floor `qn`:
/// `(1-t)*(1,1,1) + t*(0.5,0.7,1.0)` with `t = (KFRAC + qn) / (2*KFRAC)`.
pub open spec fn sky_gradient_v(qn: int) -> ColorV {
    ColorV {
        r: 15 * (KFRAC as int) - 5 * qn,
        g: 17 * (KFRAC as int) - 3 * qn,
        b: 20 * (KFRAC as int),
        den: 20 * (KFRAC as int),
    }
}

/// `c` is the sky color of a miss ray along `dir`: its channels are the
/// gradient at the exact floor `qn` of `KFRAC * dir.y / |dir|`.
pub open spec fn is_sky_color_v(c: ColorV, dir: Vec3i) -> bool {
    exists|qn: int|
        #[trigger] is_floor_div_sqrt(qn, (KFRAC as int) * dir.y, norm2_v(dir)) && c
            == sky_gradient_v(qn)
}

/// The shading rule: red on a hit of the scene sphere, sky gradient else.
pub open spec fn is_ray_color_v(c: ColorV, origin: Vec3i, dir: Vec3i) -> bool {
    if sphere_hit_v(scene_center_v(), SPHERE_RADIUS_S as int, origin, dir) {
        c == red_v()
    } else {
        is_sky_color_v(c, dir)
    }
}

/// The color seen along a ray: flat red if the ray strikes the scene
/// sphere, the vertical white-to-blue sky gradient otherwise.
pub fn ray_color(r: Ray) -> (c: Color)
    requires
        in_range_v(r.origin@, POS_LIMIT as int),
        in_range_v(r.direction@, DIR_LIMIT as int),
        !is_zero_v(r.direction@),
    ensures
        is_ray_color_v(c@, r.origin@, r.direction@),
        color_wf_v(c@),
        c@.den <= CHANNEL_DEN_LIMIT,
{
    let sphere = Hittable::Sphere {
        center: Vec3::new(0, 0, SPHERE_CENTER_Z),
        radius: SPHERE_RADIUS_S,
    };
    if sphere.hits(&r) {
        return Color { r: 1, g: 0, b: 0, den: 1 };
    }
    let n: i128 = r.direction.length_squared();
    proof {
        lemma_norm2_pos(r.direction@);
        lemma_component_square_le_norm2(r.direction@);
    }
    let qn: i64 = floor_div_sqrt(r.direction.y, n as u128);
    let c = Color {
        r: 15 * KFRAC - 5 * qn,
        g: 17 * KFRAC - 3 * qn,
        b: 20 * KFRAC,
        den: 20 * KFRAC,
    };
    proof {
        assert(is_floor_div_sqrt(qn as int, (KFRAC as int) * r.direction@.y, norm2_v(r.direction@))
            && c@ == sky_gradient_v(qn as int));
    }
    c
}

/// Shading is deterministic: the color of a ray is a function of the ray
/// alone, so any two colors the rule assigns to one ray are equal.
pub proof fn lemma_ray_color_deterministic(c1: ColorV, c2: ColorV, origin: Vec3i, dir: Vec3i)
    requires
        !is_zero_v(dir),
        is_ray_color_v(c1, origin, dir),
        is_ray_color_v(c2, origin, dir),
    ensures
        c1 == c2,
{
    if !sphere_hit_v(scene_center_v(), SPHERE_RADIUS_S as int, origin, dir) {
        lemma_norm2_pos(dir);
        let b = (KFRAC as int) * dir.y;
        let n = norm2_v(dir);
        let qn1 = choose|qn: int|
            #[trigger] is_floor_div_sqrt(qn, b, n) && c1 == sky_gradient_v(qn);
        let qn2 = choose|qn: int|
            #[trigger] is_floor_div_sqrt(qn, b, n) && c2 == sky_gradient_v(qn);
        lemma_floor_div_sqrt_unique(qn1, qn2, b, n);
    }
}

/// Sky colors lie between the endpoints white `(1,1,1)` (at `t = 0`) and
/// blue `(0.5, 0.7, 1.0)` (at `t = 1`): over the denominator `20*KFRAC` the
/// red channel is within `[10, 20] * KFRAC`, green within `[14, 20] * KFRAC`,
/// and blue is exactly one.
pub proof fn lemma_sky_color_bounds(c: ColorV, dir: Vec3i)
    requires
        !is_zero_v(dir),
        is_sky_color_v(c, dir),
    ensures
        c.den == 20 * (KFRAC as int),
        10 * (KFRAC as int) <= c.r <= 20 * (KFRAC as int),
        14 * (KFRAC as int) <= c.g <= 20 * (KFRAC as int),
        c.b == 20 * (KFRAC as int),
{
    lemma_norm2_pos(dir);
    lemma_component_square_le_norm2(dir);
    let b = (KFRAC as int) * dir.y;
    let n = norm2_v(dir);
    let qn = choose|q: int| #[trigger] is_floor_div_sqrt(q, b, n) && c == sky_gradient_v(q);
    lemma_floor_div_sqrt_range(qn, dir.y, n);
}

/// The sky gradient is monotone: of two miss rays differing only in the
/// direction's y component, the higher one has the larger interpolation
/// parameter `t`, so its color has moved further from white `(1,1,1)`
/// toward blue `(0.5, 0.7, 1.0)` - red and green fall, blue stays.
pub proof fn lemma_sky_gradient_monotone(c1: ColorV, c2: ColorV, d1: Vec3i, d2: Vec3i)
    requires
        d1.x == d2.x,
        d1.z == d2.z,
        d1.y <= d2.y,
        !is_zero_v(d1),
        !is_zero_v(d2),
        is_sky_color_v(c1, d1),
        is_sky_color_v(c2, d2),
    ensures
        c1.den == c2.den,
        c1.r >= c2.r,
        c1.g >= c2.g,
        c1.b == c2.b,
{
    lemma_norm2_pos(d1);
    lemma_norm2_pos(d2);
    let n1 = norm2_v(d1);
    let n2 = norm2_v(d2);
    let qn1 = choose|q: int|
        #[trigger] is_floor_div_sqrt(q, (KFRAC as int) * d1.y, n1) && c1 == sky_gradient_v(q);
    let qn2 = choose|q: int|
        #[trigger] is_floor_div_sqrt(q, (KFRAC as int) * d2.y, n2) && c2 == sky_gradient_v(q);
    let side = d1.x * d1.x + d1.z * d1.z;
    lemma_bounded_square(d1.x);
    lemma_bounded_square(d1.z);
    assert(n1 == side + d1.y * d1.y);
    assert(n2 == side + d2.y * d2.y);
    lemma_floor_div_sqrt_monotone(qn1, qn2, d1.y, d2.y, side, n1, n2);
}

} // verus!
