//! Pinhole camera and viewport geometry.
//!
//! The viewport is fixed: 400x225 pixels (16:9), viewport height 2 world
//! units, focal length 1, camera at the world origin. World coordinates are
//! fixed-point integers scaled by `SCALE = 57456 = 16 * 9 * 399 = 112 * 513`,
//! chosen so that every viewport quantity - `u * horizontal` with
//! `u = col/399` and `v * vertical` with `v = row/224` - is an exact integer
//! for every pixel.

use vstd::prelude::*;
use crate::hittable::DIR_LIMIT;
use crate::hittable::POS_LIMIT;
use crate::ray::Ray;
use crate::vec3::Vec3;
use crate::vec3::Vec3i;
use crate::vec3::in_range_v;
use crate::vec3::is_zero_v;

verus! {

/// Pixels per scanline.
pub const IMAGE_WIDTH: u32 = 400;

/// Number of scanlines.
pub const IMAGE_HEIGHT: u32 = 225;

/// Fixed-point scale of world coordinates: one world unit is `SCALE`.
pub const SCALE: i64 = 57456;

/// Viewport width in fixed-point units: `(16/9 * 2) * SCALE = 32 * SCALE / 9`.
pub const VIEWPORT_WIDTH_S: i64 = 204288;

/// Viewport height in fixed-point units: `2 * SCALE`.
pub const VIEWPORT_HEIGHT_S: i64 = 2 * 57456;

/// Focal length in fixed-point units: `1 * SCALE`.
pub const FOCAL_LENGTH_S: i64 = 57456;

/// `lower_left_corner = origin - horizontal/2 - vertical/2 - (0,0,focal_length)`:
/// the x component is `-VIEWPORT_WIDTH_S / 2`.
pub const LOWER_LEFT_X: i64 = -102144;

pub const LOWER_LEFT_Y: i64 = -57456;

pub const LOWER_LEFT_Z: i64 = -57456;

/// The direction of the ray for pixel column `col` and scanline `row`
/// (`row` counted from the bottom):
/// `lower_left_corner + u*horizontal + v*vertical - origin`, with
/// `u = col / (IMAGE_WIDTH - 1)` and `v = row / (IMAGE_HEIGHT - 1)`.
/// The per-pixel steps are exact: `horizontal.x / 399 == 512` and
/// `vertical.y / 224 == 513`.
pub open spec fn cam_dir_v(col: int, row: int) -> Vec3i {
    Vec3i { x: 512 * col - 102144, y: 513 * row - 57456, z: -57456 }
}

/// The camera sits at the world origin.
pub open spec fn cam_origin_v() -> Vec3i {
    Vec3i { x: 0, y: 0, z: 0 }
}

/// The viewport constants satisfy
/// `lower_left_corner = origin - horizontal/2 - vertical/2 - (0,0,focal_length)`.
pub proof fn lemma_lower_left_corner()
    ensures
        2 * LOWER_LEFT_X == -VIEWPORT_WIDTH_S,
        2 * LOWER_LEFT_Y == -VIEWPORT_HEIGHT_S,
        LOWER_LEFT_Z == -FOCAL_LENGTH_S,
        VIEWPORT_HEIGHT_S == 2 * SCALE,
        9 * VIEWPORT_WIDTH_S == 32 * SCALE,
        FOCAL_LENGTH_S == SCALE,
{
}

/// The ray cast through pixel `(col, row)`, `row` counted from the bottom
/// scanline (`v = 1` is the top row, reached at `row = IMAGE_HEIGHT - 1`).
pub fn camera_ray(col: u32, row: u32) -> (r: Ray)
    requires
        col < IMAGE_WIDTH,
        row < IMAGE_HEIGHT,
    ensures
        r.origin@ == cam_origin_v(),
        r.direction@ == cam_dir_v(col as int, row as int),
        // direction = lower_left + u*horizontal + v*vertical - origin, with
        // u = col/399 and v = row/224 cleared of their denominators:
        399 * r.direction@.x == 399 * LOWER_LEFT_X + col * VIEWPORT_WIDTH_S,
        224 * r.direction@.y == 224 * LOWER_LEFT_Y + row * VIEWPORT_HEIGHT_S,
        r.direction@.z == LOWER_LEFT_Z,
        in_range_v(r.origin@, POS_LIMIT as int),
        in_range_v(r.direction@, DIR_LIMIT as int),
        !is_zero_v(r.direction@),
{
    let origin = Vec3::new(0, 0, 0);
    let direction = Vec3::new(
        512 * (col as i64) - 102144,
        513 * (row as i64) - 57456,
        -57456,
    );
    Ray::new(origin, direction)
}

} // verus!
