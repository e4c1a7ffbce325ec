//! A minimal ray-traced image generator.
//!
//! For each pixel of a fixed 400x225 viewport the renderer casts a ray from a
//! pinhole camera at the origin into a scene holding a single sphere, decides
//! whether the ray hits the sphere, and produces a color: flat red on a hit,
//! or a vertical sky gradient on a miss. The image is emitted as the lines of
//! a plain-text pixel file ("P3" format).
//!
//! All geometry is carried out in exact integer arithmetic. World coordinates
//! are fixed-point values scaled by `camera::SCALE`, chosen so that every
//! camera quantity of the 400x225 viewport is an exact integer. The one
//! irrational step, normalizing a ray direction, is done with a verified
//! integer square root whose floor semantics are stated exactly.

pub mod camera;
pub mod color;
pub mod emit;
pub mod hittable;
pub mod ray;
pub mod render;
pub mod shade;
pub mod sqrt;
pub mod vec3;
