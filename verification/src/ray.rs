//! Rays: an origin point and a direction vector.

use vstd::prelude::*;
use crate::vec3::Point3;
use crate::vec3::Vec3;
use crate::vec3::add_v;
use crate::vec3::in_range_v;
use crate::vec3::scale_v;
use crate::vec3::lemma_mul_bound2;

verus! {

/// A directed line in space: the points `origin + t * direction`.
#[derive(Clone, Copy, Debug, PartialEq, Eq, Structural)]
pub struct Ray {
    pub origin: Point3,
    pub direction: Vec3,
}

impl Ray {
    pub fn new(origin: Point3, direction: Vec3) -> (r: Ray)
        ensures
            r.origin == origin,
            r.direction == direction,
    {
        Ray { origin, direction }
    }

    /// The point at parameter `t = t_num / t_den`, as fixed-point
    /// coordinates over the common denominator `t_den`: the result is
    /// `t_den * origin + t_num * direction`, paired with `t_den`.
    pub fn at(&self, t_num: i64, t_den: i64) -> (p: (Vec3, i64))
        requires
            in_range_v(self.origin@, 1_000_000_000),
            in_range_v(self.direction@, 1_000_000_000),
            -1_000_000 <= t_num <= 1_000_000,
            1 <= t_den <= 1_000_000,
        ensures
            p.0@ == add_v(scale_v(t_den as int, self.origin@), scale_v(t_num as int, self.direction@)),
            p.1 == t_den,
    {
        proof {
            lemma_mul_bound2(t_den as int, self.origin@.x, 1_000_000, 1_000_000_000);
            lemma_mul_bound2(t_den as int, self.origin@.y, 1_000_000, 1_000_000_000);
            lemma_mul_bound2(t_den as int, self.origin@.z, 1_000_000, 1_000_000_000);
            lemma_mul_bound2(t_num as int, self.direction@.x, 1_000_000, 1_000_000_000);
            lemma_mul_bound2(t_num as int, self.direction@.y, 1_000_000, 1_000_000_000);
            lemma_mul_bound2(t_num as int, self.direction@.z, 1_000_000, 1_000_000_000);
        }
        let v = Vec3 {
            x: t_den * self.origin.x + t_num * self.direction.x,
            y: t_den * self.origin.y + t_num * self.direction.y,
            z: t_den * self.origin.z + t_num * self.direction.z,
        };
        (v, t_den)
    }
}

} // verus!
