use minray::vec3::Vec3;
use minray::ray::Ray;
use minray::hittable::Hittable;
use minray::hittable::hit_sphere;

#[test]
fn vec_add_sub_cancel() {
    let a = Vec3::new(3, -7, 11);
    let b = Vec3::new(-2, 5, 9);
    let sum = a.add(&b);
    let back = sum.sub(&b);
    assert_eq!(back, a);
}

#[test]
fn vec_dot_commutes() {
    let a = Vec3::new(12, -3, 4);
    let b = Vec3::new(-7, 8, 2);
    assert_eq!(a.dot(&b), b.dot(&a));
    assert_eq!(a.dot(&b), 12 * -7 + -3 * 8 + 4 * 2);
}

#[test]
fn vec_neg_and_scale() {
    let a = Vec3::new(4, -5, 6);
    assert_eq!(a.neg(), Vec3::new(-4, 5, -6));
    assert_eq!(a.scaled(3), Vec3::new(12, -15, 18));
    assert_eq!(a.length_squared(), 16 + 25 + 36);
}

#[test]
fn unit_vector_components_exact() {
    // (3,4,12) has length 13; each fixed-point component is the floor of
    // component * 10^9 / 13.
    let v = Vec3::new(3, 4, 12);
    let u = v.unit_vector();
    assert_eq!(u.x, 230_769_230);
    assert_eq!(u.y, 307_692_307);
    assert_eq!(u.z, 923_076_923);
}

#[test]
fn unit_vector_negative_components() {
    // Floors round toward negative infinity on negative components.
    let v = Vec3::new(-3, -4, 12);
    let u = v.unit_vector();
    assert_eq!(u.x, -230_769_231);
    assert_eq!(u.y, -307_692_308);
    assert_eq!(u.z, 923_076_923);
}

#[test]
fn unit_vector_length_near_one() {
    let k: i128 = 1_000_000_000;
    for &(x, y, z) in &[(3i64, 4i64, 12i64), (-3, -4, 12), (1, 0, 0), (5, 5, 5), (-1000, 999, 1)] {
        let u = Vec3::new(x, y, z).unit_vector();
        let s = (u.x as i128) * (u.x as i128) + (u.y as i128) * (u.y as i128) + (u.z as i128)
            * (u.z as i128);
        assert!(s >= k * k - 6 * k - 3);
        assert!(s <= k * k + 6 * k + 3);
    }
}

#[test]
fn ray_point_at_parameter() {
    let r = Ray::new(Vec3::new(1, 2, 3), Vec3::new(10, -20, 30));
    // t = 5/2: the point is (2*origin + 5*direction) over denominator 2.
    let (p, den) = r.at(5, 2);
    assert_eq!(den, 2);
    assert_eq!(p, Vec3::new(2 + 50, 4 - 100, 6 + 150));
}

#[test]
fn tangent_ray_is_miss() {
    // Ray grazing the sphere: discriminant is exactly zero, reported as a miss.
    let center = Vec3::new(0, 0, 0);
    let r = Ray::new(Vec3::new(0, 5, -10), Vec3::new(0, 0, 1));
    assert!(!hit_sphere(&center, 5, &r));
}

#[test]
fn near_tangent_ray_hits() {
    // Lowering the ray slightly below the tangent height makes the
    // discriminant slightly positive: a hit.
    let center = Vec3::new(0, 0, 0);
    let r = Ray::new(Vec3::new(0, 4999, -10000), Vec3::new(0, 0, 1));
    assert!(hit_sphere(&center, 5000, &r));
}

#[test]
fn sphere_behind_origin_still_hits() {
    // The test is purely algebraic: a sphere entirely behind the ray's
    // origin is reported as a hit, whichever way the ray points.
    let center = Vec3::new(0, 0, 10000);
    let away = Ray::new(Vec3::new(0, 0, 0), Vec3::new(0, 0, -1));
    let toward = Ray::new(Vec3::new(0, 0, 0), Vec3::new(0, 0, 1));
    assert!(hit_sphere(&center, 1000, &away));
    assert!(hit_sphere(&center, 1000, &toward));
}

#[test]
fn hittable_sphere_matches_hit_sphere() {
    let sphere = Hittable::Sphere { center: Vec3::new(0, 0, 10000), radius: 1000 };
    let away = Ray::new(Vec3::new(0, 0, 0), Vec3::new(0, 0, -1));
    let miss = Ray::new(Vec3::new(0, 0, 0), Vec3::new(0, 2, 1));
    assert!(sphere.hits(&away));
    assert!(!sphere.hits(&miss));
}
