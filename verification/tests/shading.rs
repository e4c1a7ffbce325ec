use minray::camera::camera_ray;
use minray::color::Color;
use minray::color::quantize_channel;
use minray::ray::Ray;
use minray::shade::ray_color;
use minray::vec3::Vec3;

#[test]
fn ray_color_red_on_hit() {
    // Straight down the axis into the sphere at (0,0,-1): flat red (1,0,0).
    let r = Ray::new(Vec3::new(0, 0, 0), Vec3::new(0, 0, -57456));
    let c = ray_color(r);
    assert_eq!(c, Color { r: 1, g: 0, b: 0, den: 1 });
    assert_eq!(c.to_pixel(), (255, 0, 0));
}

#[test]
fn ray_color_deterministic() {
    // Shading is a pure function of the ray: two calls agree.
    let r1 = Ray::new(Vec3::new(0, 0, 0), Vec3::new(-102144, 57456, -57456));
    let r2 = Ray::new(Vec3::new(0, 0, 0), Vec3::new(-102144, 57456, -57456));
    assert_eq!(ray_color(r1), ray_color(r2));
    let h1 = Ray::new(Vec3::new(0, 0, 0), Vec3::new(0, 0, -57456));
    let h2 = Ray::new(Vec3::new(0, 0, 0), Vec3::new(0, 0, -57456));
    assert_eq!(ray_color(h1), ray_color(h2));
}

#[test]
fn ray_color_gradient_top_left() {
    // The top-left camera ray misses; its unit y floor is 440204389, and
    // the gradient channels follow exactly.
    let r = Ray::new(Vec3::new(0, 0, 0), Vec3::new(-102144, 57456, -57456));
    let c = ray_color(r);
    let qn: i64 = 440_204_389;
    assert_eq!(
        c,
        Color {
            r: 15_000_000_000 - 5 * qn,
            g: 17_000_000_000 - 3 * qn,
            b: 20_000_000_000,
            den: 20_000_000_000,
        }
    );
    assert_eq!(c.to_pixel(), (163, 200, 255));
}

#[test]
fn gradient_monotone_along_column() {
    // Down the leftmost column every ray misses; as the vertical fraction
    // rises the color moves from white toward blue: red and green fall,
    // blue stays at its maximum.
    let expected = [
        (220u32, 234u32, 255u32),
        (207, 226, 255),
        (191, 217, 255),
        (176, 208, 255),
        (163, 200, 255),
    ];
    let rows = [0u32, 56, 112, 168, 224];
    let mut prev: Option<Color> = None;
    for i in 0..rows.len() {
        let c = ray_color(camera_ray(0, rows[i]));
        assert_eq!(c.to_pixel(), expected[i]);
        if let Some(p) = prev {
            assert!(c.r <= p.r);
            assert!(c.g <= p.g);
            assert_eq!(c.b, p.b);
            assert_eq!(c.den, p.den);
        }
        prev = Some(c);
    }
}

#[test]
fn quantize_channel_rule() {
    // floor(255.999 * channel): full intensity maps to 255, not 256.
    assert_eq!(quantize_channel(1, 1), 255);
    assert_eq!(quantize_channel(0, 1), 0);
    assert_eq!(quantize_channel(7, 10), 179);
    assert_eq!(quantize_channel(1, 2), 127);
}

#[test]
fn center_pixel_ray_hits() {
    // The ray through the viewport's center pixel strikes the sphere.
    let r = camera_ray(200, 112);
    assert_eq!(ray_color(r).to_pixel(), (255, 0, 0));
}
