use minray::camera::camera_ray;
use minray::emit::header_lines;
use minray::emit::pixel_line;
use minray::emit::u32_to_bytes;
use minray::hittable::hit_sphere;
use minray::render::render;
use minray::vec3::Vec3;

#[test]
fn decimal_bytes() {
    assert_eq!(u32_to_bytes(0), b"0".to_vec());
    assert_eq!(u32_to_bytes(7), b"7".to_vec());
    assert_eq!(u32_to_bytes(255), b"255".to_vec());
    assert_eq!(u32_to_bytes(400), b"400".to_vec());
    assert_eq!(u32_to_bytes(1_234_567_890), b"1234567890".to_vec());
}

#[test]
fn pixel_line_format() {
    assert_eq!(pixel_line(163, 200, 255), b"163 200 255 ".to_vec());
    assert_eq!(pixel_line(255, 0, 0), b"255 0 0 ".to_vec());
}

#[test]
fn header_lines_exact() {
    let h = header_lines(400, 225);
    assert_eq!(h.len(), 3);
    assert_eq!(h[0], b"P3".to_vec());
    assert_eq!(h[1], b"400 225 ".to_vec());
    assert_eq!(h[2], b"255".to_vec());
}

#[test]
fn render_header_and_length() {
    // The first three emitted lines of any render are the header, and one
    // line follows per pixel.
    let lines = render();
    assert_eq!(lines.len(), 3 + 400 * 225);
    assert_eq!(lines[0], b"P3".to_vec());
    assert_eq!(lines[1], b"400 225 ".to_vec());
    assert_eq!(lines[2], b"255".to_vec());
}

#[test]
fn render_center_pixel_red() {
    // The center pixel's ray intersects the sphere and is emitted as pure
    // red: 255 0 0.
    let lines = render();
    let center = 3 + 112 * 400 + 200;
    assert_eq!(lines[center], b"255 0 0 ".to_vec());
}

#[test]
fn render_top_left_corner_sky() {
    // The top-left corner ray falls outside the sphere and is emitted as
    // the pure sky gradient at the top of the viewport.
    let top_left_ray = camera_ray(0, 224);
    assert!(!hit_sphere(&Vec3::new(0, 0, -57456), 28728, &top_left_ray));
    let lines = render();
    assert_eq!(lines[3], b"163 200 255 ".to_vec());
}
