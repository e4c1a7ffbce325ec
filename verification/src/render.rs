//! The render driver.
//!
//! Scanlines are traversed top to bottom, pixels left to right within a
//! scanline; each pixel's ray comes from the camera, its color from the
//! shader, and its emitted line from the quantizer. The result is the full
//! sequence of output lines: the three header lines, then one line per
//! pixel in that order.

use vstd::prelude::*;
use crate::camera::IMAGE_HEIGHT;
use crate::camera::IMAGE_WIDTH;
use crate::camera::cam_dir_v;
use crate::camera::cam_origin_v;
use crate::camera::camera_ray;
use crate::color::ColorV;
use crate::color::color_wf_v;
use crate::color::quantize_v;
use crate::emit::header_lines;
use crate::emit::header_magic_v;
use crate::emit::header_max_v;
use crate::emit::header_size_v;
use crate::emit::pixel_line;
use crate::emit::pixel_line_v;
use crate::shade::is_ray_color_v;
use crate::shade::ray_color;

verus! {

/// `line` is the emitted record of pixel `(col, row)` - `row` counted from
/// the bottom scanline: the quantized channels of the ray's color.
pub open spec fn is_rendered_pixel_line(line: Seq<u8>, col: int, row: int) -> bool {
    exists|c: ColorV|
        #[trigger] is_ray_color_v(c, cam_origin_v(), cam_dir_v(col, row)) && color_wf_v(c) && line
            == pixel_line_v(
            quantize_v(c.r, c.den) as nat,
            quantize_v(c.g, c.den) as nat,
            quantize_v(c.b, c.den) as nat,
        )
}

/// Render the full image: the three header lines, then the pixel lines in
/// scanline order, top to bottom and left to right.
pub fn render() -> (lines: Vec<Vec<u8>>)
    ensures
        lines@.len() == 3 + (IMAGE_WIDTH as int) * (IMAGE_HEIGHT as int),
        lines@[0]@ == header_magic_v(),
        lines@[1]@ == header_size_v(IMAGE_WIDTH as nat, IMAGE_HEIGHT as nat),
        lines@[2]@ == header_max_v(),
        forall|s: int, c: int|
            0 <= s < IMAGE_HEIGHT && 0 <= c < IMAGE_WIDTH ==> is_rendered_pixel_line(
                #[trigger] lines@[3 + s * (IMAGE_WIDTH as int) + c]@,
                c,
                (IMAGE_HEIGHT as int) - 1 - s,
            ),
{
    let mut lines = header_lines(IMAGE_WIDTH, IMAGE_HEIGHT);
    let mut s: u32 = 0;
    while s < IMAGE_HEIGHT
        invariant
            s <= IMAGE_HEIGHT,
            lines@.len() == 3 + (s as int) * (IMAGE_WIDTH as int),
            lines@[0]@ == header_magic_v(),
            lines@[1]@ == header_size_v(IMAGE_WIDTH as nat, IMAGE_HEIGHT as nat),
            lines@[2]@ == header_max_v(),
            forall|si: int, ci: int|
                0 <= si < s && 0 <= ci < IMAGE_WIDTH ==> is_rendered_pixel_line(
                    #[trigger] lines@[3 + si * (IMAGE_WIDTH as int) + ci]@,
                    ci,
                    (IMAGE_HEIGHT as int) - 1 - si,
                ),
        decreases IMAGE_HEIGHT - s,
    {
        let row: u32 = IMAGE_HEIGHT - 1 - s;
        let mut col: u32 = 0;
        while col < IMAGE_WIDTH
            invariant
                s < IMAGE_HEIGHT,
                row == IMAGE_HEIGHT - 1 - s,
                col <= IMAGE_WIDTH,
                lines@.len() == 3 + (s as int) * (IMAGE_WIDTH as int) + col,
                lines@[0]@ == header_magic_v(),
                lines@[1]@ == header_size_v(IMAGE_WIDTH as nat, IMAGE_HEIGHT as nat),
                lines@[2]@ == header_max_v(),
                forall|si: int, ci: int|
                    0 <= si < s && 0 <= ci < IMAGE_WIDTH ==> is_rendered_pixel_line(
                        #[trigger] lines@[3 + si * (IMAGE_WIDTH as int) + ci]@,
                        ci,
                        (IMAGE_HEIGHT as int) - 1 - si,
                    ),
                forall|ci: int|
                    0 <= ci < col ==> is_rendered_pixel_line(
                        #[trigger] lines@[3 + (s as int) * (IMAGE_WIDTH as int) + ci]@,
                        ci,
                        row as int,
                    ),
            decreases IMAGE_WIDTH - col,
        {
            let ray = camera_ray(col, row);
            let pc = ray_color(ray);
            let (pr, pg, pb) = pc.to_pixel();
            let line = pixel_line(pr, pg, pb);
            lines.push(line);
            col += 1;
            proof {
                assert(is_ray_color_v(pc@, cam_origin_v(), cam_dir_v(col - 1, row as int))
                    && color_wf_v(pc@) && lines@[3 + (s as int) * (IMAGE_WIDTH as int) + (col - 1)]@
                    == pixel_line_v(
                    quantize_v(pc@.r, pc@.den) as nat,
                    quantize_v(pc@.g, pc@.den) as nat,
                    quantize_v(pc@.b, pc@.den) as nat,
                ));
            }
        }
        s += 1;
    }
    lines
}

} // verus!
