//! Image emission: the textual "P3" pixel-image lines, as byte strings.
//!
//! The image is a header of three lines - `P3`, `<width> <height> ` and
//! `255` - followed by one line per pixel holding `R G B ` (trailing space),
//! the three quantized channels as decimal integers.

use vstd::prelude::*;

verus! {

/// The decimal digits of `n`, most significant first, as ASCII bytes.
pub open spec fn dec_bytes(n: nat) -> Seq<u8>
    decreases n,
{
    if n < 10 {
        seq![(48 + n) as u8]
    } else {
        dec_bytes(n / 10).push((48 + n % 10) as u8)
    }
}

/// The bytes of a pixel line: `R G B ` with a trailing space.
pub open spec fn pixel_line_v(r: nat, g: nat, b: nat) -> Seq<u8> {
    dec_bytes(r) + seq![32u8] + dec_bytes(g) + seq![32u8] + dec_bytes(b) + seq![32u8]
}

/// The first header line: `P3`.
pub open spec fn header_magic_v() -> Seq<u8> {
    seq![80u8, 51u8]
}

/// The second header line: `<width> <height> ` with a trailing space.
pub open spec fn header_size_v(w: nat, h: nat) -> Seq<u8> {
    dec_bytes(w) + seq![32u8] + dec_bytes(h) + seq![32u8]
}

/// The third header line: the maximum channel value, `255`.
pub open spec fn header_max_v() -> Seq<u8> {
    dec_bytes(255)
}

/// The decimal representation of `n` as ASCII bytes.
pub fn u32_to_bytes(n: u32) -> (v: Vec<u8>)
    ensures
        v@ == dec_bytes(n as nat),
    decreases n,
{
    if n < 10 {
        let mut v: Vec<u8> = Vec::new();
        v.push(48 + (n as u8));
        v
    } else {
        let mut v = u32_to_bytes(n / 10);
        v.push(48 + ((n % 10) as u8));
        v
    }
}

/// Append `tail`'s bytes to `v`.
fn push_bytes(v: &mut Vec<u8>, tail: &Vec<u8>)
    ensures
        final(v)@ == old(v)@ + tail@,
{
    let mut i: usize = 0;
    while i < tail.len()
        invariant
            i <= tail.len(),
            v@ == old(v)@ + tail@.subrange(0, i as int),
        decreases tail.len() - i,
    {
        v.push(tail[i]);
        i += 1;
        proof {
            assert(tail@.subrange(0, i as int) == tail@.subrange(0, i - 1).push(tail@[i - 1]));
        }
    }
    proof {
        assert(tail@.subrange(0, tail@.len() as int) == tail@);
    }
}

/// One emitted pixel line, `R G B ` as decimal bytes.
pub fn pixel_line(r: u32, g: u32, b: u32) -> (v: Vec<u8>)
    ensures
        v@ == pixel_line_v(r as nat, g as nat, b as nat),
{
    let mut v = u32_to_bytes(r);
    v.push(32);
    let gb = u32_to_bytes(g);
    push_bytes(&mut v, &gb);
    v.push(32);
    let bb = u32_to_bytes(b);
    push_bytes(&mut v, &bb);
    v.push(32);
    proof {
        assert(v@ == pixel_line_v(r as nat, g as nat, b as nat));
    }
    v
}

/// The three header lines for a `w` by `h` image.
pub fn header_lines(w: u32, h: u32) -> (lines: Vec<Vec<u8>>)
    ensures
        lines@.len() == 3,
        lines@[0]@ == header_magic_v(),
        lines@[1]@ == header_size_v(w as nat, h as nat),
        lines@[2]@ == header_max_v(),
{
    let mut magic: Vec<u8> = Vec::new();
    magic.push(80);
    magic.push(51);
    proof {
        assert(magic@ == header_magic_v());
    }
    let mut size = u32_to_bytes(w);
    size.push(32);
    let hb = u32_to_bytes(h);
    push_bytes(&mut size, &hb);
    size.push(32);
    proof {
        assert(size@ == header_size_v(w as nat, h as nat));
    }
    let maxval = u32_to_bytes(255);
    let mut lines: Vec<Vec<u8>> = Vec::new();
    lines.push(magic);
    lines.push(size);
    lines.push(maxval);
    lines
}

} // verus!
