//! Colors and pixel quantization.
//!
//! A `Color` holds red, green and blue channels as exact fractions over one
//! common denominator, each nominally in `[0, 1]`. Emission turns a channel
//! into the integer `floor(255.999 * channel)`, computed exactly as
//! `(255999 * num) / (1000 * den)`.

use vstd::prelude::*;
use vstd::arithmetic::div_mod::lemma_fundamental_div_mod;
use vstd::arithmetic::div_mod::lemma_mod_division_less_than_divisor;

verus! {

/// Mathematical view of a color: channel numerators over one denominator.
pub ghost struct ColorV {
    pub r: int,
    pub g: int,
    pub b: int,
    pub den: int,
}

/// An RGB color: channel fractions `r/den`, `g/den`, `b/den`.
#[derive(Clone, Copy, Debug, PartialEq, Eq, Structural)]
pub struct Color {
    pub r: i64,
    pub g: i64,
    pub b: i64,
    pub den: i64,
}

impl View for Color {
    type V = ColorV;

    open spec fn view(&self) -> ColorV {
        ColorV { r: self.r as int, g: self.g as int, b: self.b as int, den: self.den as int }
    }
}

/// Channels lie in `[0, 1]`: each numerator within `[0, den]`.
pub open spec fn color_wf_v(c: ColorV) -> bool {
    1 <= c.den && 0 <= c.r <= c.den && 0 <= c.g <= c.den && 0 <= c.b <= c.den
}

/// Largest denominator the quantizer accepts.
pub const CHANNEL_DEN_LIMIT: i64 = 1_000_000_000_000;

/// `floor(255.999 * (num / den))`, written over integers.
pub open spec fn quantize_v(num: int, den: int) -> int {
    (255999 * num) / (1000 * den)
}

/// One emitted channel: `floor(255.999 * (num / den))`, always in `[0, 255]`.
pub fn quantize_channel(num: i64, den: i64) -> (v: u32)
    requires
        1 <= den <= CHANNEL_DEN_LIMIT,
        0 <= num <= den,
    ensures
        v == quantize_v(num as int, den as int),
        v <= 255,
{
    let m: u64 = 255999 * (num as u64);
    let d: u64 = 1000 * (den as u64);
    let q: u64 = m / d;
    proof {
        lemma_fundamental_div_mod(m as int, d as int);
        lemma_mod_division_less_than_divisor(m as int, d as int);
        assert(m <= 255999 * den < 256 * d);
        assert(q < 256) by (nonlinear_arith)
            requires
                m == d * q + (m as int % d as int),
                m as int % d as int >= 0,
                m < 256 * d,
                d > 0,
                q >= 0,
        ;
    }
    q as u32
}

impl Color {
    /// The emitted integer triple of this color, one quantized value per
    /// channel, red first.
    pub fn to_pixel(&self) -> (p: (u32, u32, u32))
        requires
            color_wf_v(self@),
            self.den <= CHANNEL_DEN_LIMIT,
        ensures
            p.0 == quantize_v(self@.r, self@.den),
            p.1 == quantize_v(self@.g, self@.den),
            p.2 == quantize_v(self@.b, self@.den),
            p.0 <= 255 && p.1 <= 255 && p.2 <= 255,
    {
        (
            quantize_channel(self.r, self.den),
            quantize_channel(self.g, self.den),
            quantize_channel(self.b, self.den),
        )
    }
}

} // verus!
