//! RGB color values and linear brightness scaling.

use vstd::prelude::*;

verus! {

/// An RGB color with one byte per channel.
#[derive(Clone, Copy, PartialEq, Eq, Structural, Debug)]
pub struct Rgb {
    pub r: u8,
    pub g: u8,
    pub b: u8,
}

impl Rgb {
    /// The all-off color.
    pub fn black() -> (c: Rgb)
        ensures
            c == (Rgb { r: 0, g: 0, b: 0 }),
    {
        Rgb { r: 0, g: 0, b: 0 }
    }
}

/// One channel scaled by `multiplier / 256`, with integer truncation.
pub open spec fn scaled_channel(c: u8, multiplier: u16) -> int {
    (c as int * multiplier as int) / 256
}

/// A channel scaled by a multiplier of at most 256 stays within a byte.
pub proof fn lemma_scaled_channel_bounds(c: u8, multiplier: u16)
    requires
        multiplier <= 256,
    ensures
        c as int * multiplier as int <= 65280,
        0 <= scaled_channel(c, multiplier) <= 255,
{
    assert(c as int * multiplier as int <= 65280) by (nonlinear_arith)
        requires
            c <= 255,
            multiplier <= 256,
    ;
}

/// Scales every channel of `color` by `multiplier / 256`, truncating.
pub fn brightness(color: Rgb, multiplier: u16) -> (scaled: Rgb)
    requires
        multiplier <= 256,
    ensures
        scaled.r == scaled_channel(color.r, multiplier),
        scaled.g == scaled_channel(color.g, multiplier),
        scaled.b == scaled_channel(color.b, multiplier),
{
    proof {
        lemma_scaled_channel_bounds(color.r, multiplier);
        lemma_scaled_channel_bounds(color.g, multiplier);
        lemma_scaled_channel_bounds(color.b, multiplier);
    }
    Rgb {
        r: (color.r as u16 * multiplier / 256) as u8,
        g: (color.g as u16 * multiplier / 256) as u8,
        b: (color.b as u16 * multiplier / 256) as u8,
    }
}

/// Scales every pixel by a fixed brightness on its way to a display.
pub struct BrightnessAdjustment {
    pub brightness: u8,
}

impl BrightnessAdjustment {
    /// The color actually drawn for a pixel of color `color`.
    pub fn adjust(&self, color: Rgb) -> (c: Rgb)
        ensures
            c.r == scaled_channel(color.r, self.brightness as u16),
            c.g == scaled_channel(color.g, self.brightness as u16),
            c.b == scaled_channel(color.b, self.brightness as u16),
    {
        brightness(color, self.brightness as u16)
    }
}

} // verus!
