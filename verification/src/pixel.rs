//! One RGBA pixel and the arithmetic of its channels.

use vstd::prelude::*;

verus! {

/// The value of a fully opaque alpha channel.
pub const OPAQUE: u8 = 255;

/// A colour with an alpha channel, eight bits each. An image without
/// transparency has `a == 255` everywhere.
#[derive(Clone, Copy, Debug, PartialEq, Eq, Structural)]
pub struct Pixel {
    pub r: u8,
    pub g: u8,
    pub b: u8,
    pub a: u8,
}

/// `v` brought into the range of a channel: values below 0 become 0, values
/// above 255 become 255.
pub open spec fn clamp_channel(v: int) -> u8 {
    if v < 0 {
        0u8
    } else if v > 255 {
        255u8
    } else {
        v as u8
    }
}

/// The luminance of a colour: the sRGB-weighted mean of its channels,
/// rounded down.
pub open spec fn luma(r: u8, g: u8, b: u8) -> u8 {
    ((2126 * r + 7152 * g + 722 * b) / 10000) as u8
}

impl Pixel {
    /// The opaque pixel of the given colour.
    pub open spec fn opaque(r: u8, g: u8, b: u8) -> Pixel {
        Pixel { r, g, b, a: OPAQUE }
    }

    /// Channel `c` of the pixel, in the order red, green, blue, alpha.
    pub open spec fn channel(self, c: int) -> u8 {
        if c == 0 {
            self.r
        } else if c == 1 {
            self.g
        } else if c == 2 {
            self.b
        } else {
            self.a
        }
    }

    /// The colour negative: each colour channel `v` becomes `255 - v`, alpha
    /// stays.
    pub open spec fn inverted(self) -> Pixel {
        Pixel {
            r: (255 - self.r) as u8,
            g: (255 - self.g) as u8,
            b: (255 - self.b) as u8,
            a: self.a,
        }
    }

    /// The pixel with `delta` added to each colour channel, saturating at
    /// both ends of the channel range; alpha stays.
    pub open spec fn brightened(self, delta: int) -> Pixel {
        Pixel {
            r: clamp_channel(self.r + delta),
            g: clamp_channel(self.g + delta),
            b: clamp_channel(self.b + delta),
            a: self.a,
        }
    }

    /// The grey pixel of the same luminance and alpha.
    pub open spec fn grayscaled(self) -> Pixel {
        let l = luma(self.r, self.g, self.b);
        Pixel { r: l, g: l, b: l, a: self.a }
    }

    /// True if adding `delta` to the colour channels stays inside the channel
    /// range, so that brightening by `delta` loses nothing.
    pub open spec fn has_headroom(self, delta: int) -> bool {
        &&& 0 <= self.r + delta <= 255
        &&& 0 <= self.g + delta <= 255
        &&& 0 <= self.b + delta <= 255
    }

    /// Builds the opaque pixel of the given colour.
    pub fn rgb(r: u8, g: u8, b: u8) -> (p: Pixel)
        ensures
            p == Pixel::opaque(r, g, b),
    {
        Pixel { r, g, b, a: OPAQUE }
    }
}

/// The luminance of a colour never leaves the channel range, and a grey
/// keeps its level.
pub proof fn lemma_luma_bounds(r: u8, g: u8, b: u8)
    ensures
        (2126 * r + 7152 * g + 722 * b) / 10000 <= 255,
        r == g && g == b ==> luma(r, g, b) == r,
{
}

} // verus!
