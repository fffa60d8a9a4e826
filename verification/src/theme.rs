//! The palette.

use vstd::prelude::*;

verus! {

/// A colour with its opacity multiplied in, one byte a channel.
#[derive(Clone, Copy, Debug, PartialEq, Eq, Structural)]
pub struct Color {
    pub r: u8,
    pub g: u8,
    pub b: u8,
    pub a: u8,
}

/// Hot signal pink. Anything actively shaping the sound is drawn in this.
pub const NEON: u32 = 0xff4d9d;

/// The soft pastel end of the same hue: highlights, solo, secondary text.
pub const MOCHI: u32 = 0xffd3e4;

/// Per-band accents. One hue, alternating pale and vivid so that neighbouring
/// bands stay tellable apart without breaking the monochrome scheme.
pub const BAND_COLORS: [u32; 12] = [
    0xffe1ee,
    0xff4d9d,
    0xffb3d1,
    0xff2e8b,
    0xffd0e2,
    0xff6fb0,
    0xff90c0,
    0xe81f77,
    0xffc4da,
    0xff5aa3,
    0xffa0c8,
    0xff7ab5,
];

impl Color {
    /// An opaque colour, from its three bytes written in order.
    pub open spec fn of(rgb: u32) -> Color {
        Color {
            r: (rgb / 65536 % 256) as u8,
            g: (rgb / 256 % 256) as u8,
            b: (rgb % 256) as u8,
            a: 255,
        }
    }

    /// An opaque colour, from its three bytes written in order.
    pub fn opaque(rgb: u32) -> (r: Color)
        ensures
            r == Color::of(rgb),
    {
        Color {
            r: (rgb / 65536 % 256) as u8,
            g: (rgb / 256 % 256) as u8,
            b: (rgb % 256) as u8,
            a: 255,
        }
    }
}

/// The accent of a band. The list is gone through again for the bands past its
/// end.
pub fn band_color(index: usize) -> (r: Color)
    ensures
        r == Color::of(BAND_COLORS@[index as int % 12]),
{
    Color::opaque(BAND_COLORS[index % 12])
}

/// White at a given opacity.
pub fn white(alpha: u8) -> (r: Color)
    ensures
        r == (Color { r: alpha, g: alpha, b: alpha, a: alpha }),
{
    Color { r: alpha, g: alpha, b: alpha, a: alpha }
}

/// Bands that stand next to each other differ in colour.
pub proof fn neighbours_differ(index: nat)
    ensures
        Color::of(BAND_COLORS@[index as int % 12]) != Color::of(
            BAND_COLORS@[(index + 1) as int % 12],
        ),
{
    let i = index as int % 12;
    assert((index + 1) as int % 12 == if i == 11 {
        0
    } else {
        i + 1
    });
    assert(BAND_COLORS@[0] == 0xffe1ee && BAND_COLORS@[1] == 0xff4d9d && BAND_COLORS@[2] == 0xffb3d1
        && BAND_COLORS@[3] == 0xff2e8b && BAND_COLORS@[4] == 0xffd0e2 && BAND_COLORS@[5] == 0xff6fb0
        && BAND_COLORS@[6] == 0xff90c0 && BAND_COLORS@[7] == 0xe81f77 && BAND_COLORS@[8] == 0xffc4da
        && BAND_COLORS@[9] == 0xff5aa3 && BAND_COLORS@[10] == 0xffa0c8 && BAND_COLORS@[11]
        == 0xff7ab5);
}

} // verus!
