//! Colours as four 8-bit channels.

use vstd::prelude::*;

verus! {

/// A colour with red, green, blue and alpha channels.
#[derive(Clone, Copy, Debug, PartialEq, Eq, Structural)]
pub struct Rgba {
    pub r: u8,
    pub g: u8,
    pub b: u8,
    pub a: u8,
}

/// The opaque colour whose channels are the three low bytes of `color`.
pub open spec fn rgba_of(color: u32) -> Rgba {
    Rgba {
        r: ((color >> 16) & 0xff) as u8,
        g: ((color >> 8) & 0xff) as u8,
        b: (color & 0xff) as u8,
        a: 255,
    }
}

/// Converts a `0xRRGGBB` value into an opaque colour.
pub fn to_rgba(color: u32) -> (c: Rgba)
    ensures
        c == rgba_of(color),
{
    let r: u8 = ((color >> 16) & 0xff) as u8;
    let g: u8 = ((color >> 8) & 0xff) as u8;
    let b: u8 = (color & 0xff) as u8;
    Rgba { r, g, b, a: 255 }
}

} // verus!
