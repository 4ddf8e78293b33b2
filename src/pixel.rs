use vstd::prelude::*;

verus! {

/// One RGBA pixel with 8-bit channels.
#[derive(Clone, Copy, Debug, PartialEq, Eq, Structural)]
pub struct Rgba {
    pub r: u8,
    pub g: u8,
    pub b: u8,
    pub a: u8,
}

pub open spec fn max3(x: int, y: int, z: int) -> int {
    if x >= y && x >= z { x } else if y >= z { y } else { z }
}

pub open spec fn min3(x: int, y: int, z: int) -> int {
    if x <= y && x <= z { x } else if y <= z { y } else { z }
}

/// Twice the HSL lightness scaled to 0..=510: `max(r,g,b) + min(r,g,b)`.
/// The lightness in [0, 1] is this value divided by 510.
pub open spec fn lightness_sum(p: Rgba) -> int {
    max3(p.r as int, p.g as int, p.b as int) + min3(p.r as int, p.g as int, p.b as int)
}

/// Computes `max(r,g,b) + min(r,g,b)`, i.e. the pixel's lightness times 510.
pub fn lightness(p: Rgba) -> (l: u16)
    ensures
        l as int == lightness_sum(p),
        l <= 510,
{
    let mx = if p.r >= p.g && p.r >= p.b { p.r } else if p.g >= p.b { p.g } else { p.b };
    let mn = if p.r <= p.g && p.r <= p.b { p.r } else if p.g <= p.b { p.g } else { p.b };
    mx as u16 + mn as u16
}

} // verus!
