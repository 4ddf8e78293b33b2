use vstd::prelude::*;

use crate::pixel::{lightness, lightness_sum, Rgba};

verus! {

/// Largest denominator a [`Ratio`] may have; keeps every product in `u64`.
pub const MAX_DEN: u64 = 100_000_000;

/// A scaling ratio `num / den` in [0, 1].
#[derive(Clone, Copy, Debug, PartialEq, Eq, Structural)]
pub struct Ratio {
    pub num: u64,
    pub den: u64,
}

impl Ratio {
    pub open spec fn wf(self) -> bool {
        0 < self.den <= MAX_DEN && self.num <= self.den
    }
}

/// An RGB colour used as the base of the fixed mode.
#[derive(Clone, Copy, Debug, PartialEq, Eq, Structural)]
pub struct Color {
    pub r: u8,
    pub g: u8,
    pub b: u8,
}

/// How the channels of eligible pixels are remapped.
#[derive(Clone, Copy, Debug, PartialEq, Eq, Structural)]
pub enum Policy {
    /// Every channel is multiplied by the ratio.
    Proportional { ratio: Ratio },
    /// The base colour is scaled by the pixel's lightness relative to the image's
    /// reference brightness, times the ratio.
    Fixed { ratio: Ratio, base: Color },
}

impl Policy {
    pub open spec fn wf(self) -> bool {
        match self {
            Policy::Proportional { ratio } => ratio.wf(),
            Policy::Fixed { ratio, .. } => ratio.wf(),
        }
    }
}

/// `n / d` rounded to the nearest integer, halves away from zero (`n >= 0`, `d > 0`).
pub open spec fn round_div(n: int, d: int) -> int {
    (2 * n + d) / (2 * d)
}

pub open spec fn clamp_max(x: int, hi: int) -> int {
    if x > hi { hi } else { x }
}

/// A pixel is remapped only when it is visible and no channel is in the noise floor.
pub open spec fn eligible(p: Rgba) -> bool {
    p.a > 0 && p.r > 1 && p.g > 1 && p.b > 1
}

/// Proportional mode on one channel: `clamp(round(c * ratio), 0, 255)`.
pub open spec fn scaled_channel(c: u8, ratio: Ratio) -> int {
    clamp_max(round_div(c * ratio.num, ratio.den as int), 255)
}

/// Fixed mode on one channel: `clamp(round(base * (L * ratio) / reference), 0, base)`,
/// with `L` and `reference` both measured as lightness times 510.
pub open spec fn fixed_channel(base: u8, lsum: int, ratio: Ratio, reference: int) -> int {
    clamp_max(round_div(base * lsum * ratio.num, reference * ratio.den), base as int)
}

/// The pixel that the transform produces from `p`, given the image's reference
/// brightness (lightness times 510). Alpha is never changed; ineligible pixels, and
/// every pixel in fixed mode when the reference is zero, are left as they are.
pub open spec fn transformed(p: Rgba, policy: Policy, reference: int) -> Rgba {
    if !eligible(p) {
        p
    } else {
        match policy {
            Policy::Proportional { ratio } => Rgba {
                r: scaled_channel(p.r, ratio) as u8,
                g: scaled_channel(p.g, ratio) as u8,
                b: scaled_channel(p.b, ratio) as u8,
                a: p.a,
            },
            Policy::Fixed { ratio, base } => if reference == 0 {
                p
            } else {
                Rgba {
                    r: fixed_channel(base.r, lightness_sum(p), ratio, reference) as u8,
                    g: fixed_channel(base.g, lightness_sum(p), ratio, reference) as u8,
                    b: fixed_channel(base.b, lightness_sum(p), ratio, reference) as u8,
                    a: p.a,
                }
            },
        }
    }
}

fn scale_channel(c: u8, ratio: Ratio) -> (r: u8)
    requires
        ratio.wf(),
    ensures
        r as int == scaled_channel(c, ratio),
{
    assert(c as u64 * ratio.num <= 255 * MAX_DEN) by (nonlinear_arith)
        requires
            c <= 255,
            ratio.num <= MAX_DEN,
    ;
    let n: u64 = c as u64 * ratio.num;
    let q: u64 = (2 * n + ratio.den) / (2 * ratio.den);
    if q > 255 {
        255
    } else {
        q as u8
    }
}

fn fix_channel(base: u8, lsum: u16, ratio: Ratio, reference: u16) -> (r: u8)
    requires
        ratio.wf(),
        lsum <= 510,
        0 < reference <= 510,
    ensures
        r as int == fixed_channel(base, lsum as int, ratio, reference as int),
{
    assert(base as u64 * lsum as u64 <= 255 * 510) by (nonlinear_arith)
        requires
            base <= 255,
            lsum <= 510,
    ;
    let bl: u64 = base as u64 * lsum as u64;
    assert(bl * ratio.num <= 255 * 510 * MAX_DEN) by (nonlinear_arith)
        requires
            bl <= 255 * 510,
            ratio.num <= MAX_DEN,
    ;
    let n: u64 = bl * ratio.num;
    assert(reference as u64 * ratio.den <= 510 * MAX_DEN && reference as u64 * ratio.den > 0)
        by (nonlinear_arith)
        requires
            0 < reference <= 510,
            0 < ratio.den <= MAX_DEN,
    ;
    let d: u64 = reference as u64 * ratio.den;
    let q: u64 = (2 * n + d) / (2 * d);
    assert(base * lsum * ratio.num == n) by (nonlinear_arith)
        requires
            bl == base * lsum,
            n == bl * ratio.num,
    ;
    if q > base as u64 {
        base
    } else {
        q as u8
    }
}

/// Remaps one pixel under `policy`, given the image's reference brightness
/// (lightness times 510, as [`lightness`] returns it).
pub fn transform_pixel(p: Rgba, policy: &Policy, reference: u16) -> (r: Rgba)
    requires
        policy.wf(),
        reference <= 510,
    ensures
        r == transformed(p, *policy, reference as int),
        r.a == p.a,
        p.a == 0 ==> r == p,
{
    if !(p.a > 0 && p.r > 1 && p.g > 1 && p.b > 1) {
        return p;
    }
    match policy {
        Policy::Proportional { ratio } => Rgba {
            r: scale_channel(p.r, *ratio),
            g: scale_channel(p.g, *ratio),
            b: scale_channel(p.b, *ratio),
            a: p.a,
        },
        Policy::Fixed { ratio, base } => {
            if reference == 0 {
                p
            } else {
                let l = lightness(p);
                Rgba {
                    r: fix_channel(base.r, l, *ratio, reference),
                    g: fix_channel(base.g, l, *ratio, reference),
                    b: fix_channel(base.b, l, *ratio, reference),
                    a: p.a,
                }
            }
        },
    }
}

} // verus!
