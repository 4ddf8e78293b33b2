use vstd::prelude::*;

use crate::pixel::{lightness, lightness_sum, Rgba};
use crate::tonemap::{
    eligible, fixed_channel, scaled_channel, transform_pixel, transformed, Color, Policy, Ratio,
};

verus! {

/// The reference brightness of an image: the largest lightness (times 510) over
/// all of its pixels, transparent or not; 0 for an empty image.
pub open spec fn max_lightness(s: Seq<Rgba>) -> int
    decreases s.len(),
{
    if s.len() == 0 {
        0
    } else {
        let rest = max_lightness(s.drop_last());
        let l = lightness_sum(s.last());
        if l > rest { l } else { rest }
    }
}

/// The reference brightness that a tonemap under `policy` uses for `s`.
pub open spec fn reference_for(s: Seq<Rgba>, policy: Policy) -> int {
    match policy {
        Policy::Fixed { .. } => max_lightness(s),
        Policy::Proportional { .. } => 0,
    }
}

/// The pixels of `s` after a tonemap under `policy`.
pub open spec fn tonemapped(s: Seq<Rgba>, policy: Policy) -> Seq<Rgba> {
    s.map_values(|p: Rgba| transformed(p, policy, reference_for(s, policy)))
}

pub proof fn lemma_max_lightness_bounds(s: Seq<Rgba>)
    ensures
        0 <= max_lightness(s) <= 510,
        forall|i: int| 0 <= i < s.len() ==> lightness_sum(#[trigger] s[i]) <= max_lightness(s),
    decreases s.len(),
{
    if s.len() > 0 {
        lemma_max_lightness_bounds(s.drop_last());
        assert forall|i: int| 0 <= i < s.len() implies lightness_sum(#[trigger] s[i])
            <= max_lightness(s) by {
            if i < s.len() - 1 {
                assert(s[i] == s.drop_last()[i]);
            }
        }
    }
}

/// Computes the reference brightness: the largest lightness over every pixel.
pub fn reference_brightness(pixels: &Vec<Rgba>) -> (r: u16)
    ensures
        r as int == max_lightness(pixels@),
        r <= 510,
{
    let mut best: u16 = 0;
    let mut i: usize = 0;
    while i < pixels.len()
        invariant
            i <= pixels@.len(),
            best as int == max_lightness(pixels@.subrange(0, i as int)),
            best <= 510,
        decreases pixels@.len() - i,
    {
        let l = lightness(pixels[i]);
        assert(pixels@.subrange(0, i as int + 1).drop_last() == pixels@.subrange(0, i as int));
        if l > best {
            best = l;
        }
        i = i + 1;
    }
    assert(pixels@.subrange(0, pixels@.len() as int) == pixels@);
    best
}

/// Tonemaps the pixels of one image in place.
pub fn tonemap_pixels(pixels: &mut Vec<Rgba>, policy: &Policy)
    requires
        policy.wf(),
    ensures
        final(pixels)@ == tonemapped(old(pixels)@, *policy),
        final(pixels)@.len() == old(pixels)@.len(),
{
    let reference: u16 = match policy {
        Policy::Fixed { .. } => reference_brightness(pixels),
        Policy::Proportional { .. } => 0,
    };
    let ghost orig = pixels@;
    proof {
        lemma_max_lightness_bounds(orig);
    }
    let n = pixels.len();
    let mut i: usize = 0;
    while i < n
        invariant
            n == orig.len(),
            pixels@.len() == n,
            i <= n,
            policy.wf(),
            reference as int == reference_for(orig, *policy),
            reference <= 510,
            forall|j: int| 0 <= j < i ==> pixels@[j] == transformed(orig[j], *policy, reference as int),
            forall|j: int| i <= j < n ==> pixels@[j] == orig[j],
        decreases n - i,
    {
        let q = transform_pixel(pixels[i], policy, reference);
        pixels.set(i, q);
        i = i + 1;
    }
    assert(pixels@ == tonemapped(orig, *policy));
}


/// Fully transparent pixels come out of a tonemap exactly as they went in.
pub proof fn transparent_pixels_unchanged(s: Seq<Rgba>, policy: Policy)
    ensures
        forall|i: int|
            0 <= i < s.len() && s[i].a == 0 ==> #[trigger] tonemapped(s, policy)[i] == s[i],
{
}

/// In proportional mode every eligible pixel has each colour channel replaced by
/// `clamp(round(c * ratio), 0, 255)` and keeps its alpha.
pub proof fn proportional_channels(s: Seq<Rgba>, ratio: Ratio)
    requires
        ratio.wf(),
    ensures
        forall|i: int|
            0 <= i < s.len() && eligible(s[i]) ==> {
                let q = #[trigger] tonemapped(s, Policy::Proportional { ratio })[i];
                &&& q.r as int == scaled_channel(s[i].r, ratio)
                &&& q.g as int == scaled_channel(s[i].g, ratio)
                &&& q.b as int == scaled_channel(s[i].b, ratio)
                &&& q.a == s[i].a
            },
{
    assert forall|i: int| 0 <= i < s.len() && eligible(s[i]) implies {
        let q = #[trigger] tonemapped(s, Policy::Proportional { ratio })[i];
        &&& q.r as int == scaled_channel(s[i].r, ratio)
        &&& q.g as int == scaled_channel(s[i].g, ratio)
        &&& q.b as int == scaled_channel(s[i].b, ratio)
        &&& q.a == s[i].a
    } by {
        lemma_scaled_channel_range(s[i].r, ratio);
        lemma_scaled_channel_range(s[i].g, ratio);
        lemma_scaled_channel_range(s[i].b, ratio);
    }
}

proof fn lemma_scaled_channel_range(c: u8, ratio: Ratio)
    requires
        ratio.den > 0,
    ensures
        0 <= scaled_channel(c, ratio) <= 255,
{
    let n = c * ratio.num;
    assert(n >= 0) by (nonlinear_arith)
        requires
            n == c * ratio.num,
    ;
    assert((2 * n + ratio.den) / (2 * ratio.den) >= 0) by (nonlinear_arith)
        requires
            n >= 0,
            ratio.den > 0,
    ;
}

proof fn lemma_fixed_channel_range(base: u8, lsum: int, ratio: Ratio, reference: int)
    requires
        ratio.den > 0,
        reference > 0,
        lsum >= 0,
    ensures
        0 <= fixed_channel(base, lsum, ratio, reference) <= base,
        lsum == 0 ==> fixed_channel(base, lsum, ratio, reference) == 0,
{
    let n = base * lsum * ratio.num;
    let d = reference * ratio.den;
    assert(n >= 0 && d > 0) by (nonlinear_arith)
        requires
            n == base * lsum * ratio.num,
            d == reference * ratio.den,
            lsum >= 0,
            reference > 0,
            ratio.den > 0,
    ;
    assert((2 * n + d) / (2 * d) >= 0) by (nonlinear_arith)
        requires
            n >= 0,
            d > 0,
    ;
    if lsum == 0 {
        assert(n == 0) by (nonlinear_arith)
            requires
                n == base * lsum * ratio.num,
                lsum == 0,
        ;
        assert((2 * n + d) / (2 * d) == 0) by (nonlinear_arith)
            requires
                n == 0,
                d > 0,
        ;
    }
}

/// In fixed mode no colour channel of an eligible pixel exceeds the base colour's
/// channel, and a pixel of lightness 0 has all colour channels 0 afterwards.
pub proof fn fixed_channels_bounded(s: Seq<Rgba>, ratio: Ratio, base: Color)
    requires
        ratio.wf(),
    ensures
        forall|i: int|
            0 <= i < s.len() && eligible(s[i]) ==> {
                let q = #[trigger] tonemapped(s, Policy::Fixed { ratio, base })[i];
                &&& q.r <= base.r
                &&& q.g <= base.g
                &&& q.b <= base.b
                &&& q.a == s[i].a
            },
        forall|i: int|
            0 <= i < s.len() && lightness_sum(s[i]) == 0 ==> {
                let q = #[trigger] tonemapped(s, Policy::Fixed { ratio, base })[i];
                q.r == 0 && q.g == 0 && q.b == 0
            },
{
    let policy = Policy::Fixed { ratio, base };
    lemma_max_lightness_bounds(s);
    assert forall|i: int| 0 <= i < s.len() && eligible(s[i]) implies {
        let q = #[trigger] tonemapped(s, policy)[i];
        &&& q.r <= base.r
        &&& q.g <= base.g
        &&& q.b <= base.b
        &&& q.a == s[i].a
    } by {
        let l = lightness_sum(s[i]);
        assert(l >= 4);
        assert(lightness_sum(s[i]) <= max_lightness(s));
        lemma_fixed_channel_range(base.r, l, ratio, max_lightness(s));
        lemma_fixed_channel_range(base.g, l, ratio, max_lightness(s));
        lemma_fixed_channel_range(base.b, l, ratio, max_lightness(s));
    }
    assert forall|i: int| 0 <= i < s.len() && lightness_sum(s[i]) == 0 implies {
        let q = #[trigger] tonemapped(s, policy)[i];
        q.r == 0 && q.g == 0 && q.b == 0
    } by {
        assert(!eligible(s[i]));
        assert(s[i].r == 0 && s[i].g == 0 && s[i].b == 0);
    }
}

/// An image whose pixels are all black has reference brightness 0, and a fixed-mode
/// tonemap leaves it unchanged.
pub proof fn black_image_fixed_point(s: Seq<Rgba>, ratio: Ratio, base: Color)
    requires
        forall|i: int| 0 <= i < s.len() ==> s[i].r == 0 && s[i].g == 0 && s[i].b == 0,
    ensures
        max_lightness(s) == 0,
        tonemapped(s, Policy::Fixed { ratio, base }) == s,
    decreases s.len(),
{
    if s.len() > 0 {
        black_image_fixed_point(s.drop_last(), ratio, base);
    }
    assert(tonemapped(s, Policy::Fixed { ratio, base }) =~= s);
}


/// The pixels held by a flat RGBA byte buffer, four bytes per pixel.
pub open spec fn pixels_of(bytes: Seq<u8>) -> Seq<Rgba> {
    Seq::new(
        bytes.len() / 4,
        |i: int| Rgba { r: bytes[4 * i], g: bytes[4 * i + 1], b: bytes[4 * i + 2], a: bytes[4 * i + 3] },
    )
}

/// Splits a flat RGBA byte buffer into pixels.
pub fn pixels_from_rgba(bytes: &[u8]) -> (r: Vec<Rgba>)
    requires
        bytes@.len() % 4 == 0,
    ensures
        r@ == pixels_of(bytes@),
{
    let mut out: Vec<Rgba> = Vec::new();
    let len = bytes.len();
    let n = len / 4;
    let mut i: usize = 0;
    while i < n
        invariant
            n == bytes@.len() / 4,
            4 * n == bytes@.len(),
            len == bytes@.len(),
            i <= n,
            out@.len() == i,
            forall|j: int| 0 <= j < i ==> out@[j] == pixels_of(bytes@)[j],
        decreases n - i,
    {
        let k = 4 * i;
        out.push(Rgba { r: bytes[k], g: bytes[k + 1], b: bytes[k + 2], a: bytes[k + 3] });
        i = i + 1;
    }
    assert(out@ =~= pixels_of(bytes@));
    out
}

/// Joins pixels back into a flat RGBA byte buffer.
pub fn pixels_to_rgba(pixels: &Vec<Rgba>) -> (r: Vec<u8>)
    requires
        pixels@.len() * 4 <= usize::MAX,
    ensures
        r@.len() == 4 * pixels@.len(),
        pixels_of(r@) == pixels@,
{
    let mut out: Vec<u8> = Vec::new();
    let mut i: usize = 0;
    while i < pixels.len()
        invariant
            i <= pixels@.len(),
            out@.len() == 4 * i,
            forall|j: int|
                0 <= j < i ==> {
                    &&& out@[4 * j] == pixels@[j].r
                    &&& out@[4 * j + 1] == pixels@[j].g
                    &&& out@[4 * j + 2] == pixels@[j].b
                    &&& out@[4 * j + 3] == pixels@[j].a
                },
        decreases pixels@.len() - i,
    {
        let p = pixels[i];
        out.push(p.r);
        out.push(p.g);
        out.push(p.b);
        out.push(p.a);
        i = i + 1;
    }
    assert(pixels_of(out@) =~= pixels@);
    out
}

/// Tonemaps a flat RGBA byte buffer in place: the buffer afterwards holds the
/// tonemapped pixels of the buffer before.
pub fn tonemap_rgba(bytes: &mut Vec<u8>, policy: &Policy)
    requires
        policy.wf(),
        old(bytes)@.len() % 4 == 0,
    ensures
        final(bytes)@.len() == old(bytes)@.len(),
        pixels_of(final(bytes)@) == tonemapped(pixels_of(old(bytes)@), *policy),
{
    let len = bytes.len();
    let mut pixels = pixels_from_rgba(bytes.as_slice());
    assert(pixels@.len() * 4 == len);
    tonemap_pixels(&mut pixels, policy);
    *bytes = pixels_to_rgba(&pixels);
}

} // verus!
