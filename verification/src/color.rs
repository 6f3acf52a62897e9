//! Color layouts of decoded samples, the `Rgba` pixel, and the reference
//! source-over alpha compositor it blends with.

use vstd::prelude::*;

verus! {

/// The color layout of decoded samples: which channels are present and the
/// bit depth of one sample.
#[derive(Clone, Copy, Debug, PartialEq, Eq, Structural)]
pub enum ColorType {
    /// A single luminance channel of the given bit depth.
    Gray(u8),
    /// Red, green and blue channels of the given bit depth.
    RGB(u8),
    /// Indices into a palette, counted three channels deep.
    Palette(u8),
    /// Luminance and alpha channels.
    GrayA(u8),
    /// Red, green, blue and alpha channels.
    RGBA(u8),
}

/// How many bits one pixel of the given color type occupies.
pub open spec fn spec_bits_per_pixel(c: ColorType) -> int {
    match c {
        ColorType::Gray(n) => n as int,
        ColorType::RGB(n) => 3 * n as int,
        ColorType::Palette(n) => 3 * n as int,
        ColorType::GrayA(n) => 2 * n as int,
        ColorType::RGBA(n) => 4 * n as int,
    }
}

/// The bit depth of one sample of the given color type.
pub open spec fn spec_sample_depth(c: ColorType) -> int {
    match c {
        ColorType::Gray(n) => n as int,
        ColorType::RGB(n) => n as int,
        ColorType::Palette(n) => n as int,
        ColorType::GrayA(n) => n as int,
        ColorType::RGBA(n) => n as int,
    }
}

/// How many whole bytes one pixel of the given color type occupies.
pub open spec fn spec_bytes_per_pixel(c: ColorType) -> int {
    spec_bits_per_pixel(c) / 8
}

/// Returns the number of bits one pixel of the given color type occupies.
pub fn bits_per_pixel(c: ColorType) -> (r: u32)
    ensures
        r == spec_bits_per_pixel(c),
{
    match c {
        ColorType::Gray(n) => n as u32,
        ColorType::RGB(n) => 3 * (n as u32),
        ColorType::Palette(n) => 3 * (n as u32),
        ColorType::GrayA(n) => 2 * (n as u32),
        ColorType::RGBA(n) => 4 * (n as u32),
    }
}

/// A pixel with red, green, blue and alpha samples, eight bits each.
/// A channel runs from 0 (none) to 255 (full); alpha 255 is opaque.
#[derive(Clone, Copy, Debug, PartialEq, Eq, Structural)]
pub struct Rgba(pub u8, pub u8, pub u8, pub u8);

/// One minus the source alpha, in 25-bit fixed point: the numerator over
/// `0x2000000`, with the scaled source alpha rounded to nearest.
pub open spec fn spec_alpha_complement(sa: int) -> int {
    0x2000000 - (sa * 0x2000000 + 127) / 255
}

/// One color channel of source-over compositing: the weighted average of the
/// source channel (weight: source alpha) and the destination channel
/// (weight: destination alpha scaled by the fixed-point complement of the
/// source alpha), truncated towards zero.
pub open spec fn spec_blend_channel(dc: int, da: int, sc: int, sa: int) -> int {
    let w = spec_alpha_complement(sa);
    (sc * sa * 0x2000000 + dc * da * w) / (sa * 0x2000000 + da * w)
}

/// The alpha channel of source-over compositing: source alpha plus the
/// remainder of the destination alpha, truncated towards zero.
pub open spec fn spec_blend_alpha(da: int, sa: int) -> int {
    (sa * 255 + da * (255 - sa)) / 255
}

/// `s` composited over `d` by the source-over rule. A fully transparent
/// source leaves the destination unchanged and a fully opaque source
/// replaces it; in between, each channel is blended in fixed point.
pub open spec fn blend_rgba(d: Rgba, s: Rgba) -> Rgba {
    if s.3 == 0 {
        d
    } else if s.3 == 255 {
        s
    } else {
        Rgba(
            spec_blend_channel(d.0 as int, d.3 as int, s.0 as int, s.3 as int) as u8,
            spec_blend_channel(d.1 as int, d.3 as int, s.1 as int, s.3 as int) as u8,
            spec_blend_channel(d.2 as int, d.3 as int, s.2 as int, s.3 as int) as u8,
            spec_blend_alpha(d.3 as int, s.3 as int) as u8,
        )
    }
}

pub proof fn lemma_alpha_complement_bounds(sa: int)
    requires
        1 <= sa <= 254,
    ensures
        131586 <= spec_alpha_complement(sa) <= 33422846,
{
    let x = sa * 0x2000000 + 127;
    vstd::arithmetic::div_mod::lemma_fundamental_div_mod(x, 255);
    vstd::arithmetic::div_mod::lemma_mod_bound(x, 255);
}

pub proof fn lemma_blend_channel_bounds(dc: int, da: int, sc: int, sa: int)
    requires
        0 <= dc <= 255,
        0 <= da <= 255,
        0 <= sc <= 255,
        1 <= sa <= 254,
    ensures
        0 <= spec_blend_channel(dc, da, sc, sa) <= 255,
{
    let w = spec_alpha_complement(sa);
    lemma_alpha_complement_bounds(sa);
    let num = sc * sa * 0x2000000 + dc * da * w;
    let den = sa * 0x2000000 + da * w;
    assert(0 <= da * w <= 255 * 33422846) by (nonlinear_arith)
        requires
            0 <= da <= 255,
            131586 <= w <= 33422846,
    ;
    assert(den >= 0x2000000);
    assert(num >= 0 && num <= 255 * den) by (nonlinear_arith)
        requires
            0 <= dc <= 255,
            0 <= da <= 255,
            0 <= sc <= 255,
            1 <= sa <= 254,
            0 < w,
            den == sa * 0x2000000 + da * w,
            num == sc * sa * 0x2000000 + dc * da * w,
    ;
    vstd::arithmetic::div_mod::lemma_div_pos_is_pos(num, den);
    vstd::arithmetic::div_mod::lemma_div_is_ordered(num, 255 * den, den);
    vstd::arithmetic::div_mod::lemma_div_by_multiple(255, den);
}

pub proof fn lemma_blend_alpha_bounds(da: int, sa: int)
    requires
        0 <= da <= 255,
        0 <= sa <= 255,
    ensures
        0 <= spec_blend_alpha(da, sa) <= 255,
{
    let num = sa * 255 + da * (255 - sa);
    assert(0 <= num <= 255 * 255) by (nonlinear_arith)
        requires
            0 <= da <= 255,
            0 <= sa <= 255,
            num == sa * 255 + da * (255 - sa),
    ;
    vstd::arithmetic::div_mod::lemma_fundamental_div_mod(num, 255);
    vstd::arithmetic::div_mod::lemma_mod_bound(num, 255);
}

/// Law: compositing a fully transparent source leaves the destination
/// unchanged.
pub proof fn lemma_blend_transparent(d: Rgba, s: Rgba)
    requires
        s.3 == 0,
    ensures
        blend_rgba(d, s) == d,
{
}

/// Law: compositing a fully opaque source replaces both color and alpha
/// with the source's.
pub proof fn lemma_blend_opaque(d: Rgba, s: Rgba)
    requires
        s.3 == 255,
    ensures
        blend_rgba(d, s) == s,
{
}

/// One color channel of source-over compositing, in 64-bit fixed point.
fn blend_channel(dc: u8, da: u8, sc: u8, sa: u8) -> (r: u8)
    requires
        1 <= sa <= 254,
    ensures
        r == spec_blend_channel(dc as int, da as int, sc as int, sa as int),
{
    proof {
        lemma_alpha_complement_bounds(sa as int);
        lemma_blend_channel_bounds(dc as int, da as int, sc as int, sa as int);
    }
    let w: u64 = 0x2000000u64 - ((sa as u64) * 0x2000000 + 127) / 255;
    proof {
        assert((dc as u64) * (da as u64) <= 255 * 255) by (nonlinear_arith)
            requires
                dc <= 255,
                da <= 255,
        ;
        assert((sc as u64) * (sa as u64) <= 255 * 254) by (nonlinear_arith)
            requires
                sc <= 255,
                sa <= 254,
        ;
        assert((dc as u64) * (da as u64) * (w as u64) <= 255 * 255 * 33422846)
            by (nonlinear_arith)
            requires
                (dc as u64) * (da as u64) <= 255 * 255,
                w <= 33422846,
        ;
        assert((da as u64) * (w as u64) <= 255 * 33422846) by (nonlinear_arith)
            requires
                da <= 255,
                w <= 33422846,
        ;
    }
    let num: u64 = (sc as u64) * (sa as u64) * 0x2000000 + (dc as u64) * (da as u64) * w;
    let den: u64 = (sa as u64) * 0x2000000 + (da as u64) * w;
    (num / den) as u8
}

/// The alpha channel of source-over compositing.
fn blend_alpha(da: u8, sa: u8) -> (r: u8)
    ensures
        r == spec_blend_alpha(da as int, sa as int),
{
    proof {
        lemma_blend_alpha_bounds(da as int, sa as int);
        assert((da as u64) * (255 - sa as u64) <= 255 * 255) by (nonlinear_arith)
            requires
                da <= 255,
                sa <= 255,
        ;
    }
    (((sa as u64) * 255 + (da as u64) * (255 - sa as u64)) / 255) as u8
}

impl crate::traits::Pixel for Rgba {
    open spec fn spec_zero() -> Self {
        Rgba(0, 0, 0, 0)
    }

    open spec fn spec_blend(self, other: Self) -> Self {
        blend_rgba(self, other)
    }

    fn zero() -> (r: Self) {
        Rgba(0, 0, 0, 0)
    }

    fn blend(self, other: Self) -> (r: Self) {
        if other.3 == 0 {
            self
        } else if other.3 == 255 {
            other
        } else {
            Rgba(
                blend_channel(self.0, self.3, other.0, other.3),
                blend_channel(self.1, self.3, other.1, other.3),
                blend_channel(self.2, self.3, other.2, other.3),
                blend_alpha(self.3, other.3),
            )
        }
    }
}


} // verus!
