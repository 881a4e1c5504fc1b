//! Curated logo colors derived from the pseudo-random stream.
//!
//! Hues are in tenths of a degree, saturation and lightness in thousandths.

use crate::base::random::draw_range;
use crate::base::seed::push_char;
use rand_chacha::ChaCha20Rng;
use vstd::prelude::*;

verus! {

/// Primary saturation band, in thousandths.
pub const MIN_SATURATION: u32 = 550;
pub const MAX_SATURATION: u32 = 800;
/// Primary lightness band, in thousandths.
pub const MIN_LIGHTNESS: u32 = 380;
pub const MAX_LIGHTNESS: u32 = 580;
/// Hue offset of the secondary color, in tenths of a degree.
pub const MIN_HUE_OFFSET: u32 = 200;
pub const MAX_HUE_OFFSET: u32 = 900;
/// Hue offset of the background from the primary hue, in tenths of a degree.
pub const BACKGROUND_HUE_OFFSET: u32 = 1800;
/// Background saturation band, in thousandths.
pub const MIN_BACKGROUND_SATURATION: u32 = 120;
pub const MAX_BACKGROUND_SATURATION: u32 = 250;
/// Background lightness band, in thousandths.
pub const MIN_BACKGROUND_LIGHTNESS: u32 = 920;
pub const MAX_BACKGROUND_LIGHTNESS: u32 = 980;

/// A full turn, in tenths of a degree.
pub const FULL_TURN: u32 = 3600;

/// Simple RGB color.
#[derive(Debug, Clone, Copy, PartialEq, Eq, Structural)]
pub struct Rgb {
    pub r: u8,
    pub g: u8,
    pub b: u8,
}

/// The upper-case hexadecimal digit of `n` (below 16).
pub open spec fn hex_digit(n: int) -> char {
    if n < 10 {
        (n + '0' as int) as char
    } else {
        (n - 10 + 'A' as int) as char
    }
}

/// Two upper-case hexadecimal digits of a byte.
pub open spec fn hex_byte(b: u8) -> Seq<char> {
    seq![hex_digit(b as int / 16), hex_digit(b as int % 16)]
}

/// `#RRGGBB` with upper-case digits.
pub open spec fn hex_color(c: Rgb) -> Seq<char> {
    seq!['#'] + hex_byte(c.r) + hex_byte(c.g) + hex_byte(c.b)
}

fn hex_digit_exec(n: u8) -> (r: char)
    requires
        n < 16,
    ensures
        r == hex_digit(n as int),
{
    if n < 10 {
        ((n + 48) as char)
    } else {
        ((n - 10 + 65) as char)
    }
}

impl Rgb {
    /// The color as `#RRGGBB`, upper-case.
    pub fn to_hex(&self) -> (r: String)
        ensures
            r@ == hex_color(*self),
    {
        let mut out = String::new();
        push_char(&mut out, '#');
        push_char(&mut out, hex_digit_exec(self.r / 16));
        push_char(&mut out, hex_digit_exec(self.r % 16));
        push_char(&mut out, hex_digit_exec(self.g / 16));
        push_char(&mut out, hex_digit_exec(self.g % 16));
        push_char(&mut out, hex_digit_exec(self.b / 16));
        push_char(&mut out, hex_digit_exec(self.b % 16));
        assert(out@ =~= hex_color(*self));
        out
    }
}

/// `q` of the HSL conversion, in millionths (`l`, `s` in thousandths, at most 1000).
pub open spec fn hsl_q(s: int, l: int) -> int {
    if l < 500 {
        l * (1000 + s)
    } else {
        l * 1000 + s * 1000 - l * s
    }
}

/// `p` of the HSL conversion, in millionths.
pub open spec fn hsl_p(s: int, l: int) -> int {
    2000 * l - hsl_q(s, l)
}

/// The piecewise hue interpolation at hue position `t` (tenths of a degree,
/// below a full turn), in units of one six-hundred-millionth.
pub open spec fn hue_interp(p: int, q: int, t: int) -> int {
    if t < 600 {
        p * 600 + (q - p) * t
    } else if t < 1800 {
        q * 600
    } else if t < 2400 {
        p * 600 + (q - p) * (2400 - t)
    } else {
        p * 600
    }
}

/// A channel value in six-hundred-millionths, rounded to the nearest of 0..=255.
pub open spec fn channel_byte(v: int) -> int {
    (v * 255 + 300_000_000) / 600_000_000
}

/// One channel of the HSL color `(h, s, l)` at hue shift `shift`.
pub open spec fn hsl_channel(h: int, s: int, l: int, shift: int) -> int {
    channel_byte(hue_interp(hsl_p(s, l), hsl_q(s, l), (h + shift) % 3600))
}

/// The standard HSL to RGB conversion: hue taken modulo a full turn,
/// saturation and lightness capped at one.
pub open spec fn hsl_rgb(h: u32, s: u32, l: u32) -> Rgb {
    let hh = h as int % 3600;
    let ss = if s > 1000 { 1000 } else { s as int };
    let ll = if l > 1000 { 1000 } else { l as int };
    Rgb {
        r: hsl_channel(hh, ss, ll, 1200) as u8,
        g: hsl_channel(hh, ss, ll, 0) as u8,
        b: hsl_channel(hh, ss, ll, 2400) as u8,
    }
}

proof fn lemma_hsl_bounds(s: int, l: int)
    requires
        0 <= s <= 1000,
        0 <= l <= 1000,
    ensures
        0 <= hsl_p(s, l) <= hsl_q(s, l) <= 1_000_000,
{
    if l < 500 {
        assert(0 <= l * s <= l * 1000) by (nonlinear_arith)
            requires
                0 <= s <= 1000,
                0 <= l,
        ;
        assert(l * (1000 + s) == l * 1000 + l * s) by (nonlinear_arith);
    } else {
        assert(0 <= s * (1000 - l) <= 1000 * (1000 - l)) by (nonlinear_arith)
            requires
                0 <= s <= 1000,
                l <= 1000,
        ;
        assert(s * (1000 - l) == s * 1000 - l * s) by (nonlinear_arith);
    }
}

proof fn lemma_interp_bounds(p: int, q: int, t: int)
    requires
        0 <= p <= q <= 1_000_000,
        0 <= t < 3600,
    ensures
        0 <= hue_interp(p, q, t) <= 600_000_000,
        0 <= channel_byte(hue_interp(p, q, t)) <= 255,
{
    let d = q - p;
    if t < 600 {
        assert(0 <= d * t <= d * 600) by (nonlinear_arith)
            requires
                0 <= d,
                0 <= t < 600,
        ;
    } else if 1800 <= t < 2400 {
        assert(0 <= d * (2400 - t) <= d * 600) by (nonlinear_arith)
            requires
                0 <= d,
                1800 <= t < 2400,
        ;
    }
    let v = hue_interp(p, q, t);
    assert(0 <= (v * 255 + 300_000_000) / 600_000_000 <= 255) by (nonlinear_arith)
        requires
            0 <= v <= 600_000_000,
    ;
}

fn hue_channel(p: u64, q: u64, t: u64) -> (r: u8)
    requires
        p <= q <= 1_000_000,
        t < 3600,
    ensures
        r as int == channel_byte(hue_interp(p as int, q as int, t as int)),
{
    proof {
        lemma_interp_bounds(p as int, q as int, t as int);
    }
    let d = q - p;
    let v: u64 = if t < 600 {
        assert(d * t <= d * 600) by (nonlinear_arith)
            requires
                t < 600,
        ;
        p * 600 + d * t
    } else if t < 1800 {
        q * 600
    } else if t < 2400 {
        assert(d * (2400 - t) <= d * 600) by (nonlinear_arith)
            requires
                1800 <= t < 2400,
        ;
        p * 600 + d * (2400 - t)
    } else {
        p * 600
    };
    ((v * 255 + 300_000_000) / 600_000_000) as u8
}

/// Convert a color from HSL (hue in tenths of a degree, saturation and
/// lightness in thousandths) to RGB, rounding each channel to the nearest byte.
pub fn hsl_to_rgb(h: u32, s: u32, l: u32) -> (r: Rgb)
    ensures
        r == hsl_rgb(h, s, l),
{
    let hh: u64 = (h % FULL_TURN) as u64;
    let ss: u64 = if s > 1000 { 1000 } else { s as u64 };
    let ll: u64 = if l > 1000 { 1000 } else { l as u64 };
    proof {
        lemma_hsl_bounds(ss as int, ll as int);
        assert(0 <= ll * ss <= 1_000_000) by (nonlinear_arith)
            requires
                ss <= 1000,
                ll <= 1000,
        ;
    }
    let q: u64 = if ll < 500 {
        ll * (1000 + ss)
    } else {
        ll * 1000 + ss * 1000 - ll * ss
    };
    let p: u64 = 2000 * ll - q;
    let r = hue_channel(p, q, (hh + 1200) % 3600);
    let g = hue_channel(p, q, hh);
    let b = hue_channel(p, q, (hh + 2400) % 3600);
    Rgb { r, g, b }
}

/// The colors of one logo.
#[derive(Debug, Clone, Copy, PartialEq, Eq, Structural)]
pub struct Palette {
    /// `None` exactly when a transparent background was requested.
    pub background: Option<Rgb>,
    pub primary: Rgb,
    pub secondary: Rgb,
    pub tertiary: Rgb,
}

/// The values drawn from the stream for a palette, in draw order.
#[derive(Debug, Clone, Copy, PartialEq, Eq, Structural)]
pub struct PaletteDraws {
    pub hue: u32,
    pub saturation: u32,
    pub lightness: u32,
    pub hue_offset: u32,
    /// Drawn only for an opaque background.
    pub background_saturation: u32,
    /// Drawn only for an opaque background.
    pub background_lightness: u32,
}

/// Each draw lies in its curated band.
pub open spec fn palette_draws_in_range(d: PaletteDraws, transparent: bool) -> bool {
    &&& d.hue < FULL_TURN
    &&& MIN_SATURATION <= d.saturation < MAX_SATURATION
    &&& MIN_LIGHTNESS <= d.lightness < MAX_LIGHTNESS
    &&& MIN_HUE_OFFSET <= d.hue_offset < MAX_HUE_OFFSET
    &&& !transparent ==> MIN_BACKGROUND_SATURATION <= d.background_saturation
        < MAX_BACKGROUND_SATURATION
    &&& !transparent ==> MIN_BACKGROUND_LIGHTNESS <= d.background_lightness
        < MAX_BACKGROUND_LIGHTNESS
}

/// The palette that the draws `d` give: the primary color; the secondary,
/// turned by the offset, at nine tenths of the saturation and eleven tenths of
/// the lightness (capped at one); the tertiary, turned back by the offset at
/// seven tenths of the lightness; and, unless transparent, a pale background
/// on the opposite hue.
pub open spec fn palette_of(d: PaletteDraws, transparent: bool) -> Palette {
    let light2 = d.lightness * 11 / 10;
    Palette {
        background: if transparent {
            None
        } else {
            Some(
                hsl_rgb(
                    (d.hue + BACKGROUND_HUE_OFFSET) as u32,
                    d.background_saturation,
                    d.background_lightness,
                ),
            )
        },
        primary: hsl_rgb(d.hue, d.saturation, d.lightness),
        secondary: hsl_rgb(
            (d.hue + d.hue_offset) as u32,
            (d.saturation * 9 / 10) as u32,
            if light2 > 1000 { 1000 } else { light2 as u32 },
        ),
        tertiary: hsl_rgb(
            (d.hue + FULL_TURN - d.hue_offset) as u32,
            d.saturation,
            (d.lightness * 7 / 10) as u32,
        ),
    }
}

/// The palette of given draws.
pub fn palette_from_draws(d: &PaletteDraws, transparent: bool) -> (r: Palette)
    requires
        palette_draws_in_range(*d, transparent),
    ensures
        r == palette_of(*d, transparent),
{
    let primary = hsl_to_rgb(d.hue, d.saturation, d.lightness);
    let light2 = d.lightness * 11 / 10;
    let secondary = hsl_to_rgb(
        d.hue + d.hue_offset,
        d.saturation * 9 / 10,
        if light2 > 1000 { 1000 } else { light2 },
    );
    let tertiary = hsl_to_rgb(d.hue + FULL_TURN - d.hue_offset, d.saturation, d.lightness * 7 / 10);
    let background = if transparent {
        None
    } else {
        Some(hsl_to_rgb(d.hue + BACKGROUND_HUE_OFFSET, d.background_saturation, d.background_lightness))
    };
    Palette { background, primary, secondary, tertiary }
}

/// Draw the palette's values from the stream in their fixed order: hue,
/// saturation, lightness, hue offset, then the background's saturation and
/// lightness only when the background is opaque.
pub fn draw_palette(rng: &mut ChaCha20Rng, transparent: bool) -> (r: PaletteDraws)
    ensures
        palette_draws_in_range(r, transparent),
        transparent ==> r.background_saturation == 0 && r.background_lightness == 0,
{
    let hue = draw_range(rng, 0, FULL_TURN);
    let saturation = draw_range(rng, MIN_SATURATION, MAX_SATURATION);
    let lightness = draw_range(rng, MIN_LIGHTNESS, MAX_LIGHTNESS);
    let hue_offset = draw_range(rng, MIN_HUE_OFFSET, MAX_HUE_OFFSET);
    let (background_saturation, background_lightness) = if transparent {
        (0, 0)
    } else {
        let bs = draw_range(rng, MIN_BACKGROUND_SATURATION, MAX_BACKGROUND_SATURATION);
        let bl = draw_range(rng, MIN_BACKGROUND_LIGHTNESS, MAX_BACKGROUND_LIGHTNESS);
        (bs, bl)
    };
    PaletteDraws { hue, saturation, lightness, hue_offset, background_saturation, background_lightness }
}

/// Derive a palette from the stream: whatever the stream yields, the result is
/// the palette of draws that lie in the curated bands.
pub fn derive_palette(rng: &mut ChaCha20Rng, transparent_background: bool) -> (r: Palette)
    ensures
        exists|d: PaletteDraws|
            palette_draws_in_range(d, transparent_background) && r == palette_of(
                d,
                transparent_background,
            ),
        r.background is None <==> transparent_background,
{
    let d = draw_palette(rng, transparent_background);
    palette_from_draws(&d, transparent_background)
}

} // verus!
