//! The "geometric pattern" preset: overlapping circles and rounded rectangles
//! under a centered lettermark.

use super::{DrawOp, OpView, Scene, SceneView};
use crate::base::geometry::{Circle, Rect, Shape};
use crate::base::palette::{
    draw_palette, palette_draws_in_range, palette_from_draws, palette_of, Palette, PaletteDraws,
    Rgb,
};
use crate::base::random::{draw_range, draw_ratio};
use crate::base::typography::{FONT_FAMILY, FONT_WEIGHT};
use crate::text::{alnums, mark_alphanumerics, marked, string_of_chars, to_upper, upper_of, upto};
use crate::{options_valid, LogoGenError, RenderOptions};
use rand_chacha::ChaCha20Rng;
use vstd::prelude::*;
use vstd::string::StringExecFns;

verus! {

/// Chance that a shape is a circle: 2 in 5.
pub const CIRCLE_CHANCE: (u32, u32) = (2, 5);
/// Fewest and most shapes.
pub const MIN_SHAPES: u32 = 3;
pub const MAX_SHAPES: u32 = 6;
/// Shape size band per axis, in thousandths of the canvas side.
pub const MIN_SHAPE_PERMILLE: u32 = 150;
pub const MAX_SHAPE_PERMILLE: u32 = 350;
/// Corner radius bound, in thousandths of the shape's smaller side.
pub const MAX_CORNER_PERMILLE: u32 = 300;
/// Lettermark size, in thousandths of the canvas side.
pub const TEXT_SIZE_PERMILLE: u32 = 180;
/// Baseline drop below the vertical center, in hundredths of the font size.
pub const BASELINE_PERCENT: u32 = 35;

/// The values drawn from the stream for one shape, in draw order.
#[derive(Debug, Clone, Copy, PartialEq, Eq, Structural)]
pub struct ShapeDraws {
    pub w_permille: u32,
    pub h_permille: u32,
    /// Left edge, in hundredths of a pixel.
    pub x: u32,
    /// Top edge, in hundredths of a pixel.
    pub y: u32,
    pub circle: bool,
    /// Drawn only for a rectangle.
    pub corner_permille: u32,
}

/// Width of the shape in hundredths of a pixel, on a canvas of side `w`.
pub open spec fn shape_w(d: ShapeDraws, w: int) -> int {
    d.w_permille * w / 1000
}

/// Height of the shape in hundredths of a pixel, on a canvas of side `w`.
pub open spec fn shape_h(d: ShapeDraws, w: int) -> int {
    d.h_permille * w / 1000
}

/// Each draw lies in its band and the shape's box lies on the canvas of side `w`.
pub open spec fn shape_draws_in_range(d: ShapeDraws, w: int) -> bool {
    &&& MIN_SHAPE_PERMILLE <= d.w_permille < MAX_SHAPE_PERMILLE
    &&& MIN_SHAPE_PERMILLE <= d.h_permille < MAX_SHAPE_PERMILLE
    &&& d.x + shape_w(d, w) <= w
    &&& d.y + shape_h(d, w) <= w
    &&& !d.circle ==> d.corner_permille < MAX_CORNER_PERMILLE
}

/// The shape of draws `d` on a canvas of side `w`: a circle inscribed in the
/// box, or the box with corner radius the drawn fraction of its smaller side.
pub open spec fn shape_of(d: ShapeDraws, w: int) -> Shape {
    let sw = shape_w(d, w);
    let sh = shape_h(d, w);
    let m = if sw < sh { sw } else { sh };
    if d.circle {
        Shape::Circle(Circle { cx: (d.x + sw / 2) as u32, cy: (d.y + sh / 2) as u32, r: (m / 2) as u32 })
    } else {
        let rx = (d.corner_permille * m / 1000) as u32;
        Shape::Rect { rect: Rect { x: d.x, y: d.y, w: sw as u32, h: sh as u32 }, rx, ry: rx }
    }
}

/// The fill color of shape `i`: primary, secondary, tertiary in turn.
pub open spec fn color_at(p: Palette, i: int) -> Rgb {
    if i % 3 == 0 {
        p.primary
    } else if i % 3 == 1 {
        p.secondary
    } else {
        p.tertiary
    }
}

/// The lettermark before upper-casing, of characters marked alphanumeric or
/// not: the first two alphanumeric characters, or `?` when there is none.
pub open spec fn raw_lettermark(m: Seq<(char, bool)>) -> Seq<char> {
    if alnums(m).len() > 0 {
        upto(alnums(m), 2)
    } else {
        seq!['?']
    }
}

/// The lettermark: the first two alphanumeric characters, or `?`, upper-cased.
pub open spec fn lettermark_of(s: Seq<char>) -> Seq<char> {
    upper_of(raw_lettermark(marked(s)))
}

/// The pattern scene for the normalized text `text`: background, one filled
/// shape for each draw in order, and the centered lettermark.
pub open spec fn geometric_view(
    text: Seq<char>,
    opts: RenderOptions,
    pd: PaletteDraws,
    shapes: Seq<ShapeDraws>,
) -> SceneView {
    let w = opts.size_px * 100;
    let pal = palette_of(pd, opts.transparent_background);
    let font_size = w * TEXT_SIZE_PERMILLE / 1000;
    SceneView {
        width: opts.size_px,
        height: opts.size_px,
        ops: seq![OpView::Background { color: pal.background }] + Seq::new(
            shapes.len(),
            |i: int| OpView::ShapeFill { shape: shape_of(shapes[i], w), color: color_at(pal, i) },
        ) + seq![
            OpView::Text {
                text: lettermark_of(text),
                x: (w / 2) as u32,
                y: (w / 2 + font_size * BASELINE_PERCENT / 100) as u32,
                font_family: FONT_FAMILY@,
                font_weight: FONT_WEIGHT,
                font_size: font_size as u32,
                color: pal.tertiary,
                anchor_middle: true,
            },
        ],
    }
}

/// `v` is the pattern scene of `text` for some three to six shape draws within
/// their bands.
pub open spec fn is_geometric_scene(text: Seq<char>, opts: RenderOptions, v: SceneView) -> bool {
    exists|pd: PaletteDraws, shapes: Seq<ShapeDraws>|
        #[trigger] palette_draws_in_range(pd, opts.transparent_background) && MIN_SHAPES
            <= shapes.len() <= MAX_SHAPES && (forall|i: int|
            0 <= i < shapes.len() ==> shape_draws_in_range(
                #[trigger] shapes[i],
                opts.size_px * 100,
            )) && v == #[trigger] geometric_view(text, opts, pd, shapes)
}

/// The first `k` characters marked alphanumeric (all of them when fewer).
pub fn first_alphanumerics(cs: &Vec<(char, bool)>, k: usize) -> (r: Vec<char>)
    ensures
        r@ == upto(alnums(cs@), k as int),
{
    let mut out: Vec<char> = Vec::new();
    let mut i: usize = 0;
    while i < cs.len()
        invariant
            i <= cs@.len(),
            out@ == upto(alnums(cs@.take(i as int)), k as int),
        decreases cs@.len() - i,
    {
        let e = cs[i];
        let c = e.0;
        let ghost p = cs@.take(i as int);
        let ghost q = cs@.take(i as int + 1);
        assert(q.drop_last() =~= p);
        assert(q.last() == e);
        if e.1 {
            if out.len() < k {
                out.push(c);
            }
            proof {
                assert(alnums(q) == alnums(p).push(c));
                if alnums(p).len() > k {
                    assert(alnums(p).push(c).take(k as int) =~= alnums(p).take(k as int));
                } else if alnums(p).len() == k {
                    assert(alnums(p).push(c).take(k as int) =~= alnums(p));
                }
            }
        }
        i = i + 1;
    }
    assert(cs@.take(cs@.len() as int) =~= cs@);
    out
}

/// The lettermark, before upper-casing, of characters marked alphanumeric or not.
pub fn raw_lettermark_of_marked(cs: &Vec<(char, bool)>) -> (r: Vec<char>)
    ensures
        r@ == raw_lettermark(cs@),
{
    let mut raw = first_alphanumerics(cs, 2);
    if raw.len() == 0 {
        raw.push('?');
    }
    assert(raw@ =~= raw_lettermark(cs@));
    raw
}

fn lettermark(s: &str) -> (r: String)
    ensures
        r@ == lettermark_of(s@),
{
    let marks = mark_alphanumerics(s);
    let raw = raw_lettermark_of_marked(&marks);
    let joined = string_of_chars(&raw);
    to_upper(joined.as_str())
}

fn shape_exec(d: &ShapeDraws, w: u32) -> (r: Shape)
    requires
        w <= 819200,
        shape_draws_in_range(*d, w as int),
    ensures
        r == shape_of(*d, w as int),
{
    assert(d.w_permille * w <= 350 * 819200 && d.h_permille * w <= 350 * 819200) by (nonlinear_arith)
        requires
            d.w_permille < 350,
            d.h_permille < 350,
            w <= 819200,
    ;
    let sw = d.w_permille * w / 1000;
    let sh = d.h_permille * w / 1000;
    let m = if sw < sh { sw } else { sh };
    if d.circle {
        Shape::Circle(Circle { cx: d.x + sw / 2, cy: d.y + sh / 2, r: m / 2 })
    } else {
        assert(d.corner_permille * m <= 300 * 819200) by (nonlinear_arith)
            requires
                d.corner_permille < 300,
                m <= 819200,
        ;
        let rx = d.corner_permille * m / 1000;
        Shape::Rect { rect: Rect { x: d.x, y: d.y, w: sw, h: sh }, rx, ry: rx }
    }
}

/// The pattern scene of given draws.
pub fn geometric_scene(
    normalized: &str,
    opts: &RenderOptions,
    pd: &PaletteDraws,
    shapes: &Vec<ShapeDraws>,
) -> (r: Scene)
    requires
        options_valid(*opts),
        palette_draws_in_range(*pd, opts.transparent_background),
        forall|i: int|
            0 <= i < shapes@.len() ==> shape_draws_in_range(
                #[trigger] shapes@[i],
                opts.size_px * 100,
            ),
    ensures
        r@ == geometric_view(normalized@, *opts, *pd, shapes@),
{
    let size = opts.size_px;
    let w: u32 = size * 100;
    let palette = palette_from_draws(pd, opts.transparent_background);
    let ghost spec_view = geometric_view(normalized@, *opts, *pd, shapes@);
    let mut ops: Vec<DrawOp> = Vec::new();
    ops.push(DrawOp::Background { color: palette.background });
    let mut i: usize = 0;
    while i < shapes.len()
        invariant
            w == size * 100,
            size == opts.size_px,
            options_valid(*opts),
            palette == palette_of(*pd, opts.transparent_background),
            forall|j: int|
                0 <= j < shapes@.len() ==> shape_draws_in_range(
                    #[trigger] shapes@[j],
                    opts.size_px * 100,
                ),
            i <= shapes@.len(),
            ops@.len() == i + 1,
            ops@[0]@ == (OpView::Background { color: palette.background }),
            forall|j: int|
                0 <= j < i ==> (#[trigger] ops@[j + 1])@ == (OpView::ShapeFill {
                    shape: shape_of(shapes@[j], w as int),
                    color: color_at(palette, j),
                }),
        decreases shapes@.len() - i,
    {
        let shape = shape_exec(&shapes[i], w);
        let color = if i % 3 == 0 {
            palette.primary
        } else if i % 3 == 1 {
            palette.secondary
        } else {
            palette.tertiary
        };
        ops.push(DrawOp::ShapeFill { shape, color });
        i = i + 1;
    }
    let font_size = w * TEXT_SIZE_PERMILLE / 1000;
    let text = DrawOp::Text {
        text: lettermark(normalized),
        x: w / 2,
        y: w / 2 + font_size * BASELINE_PERCENT / 100,
        font_family: String::from_str(FONT_FAMILY),
        font_weight: FONT_WEIGHT,
        font_size,
        color: palette.tertiary,
        anchor_middle: true,
    };
    ops.push(text);
    let r = Scene { width: size, height: size, ops };
    assert forall|j: int| 0 <= j < spec_view.ops.len() implies r@.ops[j] == spec_view.ops[j] by {
        if 1 <= j < shapes@.len() + 1 {
            assert(ops@[(j - 1) + 1] == ops@[j]);
        }
    }
    assert(r@.ops =~= spec_view.ops);
    r
}

/// Draw one shape's values from the stream in their fixed order: width,
/// height, left, top, circle or not, corner radius (rectangles only).
fn draw_shape(rng: &mut ChaCha20Rng, w: u32) -> (r: ShapeDraws)
    requires
        6400 <= w <= 819200,
    ensures
        shape_draws_in_range(r, w as int),
{
    let w_permille = draw_range(rng, MIN_SHAPE_PERMILLE, MAX_SHAPE_PERMILLE);
    let h_permille = draw_range(rng, MIN_SHAPE_PERMILLE, MAX_SHAPE_PERMILLE);
    assert(w_permille * w <= 350 * 819200 && h_permille * w <= 350 * 819200) by (nonlinear_arith)
        requires
            w_permille < 350,
            h_permille < 350,
            w <= 819200,
    ;
    assert(w_permille * w / 1000 <= w && h_permille * w / 1000 <= w) by (nonlinear_arith)
        requires
            w_permille < 350,
            h_permille < 350,
    ;
    let sw = w_permille * w / 1000;
    let sh = h_permille * w / 1000;
    let x = draw_range(rng, 0, w - sw + 1);
    let y = draw_range(rng, 0, w - sh + 1);
    let circle = draw_ratio(rng, CIRCLE_CHANCE.0, CIRCLE_CHANCE.1);
    let corner_permille = if circle {
        0
    } else {
        draw_range(rng, 0, MAX_CORNER_PERMILLE)
    };
    ShapeDraws { w_permille, h_permille, x, y, circle, corner_permille }
}

/// Build the pattern scene, every choice taken from the stream: whatever the
/// stream yields, the scene is the pattern of three to six shape draws that lie
/// in their bands.
pub fn build(normalized: &str, rng: &mut ChaCha20Rng, opts: &RenderOptions) -> (r: Result<
    Scene,
    LogoGenError,
>)
    requires
        options_valid(*opts),
    ensures
        r matches Ok(s) && is_geometric_scene(normalized@, *opts, s@),
{
    let w: u32 = opts.size_px * 100;
    let pd = draw_palette(rng, opts.transparent_background);
    let count = draw_range(rng, MIN_SHAPES, MAX_SHAPES + 1);
    let mut shapes: Vec<ShapeDraws> = Vec::new();
    let mut i: u32 = 0;
    while i < count
        invariant
            w == opts.size_px * 100,
            options_valid(*opts),
            i <= count,
            shapes@.len() == i,
            forall|j: int|
                0 <= j < shapes@.len() ==> shape_draws_in_range(#[trigger] shapes@[j], w as int),
        decreases count - i,
    {
        let d = draw_shape(rng, w);
        shapes.push(d);
        i = i + 1;
    }
    let s = geometric_scene(normalized, opts, &pd, &shapes);
    assert(palette_draws_in_range(pd, opts.transparent_background));
    assert(s@ == geometric_view(normalized@, *opts, pd, shapes@));
    Ok(s)
}

} // verus!
