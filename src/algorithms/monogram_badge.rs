//! The "monogram badge" preset: a rounded rectangle or circle carrying the
//! initials of the input.

use super::{DrawOp, OpView, Scene, SceneView};
use crate::base::geometry::{Circle, Rect, Shape};
use crate::base::palette::{
    draw_palette, palette_draws_in_range, palette_from_draws, palette_of, PaletteDraws,
};
use crate::base::random::{draw_range, draw_ratio};
use crate::base::typography::{FONT_FAMILY, FONT_WEIGHT};
use crate::text::{alnums, mark_alphanumerics, marked, string_of_chars, to_upper, upper_of, upto};
use crate::{options_valid, LogoGenError, RenderOptions};
use rand_chacha::ChaCha20Rng;
use vstd::prelude::*;
use vstd::string::StringExecFns;

verus! {

/// Chance of a circular badge: 7 in 20.
pub const CIRCLE_CHANCE: (u32, u32) = (7, 20);
/// Chance of a border around the badge: 1 in 2.
pub const BORDER_CHANCE: (u32, u32) = (1, 2);
/// Border width, in thousandths of the canvas side.
pub const BORDER_WIDTH_PERMILLE: u32 = 25;
/// Corner radius band, in thousandths of the badge width.
pub const MIN_CORNER_PERMILLE: u32 = 160;
pub const MAX_CORNER_PERMILLE: u32 = 220;
/// Font size band, in thousandths of the canvas side.
pub const MIN_FONT_PERMILLE: u32 = 520;
pub const MAX_FONT_PERMILLE: u32 = 620;
/// Baseline drop below the vertical center, in hundredths of the font size.
pub const BASELINE_PERCENT: u32 = 35;

/// The words of `s`: its maximal runs of characters other than the ASCII space.
pub open spec fn words(s: Seq<(char, bool)>) -> Seq<Seq<(char, bool)>>
    decreases s.len(),
{
    if s.len() == 0 {
        Seq::empty()
    } else {
        let p = s.drop_last();
        let c = s.last();
        let w = words(p);
        if c.0 == ' ' {
            w
        } else if p.len() > 0 && p.last().0 != ' ' {
            w.update(w.len() - 1, w.last().push(c))
        } else {
            w.push(seq![c])
        }
    }
}

/// The initials before upper-casing, of characters marked alphanumeric or
/// not: with two words or more, the first alphanumeric character of each of
/// the first two; otherwise up to three alphanumeric characters; failing
/// those, up to two alphanumeric characters of the whole text; failing all, `?`.
pub open spec fn raw_initials(s: Seq<(char, bool)>) -> Seq<char> {
    let ws = words(s);
    let a = if ws.len() >= 2 {
        upto(alnums(ws[0]), 1) + upto(alnums(ws[1]), 1)
    } else {
        upto(alnums(s), 3)
    };
    if a.len() > 0 {
        a
    } else if alnums(s).len() > 0 {
        upto(alnums(s), 2)
    } else {
        seq!['?']
    }
}

/// The initials shown on the badge.
pub open spec fn initials_of(s: Seq<char>) -> Seq<char> {
    upper_of(raw_initials(marked(s)))
}

proof fn lemma_words_nonempty(p: Seq<(char, bool)>)
    requires
        p.len() > 0,
        p.last().0 != ' ',
    ensures
        words(p).len() > 0,
    decreases p.len(),
{
    let pp = p.drop_last();
    if pp.len() > 0 && pp.last().0 != ' ' {
        lemma_words_nonempty(pp);
    }
}

proof fn lemma_upto_upto(s: Seq<char>)
    ensures
        upto(upto(s, 3), 2) == upto(s, 2),
{
    if s.len() > 3 {
        assert(s.take(3).take(2) =~= s.take(2));
    }
}

/// The initials, before upper-casing, of characters marked alphanumeric or not.
pub fn raw_initials_of_marked(cs: &Vec<(char, bool)>) -> (r: Vec<char>)
    ensures
        r@ == raw_initials(cs@),
{
    let mut nwords: usize = 0;
    let mut in_word = false;
    let mut f0: Vec<char> = Vec::new();
    let mut f1: Vec<char> = Vec::new();
    let mut al: Vec<char> = Vec::new();
    let mut i: usize = 0;
    while i < cs.len()
        invariant
            i <= cs@.len(),
            nwords as int == if words(cs@.take(i as int)).len() < 3 {
                words(cs@.take(i as int)).len() as int
            } else {
                3
            },
            in_word == (i > 0 && cs@[i - 1].0 != ' '),
            words(cs@.take(i as int)).len() >= 1 ==> f0@ == upto(
                alnums(words(cs@.take(i as int))[0]),
                1,
            ),
            words(cs@.take(i as int)).len() >= 2 ==> f1@ == upto(
                alnums(words(cs@.take(i as int))[1]),
                1,
            ),
            words(cs@.take(i as int)).len() < 1 ==> f0@.len() == 0,
            words(cs@.take(i as int)).len() < 2 ==> f1@.len() == 0,
            al@ == upto(alnums(cs@.take(i as int)), 3),
        decreases cs@.len() - i,
    {
        let e = cs[i];
        let c = e.0;
        let a = e.1;
        let ghost p = cs@.take(i as int);
        let ghost q = cs@.take(i as int + 1);
        let ghost wp = words(p);
        proof {
            assert(q.drop_last() =~= p);
            assert(q.last() == e);
            if i > 0 {
                assert(p.last() == cs@[i - 1]);
            }
        }
        if a && al.len() < 3 {
            al.push(c);
        }
        proof {
            if a {
                assert(alnums(q) == alnums(p).push(c));
                if alnums(p).len() > 3 {
                    assert(alnums(p).push(c).take(3) =~= alnums(p).take(3));
                }
            } else {
                assert(alnums(q) == alnums(p));
            }
        }
        if c == ' ' {
            in_word = false;
            assert(words(q) == wp);
        } else if in_word {
            proof {
                lemma_words_nonempty(p);
            }
            let ghost wq = words(q);
            assert(wq == wp.update(wp.len() - 1, wp.last().push(e)));
            proof {
                let lw = wp.last();
                assert(lw.push(e).drop_last() =~= lw);
                assert(lw.push(e).last() == e);
            }
            if nwords == 1 && f0.len() == 0 && a {
                f0.push(c);
            }
            if nwords == 2 && f1.len() == 0 && a {
                f1.push(c);
            }
            proof {
                if wp.len() == 1 {
                    let lw = wp[0];
                    if a && alnums(lw).len() > 0 {
                        assert(alnums(lw).push(c).take(1) =~= alnums(lw).take(1));
                    }
                } else if wp.len() == 2 {
                    let lw = wp[1];
                    if a && alnums(lw).len() > 0 {
                        assert(alnums(lw).push(c).take(1) =~= alnums(lw).take(1));
                    }
                }
            }
        } else {
            in_word = true;
            if nwords < 3 {
                nwords = nwords + 1;
            }
            if nwords == 1 && a {
                f0.push(c);
            }
            if nwords == 2 && a {
                f1.push(c);
            }
            proof {
                let one = seq![e];
                assert(one.drop_last() =~= Seq::<(char, bool)>::empty());
                assert(one.last() == e);
                assert(words(q) == wp.push(one));
                assert(alnums(one.drop_last()) =~= Seq::<char>::empty());
                if a {
                    assert(alnums(one) =~= seq![c]);
                } else {
                    assert(alnums(one) =~= Seq::<char>::empty());
                }
            }
        }
        i = i + 1;
    }
    assert(cs@.take(cs@.len() as int) =~= cs@);
    let mut raw: Vec<char> = Vec::new();
    if nwords >= 2 {
        raw.append(&mut f0);
        raw.append(&mut f1);
    } else {
        raw = al.clone();
    }
    if raw.len() == 0 {
        proof {
            lemma_upto_upto(alnums(cs@));
        }
        let mut j: usize = 0;
        while j < al.len() && j < 2
            invariant
                j <= al@.len(),
                j <= 2,
                raw@ =~= al@.take(j as int),
            decreases 2 - j,
        {
            raw.push(al[j]);
            j = j + 1;
        }
        assert(raw@ =~= upto(al@, 2));
        if raw.len() == 0 {
            raw.push('?');
        }
    }
    assert(raw@ =~= raw_initials(cs@));
    raw
}

/// Extract the initials of a normalized text.
pub fn initials_from_normalized(s: &str) -> (r: String)
    ensures
        r@ == initials_of(s@),
{
    let marks = mark_alphanumerics(s);
    let raw = raw_initials_of_marked(&marks);
    let joined = string_of_chars(&raw);
    to_upper(joined.as_str())
}

/// The values drawn from the stream for a badge, in draw order (after the
/// palette's).
#[derive(Debug, Clone, Copy, PartialEq, Eq, Structural)]
pub struct MonogramDraws {
    pub palette: PaletteDraws,
    pub circle: bool,
    /// Drawn only for a rectangular badge.
    pub corner_permille: u32,
    pub border: bool,
    pub font_permille: u32,
}

/// Each draw lies in its band.
pub open spec fn monogram_draws_in_range(d: MonogramDraws, transparent: bool) -> bool {
    &&& palette_draws_in_range(d.palette, transparent)
    &&& !d.circle ==> MIN_CORNER_PERMILLE <= d.corner_permille < MAX_CORNER_PERMILLE
    &&& MIN_FONT_PERMILLE <= d.font_permille < MAX_FONT_PERMILLE
}

/// The padding in hundredths of a pixel: the fraction of the side, rounded to
/// whole pixels.
pub open spec fn padding_units(opts: RenderOptions) -> int {
    ((opts.padding_permille * opts.size_px + 500) / 1000) * 100
}

/// The badge side in hundredths of a pixel: the canvas less twice the padding
/// (never negative).
pub open spec fn inner_units(opts: RenderOptions) -> int {
    let w = opts.size_px * 100;
    let pad = padding_units(opts);
    if 2 * pad > w {
        0
    } else {
        w - 2 * pad
    }
}

/// The badge: a circle at the center with half the badge side as radius, or
/// the padded square with corner radius the drawn fraction of its side.
pub open spec fn badge_shape(opts: RenderOptions, d: MonogramDraws) -> Shape {
    let w = opts.size_px * 100;
    let pad = padding_units(opts);
    let inner = inner_units(opts);
    if d.circle {
        Shape::Circle(Circle { cx: (w / 2) as u32, cy: (w / 2) as u32, r: (inner / 2) as u32 })
    } else {
        let rx = (d.corner_permille * inner / 1000) as u32;
        Shape::Rect {
            rect: Rect { x: pad as u32, y: pad as u32, w: inner as u32, h: inner as u32 },
            rx,
            ry: rx,
        }
    }
}

/// The badge scene for the normalized text `text` and the draws `d`:
/// background, filled badge, an optional border, and the centered initials.
pub open spec fn monogram_view(text: Seq<char>, opts: RenderOptions, d: MonogramDraws) -> SceneView {
    let w = opts.size_px * 100;
    let pal = palette_of(d.palette, opts.transparent_background);
    let shape = badge_shape(opts, d);
    let font_size = d.font_permille * w / 1000;
    let border = if d.border {
        seq![
            OpView::ShapeStroke {
                shape,
                color: pal.tertiary,
                width: (w * BORDER_WIDTH_PERMILLE / 1000) as u32,
            },
        ]
    } else {
        Seq::empty()
    };
    SceneView {
        width: opts.size_px,
        height: opts.size_px,
        ops: seq![
            OpView::Background { color: pal.background },
            OpView::ShapeFill { shape, color: pal.primary },
        ] + border + seq![
            OpView::Text {
                text: initials_of(text),
                x: (w / 2) as u32,
                y: (w / 2 + font_size * BASELINE_PERCENT / 100) as u32,
                font_family: FONT_FAMILY@,
                font_weight: FONT_WEIGHT,
                font_size: font_size as u32,
                color: pal.secondary,
                anchor_middle: true,
            },
        ],
    }
}

fn padding_exec(opts: &RenderOptions) -> (r: u32)
    requires
        options_valid(*opts),
    ensures
        r == padding_units(*opts),
        r <= 410_000,
{
    let pm = opts.padding_permille as u32;
    let size = opts.size_px;
    assert(pm * size <= 500 * 8192) by (nonlinear_arith)
        requires
            pm <= 500,
            size <= 8192,
    ;
    ((pm * size + 500) / 1000) * 100
}

fn badge_shape_exec(opts: &RenderOptions, d: &MonogramDraws) -> (r: Shape)
    requires
        options_valid(*opts),
        monogram_draws_in_range(*d, opts.transparent_background),
    ensures
        r == badge_shape(*opts, *d),
{
    let w: u32 = opts.size_px * 100;
    let pad = padding_exec(opts);
    let inner: u32 = if 2 * pad > w { 0 } else { w - 2 * pad };
    if d.circle {
        Shape::Circle(Circle { cx: w / 2, cy: w / 2, r: inner / 2 })
    } else {
        assert(d.corner_permille * inner <= 220 * 819200) by (nonlinear_arith)
            requires
                d.corner_permille < 220,
                inner <= 819200,
        ;
        let rx = d.corner_permille * inner / 1000;
        Shape::Rect { rect: Rect { x: pad, y: pad, w: inner, h: inner }, rx, ry: rx }
    }
}

/// `v` is the badge scene of `text` for some draws within their bands.
pub open spec fn is_monogram_scene(text: Seq<char>, opts: RenderOptions, v: SceneView) -> bool {
    exists|d: MonogramDraws|
        #[trigger] monogram_draws_in_range(d, opts.transparent_background) && v == monogram_view(
            text,
            opts,
            d,
        )
}

/// The badge scene of given draws.
pub fn monogram_scene(normalized: &str, opts: &RenderOptions, d: &MonogramDraws) -> (r: Scene)
    requires
        options_valid(*opts),
        monogram_draws_in_range(*d, opts.transparent_background),
    ensures
        r@ == monogram_view(normalized@, *opts, *d),
{
    let size = opts.size_px;
    let w: u32 = size * 100;
    let palette = palette_from_draws(&d.palette, opts.transparent_background);
    let shape = badge_shape_exec(opts, d);
    assert(d.font_permille * w <= 620 * 819200) by (nonlinear_arith)
        requires
            d.font_permille < 620,
            w <= 819200,
    ;
    let font_size = d.font_permille * w / 1000;
    let mut ops: Vec<DrawOp> = Vec::new();
    ops.push(DrawOp::Background { color: palette.background });
    ops.push(DrawOp::ShapeFill { shape, color: palette.primary });
    if d.border {
        ops.push(
            DrawOp::ShapeStroke {
                shape,
                color: palette.tertiary,
                width: w * BORDER_WIDTH_PERMILLE / 1000,
            },
        );
    }
    let text = DrawOp::Text {
        text: initials_from_normalized(normalized),
        x: w / 2,
        y: w / 2 + font_size * BASELINE_PERCENT / 100,
        font_family: String::from_str(FONT_FAMILY),
        font_weight: FONT_WEIGHT,
        font_size,
        color: palette.secondary,
        anchor_middle: true,
    };
    ops.push(text);
    let r = Scene { width: size, height: size, ops };
    assert(r@.ops =~= monogram_view(normalized@, *opts, *d).ops);
    r
}

/// Draw the badge's values from the stream in their fixed order: palette,
/// circle or not, corner radius (rectangles only), border or not, font size.
pub fn draw_monogram(rng: &mut ChaCha20Rng, transparent: bool) -> (r: MonogramDraws)
    ensures
        monogram_draws_in_range(r, transparent),
{
    let palette = draw_palette(rng, transparent);
    let circle = draw_ratio(rng, CIRCLE_CHANCE.0, CIRCLE_CHANCE.1);
    let corner_permille = if circle {
        0
    } else {
        draw_range(rng, MIN_CORNER_PERMILLE, MAX_CORNER_PERMILLE)
    };
    let border = draw_ratio(rng, BORDER_CHANCE.0, BORDER_CHANCE.1);
    let font_permille = draw_range(rng, MIN_FONT_PERMILLE, MAX_FONT_PERMILLE);
    MonogramDraws { palette, circle, corner_permille, border, font_permille }
}

/// Build the badge scene, every choice taken from the stream: whatever the
/// stream yields, the scene is the badge of draws that lie in their bands.
pub fn build(normalized: &str, rng: &mut ChaCha20Rng, opts: &RenderOptions) -> (r: Result<
    Scene,
    LogoGenError,
>)
    requires
        options_valid(*opts),
    ensures
        r matches Ok(s) && is_monogram_scene(normalized@, *opts, s@),
{
    let d = draw_monogram(rng, opts.transparent_background);
    let s = monogram_scene(normalized, opts, &d);
    assert(monogram_draws_in_range(d, opts.transparent_background));
    Ok(s)
}

} // verus!
