//! The raster renderer: paints the scene's operations in order on an RGBA
//! canvas and encodes it as PNG.
//!
//! Text needs a font and is drawn by the caller (see the application); shape
//! outlines are left to the vector output.

use crate::algorithms::{DrawOp, OpView, Scene, SceneView};
use crate::base::geometry::Shape;
use crate::render::canvas::{
    canvas_ok, fill_pixels, get_pixel, lemma_pixels_determine, lemma_repaint_pixel, new_canvas,
    pixel_at, rect_fill, repaint, set_pixel, Pixel,
};
use crate::{LogoGenError, RenderOptions};
use image::ImageEncoder;
use imageproc::drawing::{draw_filled_circle_mut, draw_filled_rect_mut};
use vstd::prelude::*;
use vstd::string::StringExecFns;

verus! {

/// Largest canvas side the raster renderer accepts, in pixels.
pub const MAX_CANVAS_PX: u32 = 8192;

/// The eight bytes that open every PNG file.
pub open spec fn png_signature() -> Seq<u8> {
    seq![0x89u8, 0x50u8, 0x4Eu8, 0x47u8, 0x0Du8, 0x0Au8, 0x1Au8, 0x0Au8]
}

/// The PNG file (8-bit RGBA) of a `w` by `h` canvas.
pub uninterp spec fn png_rgba_encoding(pixels: Seq<u8>, w: u32, h: u32) -> Seq<u8>;

/// The canvas after imageproc fills the circle of center `(cx, cy)` and
/// radius `r` (whole pixels) with `p`.
pub uninterp spec fn imageproc_filled_circle(
    pixels: Seq<u8>,
    w: u32,
    h: u32,
    cx: i32,
    cy: i32,
    r: i32,
    p: Pixel,
) -> Seq<u8>;

/// Relies on image's `PngEncoder::write_image` with `ExtendedColorType::Rgba8`:
/// on success the bytes are the PNG encoding of the canvas, and the png crate's
/// encoder writes the 8-byte signature first. Writing into a `Vec` cannot fail;
/// the png crate refuses only a zero width or height and a chunk above
/// `i32::MAX` bytes, which a canvas of at most 8192 by 8192 pixels stays below.
/// It panics unless the buffer holds exactly `w * h * 4` bytes, which
/// `requires` rules out.
#[verifier::external_body]
fn encode_rgba_png(pixels: &Vec<u8>, w: u32, h: u32) -> (r: Result<Vec<u8>, String>)
    requires
        pixels@.len() == w * h * 4,
    ensures
        r matches Ok(b) ==> b@ == png_rgba_encoding(pixels@, w, h) && b@.len() >= 8 && b@.take(8)
            == png_signature(),
        0 < w <= MAX_CANVAS_PX && 0 < h <= MAX_CANVAS_PX ==> r is Ok,
{
    let mut buf = Vec::new();
    let encoder = image::codecs::png::PngEncoder::new(&mut buf);
    match encoder.write_image(pixels, w, h, image::ExtendedColorType::Rgba8) {
        Ok(()) => Ok(buf),
        Err(e) => Err(e.to_string()),
    }
}

/// Relies on imageproc's `draw_filled_circle_mut` on an `RgbaImage` that holds
/// the canvas: it paints in place, so the canvas keeps its size. Its midpoint
/// arithmetic adds and subtracts the radius to the center in `i32`, so all
/// three are kept small.
#[verifier::external_body]
fn draw_circle(px: &mut Vec<u8>, w: u32, h: u32, cx: i32, cy: i32, r: i32, p: Pixel)
    requires
        canvas_ok(old(px)@, w as int, h as int),
        0 <= cx <= 100_000,
        0 <= cy <= 100_000,
        0 <= r <= 100_000,
    ensures
        final(px)@ == imageproc_filled_circle(old(px)@, w, h, cx, cy, r, p),
        canvas_ok(final(px)@, w as int, h as int),
{
    let mut img = image::RgbaImage::from_raw(w, h, std::mem::take(px)).expect("canvas size");
    draw_filled_circle_mut(&mut img, (cx, cy), r, image::Rgba([p.r, p.g, p.b, p.a]));
    *px = img.into_raw();
}

/// Relies on imageproc's `draw_filled_rect_mut` with `Rect::at(x, y).of_size(rw, rh)`:
/// every canvas pixel of the rectangle is replaced by `p`, the others are kept.
/// `of_size` panics on a zero side, of the rectangle or of the canvas (whose
/// bounds the call builds the same way), which `requires` rules out.
#[verifier::external_body]
fn draw_rect(px: &mut Vec<u8>, w: u32, h: u32, x: i32, y: i32, rw: u32, rh: u32, p: Pixel)
    requires
        canvas_ok(old(px)@, w as int, h as int),
        w > 0,
        h > 0,
        rw > 0,
        rh > 0,
        0 <= x,
        0 <= y,
        x + rw <= i32::MAX,
        y + rh <= i32::MAX,
    ensures
        final(px)@ == repaint(
            old(px)@,
            w as int,
            rect_fill(x as int, y as int, x + rw, y + rh, p),
        ),
{
    let mut img = image::RgbaImage::from_raw(w, h, std::mem::take(px)).expect("canvas size");
    let rect = imageproc::rect::Rect::at(x, y).of_size(rw, rh);
    draw_filled_rect_mut(&mut img, rect, image::Rgba([p.r, p.g, p.b, p.a]));
    *px = img.into_raw();
}

/// `r` is the square root of `n` rounded down.
pub open spec fn is_sqrt_floor(n: nat, r: nat) -> bool {
    r * r <= n < (r + 1) * (r + 1)
}

/// The largest `r` with `r * r <= n`.
pub open spec fn sqrt_floor(n: nat) -> nat {
    choose|r: nat| #[trigger] is_sqrt_floor(n, r)
}

proof fn lemma_sqrt_unique(n: nat, r: nat)
    requires
        r * r <= n < (r + 1) * (r + 1),
    ensures
        sqrt_floor(n) == r,
{
    assert(is_sqrt_floor(n, r));
    let s = sqrt_floor(n);
    assert(s * s <= n < (s + 1) * (s + 1));
    if s < r {
        assert((s + 1) * (s + 1) <= r * r) by (nonlinear_arith)
            requires
                s < r,
        ;
    } else if s > r {
        assert((r + 1) * (r + 1) <= s * s) by (nonlinear_arith)
            requires
                r < s,
        ;
    }
}

/// Integer square root, rounded down.
pub fn isqrt(n: u64) -> (r: u64)
    requires
        n < 0x400_0000_0000,
    ensures
        r == sqrt_floor(n as nat),
        r * r <= n < (r + 1) * (r + 1),
{
    let mut lo: u64 = 0;
    let mut hi: u64 = 0x20_0000;
    while hi - lo > 1
        invariant
            lo < hi <= 0x20_0000,
            lo * lo <= n,
            n < hi * hi,
        decreases hi - lo,
    {
        let mid = lo + (hi - lo) / 2;
        assert(mid * mid <= 0x20_0000 * 0x20_0000) by (nonlinear_arith)
            requires
                mid < 0x20_0000,
        ;
        if mid * mid <= n {
            lo = mid;
        } else {
            hi = mid;
        }
    }
    proof {
        lemma_sqrt_unique(n as nat, lo as nat);
    }
    lo
}

/// Straight alpha blend of `fg` over `bg` with opacity `alpha` (0 to 255): at
/// the extremes one of the two as it is, otherwise each color channel mixed
/// and rounded down, fully opaque.
pub open spec fn blend(bg: Pixel, fg: Pixel, alpha: int) -> Pixel {
    if alpha == 0 {
        bg
    } else if alpha == 255 {
        fg
    } else {
        Pixel {
            r: ((fg.r * alpha + bg.r * (255 - alpha)) / 255) as u8,
            g: ((fg.g * alpha + bg.g * (255 - alpha)) / 255) as u8,
            b: ((fg.b * alpha + bg.b * (255 - alpha)) / 255) as u8,
            a: 255,
        }
    }
}

fn mix(f: u8, b: u8, alpha: u32) -> (r: u8)
    requires
        alpha <= 255,
    ensures
        r == (f * alpha + b * (255 - alpha)) / 255,
{
    assert(f * alpha + b * (255 - alpha) <= 255 * 255) by (nonlinear_arith)
        requires
            f <= 255,
            b <= 255,
            alpha <= 255,
    ;
    ((f as u32 * alpha + b as u32 * (255 - alpha)) / 255) as u8
}

fn blend_rgba(bg: Pixel, fg: Pixel, alpha: u32) -> (r: Pixel)
    requires
        alpha <= 255,
    ensures
        r == blend(bg, fg, alpha as int),
{
    if alpha == 0 {
        bg
    } else if alpha == 255 {
        fg
    } else {
        Pixel { r: mix(fg.r, bg.r, alpha), g: mix(fg.g, bg.g, alpha), b: mix(fg.b, bg.b, alpha), a: 255 }
    }
}

/// Opacity at squared distance `d2` (pixels squared) from a corner center of
/// radius `rc` (hundredths): full inside, falling linearly to zero over the
/// last pixel of the radius.
pub open spec fn corner_alpha(d2: int, rc: int) -> int {
    let dist = sqrt_floor((d2 * 10000) as nat) as int;
    if dist + 100 > rc {
        let a = (rc - dist) * 255 / 100;
        if a > 255 {
            255
        } else if a < 0 {
            0
        } else {
            a
        }
    } else {
        255
    }
}

/// The quarter disc of radius `rc` (hundredths) around the pixel holding
/// `(cx, cy)` (hundredths), on the `left` or right and `top` or bottom side,
/// blended with `p` by `corner_alpha`.
pub open spec fn corner_paint(cx: int, cy: int, rc: int, left: bool, top: bool, p: Pixel) -> spec_fn(
    int,
    int,
    Pixel,
) -> Pixel {
    |x: int, y: int, old: Pixel|
        {
            let dx = x - cx / 100;
            let dy = y - cy / 100;
            let ri = rc / 100;
            if (if left {
                -ri <= dx <= 0
            } else {
                0 <= dx <= ri
            }) && (if top {
                -ri <= dy <= 0
            } else {
                0 <= dy <= ri
            }) && (dx * dx + dy * dy) * 10000 <= rc * rc {
                blend(old, p, corner_alpha(dx * dx + dy * dy, rc))
            } else {
                old
            }
        }
}

fn corner_alpha_exec(d2: u64, rc: u64) -> (r: u32)
    requires
        d2 * 10000 <= rc * rc,
        rc <= 1_000_000,
    ensures
        r == corner_alpha(d2 as int, rc as int),
        r <= 255,
{
    assert(rc * rc <= 1_000_000 * 1_000_000) by (nonlinear_arith)
        requires
            rc <= 1_000_000,
    ;
    let dist = isqrt(d2 * 10000);
    assert(dist <= rc) by (nonlinear_arith)
        requires
            dist * dist <= d2 * 10000,
            d2 * 10000 <= rc * rc,
    ;
    if dist + 100 > rc {
        let a = (rc - dist) * 255 / 100;
        if a > 255 {
            255
        } else {
            a as u32
        }
    } else {
        255
    }
}

/// Paint one anti-aliased quarter disc: every pixel of the quadrant within
/// the radius is blended with `p` by its opacity.
pub fn paint_corner(
    px: &mut Vec<u8>,
    w: u32,
    h: u32,
    cx: u64,
    cy: u64,
    rc: u64,
    left: bool,
    top: bool,
    p: Pixel,
)
    requires
        canvas_ok(old(px)@, w as int, h as int),
        w > 0,
        cx <= 2_000_000,
        cy <= 2_000_000,
        rc <= 1_000_000,
    ensures
        final(px)@ == repaint(old(px)@, w as int, corner_paint(cx as int, cy as int, rc as int, left, top, p)),
{
    let ghost start = px@;
    let ghost f = corner_paint(cx as int, cy as int, rc as int, left, top, p);
    let cxp = cx / 100;
    let cyp = cy / 100;
    let ri = rc / 100;
    let xlo: u64 = if left { if cxp >= ri { cxp - ri } else { 0 } } else { cxp };
    let xtop: u64 = if left { cxp + 1 } else { cxp + ri + 1 };
    let xhi: u64 = if xtop < w as u64 { xtop } else { w as u64 };
    let ylo: u64 = if top { if cyp >= ri { cyp - ri } else { 0 } } else { cyp };
    let ytop: u64 = if top { cyp + 1 } else { cyp + ri + 1 };
    let yhi: u64 = if ytop < h as u64 { ytop } else { h as u64 };
    let mut y = ylo;
    while y < yhi
        invariant
            canvas_ok(px@, w as int, h as int),
            canvas_ok(start, w as int, h as int),
            ylo <= y,
            yhi <= h,
            xhi <= w,
            f == corner_paint(cx as int, cy as int, rc as int, left, top, p),
            cxp == cx / 100,
            cyp == cy / 100,
            ri == rc / 100,
            cx <= 2_000_000,
            cy <= 2_000_000,
            rc <= 1_000_000,
            left ==> xlo + ri >= cxp && xhi <= cxp + 1,
            !left ==> xlo == cxp && xhi <= cxp + ri + 1,
            top ==> ylo + ri >= cyp && yhi <= cyp + 1,
            !top ==> ylo == cyp && yhi <= cyp + ri + 1,
            left ==> (xhi == cxp + 1 || xhi == w) && (xlo == cxp - ri || xlo == 0),
            !left ==> (xhi == cxp + ri + 1 || xhi == w),
            top ==> (yhi == cyp + 1 || yhi == h) && (ylo == cyp - ri || ylo == 0),
            !top ==> (yhi == cyp + ri + 1 || yhi == h),
            forall|xx: int, yy: int|
                0 <= xx < w && 0 <= yy < h ==> #[trigger] pixel_at(px@, w as int, xx, yy) == if xlo
                    <= xx < xhi && ylo <= yy < y && yy < yhi {
                    f(xx, yy, pixel_at(start, w as int, xx, yy))
                } else {
                    pixel_at(start, w as int, xx, yy)
                },
        decreases yhi - y,
    {
        let mut x = xlo;
        while x < xhi
            invariant
                canvas_ok(px@, w as int, h as int),
                ylo <= y < yhi,
                yhi <= h,
                xhi <= w,
                xlo <= x,
                f == corner_paint(cx as int, cy as int, rc as int, left, top, p),
                cxp == cx / 100,
                cyp == cy / 100,
                ri == rc / 100,
                cx <= 2_000_000,
                cy <= 2_000_000,
                rc <= 1_000_000,
                left ==> xlo + ri >= cxp && xhi <= cxp + 1,
                !left ==> xlo == cxp && xhi <= cxp + ri + 1,
                top ==> ylo + ri >= cyp && yhi <= cyp + 1,
                !top ==> ylo == cyp && yhi <= cyp + ri + 1,
                left ==> (xhi == cxp + 1 || xhi == w) && (xlo == cxp - ri || xlo == 0),
                !left ==> (xhi == cxp + ri + 1 || xhi == w),
                top ==> (yhi == cyp + 1 || yhi == h) && (ylo == cyp - ri || ylo == 0),
                !top ==> (yhi == cyp + ri + 1 || yhi == h),
                forall|xx: int, yy: int|
                    0 <= xx < w && 0 <= yy < h ==> #[trigger] pixel_at(px@, w as int, xx, yy) == if (
                    xlo <= xx < xhi && ylo <= yy < y) || (yy == y && xlo <= xx < x && xx < xhi) {
                        f(xx, yy, pixel_at(start, w as int, xx, yy))
                    } else {
                        pixel_at(start, w as int, xx, yy)
                    },
            decreases xhi - x,
        {
            let dx: i64 = x as i64 - cxp as i64;
            let dy: i64 = y as i64 - cyp as i64;
            assert(0 <= dx * dx <= ri * ri && 0 <= dy * dy <= ri * ri) by (nonlinear_arith)
                requires
                    -ri <= dx <= ri,
                    -ri <= dy <= ri,
            ;
            assert(ri * ri <= 10_000 * 10_000) by (nonlinear_arith)
                requires
                    ri <= 10_000,
            ;
            let dx2: i64 = dx * dx;
            let dy2: i64 = dy * dy;
            let d2: u64 = (dx2 + dy2) as u64;
            assert(rc * rc <= 1_000_000 * 1_000_000) by (nonlinear_arith)
                requires
                    rc <= 1_000_000,
            ;
            if d2 * 10000 <= rc * rc {
                let alpha = corner_alpha_exec(d2, rc);
                let old_px = get_pixel(px, w, h, x as u32, y as u32);
                set_pixel(px, w, h, x as u32, y as u32, blend_rgba(old_px, p, alpha));
            }
            x = x + 1;
        }
        y = y + 1;
    }
    proof {
        let target = repaint(start, w as int, f);
        assert(canvas_ok(target, w as int, h as int));
        assert forall|xx: int, yy: int| 0 <= xx < w && 0 <= yy < h implies #[trigger] pixel_at(
            px@,
            w as int,
            xx,
            yy,
        ) == pixel_at(target, w as int, xx, yy) by {
            lemma_repaint_pixel(start, w as int, h as int, f, xx, yy);
        }
        lemma_pixels_determine(px@, target, w as int, h as int);
    }
}

/// Two repaints that agree on every canvas pixel give the same canvas.
proof fn lemma_repaint_agree(
    px: Seq<u8>,
    w: int,
    h: int,
    f: spec_fn(int, int, Pixel) -> Pixel,
    g: spec_fn(int, int, Pixel) -> Pixel,
)
    requires
        w > 0,
        canvas_ok(px, w, h),
        forall|x: int, y: int, o: Pixel| 0 <= x < w && 0 <= y < h ==> #[trigger] f(x, y, o) == g(x, y, o),
    ensures
        repaint(px, w, f) == repaint(px, w, g),
{
    assert forall|x: int, y: int| 0 <= x < w && 0 <= y < h implies #[trigger] pixel_at(
        repaint(px, w, f),
        w,
        x,
        y,
    ) == pixel_at(repaint(px, w, g), w, x, y) by {
        lemma_repaint_pixel(px, w, h, f, x, y);
        lemma_repaint_pixel(px, w, h, g, x, y);
    }
    lemma_pixels_determine(repaint(px, w, f), repaint(px, w, g), w, h);
}

/// The pixels that a rectangle in hundredths covers, set to `p`: from the
/// pixel holding its top-left corner up to its far edges rounded up; nothing
/// when it is empty.
pub open spec fn area_fill(x: int, y: int, w: int, h: int, p: Pixel) -> spec_fn(int, int, Pixel) -> Pixel {
    if w <= 0 || h <= 0 {
        |xx: int, yy: int, old: Pixel| old
    } else {
        rect_fill(x / 100, y / 100, (x + w + 99) / 100, (y + h + 99) / 100, p)
    }
}

/// Fill the pixels that a rectangle in hundredths covers.
pub fn fill_area(px: &mut Vec<u8>, cw: u32, ch: u32, x: u64, y: u64, w: u64, h: u64, p: Pixel)
    requires
        canvas_ok(old(px)@, cw as int, ch as int),
        cw > 0,
        x <= 4_000_000,
        y <= 4_000_000,
        w <= 4_000_000,
        h <= 4_000_000,
    ensures
        final(px)@ == repaint(old(px)@, cw as int, area_fill(x as int, y as int, w as int, h as int, p)),
{
    let ghost start = px@;
    let ghost f = area_fill(x as int, y as int, w as int, h as int, p);
    if w == 0 || h == 0 {
        proof {
            let id = |xx: int, yy: int, old: Pixel| old;
            assert forall|xx: int, yy: int| 0 <= xx < cw && 0 <= yy < ch implies #[trigger] pixel_at(
                start,
                cw as int,
                xx,
                yy,
            ) == pixel_at(repaint(start, cw as int, f), cw as int, xx, yy) by {
                lemma_repaint_pixel(start, cw as int, ch as int, f, xx, yy);
            }
            lemma_pixels_determine(start, repaint(start, cw as int, f), cw as int, ch as int);
        }
        return;
    }
    let x0 = x / 100;
    let y0 = y / 100;
    let xe = (x + w + 99) / 100;
    let ye = (y + h + 99) / 100;
    let x1: u32 = if xe < cw as u64 { xe as u32 } else { cw };
    let y1: u32 = if ye < ch as u64 { ye as u32 } else { ch };
    let x0c: u32 = if x0 < cw as u64 { x0 as u32 } else { cw };
    let y0c: u32 = if y0 < ch as u64 { y0 as u32 } else { ch };
    fill_pixels(px, cw, ch, x0c, y0c, x1, y1, p);
    proof {
        lemma_repaint_agree(
            start,
            cw as int,
            ch as int,
            rect_fill(x0c as int, y0c as int, x1 as int, y1 as int, p),
            f,
        );
    }
}

/// A rounded rectangle in hundredths: the corner radius capped at half of
/// each side; a middle band, two side bands, then four anti-aliased corners.
pub open spec fn rounded_rect_raster(
    px: Seq<u8>,
    cw: int,
    x: int,
    y: int,
    w: int,
    h: int,
    radius: int,
    p: Pixel,
) -> Seq<u8> {
    let r0 = if radius < w / 2 { radius } else { w / 2 };
    let r = if r0 < h / 2 { r0 } else { h / 2 };
    let c1 = repaint(px, cw, area_fill(x + r, y, w - 2 * r, h, p));
    let c2 = repaint(c1, cw, area_fill(x, y + r, r, h - 2 * r, p));
    let c3 = repaint(c2, cw, area_fill(x + w - r, y + r, r, h - 2 * r, p));
    let c4 = repaint(c3, cw, corner_paint(x + r, y + r, r, true, true, p));
    let c5 = repaint(c4, cw, corner_paint(x + w - r, y + r, r, false, true, p));
    let c6 = repaint(c5, cw, corner_paint(x + r, y + h - r, r, true, false, p));
    repaint(c6, cw, corner_paint(x + w - r, y + h - r, r, false, false, p))
}

/// Paint a rounded rectangle given in hundredths.
pub fn draw_rounded_rect(
    px: &mut Vec<u8>,
    cw: u32,
    ch: u32,
    x: u64,
    y: u64,
    w: u64,
    h: u64,
    radius: u64,
    p: Pixel,
)
    requires
        canvas_ok(old(px)@, cw as int, ch as int),
        cw > 0,
        x <= 1_000_000,
        y <= 1_000_000,
        w <= 1_000_000,
        h <= 1_000_000,
    ensures
        final(px)@ == rounded_rect_raster(old(px)@, cw as int, x as int, y as int, w as int, h as int, radius as int, p),
{
    let r0 = if radius < w / 2 { radius } else { w / 2 };
    let r = if r0 < h / 2 { r0 } else { h / 2 };
    fill_area(px, cw, ch, x + r, y, w - 2 * r, h, p);
    fill_area(px, cw, ch, x, y + r, r, h - 2 * r, p);
    fill_area(px, cw, ch, x + w - r, y + r, r, h - 2 * r, p);
    paint_corner(px, cw, ch, x + r, y + r, r, true, true, p);
    paint_corner(px, cw, ch, x + w - r, y + r, r, false, true, p);
    paint_corner(px, cw, ch, x + r, y + h - r, r, true, false, p);
    paint_corner(px, cw, ch, x + w - r, y + h - r, r, false, false, p);
}

/// A color made fully opaque.
pub open spec fn opaque(c: crate::base::palette::Rgb) -> Pixel {
    Pixel { r: c.r, g: c.g, b: c.b, a: 255 }
}

/// Every coordinate and length of the shape is at most 1 000 000 hundredths.
pub open spec fn shape_fits(s: Shape) -> bool {
    match s {
        Shape::Rect { rect, rx, ry } => rect.x <= 1_000_000 && rect.y <= 1_000_000 && rect.w
            <= 1_000_000 && rect.h <= 1_000_000,
        Shape::Circle(c) => c.cx <= 1_000_000 && c.cy <= 1_000_000 && c.r <= 1_000_000,
    }
}

/// Every shape of the operations fits.
pub open spec fn ops_fit(ops: Seq<OpView>) -> bool {
    forall|i: int|
        0 <= i < ops.len() ==> match #[trigger] ops[i] {
            OpView::ShapeFill { shape, color } => shape_fits(shape),
            _ => true,
        }
}

/// The canvas after painting one operation: a background fills the canvas; a
/// circle is filled by imageproc; a rectangle with a corner radius is drawn
/// rounded, one without by imageproc when at least a pixel wide and high.
/// Outlines, text and an absent background leave the canvas as it is.
pub open spec fn op_raster(px: Seq<u8>, cw: u32, ch: u32, op: OpView) -> Seq<u8> {
    match op {
        OpView::Background { color } => match color {
            Some(c) => repaint(px, cw as int, rect_fill(0, 0, cw as int, ch as int, opaque(c))),
            None => px,
        },
        OpView::ShapeFill { shape, color } => match shape {
            Shape::Circle(c) => imageproc_filled_circle(
                px,
                cw,
                ch,
                (c.cx / 100) as i32,
                (c.cy / 100) as i32,
                (c.r / 100) as i32,
                opaque(color),
            ),
            Shape::Rect { rect, rx, ry } => if rx > 0 || ry > 0 {
                rounded_rect_raster(px, cw as int, rect.x as int, rect.y as int, rect.w as int, rect.h as int, rx as int, opaque(color))
            } else if rect.w / 100 > 0 && rect.h / 100 > 0 {
                repaint(
                    px,
                    cw as int,
                    rect_fill(
                        rect.x as int / 100,
                        rect.y as int / 100,
                        rect.x as int / 100 + rect.w as int / 100,
                        rect.y as int / 100 + rect.h as int / 100,
                        opaque(color),
                    ),
                )
            } else {
                px
            },
        },
        _ => px,
    }
}

/// The canvas after painting the operations in order onto `px`.
pub open spec fn ops_raster(px: Seq<u8>, cw: u32, ch: u32, ops: Seq<OpView>) -> Seq<u8>
    decreases ops.len(),
{
    if ops.len() == 0 {
        px
    } else {
        op_raster(ops_raster(px, cw, ch, ops.drop_last()), cw, ch, ops.last())
    }
}

/// A fully transparent canvas.
pub open spec fn blank(cw: u32, ch: u32) -> Seq<u8> {
    Seq::new((cw * ch * 4) as nat, |i: int| 0u8)
}

/// The canvas of a scene.
pub open spec fn scene_raster(s: SceneView) -> Seq<u8> {
    ops_raster(blank(s.width, s.height), s.width, s.height, s.ops)
}

fn paint_op(px: &mut Vec<u8>, cw: u32, ch: u32, op: &DrawOp)
    requires
        canvas_ok(old(px)@, cw as int, ch as int),
        1 <= cw <= MAX_CANVAS_PX,
        1 <= ch <= MAX_CANVAS_PX,
        op@ matches OpView::ShapeFill { shape, color } ==> shape_fits(shape),
    ensures
        final(px)@ == op_raster(old(px)@, cw, ch, op@),
        canvas_ok(final(px)@, cw as int, ch as int),
{
    match op {
        DrawOp::Background { color } => {
            if let Some(c) = color {
                fill_pixels(px, cw, ch, 0, 0, cw, ch, Pixel { r: c.r, g: c.g, b: c.b, a: 255 });
            }
        },
        DrawOp::ShapeFill { shape, color } => {
            let p = Pixel { r: color.r, g: color.g, b: color.b, a: 255 };
            match shape {
                Shape::Circle(c) => {
                    draw_circle(px, cw, ch, (c.cx / 100) as i32, (c.cy / 100) as i32, (c.r / 100) as i32, p);
                },
                Shape::Rect { rect, rx, ry } => {
                    if *rx > 0 || *ry > 0 {
                        draw_rounded_rect(px, cw, ch, rect.x as u64, rect.y as u64, rect.w as u64, rect.h as u64, *rx as u64, p);
                    } else if rect.w / 100 > 0 && rect.h / 100 > 0 {
                        draw_rect(px, cw, ch, (rect.x / 100) as i32, (rect.y / 100) as i32, rect.w / 100, rect.h / 100, p);
                    }
                },
            }
        },
        _ => {},
    }
}

/// Paint the scene's operations in order on a transparent canvas.
pub fn rasterize(scene: &Scene) -> (r: Vec<u8>)
    requires
        1 <= scene.width <= MAX_CANVAS_PX,
        1 <= scene.height <= MAX_CANVAS_PX,
        ops_fit(scene@.ops),
    ensures
        r@ == scene_raster(scene@),
        canvas_ok(r@, scene.width as int, scene.height as int),
{
    let cw = scene.width;
    let ch = scene.height;
    assert(cw * ch * 4 <= 8192 * 8192 * 4) by (nonlinear_arith)
        requires
            cw <= 8192,
            ch <= 8192,
    ;
    let mut px = new_canvas(cw, ch);
    assert(px@ =~= blank(cw, ch));
    let mut i: usize = 0;
    while i < scene.ops.len()
        invariant
            cw == scene.width,
            ch == scene.height,
            1 <= cw <= MAX_CANVAS_PX,
            1 <= ch <= MAX_CANVAS_PX,
            ops_fit(scene@.ops),
            i <= scene.ops@.len(),
            canvas_ok(px@, cw as int, ch as int),
            px@ == ops_raster(blank(cw, ch), cw, ch, scene@.ops.take(i as int)),
        decreases scene.ops@.len() - i,
    {
        assert(scene@.ops[i as int] == scene.ops@[i as int]@);
        paint_op(&mut px, cw, ch, &scene.ops[i]);
        proof {
            let q = scene@.ops.take(i as int + 1);
            assert(q.drop_last() =~= scene@.ops.take(i as int));
        }
        i = i + 1;
    }
    assert(scene@.ops.take(scene.ops@.len() as int) =~= scene@.ops);
    px
}

fn shape_fits_exec(s: &Shape) -> (r: bool)
    ensures
        r == shape_fits(*s),
{
    match s {
        Shape::Rect { rect, rx, ry } => rect.x <= 1_000_000 && rect.y <= 1_000_000 && rect.w <= 1_000_000
            && rect.h <= 1_000_000,
        Shape::Circle(c) => c.cx <= 1_000_000 && c.cy <= 1_000_000 && c.r <= 1_000_000,
    }
}

/// Encode a `w` by `h` RGBA canvas (four bytes per pixel, row by row) as PNG;
/// a buffer of another length or an encoder failure is a render error.
pub fn encode_png(pixels: &Vec<u8>, w: u32, h: u32) -> (r: Result<Vec<u8>, LogoGenError>)
    ensures
        pixels@.len() != w * h * 4 ==> r matches Err(LogoGenError::Render(_)),
        pixels@.len() == w * h * 4 && 0 < w <= MAX_CANVAS_PX && 0 < h <= MAX_CANVAS_PX ==> r is Ok,
        r matches Ok(b) ==> b@ == png_rgba_encoding(pixels@, w, h) && b@.len() >= 8 && b@.take(8)
            == png_signature(),
        r matches Err(e) ==> e matches LogoGenError::Render(_),
{
    assert(w * h <= 0xffff_ffff * 0xffff_ffff) by (nonlinear_arith)
        requires
            w <= 0xffff_ffff,
            h <= 0xffff_ffff,
    ;
    if (pixels.len() as u128) != (w as u128) * (h as u128) * 4 {
        return Err(LogoGenError::Render(String::from_str("pixel buffer does not match the size")));
    }
    match encode_rgba_png(pixels, w, h) {
        Ok(b) => Ok(b),
        Err(e) => Err(LogoGenError::Render(e)),
    }
}

/// The canvas of a scene, when its side lies in `1..=8192` pixels and every
/// shape within a million hundredths of a pixel; a render error otherwise.
pub fn rasterize_checked(scene: &Scene) -> (r: Result<Vec<u8>, LogoGenError>)
    ensures
        (1 <= scene.width <= MAX_CANVAS_PX && 1 <= scene.height <= MAX_CANVAS_PX && ops_fit(scene@.ops))
            ==> (r matches Ok(px) && px@ == scene_raster(scene@)),
        r matches Ok(px) ==> canvas_ok(px@, scene.width as int, scene.height as int),
        !(1 <= scene.width <= MAX_CANVAS_PX && 1 <= scene.height <= MAX_CANVAS_PX && ops_fit(scene@.ops))
            ==> r matches Err(LogoGenError::Render(_)),
{
    if scene.width < 1 || scene.width > MAX_CANVAS_PX || scene.height < 1 || scene.height > MAX_CANVAS_PX {
        return Err(LogoGenError::Render(String::from_str("canvas size out of range")));
    }
    let mut i: usize = 0;
    while i < scene.ops.len()
        invariant
            i <= scene.ops@.len(),
            forall|j: int|
                0 <= j < i ==> match #[trigger] scene@.ops[j] {
                    OpView::ShapeFill { shape, color } => shape_fits(shape),
                    _ => true,
                },
        decreases scene.ops@.len() - i,
    {
        assert(scene@.ops[i as int] == scene.ops@[i as int]@);
        if let DrawOp::ShapeFill { shape, color } = &scene.ops[i] {
            if !shape_fits_exec(shape) {
                return Err(LogoGenError::Render(String::from_str("shape out of range")));
            }
        }
        i = i + 1;
    }
    Ok(rasterize(scene))
}

/// Render a scene as a PNG file. The canvas must be 1 to 8192 pixels on each
/// side and every shape within a million hundredths of a pixel, else a render
/// error; an encoder failure is a render error too. Text operations are not
/// drawn here: they need a font.
pub fn render_png(scene: &Scene, _opts: &RenderOptions) -> (r: Result<Vec<u8>, LogoGenError>)
    ensures
        !(1 <= scene.width <= MAX_CANVAS_PX && 1 <= scene.height <= MAX_CANVAS_PX && ops_fit(scene@.ops))
            ==> r matches Err(LogoGenError::Render(_)),
        1 <= scene.width <= MAX_CANVAS_PX && 1 <= scene.height <= MAX_CANVAS_PX && ops_fit(scene@.ops)
            ==> r is Ok,
        r matches Ok(b) ==> b@ == png_rgba_encoding(scene_raster(scene@), scene.width, scene.height)
            && b@.len() >= 8 && b@.take(8) == png_signature(),
        r matches Err(e) ==> e matches LogoGenError::Render(_),
{
    let px = rasterize_checked(scene)?;
    encode_png(&px, scene.width, scene.height)
}

} // verus!
