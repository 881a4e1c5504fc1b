//! An RGBA canvas held as bytes, row by row, four bytes per pixel, and the
//! primitives that paint on it.

use vstd::arithmetic::div_mod::{lemma_fundamental_div_mod, lemma_mod_bound};
use vstd::prelude::*;

verus! {

/// One RGBA pixel.
#[derive(Debug, Clone, Copy, PartialEq, Eq, Structural)]
pub struct Pixel {
    pub r: u8,
    pub g: u8,
    pub b: u8,
    pub a: u8,
}

/// Index of the first byte of pixel `(x, y)` on a canvas `w` pixels wide.
pub open spec fn base(w: int, x: int, y: int) -> int {
    (y * w + x) * 4
}

/// The canvas holds exactly `w` by `h` pixels.
pub open spec fn canvas_ok(px: Seq<u8>, w: int, h: int) -> bool {
    px.len() == w * h * 4
}

/// The pixel at `(x, y)`.
pub open spec fn pixel_at(px: Seq<u8>, w: int, x: int, y: int) -> Pixel {
    let b = base(w, x, y);
    Pixel { r: px[b], g: px[b + 1], b: px[b + 2], a: px[b + 3] }
}

/// Channel `c` (0 red, 1 green, 2 blue, 3 alpha) of `p`.
pub open spec fn channel(p: Pixel, c: int) -> u8 {
    if c == 0 {
        p.r
    } else if c == 1 {
        p.g
    } else if c == 2 {
        p.b
    } else {
        p.a
    }
}

/// The canvas `px` with every pixel `(x, y)` replaced by `f(x, y, old pixel)`.
pub open spec fn repaint(px: Seq<u8>, w: int, f: spec_fn(int, int, Pixel) -> Pixel) -> Seq<u8> {
    Seq::new(
        px.len(),
        |i: int|
            channel(
                f((i / 4) % w, (i / 4) / w, pixel_at(px, w, (i / 4) % w, (i / 4) / w)),
                i % 4,
            ),
    )
}

pub proof fn lemma_base_bounds(w: int, h: int, x: int, y: int)
    requires
        0 <= x < w,
        0 <= y < h,
    ensures
        0 <= base(w, x, y),
        base(w, x, y) + 4 <= w * h * 4,
{
    assert(0 <= y * w) by (nonlinear_arith)
        requires
            0 <= y,
            0 <= w,
    ;
    assert(y * w + x + 1 <= h * w) by (nonlinear_arith)
        requires
            0 <= y < h,
            0 <= x < w,
    ;
    assert(h * w == w * h) by (nonlinear_arith);
}

pub proof fn lemma_base_distinct(w: int, x: int, y: int, x2: int, y2: int)
    requires
        0 <= x < w,
        0 <= y,
        0 <= x2 < w,
        0 <= y2,
        x != x2 || y != y2,
    ensures
        base(w, x, y) + 4 <= base(w, x2, y2) || base(w, x2, y2) + 4 <= base(w, x, y),
{
    if y == y2 {
    } else if y < y2 {
        assert(y * w + x < y2 * w + x2) by (nonlinear_arith)
            requires
                y < y2,
                0 <= x < w,
                0 <= x2,
        ;
    } else {
        assert(y2 * w + x2 < y * w + x) by (nonlinear_arith)
            requires
                y2 < y,
                0 <= x2 < w,
                0 <= x,
        ;
    }
}

proof fn lemma_split4(k: int, c: int)
    requires
        0 <= c < 4,
    ensures
        (k * 4 + c) / 4 == k,
        (k * 4 + c) % 4 == c,
{
    assert((k * 4 + c) / 4 == k && (k * 4 + c) % 4 == c) by (nonlinear_arith)
        requires
            0 <= c < 4,
    ;
}

/// The pixel of a repainted canvas is `f` of the old pixel.
pub proof fn lemma_repaint_pixel(
    px: Seq<u8>,
    w: int,
    h: int,
    f: spec_fn(int, int, Pixel) -> Pixel,
    x: int,
    y: int,
)
    requires
        canvas_ok(px, w, h),
        0 <= x < w,
        0 <= y < h,
    ensures
        pixel_at(repaint(px, w, f), w, x, y) == f(x, y, pixel_at(px, w, x, y)),
{
    lemma_base_bounds(w, h, x, y);
    let b = base(w, x, y);
    let k = y * w + x;
    lemma_split4(k, 0);
    lemma_split4(k, 1);
    lemma_split4(k, 2);
    lemma_split4(k, 3);
    assert(k % w == x && k / w == y) by (nonlinear_arith)
        requires
            k == y * w + x,
            0 <= x < w,
            0 <= y,
    ;
}

/// Two canvases of one size that agree on every pixel are equal.
pub proof fn lemma_pixels_determine(a: Seq<u8>, b: Seq<u8>, w: int, h: int)
    requires
        w > 0,
        canvas_ok(a, w, h),
        canvas_ok(b, w, h),
        forall|x: int, y: int|
            0 <= x < w && 0 <= y < h ==> #[trigger] pixel_at(a, w, x, y) == pixel_at(b, w, x, y),
    ensures
        a == b,
{
    assert forall|i: int| 0 <= i < a.len() implies a[i] == b[i] by {
        let k = i / 4;
        let c = i % 4;
        let x = k % w;
        let y = k / w;
        lemma_fundamental_div_mod(i, 4);
        lemma_fundamental_div_mod(k, w);
        lemma_mod_bound(i, 4);
        lemma_mod_bound(k, w);
        assert(0 <= k);
        assert(y < h) by (nonlinear_arith)
            requires
                k == w * y + x,
                0 <= x,
                0 <= i < w * h * 4,
                i == 4 * k + c,
                0 <= c,
                w > 0,
        ;
        assert(0 <= y) by (nonlinear_arith)
            requires
                k == w * y + x,
                x < w,
                0 <= k,
                w > 0,
        ;
        assert(i == base(w, x, y) + c) by (nonlinear_arith)
            requires
                i == 4 * k + c,
                k == w * y + x,
        ;
        assert(pixel_at(a, w, x, y) == pixel_at(b, w, x, y));
    }
    assert(a =~= b);
}

/// Read the pixel at `(x, y)`.
pub fn get_pixel(px: &Vec<u8>, w: u32, h: u32, x: u32, y: u32) -> (r: Pixel)
    requires
        canvas_ok(px@, w as int, h as int),
        x < w,
        y < h,
    ensures
        r == pixel_at(px@, w as int, x as int, y as int),
{
    proof {
        lemma_base_bounds(w as int, h as int, x as int, y as int);
    }
    let n = px.len();
    proof {
        assert(y as int * w as int <= base(w as int, x as int, y as int)) by (nonlinear_arith)
            requires
                0 <= x,
                0 <= y,
                0 <= w,
        ;
    }
    let b = ((y as usize) * (w as usize) + (x as usize)) * 4;
    Pixel { r: px[b], g: px[b + 1], b: px[b + 2], a: px[b + 3] }
}

/// Write the pixel at `(x, y)`, leaving every other pixel as it was.
pub fn set_pixel(px: &mut Vec<u8>, w: u32, h: u32, x: u32, y: u32, p: Pixel)
    requires
        canvas_ok(old(px)@, w as int, h as int),
        x < w,
        y < h,
    ensures
        canvas_ok(final(px)@, w as int, h as int),
        forall|x2: int, y2: int|
            0 <= x2 < w && 0 <= y2 < h ==> #[trigger] pixel_at(final(px)@, w as int, x2, y2) == if x2
                == x && y2 == y {
                p
            } else {
                pixel_at(old(px)@, w as int, x2, y2)
            },
{
    proof {
        lemma_base_bounds(w as int, h as int, x as int, y as int);
    }
    let n = px.len();
    proof {
        assert(y as int * w as int <= base(w as int, x as int, y as int)) by (nonlinear_arith)
            requires
                0 <= x,
                0 <= y,
                0 <= w,
        ;
    }
    let b = ((y as usize) * (w as usize) + (x as usize)) * 4;
    px.set(b, p.r);
    px.set(b + 1, p.g);
    px.set(b + 2, p.b);
    px.set(b + 3, p.a);
    proof {
        assert forall|x2: int, y2: int| 0 <= x2 < w && 0 <= y2 < h && (x2 != x || y2 != y) implies
            #[trigger] pixel_at(px@, w as int, x2, y2) == pixel_at(old(px)@, w as int, x2, y2) by {
            lemma_base_distinct(w as int, x as int, y as int, x2, y2);
            lemma_base_bounds(w as int, h as int, x2, y2);
        }
    }
}

/// A canvas of `w` by `h` fully transparent pixels.
pub fn new_canvas(w: u32, h: u32) -> (r: Vec<u8>)
    requires
        w as int * h as int * 4 <= usize::MAX,
    ensures
        canvas_ok(r@, w as int, h as int),
        forall|i: int| 0 <= i < r@.len() ==> r@[i] == 0,
{
    let n: usize = (w as usize) * (h as usize) * 4;
    let mut v: Vec<u8> = Vec::new();
    let mut i: usize = 0;
    while i < n
        invariant
            i <= n,
            v@.len() == i,
            forall|j: int| 0 <= j < i ==> v@[j] == 0,
        decreases n - i,
    {
        v.push(0);
        i = i + 1;
    }
    v
}

/// The pixels `x0 <= x < x1`, `y0 <= y < y1` set to `p`, the rest kept.
pub open spec fn rect_fill(x0: int, y0: int, x1: int, y1: int, p: Pixel) -> spec_fn(int, int, Pixel) -> Pixel {
    |x: int, y: int, old: Pixel| if x0 <= x < x1 && y0 <= y < y1 { p } else { old }
}

/// Set every pixel `x0 <= x < x1`, `y0 <= y < y1` to `p`.
pub fn fill_pixels(px: &mut Vec<u8>, w: u32, h: u32, x0: u32, y0: u32, x1: u32, y1: u32, p: Pixel)
    requires
        canvas_ok(old(px)@, w as int, h as int),
        w > 0,
        x1 <= w,
        y1 <= h,
    ensures
        final(px)@ == repaint(old(px)@, w as int, rect_fill(x0 as int, y0 as int, x1 as int, y1 as int, p)),
{
    let ghost start = px@;
    let ghost f = rect_fill(x0 as int, y0 as int, x1 as int, y1 as int, p);
    let mut y = y0;
    while y < y1
        invariant
            canvas_ok(px@, w as int, h as int),
            canvas_ok(start, w as int, h as int),
            y0 <= y,
            x1 <= w,
            y1 <= h,
            forall|xx: int, yy: int|
                0 <= xx < w && 0 <= yy < h ==> #[trigger] pixel_at(px@, w as int, xx, yy) == if x0
                    <= xx < x1 && y0 <= yy < y && yy < y1 {
                    p
                } else {
                    pixel_at(start, w as int, xx, yy)
                },
        decreases y1 - y,
    {
        let mut x = x0;
        while x < x1
            invariant
                canvas_ok(px@, w as int, h as int),
                y0 <= y < y1,
                x0 <= x,
                x1 <= w,
                y1 <= h,
                forall|xx: int, yy: int|
                    0 <= xx < w && 0 <= yy < h ==> #[trigger] pixel_at(px@, w as int, xx, yy) == if (
                    x0 <= xx < x1 && y0 <= yy < y) || (yy == y && x0 <= xx < x && xx < x1) {
                        p
                    } else {
                        pixel_at(start, w as int, xx, yy)
                    },
            decreases x1 - x,
        {
            set_pixel(px, w, h, x, y, p);
            x = x + 1;
        }
        y = y + 1;
    }
    proof {
        let target = repaint(start, w as int, f);
        assert(canvas_ok(target, w as int, h as int));
        assert forall|xx: int, yy: int| 0 <= xx < w && 0 <= yy < h implies #[trigger] pixel_at(
            px@,
            w as int,
            xx,
            yy,
        ) == pixel_at(target, w as int, xx, yy) by {
            lemma_repaint_pixel(start, w as int, h as int, f, xx, yy);
        }
        lemma_pixels_determine(px@, target, w as int, h as int);
    }
}

} // verus!
