//! The vector renderer: one markup element per draw operation, in order.

use crate::algorithms::{DrawOp, OpView, Scene, SceneView};
use crate::base::geometry::{Circle, Rect, Shape};
use crate::base::palette::{hex_color, Rgb};
use crate::base::seed::{chars_of, push_char};
use crate::{LogoGenError, RenderOptions};
use vstd::prelude::*;
use vstd::string::StringExecFns;

verus! {

/// The XML declaration that opens every document.
pub const XML_DECLARATION: &'static str = "<?xml version=\"1.0\" encoding=\"UTF-8\"?>";

/// The decimal digit of `d` (below 10).
pub open spec fn digit(d: int) -> char {
    (d + '0' as int) as char
}

/// The decimal representation of `n`, without leading zeros.
pub open spec fn dec_digits(n: nat) -> Seq<char>
    decreases n,
{
    if n < 10 {
        seq![digit(n as int)]
    } else {
        dec_digits(n / 10).push(digit((n % 10) as int))
    }
}

/// A length in hundredths written in pixels with exactly two decimals.
pub open spec fn fixed2(v: u32) -> Seq<char> {
    dec_digits((v / 100) as nat) + seq!['.', digit((v % 100) as int / 10), digit((v % 100) as int % 10)]
}

/// The markup escape of one character.
pub open spec fn escape_char(c: char) -> Seq<char> {
    if c == '&' {
        "&amp;"@
    } else if c == '<' {
        "&lt;"@
    } else if c == '>' {
        "&gt;"@
    } else if c == '"' {
        "&quot;"@
    } else if c == '\'' {
        "&apos;"@
    } else {
        seq![c]
    }
}

/// `s` with the five reserved markup characters escaped.
pub open spec fn escaped(s: Seq<char>) -> Seq<char>
    decreases s.len(),
{
    if s.len() == 0 {
        Seq::empty()
    } else {
        escaped(s.drop_last()) + escape_char(s.last())
    }
}

/// The opening of a circle element with its geometry attributes.
pub open spec fn circle_markup(c: Circle) -> Seq<char> {
    "<circle cx=\""@ + fixed2(c.cx) + "\" cy=\""@ + fixed2(c.cy) + "\" r=\""@ + fixed2(c.r) + "\""@
}

/// The opening of a rectangle element with its geometry attributes.
pub open spec fn rect_markup(rect: Rect, rx: u32, ry: u32) -> Seq<char> {
    "<rect x=\""@ + fixed2(rect.x) + "\" y=\""@ + fixed2(rect.y) + "\" width=\""@ + fixed2(rect.w)
        + "\" height=\""@ + fixed2(rect.h) + "\" rx=\""@ + fixed2(rx) + "\" ry=\""@ + fixed2(ry) + "\""@
}

/// The opening of the element of a shape, up to its geometry attributes.
pub open spec fn shape_markup(s: Shape) -> Seq<char> {
    match s {
        Shape::Circle(c) => circle_markup(c),
        Shape::Rect { rect, rx, ry } => rect_markup(rect, rx, ry),
    }
}

/// The canvas-filling background rectangle.
pub open spec fn background_markup(c: Rgb, w: u32, h: u32) -> Seq<char> {
    "<rect x=\"0\" y=\"0\" width=\""@ + dec_digits(w as nat) + "\" height=\""@ + dec_digits(h as nat)
        + "\" fill=\""@ + hex_color(c) + "\"/>\n"@
}

/// A filled shape.
pub open spec fn fill_markup(shape: Shape, color: Rgb) -> Seq<char> {
    shape_markup(shape) + " fill=\""@ + hex_color(color) + "\"/>\n"@
}

/// An unfilled outline of a shape.
pub open spec fn stroke_markup(shape: Shape, color: Rgb, width: u32) -> Seq<char> {
    shape_markup(shape) + " fill=\"none\" stroke=\""@ + hex_color(color) + "\" stroke-width=\""@
        + fixed2(width) + "\"/>\n"@
}

/// A text element.
pub open spec fn text_markup(
    text: Seq<char>,
    x: u32,
    y: u32,
    font_family: Seq<char>,
    font_weight: u16,
    font_size: u32,
    color: Rgb,
    anchor_middle: bool,
) -> Seq<char> {
    "<text x=\""@ + fixed2(x) + "\" y=\""@ + fixed2(y) + "\" text-anchor=\""@ + (if anchor_middle {
        "middle"@
    } else {
        "start"@
    }) + "\" font-family=\""@ + escaped(font_family) + "\" font-weight=\""@ + dec_digits(
        font_weight as nat,
    ) + "\" font-size=\""@ + fixed2(font_size) + "\" fill=\""@ + hex_color(color) + "\">"@ + escaped(
        text,
    ) + "</text>\n"@
}

/// The markup line of one operation on a `w` by `h` canvas; an absent
/// background gives nothing.
pub open spec fn op_markup(op: OpView, w: u32, h: u32) -> Seq<char> {
    match op {
        OpView::Background { color } => match color {
            Some(c) => background_markup(c, w, h),
            None => Seq::empty(),
        },
        OpView::ShapeFill { shape, color } => fill_markup(shape, color),
        OpView::ShapeStroke { shape, color, width } => stroke_markup(shape, color, width),
        OpView::Text {
            text,
            x,
            y,
            font_family,
            font_weight,
            font_size,
            color,
            anchor_middle,
        } => text_markup(text, x, y, font_family, font_weight, font_size, color, anchor_middle),
    }
}

/// The markup of the operations in order.
pub open spec fn ops_markup(ops: Seq<OpView>, w: u32, h: u32) -> Seq<char>
    decreases ops.len(),
{
    if ops.len() == 0 {
        Seq::empty()
    } else {
        ops_markup(ops.drop_last(), w, h) + op_markup(ops.last(), w, h)
    }
}

/// The opening of the root element with its size and view box.
pub open spec fn svg_open(w: u32, h: u32) -> Seq<char> {
    "<svg xmlns=\"http://www.w3.org/2000/svg\" width=\""@ + dec_digits(w as nat) + "\" height=\""@
        + dec_digits(h as nat) + "\" viewBox=\"0 0 "@ + dec_digits(w as nat) + " "@ + dec_digits(
        h as nat,
    ) + "\">"@
}

/// The whole document of a scene.
pub open spec fn svg_doc(s: SceneView) -> Seq<char> {
    XML_DECLARATION@ + "\n"@ + svg_open(s.width, s.height) + "\n"@ + ops_markup(
        s.ops,
        s.width,
        s.height,
    ) + "</svg>\n"@
}

fn digit_char(d: u64) -> (r: char)
    requires
        d < 10,
    ensures
        r == digit(d as int),
{
    ((d as u8) + 48) as char
}

/// Append the decimal representation of `n`.
pub fn push_decimal(out: &mut String, n: u64)
    ensures
        final(out)@ == old(out)@ + dec_digits(n as nat),
    decreases n,
{
    if n < 10 {
        push_char(out, digit_char(n));
    } else {
        push_decimal(out, n / 10);
        push_char(out, digit_char(n % 10));
    }
}

/// Append a length in hundredths as pixels with two decimals.
pub fn push_fixed2(out: &mut String, v: u32)
    ensures
        final(out)@ == old(out)@ + fixed2(v),
{
    push_decimal(out, (v / 100) as u64);
    push_char(out, '.');
    push_char(out, digit_char(((v % 100) / 10) as u64));
    push_char(out, digit_char(((v % 100) % 10) as u64));
}

/// Escape the five reserved markup characters.
pub fn esc(s: &str) -> (r: String)
    ensures
        r@ == escaped(s@),
{
    let cs = chars_of(s);
    let mut out = String::new();
    let mut i: usize = 0;
    while i < cs.len()
        invariant
            cs@ == s@,
            i <= cs@.len(),
            out@ == escaped(cs@.take(i as int)),
        decreases cs@.len() - i,
    {
        let c = cs[i];
        proof {
            let q = cs@.take(i as int + 1);
            assert(q.drop_last() =~= cs@.take(i as int));
            assert(q.last() == c);
        }
        if c == '&' {
            out.append("&amp;");
        } else if c == '<' {
            out.append("&lt;");
        } else if c == '>' {
            out.append("&gt;");
        } else if c == '"' {
            out.append("&quot;");
        } else if c == '\'' {
            out.append("&apos;");
        } else {
            push_char(&mut out, c);
        }
        i = i + 1;
    }
    assert(cs@.take(cs@.len() as int) =~= cs@);
    out
}

fn push_circle(out: &mut String, c: &Circle)
    ensures
        final(out)@ == old(out)@ + circle_markup(*c),
{
    out.append("<circle cx=\"");
    push_fixed2(out, c.cx);
    out.append("\" cy=\"");
    push_fixed2(out, c.cy);
    out.append("\" r=\"");
    push_fixed2(out, c.r);
    out.append("\"");
    assert(final(out)@ =~= old(out)@ + circle_markup(*c));
}

fn push_rect(out: &mut String, rect: &Rect, rx: u32, ry: u32)
    ensures
        final(out)@ == old(out)@ + rect_markup(*rect, rx, ry),
{
    out.append("<rect x=\"");
    push_fixed2(out, rect.x);
    out.append("\" y=\"");
    push_fixed2(out, rect.y);
    out.append("\" width=\"");
    push_fixed2(out, rect.w);
    out.append("\" height=\"");
    push_fixed2(out, rect.h);
    out.append("\" rx=\"");
    push_fixed2(out, rx);
    out.append("\" ry=\"");
    push_fixed2(out, ry);
    out.append("\"");
    assert(final(out)@ =~= old(out)@ + rect_markup(*rect, rx, ry));
}

fn push_shape(out: &mut String, s: &Shape)
    ensures
        final(out)@ == old(out)@ + shape_markup(*s),
{
    match s {
        Shape::Circle(c) => push_circle(out, c),
        Shape::Rect { rect, rx, ry } => push_rect(out, rect, *rx, *ry),
    }
}

fn push_background(out: &mut String, c: &Rgb, w: u32, h: u32)
    ensures
        final(out)@ == old(out)@ + background_markup(*c, w, h),
{
    out.append("<rect x=\"0\" y=\"0\" width=\"");
    push_decimal(out, w as u64);
    out.append("\" height=\"");
    push_decimal(out, h as u64);
    out.append("\" fill=\"");
    out.append(c.to_hex().as_str());
    out.append("\"/>\n");
    assert(final(out)@ =~= old(out)@ + background_markup(*c, w, h));
}

fn push_fill(out: &mut String, shape: &Shape, color: &Rgb)
    ensures
        final(out)@ == old(out)@ + fill_markup(*shape, *color),
{
    push_shape(out, shape);
    out.append(" fill=\"");
    out.append(color.to_hex().as_str());
    out.append("\"/>\n");
    assert(final(out)@ =~= old(out)@ + fill_markup(*shape, *color));
}

fn push_stroke(out: &mut String, shape: &Shape, color: &Rgb, width: u32)
    ensures
        final(out)@ == old(out)@ + stroke_markup(*shape, *color, width),
{
    push_shape(out, shape);
    out.append(" fill=\"none\" stroke=\"");
    out.append(color.to_hex().as_str());
    out.append("\" stroke-width=\"");
    push_fixed2(out, width);
    out.append("\"/>\n");
    assert(final(out)@ =~= old(out)@ + stroke_markup(*shape, *color, width));
}

fn push_text(
    out: &mut String,
    text: &String,
    x: u32,
    y: u32,
    font_family: &String,
    font_weight: u16,
    font_size: u32,
    color: &Rgb,
    anchor_middle: bool,
)
    ensures
        final(out)@ == old(out)@ + text_markup(
            text@,
            x,
            y,
            font_family@,
            font_weight,
            font_size,
            *color,
            anchor_middle,
        ),
{
    out.append("<text x=\"");
    push_fixed2(out, x);
    out.append("\" y=\"");
    push_fixed2(out, y);
    out.append("\" text-anchor=\"");
    if anchor_middle {
        out.append("middle");
    } else {
        out.append("start");
    }
    out.append("\" font-family=\"");
    out.append(esc(font_family.as_str()).as_str());
    out.append("\" font-weight=\"");
    push_decimal(out, font_weight as u64);
    out.append("\" font-size=\"");
    push_fixed2(out, font_size);
    out.append("\" fill=\"");
    out.append(color.to_hex().as_str());
    out.append("\">");
    out.append(esc(text.as_str()).as_str());
    out.append("</text>\n");
    assert(final(out)@ =~= old(out)@ + text_markup(
        text@,
        x,
        y,
        font_family@,
        font_weight,
        font_size,
        *color,
        anchor_middle,
    ));
}

fn push_op(out: &mut String, op: &DrawOp, w: u32, h: u32)
    ensures
        final(out)@ == old(out)@ + op_markup(op@, w, h),
{
    match op {
        DrawOp::Background { color } => {
            if let Some(c) = color {
                push_background(out, c, w, h);
            } else {
                assert(out@ =~= out@ + Seq::<char>::empty());
            }
        },
        DrawOp::ShapeFill { shape, color } => push_fill(out, shape, color),
        DrawOp::ShapeStroke { shape, color, width } => push_stroke(out, shape, color, *width),
        DrawOp::Text { text, x, y, font_family, font_weight, font_size, color, anchor_middle } => {
            push_text(out, text, *x, *y, font_family, *font_weight, *font_size, color, *anchor_middle)
        },
    }
}

/// Render a scene as an SVG document.
pub fn render_svg(scene: &Scene, _opts: &RenderOptions) -> (r: Result<String, LogoGenError>)
    ensures
        r matches Ok(s) && s@ == svg_doc(scene@),
{
    let w = scene.width;
    let h = scene.height;
    let mut out = String::new();
    out.append(XML_DECLARATION);
    out.append("\n");
    out.append("<svg xmlns=\"http://www.w3.org/2000/svg\" width=\"");
    push_decimal(&mut out, w as u64);
    out.append("\" height=\"");
    push_decimal(&mut out, h as u64);
    out.append("\" viewBox=\"0 0 ");
    push_decimal(&mut out, w as u64);
    out.append(" ");
    push_decimal(&mut out, h as u64);
    out.append("\">");
    out.append("\n");
    let ghost head = out@;
    assert(head =~= XML_DECLARATION@ + "\n"@ + svg_open(w, h) + "\n"@);
    let mut i: usize = 0;
    while i < scene.ops.len()
        invariant
            w == scene.width,
            h == scene.height,
            i <= scene.ops@.len(),
            out@ == head + ops_markup(scene@.ops.take(i as int), w, h),
        decreases scene.ops@.len() - i,
    {
        let ghost before = out@;
        push_op(&mut out, &scene.ops[i], w, h);
        proof {
            let q = scene@.ops.take(i as int + 1);
            assert(q.drop_last() =~= scene@.ops.take(i as int));
            assert(q.last() == scene.ops@[i as int]@);
            assert(out@ =~= head + ops_markup(q, w, h));
        }
        i = i + 1;
    }
    assert(scene@.ops.take(scene.ops@.len() as int) =~= scene@.ops);
    out.append("</svg>\n");
    Ok(out)
}

} // verus!
