//! Deterministic logo generation: the same text, preset and options always give
//! the same scene, the same vector markup and the same raster image.
//!
//! Lengths and positions are kept in hundredths of a pixel, fractions in
//! thousandths and hues in tenths of a degree, so that every step is exact
//! integer arithmetic.

pub mod algorithms;
pub mod base;
pub mod cli;
pub mod render;
pub mod text;

use crate::algorithms::{build_scene, preset_scene, OpView, SceneView};
use crate::base::seed::normalized;
use crate::render::png::{png_rgba_encoding, png_signature, render_png, scene_raster};
use crate::render::svg::{background_markup, op_markup, render_svg, svg_doc, XML_DECLARATION};
use crate::text::{ascii_lower, ascii_upper, trimmed};
use vstd::prelude::*;
use vstd::string::StringExecFns;

verus! {

/// Smallest accepted canvas side, in pixels.
pub const MIN_SIZE_PX: u32 = 64;
/// Largest accepted canvas side, in pixels.
pub const MAX_SIZE_PX: u32 = 8192;
/// Largest accepted padding, in thousandths of the canvas side.
pub const MAX_PADDING_PERMILLE: i32 = 500;

/// Output format for generated logos.
#[derive(Debug, Clone, Copy, PartialEq, Eq, Structural)]
pub enum OutputFormat {
    /// Scalable Vector Graphics (XML-based vector format).
    Svg,
    /// Portable Network Graphics (raster format).
    Png,
}

/// Configuration options for logo rendering.
#[derive(Debug, Clone, Copy, PartialEq, Eq, Structural)]
pub struct RenderOptions {
    /// Side of the square canvas in pixels.
    pub size_px: u32,
    /// Padding in thousandths of the canvas side; valid from 0 to 500.
    pub padding_permille: i32,
    /// If set, XORed into the derived seed to give variants of one input.
    pub variant: Option<u64>,
    /// Leave the background transparent.
    pub transparent_background: bool,
}

impl Default for RenderOptions {
    fn default() -> (r: Self)
        ensures
            r.size_px == 512,
            r.padding_permille == 120,
            r.variant is None,
            !r.transparent_background,
    {
        RenderOptions {
            size_px: 512,
            padding_permille: 120,
            variant: None,
            transparent_background: false,
        }
    }
}

/// The padding lies in `0..=500` thousandths.
pub open spec fn padding_valid(opts: RenderOptions) -> bool {
    0 <= opts.padding_permille <= MAX_PADDING_PERMILLE
}

/// The size lies in `64..=8192` pixels.
pub open spec fn size_valid(opts: RenderOptions) -> bool {
    MIN_SIZE_PX <= opts.size_px <= MAX_SIZE_PX
}

/// Options that a preset can render.
pub open spec fn options_valid(opts: RenderOptions) -> bool {
    padding_valid(opts) && size_valid(opts)
}

/// Logo generation algorithm presets.
#[derive(Debug, Clone, Copy, PartialEq, Eq, Structural)]
pub enum Preset {
    /// Generates a badge with initials derived from the input.
    MonogramBadge,
    /// Generates overlapping geometric shapes with a lettermark.
    GeometricPattern,
}

/// The preset that an identifier names once trimmed and lower-cased, if any.
pub open spec fn preset_named(key: Seq<char>) -> Option<Preset> {
    if key == "monogram-badge"@ || key == "monogram"@ || key == "badge"@ {
        Some(Preset::MonogramBadge)
    } else if key == "geometric-pattern"@ || key == "geometric"@ || key == "pattern"@ {
        Some(Preset::GeometricPattern)
    } else {
        None
    }
}

/// The canonical identifier of a preset.
pub open spec fn preset_id(p: Preset) -> Seq<char> {
    match p {
        Preset::MonogramBadge => "monogram-badge"@,
        Preset::GeometricPattern => "geometric-pattern"@,
    }
}

/// Parsing gives back the preset of its identifier, also with whitespace
/// around it and in upper case.
pub proof fn lemma_preset_id_round_trip(p: Preset)
    ensures
        preset_named(ascii_lower(trimmed(preset_id(p)))) == Some(p),
        preset_named(ascii_lower(trimmed(seq![' ', ' '] + ascii_upper(preset_id(p)) + seq![' ', ' '])))
            == Some(p),
{
    reveal_strlit("monogram-badge");
    reveal_strlit("monogram");
    reveal_strlit("badge");
    reveal_strlit("geometric-pattern");
    reveal_strlit("geometric");
    reveal_strlit("pattern");
    let id = preset_id(p);
    let pad = seq![' ', ' '];
    let up = ascii_upper(id);
    assert(id.len() > 0);
    crate::text::lemma_trim_padded(id, Seq::empty());
    assert(Seq::<char>::empty() + id + Seq::<char>::empty() =~= id);
    crate::text::lemma_trim_padded(up, pad);
    assert(ascii_lower(id) =~= id);
    assert(ascii_lower(up) =~= id);
    assert(trimmed(id) == id);
    assert(trimmed(pad + up + pad) == up);
    if p == Preset::GeometricPattern {
        assert(id.len() != "monogram-badge"@.len());
        assert(id.len() != "monogram"@.len());
        assert(id.len() != "badge"@.len());
    }
}

impl Preset {
    /// The preset's canonical identifier.
    pub fn id(&self) -> (r: &'static str)
        ensures
            r@ == preset_id(*self),
            *self == Preset::MonogramBadge ==> r@ == "monogram-badge"@,
            *self == Preset::GeometricPattern ==> r@ == "geometric-pattern"@,
    {
        match self {
            Preset::MonogramBadge => "monogram-badge",
            Preset::GeometricPattern => "geometric-pattern",
        }
    }

    /// A one-line description of what the preset draws.
    pub fn description(&self) -> (r: &'static str)
        ensures
            *self == Preset::MonogramBadge ==> r@
                == "Rounded badge with centered initials extracted from input text"@,
            *self == Preset::GeometricPattern ==> r@
                == "Overlapping geometric shapes (circles/rectangles) with centered lettermark"@,
    {
        match self {
            Preset::MonogramBadge => "Rounded badge with centered initials extracted from input text",
            Preset::GeometricPattern => {
                "Overlapping geometric shapes (circles/rectangles) with centered lettermark"
            },
        }
    }

    /// The kind of logo the preset makes.
    pub fn category(&self) -> (r: &'static str)
        ensures
            *self == Preset::MonogramBadge ==> r@ == "Badge"@,
            *self == Preset::GeometricPattern ==> r@ == "Abstract"@,
    {
        match self {
            Preset::MonogramBadge => "Badge",
            Preset::GeometricPattern => "Abstract",
        }
    }

    /// Returns all available presets.
    pub fn all() -> (r: Vec<Preset>)
        ensures
            r@ == seq![Preset::MonogramBadge, Preset::GeometricPattern],
    {
        vec![Preset::MonogramBadge, Preset::GeometricPattern]
    }

    /// Parse a preset identifier, ignoring surrounding whitespace and ASCII case.
    pub fn parse(s: &str) -> (r: Result<Preset, LogoGenError>)
        ensures
            preset_named(ascii_lower(trimmed(s@))) matches Some(p) ==> r == Ok::<
                Preset,
                LogoGenError,
            >(p),
            preset_named(ascii_lower(trimmed(s@))) is None ==> (r matches Err(
                LogoGenError::UnknownPreset(name),
            ) && name@ == s@),
    {
        let key = crate::text::trim_lower(s);
        if crate::text::chars_equal(&key, "monogram-badge") || crate::text::chars_equal(
            &key,
            "monogram",
        ) || crate::text::chars_equal(&key, "badge") {
            Ok(Preset::MonogramBadge)
        } else if crate::text::chars_equal(&key, "geometric-pattern") || crate::text::chars_equal(
            &key,
            "geometric",
        ) || crate::text::chars_equal(&key, "pattern") {
            Ok(Preset::GeometricPattern)
        } else {
            Err(LogoGenError::UnknownPreset(String::from_str(s)))
        }
    }
}

impl std::str::FromStr for Preset {
    type Err = LogoGenError;

    fn from_str(s: &str) -> (r: Result<Self, Self::Err>)
        ensures
            preset_named(ascii_lower(trimmed(s@))) matches Some(p) ==> r == Ok::<
                Preset,
                LogoGenError,
            >(p),
            preset_named(ascii_lower(trimmed(s@))) is None ==> (r matches Err(
                LogoGenError::UnknownPreset(name),
            ) && name@ == s@),
    {
        Preset::parse(s)
    }
}

/// Errors that can occur during logo generation.
#[derive(Debug)]
pub enum LogoGenError {
    /// The requested preset identifier is not recognized.
    UnknownPreset(String),
    /// Invalid configuration options provided.
    InvalidOptions(String),
    /// Error during rendering phase.
    Render(String),
}

impl LogoGenError {
    /// The error as a message: its kind, a colon and its detail.
    pub fn to_string(&self) -> (r: String)
        ensures
            self matches LogoGenError::UnknownPreset(d) ==> r@ == "unknown preset: "@ + d@,
            self matches LogoGenError::InvalidOptions(d) ==> r@ == "invalid options: "@ + d@,
            self matches LogoGenError::Render(d) ==> r@ == "render error: "@ + d@,
    {
        match self {
            LogoGenError::UnknownPreset(d) => String::from_str("unknown preset: ").concat(d.as_str()),
            LogoGenError::InvalidOptions(d) => String::from_str("invalid options: ").concat(
                d.as_str(),
            ),
            LogoGenError::Render(d) => String::from_str("render error: ").concat(d.as_str()),
        }
    }
}

/// `svg` is the document of a scene that `preset` may build for `text`.
pub open spec fn is_logo_svg(preset: Preset, text: Seq<char>, opts: RenderOptions, svg: Seq<char>) -> bool {
    exists|v: SceneView| #[trigger] preset_scene(preset, text, opts, v) && svg == svg_doc(v)
}

/// `png` is the PNG file of the canvas of a scene that `preset` may build for
/// `text`.
pub open spec fn is_logo_png(preset: Preset, text: Seq<char>, opts: RenderOptions, png: Seq<u8>) -> bool {
    exists|v: SceneView|
        #[trigger] preset_scene(preset, text, opts, v) && png == png_rgba_encoding(
            scene_raster(v),
            opts.size_px,
            opts.size_px,
        )
}

/// Main entry point for generating logos.
pub struct LogoGenerator;

impl LogoGenerator {
    /// Generate an SVG logo from the input string.
    pub fn generate_svg(input: &str, preset: Preset, opts: &RenderOptions) -> (r: Result<
        String,
        LogoGenError,
    >)
        ensures
            !options_valid(*opts) ==> r matches Err(LogoGenError::InvalidOptions(_)),
            options_valid(*opts) && normalized(input@).len() == 0 ==> r matches Err(
                LogoGenError::InvalidOptions(_),
            ),
            options_valid(*opts) && normalized(input@).len() > 0 ==> (r matches Ok(svg)
                && is_logo_svg(preset, normalized(input@), *opts, svg@)),
    {
        let scene = build_scene(input, preset, opts)?;
        let svg = render_svg(&scene, opts);
        assert(options_valid(*opts) && normalized(input@).len() > 0 ==> preset_scene(
            preset,
            normalized(input@),
            *opts,
            scene@,
        ));
        svg
    }

    /// Generate a PNG logo from the input string. Text is not drawn: that
    /// takes a font, which the caller supplies.
    pub fn generate_png(input: &str, preset: Preset, opts: &RenderOptions) -> (r: Result<
        Vec<u8>,
        LogoGenError,
    >)
        ensures
            !options_valid(*opts) ==> r matches Err(LogoGenError::InvalidOptions(_)),
            options_valid(*opts) && normalized(input@).len() == 0 ==> r matches Err(
                LogoGenError::InvalidOptions(_),
            ),
            options_valid(*opts) && normalized(input@).len() > 0 ==> (r matches Ok(png)
                && is_logo_png(preset, normalized(input@), *opts, png@)),
            r matches Ok(png) ==> png@.len() >= 8 && png@.take(8) == png_signature(),
    {
        let scene = build_scene(input, preset, opts)?;
        proof {
            lemma_preset_scene_renders(preset, normalized(input@), *opts, scene@);
        }
        let png = render_png(&scene, opts);
        assert(options_valid(*opts) && normalized(input@).len() > 0 ==> preset_scene(
            preset,
            normalized(input@),
            *opts,
            scene@,
        ));
        png
    }
}

/// The background is painted by the first operation of every preset scene
/// and by no other: a transparent request gives it no markup at all, an
/// opaque one gives it the canvas-filling rectangle.
pub proof fn lemma_transparency(preset: Preset, text: Seq<char>, opts: RenderOptions, v: SceneView)
    requires
        options_valid(opts),
        preset_scene(preset, text, opts, v),
    ensures
        v.ops.len() >= 2,
        v.width == opts.size_px && v.height == opts.size_px,
        opts.transparent_background ==> op_markup(v.ops[0], v.width, v.height).len() == 0,
        !opts.transparent_background ==> exists|c: crate::base::palette::Rgb|
            op_markup(v.ops[0], v.width, v.height) == #[trigger] background_markup(c, v.width, v.height),
        forall|i: int| 1 <= i < v.ops.len() ==> !(#[trigger] v.ops[i] is Background),
{
    match preset {
        Preset::MonogramBadge => {
            let d = choose|d: crate::algorithms::monogram_badge::MonogramDraws|
                #[trigger] crate::algorithms::monogram_badge::monogram_draws_in_range(
                    d,
                    opts.transparent_background,
                ) && v == crate::algorithms::monogram_badge::monogram_view(text, opts, d);
            let pal = crate::base::palette::palette_of(d.palette, opts.transparent_background);
            if !opts.transparent_background {
                let c = pal.background.unwrap();
                assert(op_markup(v.ops[0], v.width, v.height) == background_markup(c, v.width, v.height));
            }
        },
        Preset::GeometricPattern => {
            let (pd, shapes) = choose|pd: crate::base::palette::PaletteDraws, shapes: Seq<crate::algorithms::geometric_pattern::ShapeDraws>|
                #[trigger] crate::base::palette::palette_draws_in_range(pd, opts.transparent_background)
                    && crate::algorithms::geometric_pattern::MIN_SHAPES <= shapes.len()
                    <= crate::algorithms::geometric_pattern::MAX_SHAPES && (forall|i: int|
                    0 <= i < shapes.len() ==> crate::algorithms::geometric_pattern::shape_draws_in_range(
                        #[trigger] shapes[i],
                        opts.size_px * 100,
                    )) && v == #[trigger] crate::algorithms::geometric_pattern::geometric_view(text, opts, pd, shapes);
            let pal = crate::base::palette::palette_of(pd, opts.transparent_background);
            if !opts.transparent_background {
                let c = pal.background.unwrap();
                assert(op_markup(v.ops[0], v.width, v.height) == background_markup(c, v.width, v.height));
            }
        },
    }
}

proof fn lemma_monogram_renders(text: Seq<char>, opts: RenderOptions, v: SceneView)
    requires
        options_valid(opts),
        crate::algorithms::monogram_badge::is_monogram_scene(text, opts, v),
    ensures
        crate::render::png::ops_fit(v.ops),
{
    let w = opts.size_px * 100;
    let d = choose|d: crate::algorithms::monogram_badge::MonogramDraws|
        #[trigger] crate::algorithms::monogram_badge::monogram_draws_in_range(
            d,
            opts.transparent_background,
        ) && v == crate::algorithms::monogram_badge::monogram_view(text, opts, d);
    let pm = opts.padding_permille;
    let size = opts.size_px;
    assert(pm * size + 500 <= 500 * 8192 + 500) by (nonlinear_arith)
        requires
            0 <= pm <= 500,
            size <= 8192,
    ;
    assert(0 <= pm * size) by (nonlinear_arith)
        requires
            0 <= pm,
            0 <= size,
    ;
    assert(v.ops[1] == (OpView::ShapeFill {
        shape: crate::algorithms::monogram_badge::badge_shape(opts, d),
        color: crate::base::palette::palette_of(d.palette, opts.transparent_background).primary,
    }));
}

proof fn lemma_geometric_renders(text: Seq<char>, opts: RenderOptions, v: SceneView)
    requires
        options_valid(opts),
        crate::algorithms::geometric_pattern::is_geometric_scene(text, opts, v),
    ensures
        crate::render::png::ops_fit(v.ops),
{
    let w = opts.size_px * 100;
    let (pd, shapes) = choose|pd: crate::base::palette::PaletteDraws, shapes: Seq<crate::algorithms::geometric_pattern::ShapeDraws>|
        #[trigger] crate::base::palette::palette_draws_in_range(pd, opts.transparent_background)
            && crate::algorithms::geometric_pattern::MIN_SHAPES <= shapes.len()
            <= crate::algorithms::geometric_pattern::MAX_SHAPES && (forall|i: int|
            0 <= i < shapes.len() ==> crate::algorithms::geometric_pattern::shape_draws_in_range(
                #[trigger] shapes[i],
                opts.size_px * 100,
            )) && v == #[trigger] crate::algorithms::geometric_pattern::geometric_view(text, opts, pd, shapes);
    assert forall|i: int| 0 <= i < v.ops.len() implies match #[trigger] v.ops[i] {
        OpView::ShapeFill { shape, color } => crate::render::png::shape_fits(shape),
        _ => true,
    } by {
        if 1 <= i < shapes.len() + 1 {
            let d = shapes[i - 1];
            assert(crate::algorithms::geometric_pattern::shape_draws_in_range(d, w));
            let sw = crate::algorithms::geometric_pattern::shape_w(d, w);
            let sh = crate::algorithms::geometric_pattern::shape_h(d, w);
            assert(0 <= sw && 0 <= sh) by (nonlinear_arith)
                requires
                    sw == d.w_permille * w / 1000,
                    sh == d.h_permille * w / 1000,
                    0 <= w,
            ;
        }
    }
}

/// Every preset scene can be rasterized: its side is the requested size and
/// every filled shape lies within a million hundredths of a pixel.
pub proof fn lemma_preset_scene_renders(preset: Preset, text: Seq<char>, opts: RenderOptions, v: SceneView)
    requires
        options_valid(opts),
        preset_scene(preset, text, opts, v),
    ensures
        v.width == opts.size_px && v.height == opts.size_px,
        crate::render::png::ops_fit(v.ops),
{
    match preset {
        Preset::MonogramBadge => lemma_monogram_renders(text, opts, v),
        Preset::GeometricPattern => lemma_geometric_renders(text, opts, v),
    }
}

/// Every vector document opens with the XML declaration followed by the root
/// element's opening tag, and ends with the root's closing tag.
pub proof fn lemma_svg_frame(v: SceneView)
    ensures
        svg_doc(v).take(XML_DECLARATION@.len() as int) == XML_DECLARATION@,
        svg_doc(v).subrange(
            XML_DECLARATION@.len() + 1int,
            XML_DECLARATION@.len() + 1int + crate::render::svg::svg_open(v.width, v.height).len(),
        ) == crate::render::svg::svg_open(v.width, v.height),
        svg_doc(v).subrange(svg_doc(v).len() - 7, svg_doc(v).len() as int) == "</svg>\n"@,
{
    let d = XML_DECLARATION@;
    let o = crate::render::svg::svg_open(v.width, v.height);
    let body = crate::render::svg::ops_markup(v.ops, v.width, v.height);
    let end = "</svg>\n"@;
    reveal_strlit("</svg>\n");
    reveal_strlit("\n");
    let doc = d + "\n"@ + o + "\n"@ + body + end;
    assert(svg_doc(v) == doc);
    assert(doc.take(d.len() as int) =~= d);
    assert(doc.subrange(d.len() + 1int, d.len() + 1int + o.len()) =~= o);
    assert(doc.subrange(doc.len() - 7, doc.len() as int) =~= end);
}

} // verus!
