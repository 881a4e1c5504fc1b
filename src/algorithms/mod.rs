//! Scene graph and preset builders.
//!
//! Each preset builds a scene graph from normalized input and a seeded stream,
//! so that the output is deterministic.

pub mod geometric_pattern;
pub mod monogram_badge;

use crate::base::geometry::Shape;
use crate::base::palette::Rgb;
use crate::base::random::seeded_stream;
use crate::base::seed::{derive_seed_32, normalize_input, normalized};
use crate::{options_valid, padding_valid, size_valid, LogoGenError, Preset, RenderOptions};
use vstd::prelude::*;
use vstd::string::StringExecFns;

verus! {

/// One drawing instruction; a scene paints them in list order.
#[derive(Debug, Clone)]
pub enum DrawOp {
    Background { color: Option<Rgb> },
    ShapeFill { shape: Shape, color: Rgb },
    ShapeStroke { shape: Shape, color: Rgb, width: u32 },
    Text {
        text: String,
        x: u32,
        y: u32,
        font_family: String,
        font_weight: u16,
        font_size: u32,
        color: Rgb,
        anchor_middle: bool,
    },
}

/// What a draw operation holds, with its strings as character sequences.
pub enum OpView {
    Background { color: Option<Rgb> },
    ShapeFill { shape: Shape, color: Rgb },
    ShapeStroke { shape: Shape, color: Rgb, width: u32 },
    Text {
        text: Seq<char>,
        x: u32,
        y: u32,
        font_family: Seq<char>,
        font_weight: u16,
        font_size: u32,
        color: Rgb,
        anchor_middle: bool,
    },
}

impl View for DrawOp {
    type V = OpView;

    open spec fn view(&self) -> OpView {
        match self {
            DrawOp::Background { color } => OpView::Background { color: *color },
            DrawOp::ShapeFill { shape, color } => OpView::ShapeFill { shape: *shape, color: *color },
            DrawOp::ShapeStroke { shape, color, width } => OpView::ShapeStroke {
                shape: *shape,
                color: *color,
                width: *width,
            },
            DrawOp::Text {
                text,
                x,
                y,
                font_family,
                font_weight,
                font_size,
                color,
                anchor_middle,
            } => OpView::Text {
                text: text@,
                x: *x,
                y: *y,
                font_family: font_family@,
                font_weight: *font_weight,
                font_size: *font_size,
                color: *color,
                anchor_middle: *anchor_middle,
            },
        }
    }
}

/// A square canvas and the operations painted on it, front to back.
#[derive(Debug, Clone)]
pub struct Scene {
    pub width: u32,
    pub height: u32,
    pub ops: Vec<DrawOp>,
}

/// What a scene holds.
pub struct SceneView {
    pub width: u32,
    pub height: u32,
    pub ops: Seq<OpView>,
}

impl View for Scene {
    type V = SceneView;

    open spec fn view(&self) -> SceneView {
        SceneView {
            width: self.width,
            height: self.height,
            ops: self.ops@.map_values(|o: DrawOp| o@),
        }
    }
}

/// `v` is a scene that `preset` may build for the normalized text `text`.
pub open spec fn preset_scene(preset: Preset, text: Seq<char>, opts: RenderOptions, v: SceneView) -> bool {
    match preset {
        Preset::MonogramBadge => monogram_badge::is_monogram_scene(text, opts, v),
        Preset::GeometricPattern => geometric_pattern::is_geometric_scene(text, opts, v),
    }
}

/// Validate the options and the input, then build the preset's scene from the
/// stream seeded by the normalized input and the variant. The padding is
/// checked first, then the size, then that the normalized input is not empty;
/// nothing is drawn from the stream before all three pass.
pub fn build_scene(input: &str, preset: Preset, opts: &RenderOptions) -> (r: Result<Scene, LogoGenError>)
    ensures
        !padding_valid(*opts) ==> r matches Err(LogoGenError::InvalidOptions(_)),
        padding_valid(*opts) && !size_valid(*opts) ==> r matches Err(
            LogoGenError::InvalidOptions(_),
        ),
        options_valid(*opts) && normalized(input@).len() == 0 ==> r matches Err(
            LogoGenError::InvalidOptions(_),
        ),
        options_valid(*opts) && normalized(input@).len() > 0 ==> (r matches Ok(s) && preset_scene(
            preset,
            normalized(input@),
            *opts,
            s@,
        )),
{
    if opts.padding_permille < 0 || opts.padding_permille > crate::MAX_PADDING_PERMILLE {
        let mut msg = String::from_str("padding must be within [0..500] thousandths, got ");
        if opts.padding_permille < 0 {
            msg.append("-");
            crate::render::svg::push_decimal(&mut msg, (0 - (opts.padding_permille as i64)) as u64);
        } else {
            crate::render::svg::push_decimal(&mut msg, opts.padding_permille as u64);
        }
        return Err(LogoGenError::InvalidOptions(msg));
    }
    if opts.size_px < crate::MIN_SIZE_PX || opts.size_px > crate::MAX_SIZE_PX {
        let mut msg = String::from_str("size_px must be within [64..8192], got ");
        crate::render::svg::push_decimal(&mut msg, opts.size_px as u64);
        return Err(LogoGenError::InvalidOptions(msg));
    }
    let normalized = normalize_input(input);
    if normalized.as_str().is_empty() {
        return Err(
            LogoGenError::InvalidOptions(
                String::from_str("input string is empty or contains only whitespace"),
            ),
        );
    }
    let seed = derive_seed_32(normalized.as_str(), opts.variant);
    let mut rng = seeded_stream(seed);
    match preset {
        Preset::MonogramBadge => monogram_badge::build(normalized.as_str(), &mut rng, opts),
        Preset::GeometricPattern => geometric_pattern::build(normalized.as_str(), &mut rng, opts),
    }
}

} // verus!
