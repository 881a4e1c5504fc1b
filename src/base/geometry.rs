//! Geometric primitives. Every coordinate and length is in hundredths of a
//! pixel, measured from the top-left corner of the canvas.

use vstd::prelude::*;

verus! {

/// Hundredths of a pixel in one pixel.
pub const UNITS_PER_PIXEL: u32 = 100;

/// An axis-aligned rectangle.
#[derive(Debug, Clone, Copy, PartialEq, Eq, Structural)]
pub struct Rect {
    pub x: u32,
    pub y: u32,
    pub w: u32,
    pub h: u32,
}

/// A circle by its center and radius.
#[derive(Debug, Clone, Copy, PartialEq, Eq, Structural)]
pub struct Circle {
    pub cx: u32,
    pub cy: u32,
    pub r: u32,
}

/// A shape of the scene: a rectangle with corner radii, or a circle.
#[derive(Debug, Clone, Copy, PartialEq, Eq, Structural)]
pub enum Shape {
    Rect { rect: Rect, rx: u32, ry: u32 },
    Circle(Circle),
}

/// A point.
#[derive(Debug, Clone, Copy, PartialEq, Eq, Structural)]
pub struct Point {
    pub x: u32,
    pub y: u32,
}

/// The shape lies within a square canvas of side `side`.
pub open spec fn shape_within(s: Shape, side: int) -> bool {
    match s {
        Shape::Rect { rect, rx, ry } => rect.x + rect.w <= side && rect.y + rect.h <= side,
        Shape::Circle(c) => c.r <= c.cx && c.cx + c.r <= side && c.r <= c.cy && c.cy + c.r <= side,
    }
}

} // verus!
