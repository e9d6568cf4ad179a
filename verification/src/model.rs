//! The data that a rendering is made from.

use vstd::prelude::*;

verus! {

/// A colour of four 8-bit channels.
#[derive(Clone, Copy, Debug, PartialEq, Eq)]
pub struct Rgba {
    pub r: u8,
    pub g: u8,
    pub b: u8,
    pub a: u8,
}

/// A point of UV space in fixed point: `u` runs rightwards and `v` upwards,
/// and the unit square is the whole canvas.
#[derive(Clone, Copy, Debug, PartialEq, Eq)]
pub struct Uv {
    pub u: i64,
    pub v: i64,
}

/// One line segment between two points of UV space.
#[derive(Clone, Copy, Debug, PartialEq, Eq)]
pub struct Segment {
    pub uv1: Uv,
    pub uv2: Uv,
}

/// The segments that share one stroke width and colour.
#[derive(Clone, Debug, PartialEq, Eq)]
pub struct EdgeGroup {
    /// Stroke width in pixels, in fixed point.
    pub line_width: i64,
    pub line_color: Rgba,
    pub lines: Vec<Segment>,
}

/// What a rendering needs: the size of the target and the groups to draw, in
/// drawing order.
#[derive(Clone, Debug, PartialEq, Eq)]
pub struct RenderRequest {
    pub target_width: u32,
    pub target_height: u32,
    pub groups: Vec<EdgeGroup>,
}

/// A point of pixel space in fixed point: `x` runs rightwards and `y`
/// downwards from the top-left corner of the canvas.
#[derive(Clone, Copy, Debug, PartialEq, Eq)]
pub struct Point {
    pub x: i64,
    pub y: i64,
}

/// The address of one whole pixel.
#[derive(Clone, Copy, Debug, PartialEq, Eq)]
pub struct Pixel {
    pub x: i32,
    pub y: i32,
}

/// Why a segment could not be drawn.
#[derive(Clone, Copy, Debug, PartialEq, Eq)]
pub enum RenderError {
    /// A wide stroke was asked for a segment without length, or with a
    /// width that is not positive: no perpendicular exists.
    DegenerateGeometry,
}

} // verus!
