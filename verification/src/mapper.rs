//! The transform from UV space to pixel space.

use vstd::prelude::*;
use crate::model::{Point, Uv};
use crate::units::{pixel_of, saturate, saturated, COORD_MAX, PIXEL_MAX, UNIT};

verus! {

/// The pixel-space `x` of the UV coordinate `u` on a canvas `width` wide.
pub open spec fn mapped_x(u: int, width: int) -> int {
    saturated(u * width)
}

/// The pixel-space `y` of the UV coordinate `v` on a canvas `height` high.
/// UV space has its origin at the bottom, pixel space at the top.
pub open spec fn mapped_y(v: int, height: int) -> int {
    saturated((UNIT - v) * height)
}

/// The pixel-space point of a UV point.
pub open spec fn mapped(uv: Uv, width: u32, height: u32) -> Point {
    Point {
        x: mapped_x(uv.u as int, width as int) as i64,
        y: mapped_y(uv.v as int, height as int) as i64,
    }
}

/// Maps a UV point to pixel space: `x = u * width` and `y = (1 - v) * height`,
/// exactly. Nothing is held to the canvas; only a product beyond `COORD_MAX`
/// saturates.
pub fn uv_to_pixel(uv: Uv, width: u32, height: u32) -> (p: Point)
    ensures
        p == mapped(uv, width, height),
        p.x == mapped_x(uv.u as int, width as int),
        p.y == mapped_y(uv.v as int, height as int),
        -COORD_MAX <= p.x <= COORD_MAX,
        -COORD_MAX <= p.y <= COORD_MAX,
{
    let wide_u: i128 = uv.u as i128;
    let wide_w: i128 = width as i128;
    let flipped: i128 = UNIT as i128 - uv.v as i128;
    let wide_h: i128 = height as i128;
    assert(-0x8000_0000_0000_0000_0000_0000 <= wide_u * wide_w <= 0x8000_0000_0000_0000_0000_0000)
        by (nonlinear_arith)
        requires
            -0x8000_0000_0000_0000 <= wide_u <= 0x8000_0000_0000_0000,
            0 <= wide_w <= 0x1_0000_0000,
    ;
    assert(-0x1_0000_0000_0000_0000_0000_0000 <= flipped * wide_h <= 0x1_0000_0000_0000_0000_0000_0000)
        by (nonlinear_arith)
        requires
            -0x1_0000_0000_0000_0000 <= flipped <= 0x1_0000_0000_0000_0000,
            0 <= wide_h <= 0x1_0000_0000,
    ;
    let x: i64 = saturate(wide_u * wide_w);
    let y: i64 = saturate(flipped * wide_h);
    Point { x, y }
}

/// Within the working range the mapping is exact: no rounding, no clamping.
pub proof fn lemma_mapping_is_exact(uv: Uv, width: u32, height: u32)
    requires
        -COORD_MAX <= uv.u * width <= COORD_MAX,
        -COORD_MAX <= (UNIT - uv.v) * height <= COORD_MAX,
    ensures
        mapped(uv, width, height).x == uv.u * width,
        mapped(uv, width, height).y == (UNIT - uv.v) * height,
{
}

/// Every point of the unit square is mapped exactly, whatever the size of
/// the canvas, and lands within the canvas.
pub proof fn lemma_unit_square_maps_exactly(uv: Uv, width: u32, height: u32)
    requires
        0 <= uv.u <= UNIT,
        0 <= uv.v <= UNIT,
    ensures
        mapped(uv, width, height).x == uv.u * width,
        mapped(uv, width, height).y == (UNIT - uv.v) * height,
        0 <= mapped(uv, width, height).x <= UNIT * width,
        0 <= mapped(uv, width, height).y <= UNIT * height,
{
    let u: int = uv.u as int;
    let v: int = UNIT - uv.v;
    let w: int = width as int;
    let h: int = height as int;
    assert(0 <= u * w <= 1_000_000 * w) by (nonlinear_arith)
        requires
            0 <= u <= 1_000_000,
            0 <= w,
    ;
    assert(0 <= v * h <= 1_000_000 * h) by (nonlinear_arith)
        requires
            0 <= v <= 1_000_000,
            0 <= h,
    ;
}

/// The diagonal of the unit square reaches two corners of the canvas: the UV
/// origin lies at the bottom-left corner `(0, height)`, and the UV point
/// `(1, 1)` at the top-right corner `(width, 0)`, exactly, and in whole
/// pixels too where the canvas is no larger than `PIXEL_MAX`.
pub proof fn lemma_diagonal_reaches_corners(width: u32, height: u32)
    ensures
        mapped(Uv { u: 0, v: 0 }, width, height) == (Point { x: 0, y: (height * UNIT) as i64 }),
        mapped(Uv { u: UNIT, v: UNIT }, width, height) == (Point {
            x: (width * UNIT) as i64,
            y: 0,
        }),
        width <= PIXEL_MAX ==> pixel_of(width * UNIT) == width,
        height <= PIXEL_MAX ==> pixel_of(height * UNIT) == height,
        pixel_of(0) == 0,
{
    lemma_unit_square_maps_exactly(Uv { u: 0, v: 0 }, width, height);
    lemma_unit_square_maps_exactly(Uv { u: UNIT, v: UNIT }, width, height);
    let w: int = width as int;
    let h: int = height as int;
    assert(0 * h == 0 && 1_000_000 * w == w * 1_000_000 && (1_000_000 - 0) * h == h * 1_000_000)
        by (nonlinear_arith);
    assert((w * 1_000_000) / 1_000_000 == w);
    assert((h * 1_000_000) / 1_000_000 == h);
    assert(0int / 1_000_000 == 0);
}

} // verus!
