//! Fixed-point lengths and the rounding of a length to a whole pixel.

use vstd::prelude::*;

verus! {

/// How many fixed-point steps make one whole: a length of `UNIT` is 1.0.
pub const UNIT: i64 = 1_000_000;

/// The largest magnitude that a coordinate in pixel space takes. Mapped
/// coordinates beyond it saturate.
pub const COORD_MAX: i64 = 0x2000_0000_0000_0000;

/// The largest magnitude of a whole-pixel coordinate that is handed to a
/// rasteriser. Pixel coordinates beyond it saturate.
pub const PIXEL_MAX: i32 = 0x3fff_ffff;

/// `x` held between `lo` and `hi`.
pub open spec fn clamp(x: int, lo: int, hi: int) -> int {
    if x < lo {
        lo
    } else if x > hi {
        hi
    } else {
        x
    }
}

/// The magnitude of `x`.
pub open spec fn magnitude(x: int) -> int {
    if x < 0 {
        -x
    } else {
        x
    }
}

/// The quotient of `a` by a positive `b`, rounded toward zero.
pub open spec fn trunc_div(a: int, b: int) -> int {
    if a >= 0 {
        a / b
    } else {
        -((-a) / b)
    }
}

/// A pixel-space coordinate held within `COORD_MAX` of zero.
pub open spec fn saturated(x: int) -> int {
    clamp(x, -(COORD_MAX as int), COORD_MAX as int)
}

/// The whole pixel that holds the fixed-point coordinate `x`: the fraction is
/// cut off toward zero, and the result is held within `PIXEL_MAX` of zero.
pub open spec fn pixel_of(x: int) -> int {
    clamp(trunc_div(x, UNIT as int), -(PIXEL_MAX as int), PIXEL_MAX as int)
}

/// Holds a wide intermediate value within `COORD_MAX` of zero.
pub fn saturate(x: i128) -> (r: i64)
    ensures
        r == saturated(x as int),
{
    if x < -(COORD_MAX as i128) {
        -COORD_MAX
    } else if x > COORD_MAX as i128 {
        COORD_MAX
    } else {
        x as i64
    }
}

/// Rounds a fixed-point coordinate to its whole pixel, toward zero.
pub fn to_pixel(x: i128) -> (p: i32)
    ensures
        p == pixel_of(x as int),
{
    let whole: i128 = if x >= 0 {
        x / (UNIT as i128)
    } else if x == i128::MIN {
        // Its magnitude has no 128-bit form; any number this far out saturates.
        i128::MIN / 2
    } else {
        -((-x) / (UNIT as i128))
    };
    if whole < -(PIXEL_MAX as i128) {
        -PIXEL_MAX
    } else if whole > PIXEL_MAX as i128 {
        PIXEL_MAX
    } else {
        whole as i32
    }
}

} // verus!
