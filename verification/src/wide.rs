//! The outline of a stroke that is wider than one pixel: a rectangle whose
//! long sides run beside the segment, half the stroke width away from it.

use vstd::prelude::*;
use crate::model::{Pixel, Point, RenderError};
use crate::root::{
    integer_sqrt, is_sqrt_floor, lemma_sqrt_floor_exists, lemma_square_is_monotonic, sqrt_floor,
};
use crate::units::{magnitude, pixel_of, saturate, saturated, to_pixel, COORD_MAX, UNIT};

verus! {

/// The length to which a direction is stretched before its length is taken.
pub const STRETCH: u64 = 0x4000_0000_0000_0000;

/// The corners of a wide stroke, in drawing order: both ends moved to one
/// side of the segment, then both ends moved to the other side.
#[derive(Clone, Copy, Debug, PartialEq, Eq)]
pub struct Quad {
    pub start_plus: Pixel,
    pub end_plus: Pixel,
    pub end_minus: Pixel,
    pub start_minus: Pixel,
}

/// The larger of two numbers.
pub open spec fn larger(a: int, b: int) -> int {
    if a >= b {
        a
    } else {
        b
    }
}

/// The whole factor that lengthens the direction `(dx, dy)` until its longer
/// component is as near to `STRETCH` as a whole factor brings it. Stretching
/// keeps the direction, and lets the rounded root lose nothing that matters.
pub open spec fn stretch_factor(dx: int, dy: int) -> int {
    (STRETCH as int) / larger(magnitude(dx), magnitude(dy))
}

/// The length of the stretched direction, rounded down.
pub open spec fn stretched_length(dx: int, dy: int) -> int {
    let m = stretch_factor(dx, dy);
    sqrt_floor(
        (magnitude(dx) * m) * (magnitude(dx) * m) + (magnitude(dy) * m) * (magnitude(dy) * m),
    )
}

/// The magnitude of one component of the offset: half of `line_width`,
/// scaled by the share that `across` has in the length of `(dx, dy)`, and
/// rounded down. `across` is `dx` or `dy`.
pub open spec fn offset_share(across: int, dx: int, dy: int, line_width: int) -> int {
    (magnitude(across) * stretch_factor(dx, dy) * line_width) / (2 * stretched_length(dx, dy))
}

/// The `x` component of the offset `(-dy, dx) / |(dx, dy)| * line_width / 2`.
pub open spec fn offset_x(dx: int, dy: int, line_width: int) -> int {
    if dy > 0 {
        -offset_share(dy, dx, dy, line_width)
    } else {
        offset_share(dy, dx, dy, line_width)
    }
}

/// The `y` component of the offset `(-dy, dx) / |(dx, dy)| * line_width / 2`.
pub open spec fn offset_y(dx: int, dy: int, line_width: int) -> int {
    if dx >= 0 {
        offset_share(dx, dx, dy, line_width)
    } else {
        -offset_share(dx, dx, dy, line_width)
    }
}

/// No wide stroke exists for a segment whose ends coincide, nor for a width
/// that is not positive.
pub open spec fn is_degenerate(start: Point, end: Point, line_width: i64) -> bool {
    line_width <= 0 || (saturated(start.x as int) == saturated(end.x as int) && saturated(
        start.y as int,
    ) == saturated(end.y as int))
}

/// The whole pixel of the fixed-point position `(x, y)`.
pub open spec fn pixel_at(x: int, y: int) -> Pixel {
    Pixel { x: pixel_of(x) as i32, y: pixel_of(y) as i32 }
}

/// The corners of the stroke of `line_width` from `start` to `end`:
/// `[start + offset, end + offset, end - offset, start - offset]`, each
/// rounded toward zero to a whole pixel.
pub open spec fn quad_of(start: Point, end: Point, line_width: i64) -> Quad {
    let sx = saturated(start.x as int);
    let sy = saturated(start.y as int);
    let ex = saturated(end.x as int);
    let ey = saturated(end.y as int);
    let ox = offset_x(ex - sx, ey - sy, line_width as int);
    let oy = offset_y(ex - sx, ey - sy, line_width as int);
    Quad {
        start_plus: pixel_at(sx + ox, sy + oy),
        end_plus: pixel_at(ex + ox, ey + oy),
        end_minus: pixel_at(ex - ox, ey - oy),
        start_minus: pixel_at(sx - ox, sy - oy),
    }
}

/// The magnitude of `x`.
fn magnitude_of(x: i64) -> (m: u64)
    requires
        x > i64::MIN,
    ensures
        m == magnitude(x as int),
{
    if x < 0 {
        (-x) as u64
    } else {
        x as u64
    }
}

/// The root of a sum of two squares is no shorter than either side.
proof fn lemma_root_covers_sides(a: int, b: int, n: int)
    requires
        0 <= a,
        0 <= b,
        is_sqrt_floor(a * a + b * b, n),
    ensures
        a <= n,
        b <= n,
{
    assert(0 <= a * a && 0 <= b * b) by (nonlinear_arith);
    if n < a {
        lemma_square_is_monotonic(n + 1, a);
    }
    if n < b {
        lemma_square_is_monotonic(n + 1, b);
    }
}

/// A share of one component is at most half the width.
proof fn lemma_share_is_at_most_half(side: int, n: int, line_width: int, share: int)
    requires
        0 <= side <= n,
        0 < n,
        0 <= line_width,
        share == (side * line_width) / (2 * n),
    ensures
        0 <= share,
        2 * share <= line_width,
{
    let num = side * line_width;
    let den = 2 * n;
    assert(0 <= num <= n * line_width) by (nonlinear_arith)
        requires
            0 <= side <= n,
            0 <= line_width,
            num == side * line_width,
    ;
    vstd::arithmetic::div_mod::lemma_fundamental_div_mod(num, den);
    vstd::arithmetic::div_mod::lemma_mod_bound(num, den);
    vstd::arithmetic::div_mod::lemma_div_pos_is_pos(num, den);
    assert(den * share <= n * line_width);
    assert(2 * share <= line_width) by (nonlinear_arith)
        requires
            den * share <= n * line_width,
            den == 2 * n,
            0 < n,
    ;
}

/// Computes both components of the offset of a stroke along `(dx, dy)`.
fn perpendicular_offset(dx: i64, dy: i64, line_width: i64) -> (offset: (i64, i64))
    requires
        -2 * COORD_MAX <= dx <= 2 * COORD_MAX,
        -2 * COORD_MAX <= dy <= 2 * COORD_MAX,
        dx != 0 || dy != 0,
        line_width > 0,
    ensures
        offset.0 == offset_x(dx as int, dy as int, line_width as int),
        offset.1 == offset_y(dx as int, dy as int, line_width as int),
        -line_width <= 2 * offset.0 <= line_width,
        -line_width <= 2 * offset.1 <= line_width,
{
    let across: u64 = magnitude_of(dx);
    let along: u64 = magnitude_of(dy);
    let longer: u64 = if across >= along {
        across
    } else {
        along
    };
    let factor: u64 = STRETCH / longer;
    let ghost m: int = stretch_factor(dx as int, dy as int);
    assert(factor == m);
    proof {
        vstd::arithmetic::div_mod::lemma_fundamental_div_mod(STRETCH as int, longer as int);
        vstd::arithmetic::div_mod::lemma_mod_bound(STRETCH as int, longer as int);
    }
    assert(longer * factor <= STRETCH);
    assert(factor > 0) by {
        if factor == 0 {
            assert(longer * factor == 0) by (nonlinear_arith)
                requires
                    factor == 0,
            ;
        }
    }
    assert(across * factor <= longer * factor && along * factor <= longer * factor)
        by (nonlinear_arith)
        requires
            across <= longer,
            along <= longer,
            0 <= factor,
    ;
    let wide_x: u128 = across as u128 * factor as u128;
    let wide_y: u128 = along as u128 * factor as u128;
    assert(wide_x * wide_x <= 0x4000_0000_0000_0000 * 0x4000_0000_0000_0000) by (nonlinear_arith)
        requires
            0 <= wide_x <= 0x4000_0000_0000_0000,
    ;
    assert(wide_y * wide_y <= 0x4000_0000_0000_0000 * 0x4000_0000_0000_0000) by (nonlinear_arith)
        requires
            0 <= wide_y <= 0x4000_0000_0000_0000,
    ;
    let length: u64 = integer_sqrt(wide_x * wide_x + wide_y * wide_y);
    proof {
        lemma_root_covers_sides(wide_x as int, wide_y as int, length as int);
        assert(longer * factor > 0) by (nonlinear_arith)
            requires
                longer > 0,
                factor > 0,
        ;
    }
    assert(length == stretched_length(dx as int, dy as int));
    let width: u128 = line_width as u128;
    assert(wide_x * width <= 0x4000_0000_0000_0000 * 0x8000_0000_0000_0000) by (nonlinear_arith)
        requires
            0 <= wide_x <= 0x4000_0000_0000_0000,
            0 <= width <= 0x8000_0000_0000_0000,
    ;
    assert(wide_y * width <= 0x4000_0000_0000_0000 * 0x8000_0000_0000_0000) by (nonlinear_arith)
        requires
            0 <= wide_y <= 0x4000_0000_0000_0000,
            0 <= width <= 0x8000_0000_0000_0000,
    ;
    let divisor: u128 = 2 * (length as u128);
    let share_x: u128 = (wide_y * width) / divisor;
    let share_y: u128 = (wide_x * width) / divisor;
    proof {
        lemma_share_is_at_most_half(wide_y as int, length as int, width as int, share_x as int);
        lemma_share_is_at_most_half(wide_x as int, length as int, width as int, share_y as int);
        assert(share_x == offset_share(dy as int, dx as int, dy as int, line_width as int));
        assert(share_y == offset_share(dx as int, dx as int, dy as int, line_width as int));
    }
    let x: i64 = if dy > 0 {
        -(share_x as i64)
    } else {
        share_x as i64
    };
    let y: i64 = if dx >= 0 {
        share_y as i64
    } else {
        -(share_y as i64)
    };
    (x, y)
}

/// Computes the corners of the stroke of `line_width` from `start` to `end`.
/// Fails where the segment has no length or the width is not positive, and
/// only there.
pub fn wide_line_polygon(start: Point, end: Point, line_width: i64) -> (result: Result<
    Quad,
    RenderError,
>)
    ensures
        is_degenerate(start, end, line_width) <==> result is Err,
        result is Err ==> result == Err::<Quad, RenderError>(RenderError::DegenerateGeometry),
        result is Ok ==> result == Ok::<Quad, RenderError>(quad_of(start, end, line_width)),
{
    let sx: i64 = saturate(start.x as i128);
    let sy: i64 = saturate(start.y as i128);
    let ex: i64 = saturate(end.x as i128);
    let ey: i64 = saturate(end.y as i128);
    if line_width <= 0 || (sx == ex && sy == ey) {
        return Err(RenderError::DegenerateGeometry);
    }
    let offset: (i64, i64) = perpendicular_offset(ex - sx, ey - sy, line_width);
    let ox: i128 = offset.0 as i128;
    let oy: i128 = offset.1 as i128;
    Ok(
        Quad {
            start_plus: Pixel { x: to_pixel(sx as i128 + ox), y: to_pixel(sy as i128 + oy) },
            end_plus: Pixel { x: to_pixel(ex as i128 + ox), y: to_pixel(ey as i128 + oy) },
            end_minus: Pixel { x: to_pixel(ex as i128 - ox), y: to_pixel(ey as i128 - oy) },
            start_minus: Pixel { x: to_pixel(sx as i128 - ox), y: to_pixel(sy as i128 - oy) },
        },
    )
}

/// What stretching gives for a direction that is not zero and whose
/// components are differences of working coordinates: a factor of at least
/// one, and a length that is a true rounded root, covers both stretched
/// components, and is more than half of `STRETCH`.
proof fn lemma_stretched(dx: int, dy: int)
    requires
        dx != 0 || dy != 0,
        -2 * COORD_MAX <= dx <= 2 * COORD_MAX,
        -2 * COORD_MAX <= dy <= 2 * COORD_MAX,
    ensures
        stretch_factor(dx, dy) >= 1,
        0 <= magnitude(dx) * stretch_factor(dx, dy) <= stretched_length(dx, dy),
        0 <= magnitude(dy) * stretch_factor(dx, dy) <= stretched_length(dx, dy),
        stretched_length(dx, dy) > STRETCH / 2,
        is_sqrt_floor(
            (magnitude(dx) * stretch_factor(dx, dy)) * (magnitude(dx) * stretch_factor(dx, dy)) + (
            magnitude(dy) * stretch_factor(dx, dy)) * (magnitude(dy) * stretch_factor(dx, dy)),
            stretched_length(dx, dy),
        ),
{
    let a = magnitude(dx);
    let b = magnitude(dy);
    let longer = larger(a, b);
    let m = stretch_factor(dx, dy);
    let stretch = STRETCH as int;
    vstd::arithmetic::div_mod::lemma_fundamental_div_mod(stretch, longer);
    vstd::arithmetic::div_mod::lemma_mod_bound(stretch, longer);
    assert(m >= 1 && longer * m > stretch / 2) by (nonlinear_arith)
        requires
            stretch == longer * m + stretch % longer,
            0 <= stretch % longer < longer,
            0 < longer <= stretch,
            stretch == 0x4000_0000_0000_0000,
    ;
    assert(0 <= a * m <= longer * m && 0 <= b * m <= longer * m) by (nonlinear_arith)
        requires
            0 <= a <= longer,
            0 <= b <= longer,
            0 <= m,
    ;
    let wide_x = a * m;
    let wide_y = b * m;
    assert(0 <= wide_x * wide_x && 0 <= wide_y * wide_y) by (nonlinear_arith);
    lemma_sqrt_floor_exists(wide_x * wide_x + wide_y * wide_y);
    lemma_root_covers_sides(wide_x, wide_y, stretched_length(dx, dy));
}

/// The offset stands at a right angle to the segment, as nearly as whole
/// steps allow: its inner product with the direction `(dx, dy)` is smaller
/// than the longer component of the direction, where it would be half the
/// stroke width times the length of the direction if the two were parallel.
pub proof fn lemma_offset_is_perpendicular(dx: int, dy: int, line_width: int)
    requires
        dx != 0 || dy != 0,
        -2 * COORD_MAX <= dx <= 2 * COORD_MAX,
        -2 * COORD_MAX <= dy <= 2 * COORD_MAX,
    ensures
        magnitude(offset_x(dx, dy, line_width) * dx + offset_y(dx, dy, line_width) * dy) < larger(
            magnitude(dx),
            magnitude(dy),
        ),
{
    lemma_stretched(dx, dy);
    let a = magnitude(dx);
    let b = magnitude(dy);
    let longer = larger(a, b);
    let m = stretch_factor(dx, dy);
    let n = stretched_length(dx, dy);
    let d = 2 * n;
    let share_x = offset_share(dy, dx, dy, line_width);
    let share_y = offset_share(dx, dx, dy, line_width);
    let num_x = b * m * line_width;
    let num_y = a * m * line_width;
    let rest_x = num_x % d;
    let rest_y = num_y % d;
    vstd::arithmetic::div_mod::lemma_fundamental_div_mod(num_x, d);
    vstd::arithmetic::div_mod::lemma_fundamental_div_mod(num_y, d);
    vstd::arithmetic::div_mod::lemma_mod_bound(num_x, d);
    vstd::arithmetic::div_mod::lemma_mod_bound(num_y, d);
    let cross = share_x * a - share_y * b;
    let scaled_x = (d * share_x) * a;
    let scaled_y = (d * share_y) * b;
    assert(scaled_x == num_x * a - rest_x * a) by (nonlinear_arith)
        requires
            num_x == d * share_x + rest_x,
            scaled_x == (d * share_x) * a,
    ;
    assert(scaled_y == num_y * b - rest_y * b) by (nonlinear_arith)
        requires
            num_y == d * share_y + rest_y,
            scaled_y == (d * share_y) * b,
    ;
    assert(num_x * a == num_y * b) by (nonlinear_arith)
        requires
            num_x == b * m * line_width,
            num_y == a * m * line_width,
    ;
    assert(d * cross == scaled_x - scaled_y) by (nonlinear_arith)
        requires
            cross == share_x * a - share_y * b,
            scaled_x == (d * share_x) * a,
            scaled_y == (d * share_y) * b,
    ;
    assert(d * cross == rest_y * b - rest_x * a);
    assert(-(d * longer) < rest_y * b - rest_x * a < d * longer) by (nonlinear_arith)
        requires
            0 <= rest_x < d,
            0 <= rest_y < d,
            0 <= a <= longer,
            0 <= b <= longer,
            0 < longer,
    ;
    assert(-longer < cross < longer) by (nonlinear_arith)
        requires
            -(d * longer) < d * cross < d * longer,
            0 < d,
    ;
    let ox = offset_x(dx, dy, line_width);
    let oy = offset_y(dx, dy, line_width);
    assert(ox * dx + oy * dy == cross || ox * dx + oy * dy == -cross) by (nonlinear_arith)
        requires
            cross == share_x * a - share_y * b,
            a == magnitude(dx),
            b == magnitude(dy),
            ox == (if dy > 0 {
                -share_x
            } else {
                share_x
            }),
            oy == (if dx >= 0 {
                share_y
            } else {
                -share_y
            }),
    ;
}

/// The offset is half the stroke width long, as nearly as whole steps
/// allow: twice its length lies within five steps of the width of a stroke
/// that is wider than one pixel.
pub proof fn lemma_offset_is_half_the_width(dx: int, dy: int, line_width: int)
    requires
        dx != 0 || dy != 0,
        -2 * COORD_MAX <= dx <= 2 * COORD_MAX,
        -2 * COORD_MAX <= dy <= 2 * COORD_MAX,
        UNIT < line_width <= i64::MAX,
    ensures
        (line_width - 5) * (line_width - 5) <= 4 * (offset_x(dx, dy, line_width) * offset_x(
            dx,
            dy,
            line_width,
        ) + offset_y(dx, dy, line_width) * offset_y(dx, dy, line_width)),
        4 * (offset_x(dx, dy, line_width) * offset_x(dx, dy, line_width) + offset_y(
            dx,
            dy,
            line_width,
        ) * offset_y(dx, dy, line_width)) <= (line_width + 4) * (line_width + 4),
{
    lemma_stretched(dx, dy);
    let w = line_width;
    let m = stretch_factor(dx, dy);
    let wide_x = magnitude(dx) * m;
    let wide_y = magnitude(dy) * m;
    let n = stretched_length(dx, dy);
    let d = 2 * n;
    let share_x = offset_share(dy, dx, dy, w);
    let share_y = offset_share(dx, dx, dy, w);
    let num_x = wide_y * w;
    let num_y = wide_x * w;
    let rest_x = num_x % d;
    let rest_y = num_y % d;
    vstd::arithmetic::div_mod::lemma_fundamental_div_mod(num_x, d);
    vstd::arithmetic::div_mod::lemma_fundamental_div_mod(num_y, d);
    vstd::arithmetic::div_mod::lemma_mod_bound(num_x, d);
    vstd::arithmetic::div_mod::lemma_mod_bound(num_y, d);
    let sum = share_x * share_x + share_y * share_y;
    let squares = wide_x * wide_x + wide_y * wide_y;
    let ox = offset_x(dx, dy, w);
    let oy = offset_y(dx, dy, w);
    assert(ox * ox + oy * oy == sum) by (nonlinear_arith)
        requires
            ox == share_x || ox == -share_x,
            oy == share_y || oy == -share_y,
            sum == share_x * share_x + share_y * share_y,
    ;
    lemma_length_from_above(share_x, share_y, rest_x, rest_y, wide_x, wide_y, n, w);
    lemma_length_from_below(share_x, share_y, rest_x, rest_y, wide_x, wide_y, n, w);
}

/// The upper half of `lemma_offset_is_half_the_width`, on plain numbers.
proof fn lemma_length_from_above(
    share_x: int,
    share_y: int,
    rest_x: int,
    rest_y: int,
    wide_x: int,
    wide_y: int,
    n: int,
    w: int,
)
    requires
        wide_y * w == 2 * n * share_x + rest_x,
        wide_x * w == 2 * n * share_y + rest_y,
        0 <= rest_x < 2 * n,
        0 <= rest_y < 2 * n,
        0 <= wide_x <= n,
        0 <= wide_y <= n,
        is_sqrt_floor(wide_x * wide_x + wide_y * wide_y, n),
        0 < w <= 4 * n,
    ensures
        4 * (share_x * share_x + share_y * share_y) <= (w + 4) * (w + 4),
{
    let sum = share_x * share_x + share_y * share_y;
    let squares = wide_x * wide_x + wide_y * wide_y;
    let below_x = 2 * n * share_x;
    let below_y = 2 * n * share_y;
    let above_x = wide_y * w;
    let above_y = wide_x * w;
    assert(0 <= above_x && 0 <= above_y) by (nonlinear_arith)
        requires
            0 <= wide_x,
            0 <= wide_y,
            0 < w,
            above_x == wide_y * w,
            above_y == wide_x * w,
    ;
    assert(0 <= below_x <= above_x && 0 <= below_y <= above_y) by (nonlinear_arith)
        requires
            above_x == below_x + rest_x,
            above_y == below_y + rest_y,
            below_x == 2 * n * share_x,
            below_y == 2 * n * share_y,
            0 <= rest_x < 2 * n,
            0 <= rest_y < 2 * n,
            0 <= above_x,
            0 <= above_y,
    ;
    let left = (n * n) * (4 * sum);
    let middle = (w * w) * squares;
    let right = (n * n) * ((w + 4) * (w + 4));
    assert(below_x * below_x + below_y * below_y == left) by (nonlinear_arith)
        requires
            below_x == 2 * n * share_x,
            below_y == 2 * n * share_y,
            sum == share_x * share_x + share_y * share_y,
            left == (n * n) * (4 * sum),
    ;
    assert(below_x * below_x <= above_x * above_x) by (nonlinear_arith)
        requires
            0 <= below_x <= above_x,
    ;
    assert(below_y * below_y <= above_y * above_y) by (nonlinear_arith)
        requires
            0 <= below_y <= above_y,
    ;
    assert(above_x * above_x + above_y * above_y == middle) by (nonlinear_arith)
        requires
            above_x == wide_y * w,
            above_y == wide_x * w,
            squares == wide_x * wide_x + wide_y * wide_y,
            middle == (w * w) * squares,
    ;
    assert(left <= middle);
    let longest = (n * w + w) * (n * w + w);
    assert(middle <= longest) by (nonlinear_arith)
        requires
            squares <= (n + 1) * (n + 1),
            middle == (w * w) * squares,
            longest == (n * w + w) * (n * w + w),
    ;
    assert(longest <= right) by (nonlinear_arith)
        requires
            0 < w <= 4 * n,
            0 < n,
            longest == (n * w + w) * (n * w + w),
            right == (n * n) * ((w + 4) * (w + 4)),
    ;
    assert(4 * sum <= (w + 4) * (w + 4)) by (nonlinear_arith)
        requires
            (n * n) * (4 * sum) <= (n * n) * ((w + 4) * (w + 4)),
            0 < n,
    ;
}

/// The lower half of `lemma_offset_is_half_the_width`, on plain numbers.
proof fn lemma_length_from_below(
    share_x: int,
    share_y: int,
    rest_x: int,
    rest_y: int,
    wide_x: int,
    wide_y: int,
    n: int,
    w: int,
)
    requires
        wide_y * w == 2 * n * share_x + rest_x,
        wide_x * w == 2 * n * share_y + rest_y,
        0 <= rest_x < 2 * n,
        0 <= rest_y < 2 * n,
        0 <= wide_x <= n,
        0 <= wide_y <= n,
        is_sqrt_floor(wide_x * wide_x + wide_y * wide_y, n),
        13 <= w,
        0 < n,
    ensures
        (w - 5) * (w - 5) <= 4 * (share_x * share_x + share_y * share_y),
{
    let sum = share_x * share_x + share_y * share_y;
    let squares = wide_x * wide_x + wide_y * wide_y;
    let below_x = 2 * n * share_x;
    let below_y = 2 * n * share_y;
    let above_x = wide_y * w;
    let above_y = wide_x * w;
    let left = (n * n) * (4 * sum);
    let middle = (w * w) * squares;
    assert(below_x * below_x + below_y * below_y == left) by (nonlinear_arith)
        requires
            below_x == 2 * n * share_x,
            below_y == 2 * n * share_y,
            sum == share_x * share_x + share_y * share_y,
            left == (n * n) * (4 * sum),
    ;
    assert(above_x * above_x + above_y * above_y == middle) by (nonlinear_arith)
        requires
            above_x == wide_y * w,
            above_y == wide_x * w,
            squares == wide_x * wide_x + wide_y * wide_y,
            middle == (w * w) * squares,
    ;
    let lost_x = above_x * rest_x;
    let lost_y = above_y * rest_y;
    assert(below_x * below_x >= above_x * above_x - 2 * lost_x) by (nonlinear_arith)
        requires
            below_x == above_x - rest_x,
            lost_x == above_x * rest_x,
    ;
    assert(below_y * below_y >= above_y * above_y - 2 * lost_y) by (nonlinear_arith)
        requires
            below_y == above_y - rest_y,
            lost_y == above_y * rest_y,
    ;
    let most = (n * n) * (2 * w);
    assert(lost_x <= most && lost_y <= most) by (nonlinear_arith)
        requires
            0 <= wide_x <= n,
            0 <= wide_y <= n,
            0 <= rest_x < 2 * n,
            0 <= rest_y < 2 * n,
            0 <= w,
            above_x == wide_y * w,
            above_y == wide_x * w,
            lost_x == above_x * rest_x,
            lost_y == above_y * rest_y,
            most == (n * n) * (2 * w),
    ;
    let least = (n * n) * (w * w);
    assert(middle >= least) by (nonlinear_arith)
        requires
            squares >= n * n,
            middle == (w * w) * squares,
            least == (n * n) * (w * w),
    ;
    assert(left >= least - 4 * most);
    assert(least - 4 * most == (n * n) * (w * w - 8 * w)) by (nonlinear_arith)
        requires
            least == (n * n) * (w * w),
            most == (n * n) * (2 * w),
    ;
    assert(4 * sum >= w * w - 8 * w) by (nonlinear_arith)
        requires
            (n * n) * (4 * sum) >= (n * n) * (w * w - 8 * w),
            0 < n,
    ;
    assert((w - 5) * (w - 5) <= w * w - 8 * w) by (nonlinear_arith)
        requires
            13 <= w,
    ;
}

} // verus!
