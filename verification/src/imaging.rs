//! The two rasterisers of `imageproc`, at work on a buffer of RGBA bytes.
//! What they write is not proved here: each result has a name, and the
//! contracts of this crate say which rasteriser was run on which arguments.

use vstd::prelude::*;
use image::ImageBuffer;
use imageproc::drawing::{draw_antialiased_line_segment_mut, draw_polygon_mut};
use imageproc::pixelops::interpolate;
use imageproc::point::Point as Corner;
use crate::model::{Pixel, Rgba};
use crate::units::PIXEL_MAX;
use crate::wide::Quad;

verus! {

/// The widest and the highest canvas that can be drawn on.
pub const MAX_DIMENSION: u32 = 0x4000_0000;

/// The number of bytes of a canvas: four for each pixel, row after row.
pub open spec fn buffer_len(width: u32, height: u32) -> int {
    width * height * 4
}

/// The colour of the pixel that stands at place `k` in the bytes of a canvas,
/// counted row after row.
pub open spec fn pixel_color(pixels: Seq<u8>, k: int) -> Rgba {
    Rgba { r: pixels[4 * k], g: pixels[4 * k + 1], b: pixels[4 * k + 2], a: pixels[4 * k + 3] }
}

/// Every pixel of `after` is the pixel of `before` at its place, or is
/// `color`: whatever was drawn was written over what was there, in one
/// colour, and nothing was blended.
pub open spec fn kept_or_painted(before: Seq<u8>, after: Seq<u8>, color: Rgba) -> bool {
    after.len() == before.len() && forall|k: int|
        0 <= k && 4 * k + 3 < before.len() ==> #[trigger] pixel_color(after, k) == pixel_color(
            before,
            k,
        ) || pixel_color(after, k) == color
}

/// A pixel address that a rasteriser takes.
pub open spec fn in_reach(p: Pixel) -> bool {
    -PIXEL_MAX <= p.x <= PIXEL_MAX && -PIXEL_MAX <= p.y <= PIXEL_MAX
}

/// The bytes of a `width` by `height` canvas that held `pixels`, after
/// `imageproc::drawing::draw_antialiased_line_segment_mut` has drawn the line
/// from `start` to `end` in `color` on it, blending with
/// `imageproc::pixelops::interpolate`.
pub uninterp spec fn blended_line(
    pixels: Seq<u8>,
    width: u32,
    height: u32,
    start: Pixel,
    end: Pixel,
    color: Rgba,
) -> Seq<u8>;

/// The bytes of a `width` by `height` canvas that held `pixels`, after
/// `imageproc::drawing::draw_polygon_mut` has filled the polygon with the
/// corners of `quad` in `color` on it.
pub uninterp spec fn filled_polygon(
    pixels: Seq<u8>,
    width: u32,
    height: u32,
    quad: Quad,
    color: Rgba,
) -> Seq<u8>;

/// Runs `imageproc::drawing::draw_antialiased_line_segment_mut`, with
/// `imageproc::pixelops::interpolate` as its blend, on `data` taken as a
/// `width` by `height` image of RGBA pixels. The rasteriser writes single
/// pixels inside the image and nothing else, so the buffer keeps its length;
/// what it writes is `blended_line`. It subtracts the coordinates from one
/// another in 32 bits, which the bound on them keeps from overflowing.
#[verifier::external_body]
pub(crate) fn blend_line(
    data: &mut Vec<u8>,
    width: u32,
    height: u32,
    start: Pixel,
    end: Pixel,
    color: Rgba,
)
    requires
        old(data)@.len() == buffer_len(width, height),
        in_reach(start),
        in_reach(end),
    ensures
        final(data)@ == blended_line(old(data)@, width, height, start, end, color),
        final(data)@.len() == old(data)@.len(),
    no_unwind
{
    let ink = image::Rgba([color.r, color.g, color.b, color.a]);
    let bytes: &mut [u8] = data.as_mut_slice();
    if let Some(mut target) = ImageBuffer::<image::Rgba<u8>, _>::from_raw(width, height, bytes) {
        draw_antialiased_line_segment_mut(
            &mut target,
            (start.x, start.y),
            (end.x, end.y),
            ink,
            interpolate,
        );
    }
}

/// Runs `imageproc::drawing::draw_polygon_mut` on `data` taken as a `width`
/// by `height` image of RGBA pixels. The rasteriser writes single pixels
/// inside the image and nothing else, so the buffer keeps its length, and
/// to each pixel that it writes it gives `color` as it is; which pixels it
/// writes is not said but by the name `filled_polygon`. It turns both
/// dimensions into 32-bit signed numbers, writes into row 0 of an image
/// without rows, and subtracts the coordinates from one another in 32 bits:
/// the bounds leave out the inputs on which one of these fails.
#[verifier::external_body]
pub(crate) fn fill_polygon(data: &mut Vec<u8>, width: u32, height: u32, quad: Quad, color: Rgba)
    requires
        old(data)@.len() == buffer_len(width, height),
        1 <= width <= MAX_DIMENSION,
        1 <= height <= MAX_DIMENSION,
        in_reach(quad.start_plus),
        in_reach(quad.end_plus),
        in_reach(quad.end_minus),
        in_reach(quad.start_minus),
    ensures
        final(data)@ == filled_polygon(old(data)@, width, height, quad, color),
        final(data)@.len() == old(data)@.len(),
        kept_or_painted(old(data)@, final(data)@, color),
    no_unwind
{
    let ink = image::Rgba([color.r, color.g, color.b, color.a]);
    let corners = [
        Corner::new(quad.start_plus.x, quad.start_plus.y),
        Corner::new(quad.end_plus.x, quad.end_plus.y),
        Corner::new(quad.end_minus.x, quad.end_minus.y),
        Corner::new(quad.start_minus.x, quad.start_minus.y),
    ];
    let bytes: &mut [u8] = data.as_mut_slice();
    if let Some(mut target) = ImageBuffer::<image::Rgba<u8>, _>::from_raw(width, height, bytes) {
        draw_polygon_mut(&mut target, &corners, ink);
    }
}

} // verus!
