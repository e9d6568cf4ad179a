//! The pixel buffer that the raster renderer draws on.

use vstd::prelude::*;
use crate::imaging::{
    blend_line, blended_line, buffer_len, fill_polygon, filled_polygon, in_reach, kept_or_painted,
    pixel_color, MAX_DIMENSION,
};
use crate::model::{Pixel, Rgba};
use crate::wide::Quad;

verus! {

/// A rectangle of RGBA pixels, stored row after row from the top, four bytes
/// to the pixel.
pub struct Canvas {
    width: u32,
    height: u32,
    data: Vec<u8>,
}

/// What a canvas is: its size and its bytes.
pub struct CanvasView {
    pub width: u32,
    pub height: u32,
    pub pixels: Seq<u8>,
}

/// A canvas of this size can be held: neither side is beyond
/// `MAX_DIMENSION`, and the bytes fit a vector.
pub open spec fn can_hold(width: u32, height: u32) -> bool {
    width <= MAX_DIMENSION && height <= MAX_DIMENSION && buffer_len(width, height) <= usize::MAX / 2
}

/// The buffer of a canvas of this size with every channel of every pixel 0.
pub open spec fn blank(width: u32, height: u32) -> Seq<u8> {
    Seq::new(buffer_len(width, height) as nat, |i: int| 0u8)
}

/// The colour of the pixel at column `x` of row `y` in the bytes of a canvas
/// `width` wide.
pub open spec fn color_at(pixels: Seq<u8>, width: u32, x: u32, y: u32) -> Rgba {
    pixel_color(pixels, y * width + x)
}

impl View for Canvas {
    type V = CanvasView;

    closed spec fn view(&self) -> CanvasView {
        CanvasView { width: self.width, height: self.height, pixels: self.data@ }
    }
}

/// The number of bytes of a canvas that can be held, computed.
fn byte_count(width: u32, height: u32) -> (count: Option<usize>)
    ensures
        can_hold(width, height) <==> count is Some,
        count is Some ==> count->Some_0 == buffer_len(width, height),
{
    if width > MAX_DIMENSION || height > MAX_DIMENSION {
        return None;
    }
    assert(width * height <= 0x4000_0000 * 0x4000_0000) by (nonlinear_arith)
        requires
            0 <= width <= 0x4000_0000,
            0 <= height <= 0x4000_0000,
    ;
    let count: u64 = width as u64 * height as u64 * 4;
    if count > (usize::MAX / 2) as u64 {
        None
    } else {
        Some(count as usize)
    }
}

impl Clone for Canvas {
    /// A second canvas of the same size with the same pixels.
    fn clone(&self) -> (copy: Canvas)
        ensures
            copy@ == self@,
    {
        proof {
            use_type_invariant(self);
        }
        Canvas { width: self.width, height: self.height, data: self.data.clone() }
    }
}

impl Canvas {
    #[verifier::type_invariant]
    spec fn well_formed(self) -> bool {
        can_hold(self.width, self.height) && self.data@.len() == buffer_len(self.width, self.height)
    }

    /// A canvas with every pixel transparent black, where one of this size can
    /// be held.
    pub fn new(width: u32, height: u32) -> (canvas: Option<Canvas>)
        ensures
            can_hold(width, height) <==> canvas is Some,
            canvas is Some ==> canvas->Some_0@ == (CanvasView {
                width,
                height,
                pixels: blank(width, height),
            }),
    {
        match byte_count(width, height) {
            Some(count) => {
                let data: Vec<u8> = vec![0u8; count];
                assert(data@ =~= blank(width, height));
                Some(Canvas { width, height, data })
            },
            None => None,
        }
    }

    /// A canvas over pixels that exist already, where a canvas of this size
    /// can be held and `data` has exactly its bytes.
    pub fn from_raw(width: u32, height: u32, data: Vec<u8>) -> (canvas: Option<Canvas>)
        ensures
            (can_hold(width, height) && data@.len() == buffer_len(width, height)) <==> canvas
                is Some,
            canvas is Some ==> canvas->Some_0@ == (CanvasView { width, height, pixels: data@ }),
    {
        match byte_count(width, height) {
            Some(count) => {
                if data.len() == count {
                    Some(Canvas { width, height, data })
                } else {
                    None
                }
            },
            None => None,
        }
    }

    /// The number of pixels in a row.
    pub fn width(&self) -> (width: u32)
        ensures
            width == self@.width,
    {
        self.width
    }

    /// The number of rows.
    pub fn height(&self) -> (height: u32)
        ensures
            height == self@.height,
    {
        self.height
    }

    /// The colour of the pixel at column `x` of row `y`, where the canvas has
    /// such a pixel.
    pub fn get_pixel(&self, x: u32, y: u32) -> (color: Option<Rgba>)
        ensures
            (x < self@.width && y < self@.height) <==> color is Some,
            color is Some ==> color->Some_0 == color_at(self@.pixels, self@.width, x, y),
    {
        proof {
            use_type_invariant(self);
        }
        if x >= self.width || y >= self.height {
            return None;
        }
        assert((y * self.width + x) * 4 + 3 < self.width * self.height * 4) by (nonlinear_arith)
            requires
                0 <= x < self.width,
                0 <= y < self.height,
        ;
        let at: usize = ((y as u64 * self.width as u64 + x as u64) * 4) as usize;
        Some(
            Rgba {
                r: self.data[at],
                g: self.data[at + 1],
                b: self.data[at + 2],
                a: self.data[at + 3],
            },
        )
    }

    /// Draws the antialiased line from `start` to `end` in `color`.
    pub(crate) fn blend(&mut self, start: Pixel, end: Pixel, color: Rgba)
        requires
            in_reach(start),
            in_reach(end),
        ensures
            final(self)@.width == old(self)@.width,
            final(self)@.height == old(self)@.height,
            final(self)@.pixels == blended_line(
                old(self)@.pixels,
                old(self)@.width,
                old(self)@.height,
                start,
                end,
                color,
            ),
    {
        proof {
            use_type_invariant(&*self);
        }
        blend_line(&mut self.data, self.width, self.height, start, end, color);
    }

    /// Fills the polygon with the corners of `quad` in `color`.
    pub(crate) fn fill(&mut self, quad: Quad, color: Rgba)
        requires
            old(self)@.width >= 1,
            old(self)@.height >= 1,
            in_reach(quad.start_plus),
            in_reach(quad.end_plus),
            in_reach(quad.end_minus),
            in_reach(quad.start_minus),
        ensures
            final(self)@.width == old(self)@.width,
            final(self)@.height == old(self)@.height,
            final(self)@.pixels == filled_polygon(
                old(self)@.pixels,
                old(self)@.width,
                old(self)@.height,
                quad,
                color,
            ),
            kept_or_painted(old(self)@.pixels, final(self)@.pixels, color),
    {
        proof {
            use_type_invariant(&*self);
        }
        fill_polygon(&mut self.data, self.width, self.height, quad, color);
    }

    /// The bytes of the canvas.
    pub fn as_raw(&self) -> (data: &Vec<u8>)
        ensures
            data@ == self@.pixels,
            data@.len() == buffer_len(self@.width, self@.height),
    {
        proof {
            use_type_invariant(self);
        }
        &self.data
    }

    /// Gives up the canvas for its bytes.
    pub fn into_raw(self) -> (data: Vec<u8>)
        ensures
            data@ == self@.pixels,
            data@.len() == buffer_len(self@.width, self@.height),
    {
        proof {
            use_type_invariant(&self);
        }
        self.data
    }
}

} // verus!
