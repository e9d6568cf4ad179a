//! Draws line segments given in normalised UV space onto a pixel canvas or into
//! a vector document.
//!
//! Every length in this crate is a fixed-point number: an integer count of
//! millionths (see [`units::UNIT`]). A UV coordinate of one half is `500_000`,
//! a stroke width of four pixels is `4_000_000`. Arithmetic on such numbers is
//! exact, and where a result is rounded the contract says how.
//!
//! A stroke of at most one pixel is drawn as a thin antialiased line, a wider
//! one as a filled rectangle; both are rasterised by `imageproc`. The vector
//! renderer builds a document of the `svg` crate.

pub mod units;
pub mod root;
pub mod single;
pub mod model;
pub mod mapper;
pub mod wide;
pub mod imaging;
pub mod canvas;
pub mod raster;
pub mod text;
pub mod vector;
pub mod render;

pub use crate::canvas::Canvas;
pub use crate::mapper::uv_to_pixel;
pub use crate::model::{EdgeGroup, Pixel, Point, RenderError, RenderRequest, Rgba, Segment, Uv};
pub use crate::raster::{
    draw_edges, draw_group, draw_segment, draw_thin_line_segment_mut, draw_wide_line_segment_mut,
    uses_thin_path, SkippedSegment,
};
pub use crate::single::fixed_from_bits;
pub use crate::render::{render, render_raster, render_vector, RenderTarget, Rendering};
pub use crate::units::{COORD_MAX, PIXEL_MAX, UNIT};
pub use crate::vector::{draw_edges_svg, segment_path};
pub use crate::wide::{wide_line_polygon, Quad};
