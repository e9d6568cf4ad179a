//! A whole rendering from one request: onto a fresh canvas, or into a fresh
//! vector document.

use vstd::prelude::*;
use crate::canvas::{blank, can_hold, Canvas, CanvasView};
use crate::model::RenderRequest;
use crate::raster::{draw_edges, rendered, skipped, SkippedSegment};
use crate::vector::{
    document_attributes, document_children, draw_edges_svg, namespace_only, paths_drawn, view_box,
};

verus! {

/// `canvas` is what the raster rendering of `request` gives: a canvas of the
/// size asked for, on which every group was drawn in order, starting from
/// pixels that are all transparent black.
pub open spec fn is_raster_of(canvas: CanvasView, request: RenderRequest) -> bool {
    canvas == (CanvasView {
        width: request.target_width,
        height: request.target_height,
        pixels: rendered(
            blank(request.target_width, request.target_height),
            request.target_width,
            request.target_height,
            request.groups@,
        ),
    })
}

/// `document` is what the vector rendering of `request` gives: the view box
/// is that of the target, and the children are the paths of the segments.
pub open spec fn is_vector_of(document: svg::node::element::SVG, request: RenderRequest) -> bool {
    document_attributes(document) == namespace_only().insert(
        "viewBox"@,
        view_box(request.target_width, request.target_height),
    ) && document_children(document) == paths_drawn(
        request.groups@,
        request.target_width,
        request.target_height,
    )
}

/// Where a rendering goes.
pub enum RenderTarget {
    /// Onto a fresh canvas of the size that the request names, with every
    /// pixel transparent black.
    FreshCanvas,
    /// Onto a canvas that holds pixels already and has the size that the
    /// request names.
    LoadedCanvas(Canvas),
    /// Into a fresh vector document.
    VectorDocument,
}

/// What a rendering gives.
pub enum Rendering {
    /// The canvas that was drawn on, and the places of the segments that
    /// were left out.
    Raster(Canvas, Vec<SkippedSegment>),
    /// The vector document.
    Vector(svg::node::element::SVG),
}

/// `target` can take the rendering of `request`: a fresh canvas of the size
/// asked for can be held, a loaded canvas has the size asked for, a vector
/// document is always to be had.
pub open spec fn can_render(request: RenderRequest, target: RenderTarget) -> bool {
    match target {
        RenderTarget::FreshCanvas => can_hold(request.target_width, request.target_height),
        RenderTarget::LoadedCanvas(canvas) => canvas@.width == request.target_width
            && canvas@.height == request.target_height,
        RenderTarget::VectorDocument => true,
    }
}

/// `rendering` is what rendering `request` to `target` gives.
pub open spec fn is_rendering_of(
    rendering: Rendering,
    request: RenderRequest,
    target: RenderTarget,
) -> bool {
    match target {
        RenderTarget::FreshCanvas => rendering matches Rendering::Raster(canvas, left_out)
            && is_raster_of(canvas@, request) && left_out@ == skipped(
            request.target_width,
            request.target_height,
            request.groups@,
        ),
        RenderTarget::LoadedCanvas(loaded) => rendering matches Rendering::Raster(canvas, left_out)
            && canvas@ == (CanvasView {
            width: request.target_width,
            height: request.target_height,
            pixels: rendered(
                loaded@.pixels,
                request.target_width,
                request.target_height,
                request.groups@,
            ),
        }) && left_out@ == skipped(request.target_width, request.target_height, request.groups@),
        RenderTarget::VectorDocument => rendering matches Rendering::Vector(document)
            && is_vector_of(document, request),
    }
}

/// Renders a request to the target of the caller's choice: every group in
/// order, and within each group every line in order. Gives nothing where
/// the target cannot take the rendering, and only there.
pub fn render(request: &RenderRequest, target: RenderTarget) -> (rendering: Option<Rendering>)
    ensures
        can_render(*request, target) <==> rendering is Some,
        rendering is Some ==> is_rendering_of(rendering->Some_0, *request, target),
{
    match target {
        RenderTarget::FreshCanvas => {
            match render_raster(request) {
                Some((canvas, left_out)) => Some(Rendering::Raster(canvas, left_out)),
                None => None,
            }
        },
        RenderTarget::LoadedCanvas(loaded) => {
            if loaded.width() != request.target_width || loaded.height() != request.target_height {
                return None;
            }
            let mut canvas = loaded;
            let left_out: Vec<SkippedSegment> = draw_edges(&mut canvas, &request.groups);
            Some(Rendering::Raster(canvas, left_out))
        },
        RenderTarget::VectorDocument => Some(Rendering::Vector(render_vector(request))),
    }
}

/// Renders a request onto a fresh canvas. Gives the canvas and the places
/// of the segments that were left out; gives nothing where a canvas of the
/// size asked for cannot be held, and only there.
pub fn render_raster(request: &RenderRequest) -> (output: Option<(Canvas, Vec<SkippedSegment>)>)
    ensures
        can_hold(request.target_width, request.target_height) <==> output is Some,
        output is Some ==> is_raster_of(output->Some_0.0@, *request),
        output is Some ==> output->Some_0.1@ == skipped(
            request.target_width,
            request.target_height,
            request.groups@,
        ),
{
    match Canvas::new(request.target_width, request.target_height) {
        Some(canvas) => {
            let mut canvas = canvas;
            let left_out: Vec<SkippedSegment> = draw_edges(&mut canvas, &request.groups);
            Some((canvas, left_out))
        },
        None => None,
    }
}

/// Renders a request into a fresh vector document.
pub fn render_vector(request: &RenderRequest) -> (document: svg::node::element::SVG)
    ensures
        is_vector_of(document, *request),
{
    draw_edges_svg(&request.groups, request.target_width, request.target_height)
}

/// Rendering is repeatable: two raster renderings of one request are the
/// same, pixel for pixel.
pub proof fn lemma_raster_is_repeatable(request: RenderRequest, first: CanvasView, second: CanvasView)
    requires
        is_raster_of(first, request),
        is_raster_of(second, request),
    ensures
        first == second,
        first.pixels == second.pixels,
{
}

/// Rendering is repeatable: two vector renderings of one request hold the
/// same attributes and the same paths in the same order.
pub proof fn lemma_vector_is_repeatable(
    request: RenderRequest,
    first: svg::node::element::SVG,
    second: svg::node::element::SVG,
)
    requires
        is_vector_of(first, request),
        is_vector_of(second, request),
    ensures
        document_attributes(first) == document_attributes(second),
        document_children(first) == document_children(second),
{
}

} // verus!
