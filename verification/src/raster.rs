//! The raster renderer: every segment of every group, in order, as a thin
//! antialiased line or as a filled wide stroke.

use vstd::prelude::*;
use crate::canvas::Canvas;
use crate::imaging::{blended_line, filled_polygon, kept_or_painted, pixel_color};
use crate::mapper::{mapped, uv_to_pixel};
use crate::model::{EdgeGroup, Pixel, Point, RenderError, Rgba, Segment};
use crate::units::{to_pixel, UNIT};
use crate::wide::{is_degenerate, pixel_at, quad_of, wide_line_polygon};

verus! {

/// A segment that was left out of a rendering because no wide stroke exists
/// for it: the place of its group among the groups, and its place among the
/// lines of its group.
#[derive(Clone, Copy, Debug, PartialEq, Eq)]
pub struct SkippedSegment {
    pub group: usize,
    pub line: usize,
}

/// A stroke of this width is drawn as a thin antialiased line: a width of
/// one pixel is thin, anything above is wide.
pub open spec fn is_thin(line_width: i64) -> bool {
    line_width <= UNIT
}

/// The bytes after the thin line from `start` to `end`: both ends are
/// rounded toward zero to whole pixels, and the line is blended in.
pub open spec fn thin_stroke(
    pixels: Seq<u8>,
    width: u32,
    height: u32,
    start: Point,
    end: Point,
    color: Rgba,
) -> Seq<u8> {
    blended_line(
        pixels,
        width,
        height,
        pixel_at(start.x as int, start.y as int),
        pixel_at(end.x as int, end.y as int),
        color,
    )
}

/// The bytes after the wide stroke from `start` to `end`: its rectangle,
/// filled; nothing where the canvas has no pixels or the stroke does not
/// exist.
pub open spec fn wide_stroke(
    pixels: Seq<u8>,
    width: u32,
    height: u32,
    start: Point,
    end: Point,
    line_width: i64,
    color: Rgba,
) -> Seq<u8> {
    if width == 0 || height == 0 || is_degenerate(start, end, line_width) {
        pixels
    } else {
        filled_polygon(pixels, width, height, quad_of(start, end, line_width), color)
    }
}

/// The segment is left out on a canvas of this size at this stroke width.
/// A canvas without pixels takes no geometry at all, so nothing is left out
/// of it.
pub open spec fn is_skipped(width: u32, height: u32, segment: Segment, line_width: i64) -> bool {
    width > 0 && height > 0 && !is_thin(line_width) && is_degenerate(
        mapped(segment.uv1, width, height),
        mapped(segment.uv2, width, height),
        line_width,
    )
}

/// The bytes after one segment: both ends mapped to pixel space, then the
/// thin line or the wide stroke. A canvas without pixels stays as it is.
pub open spec fn stroke(
    pixels: Seq<u8>,
    width: u32,
    height: u32,
    segment: Segment,
    line_width: i64,
    color: Rgba,
) -> Seq<u8> {
    if width == 0 || height == 0 {
        pixels
    } else if is_thin(line_width) {
        thin_stroke(
            pixels,
            width,
            height,
            mapped(segment.uv1, width, height),
            mapped(segment.uv2, width, height),
            color,
        )
    } else {
        wide_stroke(
            pixels,
            width,
            height,
            mapped(segment.uv1, width, height),
            mapped(segment.uv2, width, height),
            line_width,
            color,
        )
    }
}

/// The bytes after the first `upto` of `lines`, each drawn onto what the
/// ones before it left.
pub open spec fn lines_drawn(
    pixels: Seq<u8>,
    width: u32,
    height: u32,
    line_width: i64,
    color: Rgba,
    lines: Seq<Segment>,
    upto: int,
) -> Seq<u8>
    decreases upto,
{
    if upto <= 0 {
        pixels
    } else {
        stroke(
            lines_drawn(pixels, width, height, line_width, color, lines, upto - 1),
            width,
            height,
            lines[upto - 1],
            line_width,
            color,
        )
    }
}

/// The bytes after all lines of one group.
pub open spec fn group_drawn(pixels: Seq<u8>, width: u32, height: u32, group: EdgeGroup) -> Seq<
    u8,
> {
    lines_drawn(
        pixels,
        width,
        height,
        group.line_width,
        group.line_color,
        group.lines@,
        group.lines@.len() as int,
    )
}

/// The bytes after the first `upto` of `groups`, each drawn onto what the
/// ones before it left.
pub open spec fn groups_drawn(
    pixels: Seq<u8>,
    width: u32,
    height: u32,
    groups: Seq<EdgeGroup>,
    upto: int,
) -> Seq<u8>
    decreases upto,
{
    if upto <= 0 {
        pixels
    } else {
        group_drawn(
            groups_drawn(pixels, width, height, groups, upto - 1),
            width,
            height,
            groups[upto - 1],
        )
    }
}

/// The bytes after all of `groups`.
pub open spec fn rendered(pixels: Seq<u8>, width: u32, height: u32, groups: Seq<EdgeGroup>) -> Seq<
    u8,
> {
    groups_drawn(pixels, width, height, groups, groups.len() as int)
}

/// The segments left out among the first `upto` lines of the group at place
/// `group`, in order.
pub open spec fn lines_skipped(
    width: u32,
    height: u32,
    line_width: i64,
    lines: Seq<Segment>,
    group: int,
    upto: int,
) -> Seq<SkippedSegment>
    decreases upto,
{
    if upto <= 0 {
        Seq::empty()
    } else {
        let before = lines_skipped(width, height, line_width, lines, group, upto - 1);
        if is_skipped(width, height, lines[upto - 1], line_width) {
            before.push(SkippedSegment { group: group as usize, line: (upto - 1) as usize })
        } else {
            before
        }
    }
}

/// The segments left out among the first `upto` of `groups`, in order.
pub open spec fn groups_skipped(width: u32, height: u32, groups: Seq<EdgeGroup>, upto: int) -> Seq<
    SkippedSegment,
>
    decreases upto,
{
    if upto <= 0 {
        Seq::empty()
    } else {
        groups_skipped(width, height, groups, upto - 1) + lines_skipped(
            width,
            height,
            groups[upto - 1].line_width,
            groups[upto - 1].lines@,
            upto - 1,
            groups[upto - 1].lines@.len() as int,
        )
    }
}

/// All segments of `groups` that are left out, in order.
pub open spec fn skipped(width: u32, height: u32, groups: Seq<EdgeGroup>) -> Seq<SkippedSegment> {
    groups_skipped(width, height, groups, groups.len() as int)
}

/// Says which of the two rasterisers draws a stroke of this width.
pub fn uses_thin_path(line_width: i64) -> (thin: bool)
    ensures
        thin == is_thin(line_width),
        thin <==> line_width <= UNIT,
{
    line_width <= UNIT
}

/// Rounds a point of pixel space to its whole pixel, toward zero.
pub fn pixel_under(p: Point) -> (pixel: Pixel)
    ensures
        pixel == pixel_at(p.x as int, p.y as int),
{
    Pixel { x: to_pixel(p.x as i128), y: to_pixel(p.y as i128) }
}

/// Draws the thin antialiased line from `start` to `end`, both in pixel
/// space. What lies outside the canvas is not drawn.
pub fn draw_thin_line_segment_mut(canvas: &mut Canvas, start: Point, end: Point, color: Rgba)
    ensures
        final(canvas)@.width == old(canvas)@.width,
        final(canvas)@.height == old(canvas)@.height,
        final(canvas)@.pixels == thin_stroke(
            old(canvas)@.pixels,
            old(canvas)@.width,
            old(canvas)@.height,
            start,
            end,
            color,
        ),
{
    let from: Pixel = pixel_under(start);
    let to: Pixel = pixel_under(end);
    canvas.blend(from, to, color);
}

/// Draws the wide stroke of `line_width` from `start` to `end`, both in
/// pixel space, as a filled rectangle. The stroke is written over what was
/// there: every pixel keeps its colour or takes `line_color` as it is. Fails,
/// and draws nothing, where the stroke does not exist.
pub fn draw_wide_line_segment_mut(
    canvas: &mut Canvas,
    start: Point,
    end: Point,
    line_width: i64,
    line_color: Rgba,
) -> (result: Result<(), RenderError>)
    ensures
        final(canvas)@.width == old(canvas)@.width,
        final(canvas)@.height == old(canvas)@.height,
        final(canvas)@.pixels == wide_stroke(
            old(canvas)@.pixels,
            old(canvas)@.width,
            old(canvas)@.height,
            start,
            end,
            line_width,
            line_color,
        ),
        kept_or_painted(old(canvas)@.pixels, final(canvas)@.pixels, line_color),
        is_degenerate(start, end, line_width) <==> result is Err,
        result is Err ==> result == Err::<(), RenderError>(RenderError::DegenerateGeometry),
        result is Err ==> final(canvas)@ == old(canvas)@,
{
    match wide_line_polygon(start, end, line_width) {
        Ok(quad) => {
            if canvas.width() > 0 && canvas.height() > 0 {
                canvas.fill(quad, line_color);
            }
            Ok(())
        },
        Err(e) => Err(e),
    }
}

/// Draws one segment of UV space: maps both ends to pixel space, then draws
/// the thin line where the width is at most one pixel, the wide stroke
/// otherwise. Fails, and draws nothing, where the wide stroke does not exist.
/// Nothing is mapped or drawn on a canvas without pixels.
pub fn draw_segment(canvas: &mut Canvas, segment: Segment, line_width: i64, line_color: Rgba) -> (result:
    Result<(), RenderError>)
    ensures
        final(canvas)@.width == old(canvas)@.width,
        final(canvas)@.height == old(canvas)@.height,
        final(canvas)@.pixels == stroke(
            old(canvas)@.pixels,
            old(canvas)@.width,
            old(canvas)@.height,
            segment,
            line_width,
            line_color,
        ),
        !is_thin(line_width) ==> kept_or_painted(
            old(canvas)@.pixels,
            final(canvas)@.pixels,
            line_color,
        ),
        is_skipped(old(canvas)@.width, old(canvas)@.height, segment, line_width) <==> result is Err,
        result is Err ==> result == Err::<(), RenderError>(RenderError::DegenerateGeometry),
        result is Err ==> final(canvas)@ == old(canvas)@,
{
    let width: u32 = canvas.width();
    let height: u32 = canvas.height();
    if width == 0 || height == 0 {
        return Ok(());
    }
    let start: Point = uv_to_pixel(segment.uv1, width, height);
    let end: Point = uv_to_pixel(segment.uv2, width, height);
    if uses_thin_path(line_width) {
        draw_thin_line_segment_mut(canvas, start, end, line_color);
        Ok(())
    } else {
        draw_wide_line_segment_mut(canvas, start, end, line_width, line_color)
    }
}

/// What was painted in one colour twice was painted in that colour.
pub proof fn lemma_painting_twice(first: Seq<u8>, second: Seq<u8>, third: Seq<u8>, color: Rgba)
    requires
        kept_or_painted(first, second, color),
        kept_or_painted(second, third, color),
    ensures
        kept_or_painted(first, third, color),
{
    assert forall|k: int| 0 <= k && 4 * k + 3 < first.len() implies #[trigger] pixel_color(
        third,
        k,
    ) == pixel_color(first, k) || pixel_color(third, k) == color by {
        assert(pixel_color(second, k) == pixel_color(first, k) || pixel_color(second, k) == color);
    }
}

/// Draws all lines of one group in order. A line without a wide stroke is
/// left out and the rest is drawn; the places of the lines left out come
/// back, in order. The strokes of a wide group are written over what was
/// there: every pixel keeps its colour or takes the colour of the group as
/// it is.
pub fn draw_group(canvas: &mut Canvas, group: &EdgeGroup, index: usize) -> (left_out: Vec<
    SkippedSegment,
>)
    ensures
        final(canvas)@.width == old(canvas)@.width,
        final(canvas)@.height == old(canvas)@.height,
        final(canvas)@.pixels == group_drawn(
            old(canvas)@.pixels,
            old(canvas)@.width,
            old(canvas)@.height,
            *group,
        ),
        left_out@ == lines_skipped(
            old(canvas)@.width,
            old(canvas)@.height,
            group.line_width,
            group.lines@,
            index as int,
            group.lines@.len() as int,
        ),
        !is_thin(group.line_width) ==> kept_or_painted(
            old(canvas)@.pixels,
            final(canvas)@.pixels,
            group.line_color,
        ),
{
    let mut left_out: Vec<SkippedSegment> = Vec::new();
    let mut i: usize = 0;
    while i < group.lines.len()
        invariant
            i <= group.lines@.len(),
            canvas@.width == old(canvas)@.width,
            canvas@.height == old(canvas)@.height,
            !is_thin(group.line_width) ==> kept_or_painted(
                old(canvas)@.pixels,
                canvas@.pixels,
                group.line_color,
            ),
            canvas@.pixels == lines_drawn(
                old(canvas)@.pixels,
                old(canvas)@.width,
                old(canvas)@.height,
                group.line_width,
                group.line_color,
                group.lines@,
                i as int,
            ),
            left_out@ == lines_skipped(
                old(canvas)@.width,
                old(canvas)@.height,
                group.line_width,
                group.lines@,
                index as int,
                i as int,
            ),
        decreases group.lines@.len() - i,
    {
        let segment: Segment = group.lines[i];
        let ghost before = canvas@.pixels;
        match draw_segment(canvas, segment, group.line_width, group.line_color) {
            Ok(()) => {},
            Err(_) => {
                left_out.push(SkippedSegment { group: index, line: i });
            },
        }
        proof {
            if !is_thin(group.line_width) {
                lemma_painting_twice(old(canvas)@.pixels, before, canvas@.pixels, group.line_color);
            }
        }
        i = i + 1;
    }
    left_out
}

/// Draws all groups in order, and within each group all lines in order, so
/// that what is drawn later lies over what was drawn before. A line without
/// a wide stroke is left out and everything else is drawn; the places of the
/// lines left out come back, in order.
pub fn draw_edges(canvas: &mut Canvas, edges: &Vec<EdgeGroup>) -> (left_out: Vec<SkippedSegment>)
    ensures
        final(canvas)@.width == old(canvas)@.width,
        final(canvas)@.height == old(canvas)@.height,
        final(canvas)@.pixels == rendered(
            old(canvas)@.pixels,
            old(canvas)@.width,
            old(canvas)@.height,
            edges@,
        ),
        left_out@ == skipped(old(canvas)@.width, old(canvas)@.height, edges@),
{
    let mut left_out: Vec<SkippedSegment> = Vec::new();
    let mut i: usize = 0;
    while i < edges.len()
        invariant
            i <= edges@.len(),
            canvas@.width == old(canvas)@.width,
            canvas@.height == old(canvas)@.height,
            canvas@.pixels == groups_drawn(
                old(canvas)@.pixels,
                old(canvas)@.width,
                old(canvas)@.height,
                edges@,
                i as int,
            ),
            left_out@ == groups_skipped(
                old(canvas)@.width,
                old(canvas)@.height,
                edges@,
                i as int,
            ),
        decreases edges@.len() - i,
    {
        let mut more: Vec<SkippedSegment> = draw_group(canvas, &edges[i], i);
        left_out.append(&mut more);
        i = i + 1;
    }
    left_out
}

/// A segment whose two ends coincide has no wide stroke: on a canvas with
/// pixels it is left out, and on any canvas it leaves the pixels as they
/// were.
pub proof fn lemma_pointlike_segment_is_left_out(
    pixels: Seq<u8>,
    width: u32,
    height: u32,
    segment: Segment,
    line_width: i64,
    color: Rgba,
)
    requires
        segment.uv1 == segment.uv2,
        !is_thin(line_width),
    ensures
        stroke(pixels, width, height, segment, line_width, color) == pixels,
        width > 0 && height > 0 ==> is_skipped(width, height, segment, line_width),
{
}

/// A segment that is left out leaves the pixels as they were.
pub proof fn lemma_skipped_segment_draws_nothing(
    pixels: Seq<u8>,
    width: u32,
    height: u32,
    segment: Segment,
    line_width: i64,
    color: Rgba,
)
    requires
        is_skipped(width, height, segment, line_width),
    ensures
        stroke(pixels, width, height, segment, line_width, color) == pixels,
{
}

/// The lines before a place are drawn alike whether or not the line at that
/// place is there.
proof fn lemma_lines_before_removed(
    pixels: Seq<u8>,
    width: u32,
    height: u32,
    line_width: i64,
    color: Rgba,
    lines: Seq<Segment>,
    at: int,
    upto: int,
)
    requires
        0 <= at < lines.len(),
        0 <= upto <= at,
    ensures
        lines_drawn(pixels, width, height, line_width, color, lines, upto) == lines_drawn(
            pixels,
            width,
            height,
            line_width,
            color,
            lines.remove(at),
            upto,
        ),
    decreases upto,
{
    if upto > 0 {
        lemma_lines_before_removed(pixels, width, height, line_width, color, lines, at, upto - 1);
    }
}

/// From a line that is left out onwards, the lines are drawn alike with or
/// without it.
proof fn lemma_lines_after_removed(
    pixels: Seq<u8>,
    width: u32,
    height: u32,
    line_width: i64,
    color: Rgba,
    lines: Seq<Segment>,
    at: int,
    upto: int,
)
    requires
        0 <= at < upto <= lines.len(),
        is_skipped(width, height, lines[at], line_width),
    ensures
        lines_drawn(pixels, width, height, line_width, color, lines, upto) == lines_drawn(
            pixels,
            width,
            height,
            line_width,
            color,
            lines.remove(at),
            upto - 1,
        ),
    decreases upto,
{
    if upto == at + 1 {
        lemma_lines_before_removed(pixels, width, height, line_width, color, lines, at, at);
    } else {
        lemma_lines_after_removed(pixels, width, height, line_width, color, lines, at, upto - 1);
    }
}

/// A line that is left out does not touch what the lines around it draw:
/// the group is drawn as it would be without that line.
pub proof fn lemma_skipped_line_leaves_no_trace(
    pixels: Seq<u8>,
    width: u32,
    height: u32,
    line_width: i64,
    color: Rgba,
    lines: Seq<Segment>,
    at: int,
)
    requires
        0 <= at < lines.len(),
        is_skipped(width, height, lines[at], line_width),
    ensures
        lines_drawn(pixels, width, height, line_width, color, lines, lines.len() as int)
            == lines_drawn(
            pixels,
            width,
            height,
            line_width,
            color,
            lines.remove(at),
            lines.remove(at).len() as int,
        ),
{
    lemma_lines_after_removed(
        pixels,
        width,
        height,
        line_width,
        color,
        lines,
        at,
        lines.len() as int,
    );
}

/// No group among `groups` has a line.
pub open spec fn without_lines(groups: Seq<EdgeGroup>) -> bool {
    forall|i: int| 0 <= i < groups.len() ==> (#[trigger] groups[i]).lines@.len() == 0
}

/// Groups without lines draw nothing and leave nothing out, however many
/// of them are drawn.
proof fn lemma_groups_without_lines(
    pixels: Seq<u8>,
    width: u32,
    height: u32,
    groups: Seq<EdgeGroup>,
    upto: int,
)
    requires
        without_lines(groups),
        0 <= upto <= groups.len(),
    ensures
        groups_drawn(pixels, width, height, groups, upto) == pixels,
        groups_skipped(width, height, groups, upto) == Seq::<SkippedSegment>::empty(),
    decreases upto,
{
    if upto > 0 {
        lemma_groups_without_lines(pixels, width, height, groups, upto - 1);
        assert(groups[upto - 1].lines@.len() == 0);
        assert(groups_skipped(width, height, groups, upto) =~= Seq::<SkippedSegment>::empty());
    }
}

/// Where no group has a line, the canvas comes out as it went in, and no
/// line is left out.
pub proof fn lemma_nothing_to_draw(pixels: Seq<u8>, width: u32, height: u32, groups: Seq<EdgeGroup>)
    requires
        without_lines(groups),
    ensures
        rendered(pixels, width, height, groups) == pixels,
        skipped(width, height, groups) == Seq::<SkippedSegment>::empty(),
{
    lemma_groups_without_lines(pixels, width, height, groups, groups.len() as int);
}

} // verus!
