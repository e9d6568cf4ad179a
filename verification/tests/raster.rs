use edge_drawer::raster::pixel_under;
use edge_drawer::{
    draw_edges, draw_group, draw_segment, draw_thin_line_segment_mut, draw_wide_line_segment_mut,
    render_raster, uses_thin_path, Canvas, EdgeGroup, Point, RenderError, RenderRequest, Rgba,
    Segment, SkippedSegment, Uv, UNIT,
};
use image::RgbaImage;
use imageproc::drawing::{draw_antialiased_line_segment_mut, draw_polygon_mut};
use imageproc::pixelops::interpolate;

const RED: Rgba = Rgba { r: 255, g: 0, b: 0, a: 255 };
const BLUE: Rgba = Rgba { r: 0, g: 0, b: 255, a: 128 };
const CLEAR: Rgba = Rgba { r: 0, g: 0, b: 0, a: 0 };

fn fixed(x: f64) -> i64 {
    (x * UNIT as f64).round() as i64
}

fn uv(u: f64, v: f64) -> Uv {
    Uv { u: fixed(u), v: fixed(v) }
}

fn segment(u1: f64, v1: f64, u2: f64, v2: f64) -> Segment {
    Segment { uv1: uv(u1, v1), uv2: uv(u2, v2) }
}

fn group(line_width: f64, line_color: Rgba, lines: Vec<Segment>) -> EdgeGroup {
    EdgeGroup { line_width: fixed(line_width), line_color, lines }
}

fn ink(color: Rgba) -> image::Rgba<u8> {
    image::Rgba([color.r, color.g, color.b, color.a])
}

fn corner(x: i32, y: i32) -> imageproc::point::Point<i32> {
    imageproc::point::Point::new(x, y)
}

#[test]
fn canvas_starts_transparent() {
    let canvas = Canvas::new(4, 3).unwrap();
    assert_eq!(canvas.width(), 4);
    assert_eq!(canvas.height(), 3);
    assert_eq!(canvas.as_raw(), &vec![0u8; 48]);
    assert_eq!(canvas.get_pixel(3, 2), Some(CLEAR));
    assert_eq!(canvas.get_pixel(4, 2), None);
    assert_eq!(canvas.get_pixel(3, 3), None);
}

#[test]
fn canvas_without_pixels_can_be_made() {
    let canvas = Canvas::new(0, 7).unwrap();
    assert_eq!(canvas.width(), 0);
    assert_eq!(canvas.height(), 7);
    assert!(canvas.as_raw().is_empty());
    assert_eq!(canvas.get_pixel(0, 0), None);
}

#[test]
fn canvas_beyond_the_largest_dimension_cannot_be_made() {
    assert!(Canvas::new(0x4000_0001, 0).is_none());
    assert!(Canvas::new(0, 0x4000_0001).is_none());
    assert!(Canvas::new(0x4000_0000, 0).is_some());
    assert!(Canvas::new(u32::MAX, u32::MAX).is_none());
}

#[test]
fn canvas_from_raw_reads_pixels_row_by_row() {
    let data: Vec<u8> = (0u8..24).collect();
    let canvas = Canvas::from_raw(3, 2, data.clone()).unwrap();
    assert_eq!(canvas.get_pixel(0, 0), Some(Rgba { r: 0, g: 1, b: 2, a: 3 }));
    assert_eq!(canvas.get_pixel(2, 0), Some(Rgba { r: 8, g: 9, b: 10, a: 11 }));
    assert_eq!(canvas.get_pixel(0, 1), Some(Rgba { r: 12, g: 13, b: 14, a: 15 }));
    assert_eq!(canvas.get_pixel(2, 1), Some(Rgba { r: 20, g: 21, b: 22, a: 23 }));
    assert_eq!(canvas.into_raw(), data);
}

#[test]
fn canvas_from_raw_wants_the_exact_length() {
    assert!(Canvas::from_raw(3, 2, vec![0u8; 23]).is_none());
    assert!(Canvas::from_raw(3, 2, vec![0u8; 25]).is_none());
    assert!(Canvas::from_raw(3, 2, vec![0u8; 24]).is_some());
    assert!(Canvas::from_raw(0, 0, Vec::new()).is_some());
}

#[test]
fn canvas_agrees_with_an_image_buffer() {
    let mut image = RgbaImage::new(5, 4);
    image.put_pixel(3, 2, image::Rgba([9, 8, 7, 6]));
    let canvas = Canvas::from_raw(5, 4, image.clone().into_raw()).unwrap();
    assert_eq!(canvas.get_pixel(3, 2), Some(Rgba { r: 9, g: 8, b: 7, a: 6 }));
    let back = RgbaImage::from_raw(5, 4, canvas.into_raw()).unwrap();
    assert_eq!(back, image);
}

#[test]
fn pixel_under_a_point_cuts_both_fractions() {
    let pixel = pixel_under(Point { x: fixed(3.999999), y: fixed(-0.75) });
    assert_eq!((pixel.x, pixel.y), (3, 0));
    let other = pixel_under(Point { x: fixed(-7.5), y: fixed(12.0) });
    assert_eq!((other.x, other.y), (-7, 12));
}

#[test]
fn threshold_is_inclusive_on_the_thin_side() {
    assert!(uses_thin_path(fixed(1.0)));
    assert!(!uses_thin_path(fixed(1.0001)));
    assert!(uses_thin_path(fixed(0.5)));
    assert!(uses_thin_path(0));
    assert!(uses_thin_path(-UNIT));
    assert!(!uses_thin_path(UNIT + 1));
    assert!(!uses_thin_path(fixed(4.0)));
}

#[test]
fn thin_diagonal_on_a_small_canvas() {
    let groups = vec![group(0.5, RED, vec![segment(0.0, 0.0, 1.0, 1.0)])];
    let mut canvas = Canvas::new(10, 10).unwrap();
    let left_out = draw_edges(&mut canvas, &groups);
    assert!(left_out.is_empty());
    for y in 0..10u32 {
        for x in 0..10u32 {
            let expected = if x + y == 10 { RED } else { CLEAR };
            assert_eq!(canvas.get_pixel(x, y), Some(expected), "pixel ({}, {})", x, y);
        }
    }
    let mut image = RgbaImage::new(10, 10);
    draw_antialiased_line_segment_mut(&mut image, (0, 10), (10, 0), ink(RED), interpolate);
    assert_eq!(canvas.as_raw(), image.as_raw());
}

#[test]
fn thin_line_is_blended_where_it_covers_a_pixel_in_part() {
    let groups = vec![group(1.0, RED, vec![segment(0.0, 0.5, 1.0, 0.25)])];
    let mut canvas = Canvas::new(8, 8).unwrap();
    draw_edges(&mut canvas, &groups);
    let mut image = RgbaImage::new(8, 8);
    draw_antialiased_line_segment_mut(&mut image, (0, 4), (8, 6), ink(RED), interpolate);
    assert_eq!(canvas.as_raw(), image.as_raw());
    let partial = canvas.get_pixel(1, 4).unwrap();
    assert!(partial.a > 0 && partial.a < 255);
    let other = canvas.get_pixel(1, 5).unwrap();
    assert!(other.a > 0 && other.a < 255);
    assert_eq!(canvas.get_pixel(1, 2), Some(CLEAR));
}

#[test]
fn thin_line_blends_with_what_is_there() {
    let mut canvas = Canvas::from_raw(6, 6, vec![200u8; 144]).unwrap();
    draw_thin_line_segment_mut(
        &mut canvas,
        Point { x: 0, y: fixed(1.0) },
        Point { x: fixed(5.0), y: fixed(3.0) },
        BLUE,
    );
    let mut image = RgbaImage::from_raw(6, 6, vec![200u8; 144]).unwrap();
    draw_antialiased_line_segment_mut(&mut image, (0, 1), (5, 3), ink(BLUE), interpolate);
    assert_eq!(canvas.as_raw(), image.as_raw());
    assert_ne!(canvas.as_raw(), &vec![200u8; 144]);
}

#[test]
fn thin_line_cuts_fractions_before_it_draws() {
    let mut canvas = Canvas::new(12, 12).unwrap();
    draw_thin_line_segment_mut(
        &mut canvas,
        Point { x: fixed(1.9), y: fixed(2.999999) },
        Point { x: fixed(9.5), y: fixed(7.25) },
        RED,
    );
    let mut image = RgbaImage::new(12, 12);
    draw_antialiased_line_segment_mut(&mut image, (1, 2), (9, 7), ink(RED), interpolate);
    assert_eq!(canvas.as_raw(), image.as_raw());
}

#[test]
fn thin_line_outside_the_canvas_is_discarded() {
    let groups = vec![group(1.0, RED, vec![segment(-3.0, -2.0, -1.0, -1.5), segment(2.0, 0.5, 5.0, 0.5)])];
    let mut canvas = Canvas::new(10, 10).unwrap();
    let left_out = draw_edges(&mut canvas, &groups);
    assert!(left_out.is_empty());
    assert_eq!(canvas.as_raw(), &vec![0u8; 400]);
}

#[test]
fn thin_line_that_leaves_the_canvas_is_drawn_inside_it() {
    let groups = vec![group(1.0, RED, vec![segment(-0.5, 0.5, 1.5, 0.5)])];
    let mut canvas = Canvas::new(10, 10).unwrap();
    draw_edges(&mut canvas, &groups);
    for x in 0..10u32 {
        assert_eq!(canvas.get_pixel(x, 5), Some(RED));
        assert_eq!(canvas.get_pixel(x, 4), Some(CLEAR));
    }
}

#[test]
fn thin_segment_without_length_is_a_dot() {
    let mut canvas = Canvas::new(10, 10).unwrap();
    let result = draw_segment(&mut canvas, segment(0.35, 0.65, 0.35, 0.65), fixed(1.0), RED);
    assert_eq!(result, Ok(()));
    assert_eq!(canvas.get_pixel(3, 3), Some(RED));
    let mut image = RgbaImage::new(10, 10);
    draw_antialiased_line_segment_mut(&mut image, (3, 3), (3, 3), ink(RED), interpolate);
    assert_eq!(canvas.as_raw(), image.as_raw());
}

#[test]
fn wide_diagonal_on_a_small_canvas() {
    let groups = vec![group(4.0, RED, vec![segment(0.0, 0.0, 1.0, 1.0)])];
    let mut canvas = Canvas::new(10, 10).unwrap();
    let left_out = draw_edges(&mut canvas, &groups);
    assert!(left_out.is_empty());
    let mut image = RgbaImage::new(10, 10);
    let corners = [corner(1, 11), corner(11, 1), corner(8, -1), corner(-1, 8)];
    draw_polygon_mut(&mut image, &corners, ink(RED));
    assert_eq!(canvas.as_raw(), image.as_raw());
    for y in 0..10u32 {
        for x in 0..10u32 {
            let color = canvas.get_pixel(x, y).unwrap();
            assert!(color == RED || color == CLEAR, "pixel ({}, {}) is {:?}", x, y, color);
            if x + y == 9 || x + y == 10 {
                assert_eq!(color, RED);
            }
            if x + y <= 5 || x + y >= 14 {
                assert_eq!(color, CLEAR);
            }
        }
    }
}

#[test]
fn wide_stroke_overwrites_and_does_not_blend() {
    let mut canvas = Canvas::from_raw(8, 8, vec![200u8; 256]).unwrap();
    let result = draw_wide_line_segment_mut(
        &mut canvas,
        Point { x: fixed(1.0), y: fixed(4.0) },
        Point { x: fixed(6.0), y: fixed(4.0) },
        fixed(3.0),
        BLUE,
    );
    assert_eq!(result, Ok(()));
    let mut image = RgbaImage::from_raw(8, 8, vec![200u8; 256]).unwrap();
    let corners = [corner(1, 5), corner(6, 5), corner(6, 2), corner(1, 2)];
    draw_polygon_mut(&mut image, &corners, ink(BLUE));
    assert_eq!(canvas.as_raw(), image.as_raw());
    let old = Rgba { r: 200, g: 200, b: 200, a: 200 };
    for y in 0..8u32 {
        for x in 0..8u32 {
            let inside = (1..=6).contains(&x) && (2..=5).contains(&y);
            assert_eq!(canvas.get_pixel(x, y), Some(if inside { BLUE } else { old }));
        }
    }
}

#[test]
fn wide_stroke_outside_the_canvas_is_discarded() {
    let mut canvas = Canvas::new(10, 10).unwrap();
    let result = draw_wide_line_segment_mut(
        &mut canvas,
        Point { x: fixed(-50.0), y: fixed(-40.0) },
        Point { x: fixed(-20.0), y: fixed(-30.0) },
        fixed(5.0),
        RED,
    );
    assert_eq!(result, Ok(()));
    assert_eq!(canvas.as_raw(), &vec![0u8; 400]);
}

#[test]
fn wide_stroke_far_outside_the_canvas_returns() {
    let mut canvas = Canvas::new(10, 10).unwrap();
    let result = draw_segment(&mut canvas, segment(1000.0, 0.5, 1000.000001, 0.5), fixed(5.0), RED);
    assert_eq!(result, Ok(()));
    assert_eq!(canvas.as_raw(), &vec![0u8; 400]);
}

#[test]
fn wide_segment_without_length_is_left_out() {
    let mut canvas = Canvas::from_raw(4, 4, vec![7u8; 64]).unwrap();
    let result = draw_segment(&mut canvas, segment(0.5, 0.5, 0.5, 0.5), fixed(4.0), RED);
    assert_eq!(result, Err(RenderError::DegenerateGeometry));
    assert_eq!(canvas.as_raw(), &vec![7u8; 64]);
    let result = draw_wide_line_segment_mut(
        &mut canvas,
        Point { x: 5, y: 5 },
        Point { x: 5, y: 5 },
        fixed(4.0),
        RED,
    );
    assert_eq!(result, Err(RenderError::DegenerateGeometry));
    assert_eq!(canvas.as_raw(), &vec![7u8; 64]);
}

#[test]
fn segment_without_length_does_not_spoil_the_rest() {
    let good_before = segment(0.1, 0.2, 0.9, 0.3);
    let bad = segment(0.4, 0.4, 0.4, 0.4);
    let good_after = segment(0.2, 0.9, 0.7, 0.1);
    let with_bad = vec![
        group(3.0, RED, vec![good_before, bad, good_after]),
        group(2.0, BLUE, vec![bad]),
        group(1.0, BLUE, vec![bad]),
    ];
    let without_bad = vec![
        group(3.0, RED, vec![good_before, good_after]),
        group(2.0, BLUE, vec![]),
        group(1.0, BLUE, vec![bad]),
    ];
    let mut first = Canvas::new(32, 32).unwrap();
    let left_out = draw_edges(&mut first, &with_bad);
    assert_eq!(
        left_out,
        vec![SkippedSegment { group: 0, line: 1 }, SkippedSegment { group: 1, line: 0 }]
    );
    let mut second = Canvas::new(32, 32).unwrap();
    assert!(draw_edges(&mut second, &without_bad).is_empty());
    assert_eq!(first.as_raw(), second.as_raw());
    assert_ne!(first.as_raw(), &vec![0u8; 32 * 32 * 4]);
}

#[test]
fn group_reports_its_own_place() {
    let bad = segment(0.4, 0.4, 0.4, 0.4);
    let mut canvas = Canvas::new(8, 8).unwrap();
    let left_out = draw_group(&mut canvas, &group(2.0, RED, vec![bad, segment(0.0, 0.0, 1.0, 1.0), bad]), 5);
    assert_eq!(
        left_out,
        vec![SkippedSegment { group: 5, line: 0 }, SkippedSegment { group: 5, line: 2 }]
    );
}

#[test]
fn width_just_above_one_pixel_takes_the_wide_path() {
    let line = segment(0.1, 0.5, 0.9, 0.5);
    let mut thin = Canvas::new(10, 10).unwrap();
    draw_edges(&mut thin, &vec![group(1.0, RED, vec![line])]);
    let mut expected_thin = RgbaImage::new(10, 10);
    draw_antialiased_line_segment_mut(&mut expected_thin, (1, 5), (9, 5), ink(RED), interpolate);
    assert_eq!(thin.as_raw(), expected_thin.as_raw());

    let mut wide = Canvas::new(10, 10).unwrap();
    draw_edges(&mut wide, &vec![group(1.0001, RED, vec![line])]);
    let mut expected_wide = RgbaImage::new(10, 10);
    let corners = [corner(1, 5), corner(9, 5), corner(9, 4), corner(1, 4)];
    draw_polygon_mut(&mut expected_wide, &corners, ink(RED));
    assert_eq!(wide.as_raw(), expected_wide.as_raw());
    assert_ne!(thin.as_raw(), wide.as_raw());
}

#[test]
fn groups_without_lines_leave_the_canvas_as_it_was() {
    let groups = vec![group(0.5, RED, vec![]), group(4.0, BLUE, vec![]), group(1.0, RED, vec![])];
    let mut fresh = Canvas::new(10, 10).unwrap();
    assert!(draw_edges(&mut fresh, &groups).is_empty());
    assert_eq!(fresh.as_raw(), &vec![0u8; 400]);

    let base: Vec<u8> = (0..400u32).map(|i| (i % 251) as u8).collect();
    let mut loaded = Canvas::from_raw(10, 10, base.clone()).unwrap();
    assert!(draw_edges(&mut loaded, &groups).is_empty());
    assert_eq!(loaded.as_raw(), &base);

    let mut none = Canvas::new(10, 10).unwrap();
    assert!(draw_edges(&mut none, &Vec::new()).is_empty());
    assert_eq!(none.as_raw(), &vec![0u8; 400]);
}

#[test]
fn later_strokes_lie_over_earlier_ones() {
    let across = segment(0.0, 0.5, 1.0, 0.5);
    let down = segment(0.5, 0.0, 0.5, 1.0);
    let mut canvas = Canvas::new(10, 10).unwrap();
    draw_edges(&mut canvas, &vec![group(3.0, RED, vec![across]), group(3.0, BLUE, vec![down])]);
    assert_eq!(canvas.get_pixel(5, 5), Some(BLUE));
    assert_eq!(canvas.get_pixel(1, 5), Some(RED));
    let mut other = Canvas::new(10, 10).unwrap();
    draw_edges(&mut other, &vec![group(3.0, BLUE, vec![down]), group(3.0, RED, vec![across])]);
    assert_eq!(other.get_pixel(5, 5), Some(RED));
    assert_eq!(other.get_pixel(5, 1), Some(BLUE));
}

#[test]
fn canvas_without_pixels_takes_no_geometry() {
    let bad = segment(0.4, 0.4, 0.4, 0.4);
    let groups = vec![group(4.0, RED, vec![bad, segment(0.0, 0.0, 1.0, 1.0)]), group(1.0, RED, vec![bad])];
    for (width, height) in [(0u32, 0u32), (0, 10), (10, 0)] {
        let mut canvas = Canvas::new(width, height).unwrap();
        assert!(draw_edges(&mut canvas, &groups).is_empty());
        assert!(canvas.as_raw().is_empty());
        assert_eq!(draw_segment(&mut canvas, bad, fixed(4.0), RED), Ok(()));
        assert_eq!(canvas.width(), width);
        assert_eq!(canvas.height(), height);
    }
}

#[test]
fn rendering_twice_gives_the_same_pixels() {
    let request = RenderRequest {
        target_width: 40,
        target_height: 30,
        groups: vec![
            group(0.5, RED, vec![segment(0.0, 0.0, 1.0, 1.0), segment(0.1, 0.9, 0.8, 0.2)]),
            group(5.0, BLUE, vec![segment(0.2, 0.2, 0.9, 0.4), segment(0.3, 0.3, 0.3, 0.3)]),
        ],
    };
    let (first, first_left_out) = render_raster(&request).unwrap();
    let (second, second_left_out) = render_raster(&request).unwrap();
    assert_eq!(first.as_raw(), second.as_raw());
    assert_eq!(first_left_out, second_left_out);
    assert_eq!(first_left_out, vec![SkippedSegment { group: 1, line: 1 }]);
    assert_eq!((first.width(), first.height()), (40, 30));

    let mut by_hand = Canvas::new(40, 30).unwrap();
    draw_edges(&mut by_hand, &request.groups);
    assert_eq!(first.as_raw(), by_hand.as_raw());
    assert_ne!(first.as_raw(), &vec![0u8; 40 * 30 * 4]);
}

#[test]
fn rendering_onto_a_target_that_cannot_be_held_gives_nothing() {
    let request = RenderRequest { target_width: u32::MAX, target_height: 1, groups: Vec::new() };
    assert!(render_raster(&request).is_none());
}

#[test]
fn rendering_agrees_with_floating_point_on_a_plain_request() {
    let lines = [(0.1f32, 0.2f32, 0.9f32, 0.3f32), (0.25, 0.75, 0.5, 0.125), (0.0, 1.0, 1.0, 0.0)];
    let (width, height) = (64u32, 48u32);
    for line_width in [0.5f32, 1.0, 3.0, 6.5] {
        let mut image = RgbaImage::new(width, height);
        let mut segments = Vec::new();
        for (u1, v1, u2, v2) in lines {
            segments.push(segment(u1 as f64, v1 as f64, u2 as f64, v2 as f64));
            let x1 = u1 * width as f32;
            let y1 = (1.0 - v1) * height as f32;
            let x2 = u2 * width as f32;
            let y2 = (1.0 - v2) * height as f32;
            if line_width <= 1.0 {
                draw_antialiased_line_segment_mut(
                    &mut image,
                    (x1 as i32, y1 as i32),
                    (x2 as i32, y2 as i32),
                    ink(RED),
                    interpolate,
                );
            } else {
                let dx = x2 - x1;
                let dy = y2 - y1;
                let norm = (dx * dx + dy * dy).sqrt();
                let px = -dy / norm * line_width / 2.0;
                let py = dx / norm * line_width / 2.0;
                let corners = [
                    corner((x1 + px) as i32, (y1 + py) as i32),
                    corner((x2 + px) as i32, (y2 + py) as i32),
                    corner((x2 - px) as i32, (y2 - py) as i32),
                    corner((x1 - px) as i32, (y1 - py) as i32),
                ];
                draw_polygon_mut(&mut image, &corners, ink(RED));
            }
        }
        let mut canvas = Canvas::new(width, height).unwrap();
        draw_edges(&mut canvas, &vec![group(line_width as f64, RED, segments)]);
        assert_eq!(canvas.as_raw(), image.as_raw(), "line width {}", line_width);
    }
}
