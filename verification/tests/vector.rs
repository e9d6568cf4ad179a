use edge_drawer::text::{decimal_text, fixed_text};
use edge_drawer::vector::{path_data_text, stroke_paint_text, view_box_text};
use edge_drawer::{
    draw_edges_svg, render_vector, segment_path, EdgeGroup, Point, RenderRequest, Rgba, Segment, Uv,
    UNIT,
};
use svg::node::element::path::Data;
use svg::node::element::Path;
use svg::{Document, Node};

const RED: Rgba = Rgba { r: 255, g: 0, b: 0, a: 255 };

fn fixed(x: f64) -> i64 {
    (x * UNIT as f64).round() as i64
}

fn segment(u1: f64, v1: f64, u2: f64, v2: f64) -> Segment {
    Segment { uv1: Uv { u: fixed(u1), v: fixed(v1) }, uv2: Uv { u: fixed(u2), v: fixed(v2) } }
}

fn group(line_width: f64, line_color: Rgba, lines: Vec<Segment>) -> EdgeGroup {
    EdgeGroup { line_width: fixed(line_width), line_color, lines }
}

fn attribute(node: &dyn Node, name: &str) -> String {
    node.get_attributes().unwrap().get(name).unwrap().to_string()
}

fn attribute_count(node: &dyn Node) -> usize {
    node.get_attributes().unwrap().len()
}

fn children(node: &dyn Node) -> &Vec<Box<dyn Node>> {
    node.get_children().unwrap()
}

#[test]
fn decimal_text_writes_whole_numbers() {
    assert_eq!(decimal_text(0), "0");
    assert_eq!(decimal_text(7), "7");
    assert_eq!(decimal_text(10), "10");
    assert_eq!(decimal_text(255), "255");
    assert_eq!(decimal_text(1_000_000), "1000000");
    assert_eq!(decimal_text(u64::MAX), u64::MAX.to_string());
}

#[test]
fn fixed_text_writes_fractions_without_trailing_zeros() {
    assert_eq!(fixed_text(0), "0");
    assert_eq!(fixed_text(UNIT), "1");
    assert_eq!(fixed_text(500_000), "0.5");
    assert_eq!(fixed_text(4 * UNIT), "4");
    assert_eq!(fixed_text(1_000_100), "1.0001");
    assert_eq!(fixed_text(1), "0.000001");
    assert_eq!(fixed_text(1_414_213), "1.414213");
    assert_eq!(fixed_text(12_050_000), "12.05");
    assert_eq!(fixed_text(-1_250_000), "-1.25");
    assert_eq!(fixed_text(-1), "-0.000001");
    assert_eq!(fixed_text(-7 * UNIT), "-7");
    assert_eq!(fixed_text(i64::MAX), "9223372036854.775807");
    assert_eq!(fixed_text(i64::MIN), "-9223372036854.775808");
}

#[test]
fn fixed_text_agrees_with_the_display_of_a_float() {
    for x in [0.0f32, 0.5, 1.0, 4.0, 2.25, 10.0, 0.125, -3.5, 640.0] {
        assert_eq!(fixed_text(fixed(x as f64)), x.to_string());
    }
}

#[test]
fn attribute_texts() {
    assert_eq!(stroke_paint_text(Rgba { r: 0, g: 17, b: 255, a: 9 }), "rgb(0, 17, 255)");
    assert_eq!(view_box_text(0, 4_294_967_295), "0 0 0 4294967295");
    assert_eq!(view_box_text(640, 480), "0 0 640 480");
    assert_eq!(
        path_data_text(Point { x: 1_500_000, y: -2 * UNIT }, Point { x: 0, y: 3_000_001 }),
        "M1.5,-2 L0,3.000001"
    );
}

#[test]
fn path_of_one_segment() {
    let path = segment_path(segment(0.0, 0.0, 1.0, 1.0), fixed(0.5), RED, 10, 10);
    assert_eq!(path.get_name(), "path");
    assert_eq!(attribute_count(&path), 5);
    assert_eq!(attribute(&path, "fill"), "none");
    assert_eq!(attribute(&path, "stroke"), "rgb(255, 0, 0)");
    assert_eq!(attribute(&path, "stroke-width"), "0.5");
    assert_eq!(attribute(&path, "stroke-linecap"), "round");
    assert_eq!(attribute(&path, "d"), "M0,10 L10,0");
    assert!(children(&path).is_empty());
}

#[test]
fn path_coordinates_are_not_rounded() {
    let path = segment_path(segment(0.125, 0.3, 0.7, 0.95), fixed(2.0), RED, 10, 5);
    assert_eq!(attribute(&path, "d"), "M1.25,3.5 L7,0.25");
    let far = segment_path(segment(-0.5, 1.5, 2.0, -1.0), fixed(2.0), RED, 10, 10);
    assert_eq!(attribute(&far, "d"), "M-5,-5 L20,20");
}

#[test]
fn path_leaves_out_the_alpha_channel() {
    let faint = Rgba { r: 1, g: 20, b: 100, a: 3 };
    let solid = Rgba { r: 1, g: 20, b: 100, a: 255 };
    let line = segment(0.0, 0.0, 1.0, 1.0);
    let first = segment_path(line, UNIT, faint, 10, 10);
    let second = segment_path(line, UNIT, solid, 10, 10);
    assert_eq!(attribute(&first, "stroke"), "rgb(1, 20, 100)");
    assert_eq!(first.to_string(), second.to_string());
}

#[test]
fn document_of_one_thin_diagonal() {
    let groups = vec![group(0.5, RED, vec![segment(0.0, 0.0, 1.0, 1.0)])];
    let document = draw_edges_svg(&groups, 10, 10);
    assert_eq!(attribute_count(&document), 2);
    assert_eq!(attribute(&document, "viewBox"), "0 0 10 10");
    assert_eq!(attribute(&document, "xmlns"), "http://www.w3.org/2000/svg");
    assert_eq!(children(&document).len(), 1);
    assert_eq!(
        document.to_string(),
        "<svg viewBox=\"0 0 10 10\" xmlns=\"http://www.w3.org/2000/svg\">\n\
         <path d=\"M0,10 L10,0\" fill=\"none\" stroke=\"rgb(255, 0, 0)\" stroke-linecap=\"round\" stroke-width=\"0.5\"/>\n\
         </svg>"
    );
}

#[test]
fn document_agrees_with_one_built_from_floats() {
    let lines = [(0.0f32, 0.0f32, 1.0f32, 1.0f32), (0.25, 0.5, 0.75, 0.125), (0.5, 0.5, 0.5, 0.5)];
    let (width, height) = (640u32, 480u32);
    let mut expected = Document::new().set("viewBox", (0, 0, width, height));
    let mut segments = Vec::new();
    for (u1, v1, u2, v2) in lines {
        segments.push(segment(u1 as f64, v1 as f64, u2 as f64, v2 as f64));
        let data = Data::new()
            .move_to(((u1 * width as f32) as f64, ((1.0 - v1) * height as f32) as f64))
            .line_to(((u2 * width as f32) as f64, ((1.0 - v2) * height as f32) as f64));
        let path = Path::new()
            .set("fill", "none")
            .set("stroke", format!("rgb({}, {}, {})", 12, 200, 7))
            .set("stroke-width", 2.5f32)
            .set("stroke-linecap", "round")
            .set("d", data);
        expected = expected.add(path);
    }
    let color = Rgba { r: 12, g: 200, b: 7, a: 99 };
    let document = draw_edges_svg(&vec![group(2.5, color, segments)], width, height);
    assert_eq!(document.to_string(), expected.to_string());
}

#[test]
fn document_holds_one_path_for_each_segment_in_order() {
    let groups = vec![
        group(1.0, RED, vec![segment(0.0, 0.0, 0.1, 0.1), segment(0.0, 0.0, 0.2, 0.2)]),
        group(2.0, RED, vec![]),
        group(3.0, RED, vec![segment(0.0, 0.0, 0.3, 0.3)]),
        group(4.0, RED, vec![segment(0.5, 0.5, 0.5, 0.5), segment(0.0, 0.0, 0.5, 0.5)]),
    ];
    let document = draw_edges_svg(&groups, 10, 10);
    let children = children(&document);
    assert_eq!(children.len(), 5);
    let data: Vec<String> = children.iter().map(|child| attribute(&**child, "d")).collect();
    assert_eq!(
        data,
        vec!["M0,10 L1,9", "M0,10 L2,8", "M0,10 L3,7", "M5,5 L5,5", "M0,10 L5,5"]
    );
    let widths: Vec<String> =
        children.iter().map(|child| attribute(&**child, "stroke-width")).collect();
    assert_eq!(widths, vec!["1", "1", "3", "4", "4"]);
    for child in children.iter() {
        assert_eq!(child.get_name(), "path");
    }
}

#[test]
fn document_without_segments_has_no_paths() {
    let document = draw_edges_svg(&vec![group(1.0, RED, vec![])], 300, 200);
    assert!(children(&document).is_empty());
    assert_eq!(attribute(&document, "viewBox"), "0 0 300 200");
    assert_eq!(
        document.to_string(),
        "<svg viewBox=\"0 0 300 200\" xmlns=\"http://www.w3.org/2000/svg\"/>"
    );
}

#[test]
fn document_for_a_target_without_pixels_has_no_paths() {
    let groups = vec![group(1.0, RED, vec![segment(0.0, 0.0, 1.0, 1.0)])];
    let document = draw_edges_svg(&groups, 0, 20);
    assert!(children(&document).is_empty());
    assert_eq!(attribute(&document, "viewBox"), "0 0 0 20");
    let other = draw_edges_svg(&groups, 20, 0);
    assert!(children(&other).is_empty());
}

#[test]
fn vector_rendering_of_a_request() {
    let request = RenderRequest {
        target_width: 10,
        target_height: 10,
        groups: vec![group(4.0, RED, vec![segment(0.0, 0.0, 1.0, 1.0)])],
    };
    let first = render_vector(&request);
    let second = render_vector(&request);
    assert_eq!(first.to_string(), second.to_string());
    assert_eq!(first.to_string(), draw_edges_svg(&request.groups, 10, 10).to_string());
    assert_eq!(attribute(&first, "viewBox"), "0 0 10 10");
    assert_eq!(children(&first).len(), 1);
    assert_eq!(attribute(&*children(&first)[0], "stroke-width"), "4");
}
