use edge_drawer::{
    fixed_from_bits, render_raster, render_vector, EdgeGroup, RenderRequest, Rgba, Segment, Uv,
};
use serde_json::Value;

const RED: Rgba = Rgba { r: 255, g: 0, b: 0, a: 255 };
const CLEAR: Rgba = Rgba { r: 0, g: 0, b: 0, a: 0 };

fn number(value: &Value) -> i64 {
    fixed_from_bits((value.as_f64().unwrap() as f32).to_bits()).unwrap()
}

fn uv(value: &Value) -> Uv {
    Uv { u: number(&value[0]), v: number(&value[1]) }
}

fn groups(json: &str) -> Vec<EdgeGroup> {
    let parsed: Value = serde_json::from_str(json).unwrap();
    let mut groups = Vec::new();
    for group in parsed.as_array().unwrap() {
        let color = &group["line_color"];
        let channel = |i: usize| color[i].as_u64().unwrap() as u8;
        let mut lines = Vec::new();
        for line in group["lines"].as_array().unwrap() {
            lines.push(Segment { uv1: uv(&line["uv1"]), uv2: uv(&line["uv2"]) });
        }
        groups.push(EdgeGroup {
            line_width: number(&group["line_width"]),
            line_color: Rgba { r: channel(0), g: channel(1), b: channel(2), a: channel(3) },
            lines,
        });
    }
    groups
}

fn request(json: &str, width: u32, height: u32) -> RenderRequest {
    RenderRequest { target_width: width, target_height: height, groups: groups(json) }
}

#[test]
fn thin_red_diagonal_from_json() {
    let json = r#"[{"line_width":0.5,"line_color":[255,0,0,255],"lines":[{"uv1":[0,0],"uv2":[1,1]}]}]"#;
    let (canvas, left_out) = render_raster(&request(json, 10, 10)).unwrap();
    assert!(left_out.is_empty());
    let mut drawn = 0;
    for y in 0..10u32 {
        for x in 0..10u32 {
            let color = canvas.get_pixel(x, y).unwrap();
            if color != CLEAR {
                drawn += 1;
                assert!(x + y == 10 || x + y == 9 || x + y == 11, "pixel ({}, {})", x, y);
            }
        }
    }
    assert_eq!(drawn, 9);
    assert_eq!(canvas.get_pixel(1, 9), Some(RED));
    assert_eq!(canvas.get_pixel(9, 1), Some(RED));
}

#[test]
fn thin_line_off_the_diagonal_has_an_antialiased_fringe() {
    let json = r#"[{"line_width":0.5,"line_color":[255,0,0,255],"lines":[{"uv1":[0,0],"uv2":[1,0.7]}]}]"#;
    let (canvas, _) = render_raster(&request(json, 10, 10)).unwrap();
    let mut partial = 0;
    for y in 0..10u32 {
        for x in 0..10u32 {
            let color = canvas.get_pixel(x, y).unwrap();
            if color.a > 0 && color.a < 255 {
                partial += 1;
                assert_eq!((color.g, color.b), (0, 0));
            }
        }
    }
    assert!(partial >= 8);
}

#[test]
fn wide_red_diagonal_from_json() {
    let json = r#"[{"line_width":4,"line_color":[255,0,0,255],"lines":[{"uv1":[0,0],"uv2":[1,1]}]}]"#;
    let (canvas, left_out) = render_raster(&request(json, 10, 10)).unwrap();
    assert!(left_out.is_empty());
    let mut red = 0;
    for y in 0..10u32 {
        for x in 0..10u32 {
            let color = canvas.get_pixel(x, y).unwrap();
            assert!(color == RED || color == CLEAR, "pixel ({}, {}) is {:?}", x, y, color);
            let across = (x + y) as i32 - 10;
            if color == RED {
                red += 1;
                assert!(across.abs() <= 3);
            }
            if across.abs() <= 1 {
                assert_eq!(color, RED);
            }
        }
    }
    assert!((40..=60).contains(&red), "{} red pixels", red);
}

#[test]
fn groups_without_lines_from_json() {
    let json = r#"[{"line_width":0.5,"line_color":[255,0,0,255],"lines":[]},
                   {"line_width":4,"line_color":[0,255,0,255],"lines":[]}]"#;
    let (canvas, left_out) = render_raster(&request(json, 10, 10)).unwrap();
    assert!(left_out.is_empty());
    assert_eq!(canvas.as_raw(), &vec![0u8; 400]);
}

#[test]
fn vector_document_from_json() {
    let json = r#"[{"line_width":0.5,"line_color":[255,0,0,255],"lines":[{"uv1":[0,0],"uv2":[1,1]}]},
                   {"line_width":1.0001,"line_color":[1,2,3,4],"lines":[{"uv1":[0.5,0.5],"uv2":[0.25,1]},
                                                                         {"uv1":[0.1,0.2],"uv2":[0.3,0.4]}]}]"#;
    let document = render_vector(&request(json, 20, 10));
    assert_eq!(
        document.to_string(),
        "<svg viewBox=\"0 0 20 10\" xmlns=\"http://www.w3.org/2000/svg\">\n\
         <path d=\"M0,10 L20,0\" fill=\"none\" stroke=\"rgb(255, 0, 0)\" stroke-linecap=\"round\" stroke-width=\"0.5\"/>\n\
         <path d=\"M10,5 L5,0\" fill=\"none\" stroke=\"rgb(1, 2, 3)\" stroke-linecap=\"round\" stroke-width=\"1.0001\"/>\n\
         <path d=\"M2,8 L6,6\" fill=\"none\" stroke=\"rgb(1, 2, 3)\" stroke-linecap=\"round\" stroke-width=\"1.0001\"/>\n\
         </svg>"
    );
}
