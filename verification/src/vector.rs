//! The vector renderer: one path element for every segment, in order, in a
//! document of the `svg` crate.

use vstd::prelude::*;
use vstd::string::*;
use crate::mapper::{mapped, uv_to_pixel};
use crate::model::{EdgeGroup, Point, Rgba, Segment};
use crate::text::{decimal, decimal_text, fixed_decimal, fixed_text};

verus! {

/// `svg::Document`, the root element of a vector document. Nothing of its
/// inside is visible here; `document_attributes` and `document_children` say
/// what it holds.
#[verifier::external_type_specification]
#[verifier::external_body]
pub struct ExDocument(svg::node::element::SVG);

/// `svg::node::element::Path`, a path element. Nothing of its inside is
/// visible here; `path_attributes` says what it holds.
#[verifier::external_type_specification]
#[verifier::external_body]
pub struct ExPath(svg::node::element::Path);

/// What is said here of one element of a document: its tag and its
/// attributes by name.
pub struct ElementView {
    pub name: Seq<char>,
    pub attributes: Map<Seq<char>, Seq<char>>,
}

/// The attributes of the root element of a document, by name.
pub uninterp spec fn document_attributes(document: svg::node::element::SVG) -> Map<
    Seq<char>,
    Seq<char>,
>;

/// The children of the root element of a document, in document order.
pub uninterp spec fn document_children(document: svg::node::element::SVG) -> Seq<ElementView>;

/// The attributes of a path element, by name.
pub uninterp spec fn path_attributes(path: svg::node::element::Path) -> Map<Seq<char>, Seq<char>>;

/// No attribute at all.
pub open spec fn no_attributes() -> Map<Seq<char>, Seq<char>> {
    Map::empty()
}

/// The one attribute that every new document has.
pub open spec fn namespace_only() -> Map<Seq<char>, Seq<char>> {
    no_attributes().insert("xmlns"@, "http://www.w3.org/2000/svg"@)
}

/// A path element with these attributes.
pub open spec fn path_element(attributes: Map<Seq<char>, Seq<char>>) -> ElementView {
    ElementView { name: "path"@, attributes }
}

/// `svg::Document::new`: a root element that has its namespace attribute
/// and nothing else.
#[verifier::external_body]
fn new_document() -> (document: svg::node::element::SVG)
    ensures
        document_attributes(document) == namespace_only(),
        document_children(document) == Seq::<ElementView>::empty(),
{
    svg::Document::new()
}

/// `svg::Document::set` with a name and a value of text: the attribute of
/// that name now has that value, as it was given; the children stay.
#[verifier::external_body]
fn document_set(document: svg::node::element::SVG, name: &str, value: &str) -> (result:
    svg::node::element::SVG)
    ensures
        document_attributes(result) == document_attributes(document).insert(name@, value@),
        document_children(result) == document_children(document),
{
    document.set(name, value)
}

/// `svg::Document::add` with a path element: the path is the last child
/// now; the children before it and the attributes stay.
#[verifier::external_body]
fn document_add(document: svg::node::element::SVG, path: svg::node::element::Path) -> (result:
    svg::node::element::SVG)
    ensures
        document_attributes(result) == document_attributes(document),
        document_children(result) == document_children(document).push(
            path_element(path_attributes(path)),
        ),
{
    document.add(path)
}

/// `svg::node::element::Path::new`: a path element without attributes.
#[verifier::external_body]
fn new_path() -> (path: svg::node::element::Path)
    ensures
        path_attributes(path) == no_attributes(),
{
    svg::node::element::Path::new()
}

/// `svg::node::element::Path::set` with a name and a value of text: the
/// attribute of that name now has that value, as it was given.
#[verifier::external_body]
fn path_set(path: svg::node::element::Path, name: &str, value: &str) -> (result:
    svg::node::element::Path)
    ensures
        path_attributes(result) == path_attributes(path).insert(name@, value@),
{
    path.set(name, value)
}

/// The stroke colour of a path. The alpha channel has no place in it.
pub open spec fn stroke_paint(color: Rgba) -> Seq<char> {
    "rgb("@ + decimal(color.r as nat) + ", "@ + decimal(color.g as nat) + ", "@ + decimal(
        color.b as nat,
    ) + ")"@
}

/// The path data of a straight line from `start` to `end`, both in pixel
/// space: a move to `start`, then a line to `end`. Nothing is rounded.
pub open spec fn path_data(start: Point, end: Point) -> Seq<char> {
    "M"@ + fixed_decimal(start.x as int) + ","@ + fixed_decimal(start.y as int) + " L"@
        + fixed_decimal(end.x as int) + ","@ + fixed_decimal(end.y as int)
}

/// The view box of a document for a target of this size.
pub open spec fn view_box(width: u32, height: u32) -> Seq<char> {
    "0 0 "@ + decimal(width as nat) + " "@ + decimal(height as nat)
}

/// The attributes of the path of one segment.
pub open spec fn segment_attributes(
    segment: Segment,
    line_width: i64,
    color: Rgba,
    width: u32,
    height: u32,
) -> Map<Seq<char>, Seq<char>> {
    no_attributes().insert("fill"@, "none"@).insert("stroke"@, stroke_paint(color)).insert(
        "stroke-width"@,
        fixed_decimal(line_width as int),
    ).insert("stroke-linecap"@, "round"@).insert(
        "d"@,
        path_data(mapped(segment.uv1, width, height), mapped(segment.uv2, width, height)),
    )
}

/// The children after the paths of the first `upto` of `lines` were added,
/// in order.
pub open spec fn lines_added(
    children: Seq<ElementView>,
    line_width: i64,
    color: Rgba,
    lines: Seq<Segment>,
    width: u32,
    height: u32,
    upto: int,
) -> Seq<ElementView>
    decreases upto,
{
    if upto <= 0 {
        children
    } else {
        lines_added(children, line_width, color, lines, width, height, upto - 1).push(
            path_element(segment_attributes(lines[upto - 1], line_width, color, width, height)),
        )
    }
}

/// The children after the paths of the first `upto` of `groups` were added,
/// in order.
pub open spec fn groups_added(
    children: Seq<ElementView>,
    groups: Seq<EdgeGroup>,
    width: u32,
    height: u32,
    upto: int,
) -> Seq<ElementView>
    decreases upto,
{
    if upto <= 0 {
        children
    } else {
        lines_added(
            groups_added(children, groups, width, height, upto - 1),
            groups[upto - 1].line_width,
            groups[upto - 1].line_color,
            groups[upto - 1].lines@,
            width,
            height,
            groups[upto - 1].lines@.len() as int,
        )
    }
}

/// The paths of a rendering: one for every segment of every group, in
/// order. A target without pixels takes no geometry.
pub open spec fn paths_drawn(groups: Seq<EdgeGroup>, width: u32, height: u32) -> Seq<ElementView> {
    if width == 0 || height == 0 {
        Seq::empty()
    } else {
        groups_added(Seq::empty(), groups, width, height, groups.len() as int)
    }
}

/// Writes the stroke colour of a path.
pub fn stroke_paint_text(color: Rgba) -> (text: String)
    ensures
        text@ == stroke_paint(color),
{
    let mut text: String = String::from_str("rgb(");
    text.append(decimal_text(color.r as u64).as_str());
    text.append(", ");
    text.append(decimal_text(color.g as u64).as_str());
    text.append(", ");
    text.append(decimal_text(color.b as u64).as_str());
    text.append(")");
    text
}

/// Writes the path data of a straight line.
pub fn path_data_text(start: Point, end: Point) -> (text: String)
    ensures
        text@ == path_data(start, end),
{
    let mut text: String = String::from_str("M");
    text.append(fixed_text(start.x).as_str());
    text.append(",");
    text.append(fixed_text(start.y).as_str());
    text.append(" L");
    text.append(fixed_text(end.x).as_str());
    text.append(",");
    text.append(fixed_text(end.y).as_str());
    text
}

/// Writes the view box of a document.
pub fn view_box_text(width: u32, height: u32) -> (text: String)
    ensures
        text@ == view_box(width, height),
{
    let mut text: String = String::from_str("0 0 ");
    text.append(decimal_text(width as u64).as_str());
    text.append(" ");
    text.append(decimal_text(height as u64).as_str());
    text
}

/// Makes the path element of one segment: a straight line between its two
/// mapped ends, without fill, stroked in the colour of its group without the
/// alpha channel, as wide as the group says, with round caps.
pub fn segment_path(segment: Segment, line_width: i64, color: Rgba, width: u32, height: u32) -> (path:
    svg::node::element::Path)
    ensures
        path_attributes(path) == segment_attributes(segment, line_width, color, width, height),
{
    let start: Point = uv_to_pixel(segment.uv1, width, height);
    let end: Point = uv_to_pixel(segment.uv2, width, height);
    let path = new_path();
    let path = path_set(path, "fill", "none");
    let path = path_set(path, "stroke", stroke_paint_text(color).as_str());
    let path = path_set(path, "stroke-width", fixed_text(line_width).as_str());
    let path = path_set(path, "stroke-linecap", "round");
    path_set(path, "d", path_data_text(start, end).as_str())
}

/// Makes the vector document of a rendering: its view box is
/// `0 0 width height`, and it holds one path for every segment of every
/// group, in order. A target without pixels gets no paths.
pub fn draw_edges_svg(edges: &Vec<EdgeGroup>, width: u32, height: u32) -> (document:
    svg::node::element::SVG)
    ensures
        document_attributes(document) == namespace_only().insert(
            "viewBox"@,
            view_box(width, height),
        ),
        document_children(document) == paths_drawn(edges@, width, height),
{
    let mut document = document_set(new_document(), "viewBox", view_box_text(width, height).as_str());
    if width == 0 || height == 0 {
        return document;
    }
    let mut i: usize = 0;
    while i < edges.len()
        invariant
            i <= edges@.len(),
            document_attributes(document) == namespace_only().insert(
                "viewBox"@,
                view_box(width, height),
            ),
            document_children(document) == groups_added(
                Seq::empty(),
                edges@,
                width,
                height,
                i as int,
            ),
        decreases edges@.len() - i,
    {
        let group: &EdgeGroup = &edges[i];
        let ghost before = document_children(document);
        let mut j: usize = 0;
        while j < group.lines.len()
            invariant
                j <= group.lines@.len(),
                document_attributes(document) == namespace_only().insert(
                    "viewBox"@,
                    view_box(width, height),
                ),
                document_children(document) == lines_added(
                    before,
                    group.line_width,
                    group.line_color,
                    group.lines@,
                    width,
                    height,
                    j as int,
                ),
            decreases group.lines@.len() - j,
        {
            let path = segment_path(group.lines[j], group.line_width, group.line_color, width, height);
            document = document_add(document, path);
            j = j + 1;
        }
        i = i + 1;
    }
    document
}

/// The number of segments in the first `upto` of `groups`.
pub open spec fn segment_count(groups: Seq<EdgeGroup>, upto: int) -> int
    decreases upto,
{
    if upto <= 0 {
        0
    } else {
        segment_count(groups, upto - 1) + groups[upto - 1].lines@.len()
    }
}

/// The path element of the line at place `line` of a group.
pub open spec fn path_of_line(group: EdgeGroup, line: int, width: u32, height: u32) -> ElementView {
    path_element(
        segment_attributes(group.lines@[line], group.line_width, group.line_color, width, height),
    )
}

/// Adding the paths of lines keeps the children that were there, and puts
/// one path for each line behind them, in the order of the lines.
proof fn lemma_lines_added(
    children: Seq<ElementView>,
    group: EdgeGroup,
    width: u32,
    height: u32,
    upto: int,
)
    requires
        0 <= upto <= group.lines@.len(),
    ensures
        lines_added(
            children,
            group.line_width,
            group.line_color,
            group.lines@,
            width,
            height,
            upto,
        ).len() == children.len() + upto,
        forall|i: int|
            0 <= i < children.len() ==> lines_added(
                children,
                group.line_width,
                group.line_color,
                group.lines@,
                width,
                height,
                upto,
            )[i] == children[i],
        forall|l: int|
            0 <= l < upto ==> lines_added(
                children,
                group.line_width,
                group.line_color,
                group.lines@,
                width,
                height,
                upto,
            )[children.len() + l] == path_of_line(group, l, width, height),
    decreases upto,
{
    if upto > 0 {
        lemma_lines_added(children, group, width, height, upto - 1);
    }
}

/// Adding the paths of groups puts one path for each of their segments, in
/// order: the paths of a group stand behind those of the groups before it.
proof fn lemma_groups_added(groups: Seq<EdgeGroup>, width: u32, height: u32, upto: int)
    requires
        0 <= upto <= groups.len(),
    ensures
        groups_added(Seq::empty(), groups, width, height, upto).len() == segment_count(groups, upto),
        forall|g: int, l: int|
            0 <= g < upto && 0 <= l < groups[g].lines@.len() ==> groups_added(
                Seq::empty(),
                groups,
                width,
                height,
                upto,
            )[segment_count(groups, g) + l] == #[trigger] path_of_line(groups[g], l, width, height),
        forall|g: int| 0 <= g < upto ==> 0 <= #[trigger] segment_count(groups, g) <= segment_count(groups, g + 1) <= segment_count(groups, upto),
    decreases upto,
{
    if upto > 0 {
        lemma_groups_added(groups, width, height, upto - 1);
        let before = groups_added(Seq::empty(), groups, width, height, upto - 1);
        lemma_lines_added(
            before,
            groups[upto - 1],
            width,
            height,
            groups[upto - 1].lines@.len() as int,
        );
        assert(segment_count(groups, upto) == segment_count(groups, upto - 1) + groups[upto
            - 1].lines@.len());
        assert forall|g: int, l: int|
            0 <= g < upto && 0 <= l < groups[g].lines@.len() implies groups_added(
            Seq::empty(),
            groups,
            width,
            height,
            upto,
        )[segment_count(groups, g) + l] == #[trigger] path_of_line(
            groups[g],
            l,
            width,
            height,
        ) by {
            if g < upto - 1 {
                assert(segment_count(groups, g + 1) == segment_count(groups, g)
                    + groups[g].lines@.len());
                assert(segment_count(groups, g) + l < before.len());
            }
        }
    }
}

/// On a target with pixels the document holds exactly one path for every
/// segment, in the order of the groups and of the lines within each: the
/// path of line `l` of group `g` stands at the place that counts the segments
/// of the groups before `g`, plus `l`.
pub proof fn lemma_one_path_per_segment(groups: Seq<EdgeGroup>, width: u32, height: u32)
    requires
        width > 0,
        height > 0,
    ensures
        paths_drawn(groups, width, height).len() == segment_count(groups, groups.len() as int),
        forall|g: int, l: int|
            0 <= g < groups.len() && 0 <= l < groups[g].lines@.len() ==> paths_drawn(
                groups,
                width,
                height,
            )[segment_count(groups, g) + l] == #[trigger] path_of_line(groups[g], l, width, height),
{
    lemma_groups_added(groups, width, height, groups.len() as int);
}

} // verus!
