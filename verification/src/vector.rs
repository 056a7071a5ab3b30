//! The vector document: one filled path for each spoke and a stroked circle
//! for the ring.

use vstd::prelude::*;
use svg::node::element::Circle;
use svg::node::element::Group;
use svg::node::element::Path;
use svg::node::element::SVG;
use crate::config::{
    canvas_border_radius, clamp_alpha, ring_draw_diameter, spoke_base_radius, spoke_tip_radius,
    Color, ConfigView, CrosshairConfig, OPAQUE,
};
use crate::fixed::in_range;
use crate::outline::{
    spoke_outline, spoke_outline_view, Direction, Outline, OutlineView, Point, Pos, Segment,
    SegmentView,
};
use crate::text::{
    decimal, decimal_string, fixed_string, fixed_text, halves_string, halves_text, push_char,
    push_decimal, push_fixed,
};

verus! {

/// `svg::node::element::Path`, a `path` element. Nothing is known of a
/// value but what [`path_attributes`] says.
#[verifier::external_type_specification]
#[verifier::external_body]
pub struct ExPath(Path);

/// `svg::node::element::Group`, a `g` element. Nothing is known of a value
/// but what [`group_attributes`] and [`group_paths`] say.
#[verifier::external_type_specification]
#[verifier::external_body]
pub struct ExGroup(Group);

/// `svg::node::element::Circle`, a `circle` element. Nothing is known of a
/// value but what [`circle_attributes`] says.
#[verifier::external_type_specification]
#[verifier::external_body]
pub struct ExCircle(Circle);

/// `svg::node::element::SVG`, the root element that `svg::Document` names.
/// Nothing is known of a value but what [`document_attributes`] and
/// [`document_children`] say.
#[verifier::external_type_specification]
#[verifier::external_body]
pub struct ExDocument(SVG);

/// The attributes of an element: each name with its value.
pub type Attributes = Map<Seq<char>, Seq<char>>;

/// What a child of the document stands for.
pub enum ChildView {
    /// A group: its attributes and those of the paths it holds, in order.
    Group(Attributes, Seq<Attributes>),
    /// A circle: its attributes.
    Circle(Attributes),
}

/// The attributes of a path element.
pub uninterp spec fn path_attributes(p: Path) -> Map<Seq<char>, Seq<char>>;

/// The attributes of a group element.
pub uninterp spec fn group_attributes(g: Group) -> Map<Seq<char>, Seq<char>>;

/// The attributes of each path that a group holds, in document order.
pub uninterp spec fn group_paths(g: Group) -> Seq<Map<Seq<char>, Seq<char>>>;

/// The attributes of a circle element.
pub uninterp spec fn circle_attributes(c: Circle) -> Map<Seq<char>, Seq<char>>;

/// The attributes of the document's root element.
pub uninterp spec fn document_attributes(doc: SVG) -> Map<Seq<char>, Seq<char>>;

/// The children of the document's root element, in document order.
pub uninterp spec fn document_children(doc: SVG) -> Seq<ChildView>;

/// A path element without attributes.
///
/// Calls `svg::node::element::Path::new`, which makes an element named
/// `path` with no attribute and no child.
#[verifier::external_body]
fn path_new() -> (p: Path)
    ensures
        path_attributes(p) =~= Map::empty(),
{
    Path::new()
}

/// The path with one attribute set.
///
/// Calls `svg::node::element::Path::set`, which stores the value under the
/// name among the element's attributes, in place of any value the name had.
#[verifier::external_body]
fn path_set(p: Path, name: &str, value: &str) -> (q: Path)
    ensures
        path_attributes(q) == path_attributes(p).insert(name@, value@),
{
    p.set(name, value)
}

/// A group element without attributes or children.
///
/// Calls `svg::node::element::Group::new`, which makes an element named `g`
/// with no attribute and no child.
#[verifier::external_body]
fn group_new() -> (g: Group)
    ensures
        group_attributes(g) =~= Map::empty(),
        group_paths(g) =~= Seq::empty(),
{
    Group::new()
}

/// The group with one more path.
///
/// Calls `svg::node::element::Group::add`, which appends the node after the
/// element's children and leaves its attributes alone.
#[verifier::external_body]
fn group_add(g: Group, p: Path) -> (h: Group)
    ensures
        group_attributes(h) == group_attributes(g),
        group_paths(h) == group_paths(g).push(path_attributes(p)),
{
    g.add(p)
}

/// A circle element without attributes.
///
/// Calls `svg::node::element::Circle::new`, which makes an element named
/// `circle` with no attribute and no child.
#[verifier::external_body]
fn circle_new() -> (c: Circle)
    ensures
        circle_attributes(c) =~= Map::empty(),
{
    Circle::new()
}

/// The circle with one attribute set.
///
/// Calls `svg::node::element::Circle::set`, which stores the value under
/// the name among the element's attributes, in place of any value the name
/// had.
#[verifier::external_body]
fn circle_set(c: Circle, name: &str, value: &str) -> (d: Circle)
    ensures
        circle_attributes(d) == circle_attributes(c).insert(name@, value@),
{
    c.set(name, value)
}

/// A document without children.
///
/// Calls `svg::node::element::SVG::new`, which makes an element named `svg`
/// whose one attribute, `xmlns`, names the SVG namespace, and which has no
/// child.
#[verifier::external_body]
fn document_new() -> (doc: SVG)
    ensures
        document_attributes(doc) =~= map!["xmlns"@ => "http://www.w3.org/2000/svg"@],
        document_children(doc) =~= Seq::empty(),
{
    SVG::new()
}

/// The document with one attribute set.
///
/// Calls `svg::node::element::SVG::set`, which stores the value under the
/// name among the root element's attributes, in place of any value the name
/// had, and leaves its children alone.
#[verifier::external_body]
fn document_set(doc: SVG, name: &str, value: &str) -> (out: SVG)
    ensures
        document_attributes(out) == document_attributes(doc).insert(name@, value@),
        document_children(out) == document_children(doc),
{
    doc.set(name, value)
}

/// The document with a group as one more child.
///
/// Calls `svg::node::element::SVG::add`, which appends the node after the
/// root element's children and leaves its attributes alone.
#[verifier::external_body]
fn document_add_group(doc: SVG, g: Group) -> (out: SVG)
    ensures
        document_attributes(out) == document_attributes(doc),
        document_children(out) == document_children(doc).push(
            ChildView::Group(group_attributes(g), group_paths(g)),
        ),
{
    doc.add(g)
}

/// The document with a circle as one more child.
///
/// Calls `svg::node::element::SVG::add`, which appends the node after the
/// root element's children and leaves its attributes alone.
#[verifier::external_body]
fn document_add_circle(doc: SVG, c: Circle) -> (out: SVG)
    ensures
        document_attributes(out) == document_attributes(doc),
        document_children(out) == document_children(doc).push(
            ChildView::Circle(circle_attributes(c)),
        ),
{
    doc.add(c)
}

/// A point as text: its two coordinates with a comma between them.
pub open spec fn point_text(p: Pos) -> Seq<char> {
    fixed_text(p.x) + seq![','] + fixed_text(p.y)
}

/// A segment as a path command: `L` and the end of a line, or `Q`, the
/// control point and the end of a curve, after a space.
pub open spec fn segment_text(s: SegmentView) -> Seq<char> {
    match s {
        SegmentView::Line(to) => seq![' ', 'L'] + point_text(to),
        SegmentView::Quad(ctrl, to) => seq![' ', 'Q'] + point_text(ctrl) + seq![','] + point_text(
            to,
        ),
    }
}

/// The path commands of a run of segments.
pub open spec fn segments_text(segments: Seq<SegmentView>) -> Seq<char>
    decreases segments.len(),
{
    if segments.len() == 0 {
        Seq::empty()
    } else {
        segments_text(segments.drop_last()) + segment_text(segments.last())
    }
}

/// The path data of an outline: `M` and its first point, one command for
/// each segment, and `z` to close the path.
pub open spec fn path_data(o: OutlineView) -> Seq<char> {
    seq!['M'] + point_text(o.start) + segments_text(o.segments) + seq![' ', 'z']
}

/// A color in functional notation, its opacity brought between 0 and 1.
pub open spec fn rgba_text(c: Color) -> Seq<char> {
    let alpha = if c.alpha < 0 {
        0
    } else if c.alpha > OPAQUE {
        OPAQUE as int
    } else {
        c.alpha as int
    };
    "rgba("@ + decimal(c.r as nat) + seq![','] + decimal(c.g as nat) + seq![','] + decimal(
        c.b as nat,
    ) + seq![','] + fixed_text(alpha) + seq![')']
}

fn push_point(s: &mut String, p: Point)
    ensures
        final(s)@ == old(s)@ + point_text(p@),
{
    push_fixed(s, p.x);
    push_char(s, ',');
    push_fixed(s, p.y);
    assert(s@ =~= old(s)@ + point_text(p@));
}

fn push_segment(s: &mut String, segment: Segment)
    ensures
        final(s)@ == old(s)@ + segment_text(segment@),
{
    push_char(s, ' ');
    match segment {
        Segment::Line(to) => {
            push_char(s, 'L');
            push_point(s, to);
        },
        Segment::Quad(ctrl, to) => {
            push_char(s, 'Q');
            push_point(s, ctrl);
            push_char(s, ',');
            push_point(s, to);
        },
    }
    assert(s@ =~= old(s)@ + segment_text(segment@));
}

/// The path data of `outline`.
pub fn outline_path_data(outline: &Outline) -> (data: String)
    ensures
        data@ == path_data(outline@),
{
    let mut data = String::new();
    push_char(&mut data, 'M');
    push_point(&mut data, outline.start);
    let ghost head = data@;
    assert(head =~= seq!['M'] + point_text(outline@.start));
    let n = outline.segments.len();
    let mut k: usize = 0;
    assert(outline@.segments.take(0) =~= Seq::<SegmentView>::empty());
    assert(data@ =~= head + segments_text(outline@.segments.take(0)));
    while k < n
        invariant
            n == outline.segments@.len(),
            k <= n,
            data@ == head + segments_text(outline@.segments.take(k as int)),
        decreases n - k,
    {
        let ghost next = outline@.segments.take(k + 1);
        assert(next.drop_last() =~= outline@.segments.take(k as int));
        assert(next.last() == outline.segments@[k as int]@);
        push_segment(&mut data, outline.segments[k]);
        assert(data@ =~= head + segments_text(next));
        k = k + 1;
    }
    assert(outline@.segments.take(n as int) =~= outline@.segments);
    push_char(&mut data, ' ');
    push_char(&mut data, 'z');
    assert(data@ =~= path_data(outline@));
    data
}

/// `c` in functional notation.
pub fn rgba_string(c: Color) -> (s: String)
    ensures
        s@ == rgba_text(c),
{
    let mut s = String::new();
    s.append("rgba(");
    push_decimal(&mut s, c.r as u64);
    push_char(&mut s, ',');
    push_decimal(&mut s, c.g as u64);
    push_char(&mut s, ',');
    push_decimal(&mut s, c.b as u64);
    push_char(&mut s, ',');
    push_fixed(&mut s, clamp_alpha(c.alpha) as i64);
    push_char(&mut s, ')');
    assert(s@ =~= rgba_text(c));
    s
}

/// The path element of one spoke: its outline as the path data, and no
/// other attribute.
pub fn bezier_spoke(
    cx: i64,
    cy: i64,
    dir: Direction,
    tip_r: i64,
    base_r: i64,
    base_width: i64,
    tip_width: i64,
) -> (path: Path)
    requires
        in_range(cx as int),
        in_range(cy as int),
        in_range(tip_r as int),
        in_range(base_r as int),
        in_range(base_width as int),
        in_range(tip_width as int),
    ensures
        path_attributes(path) == map!["d"@ => path_data(
            spoke_outline_view(
                Pos { x: cx as int, y: cy as int },
                dir,
                tip_r as int,
                base_r as int,
                base_width as int,
                tip_width as int,
            ),
        )],
{
    let outline = spoke_outline(cx, cy, dir, tip_r, base_r, base_width, tip_width);
    let data = outline_path_data(&outline);
    path_set(path_new(), "d", data.as_str())
}

/// The canvas of `size` pixels as a view box: the origin, then the width and
/// the height.
pub open spec fn view_box_text(size: nat) -> Seq<char> {
    "0 0 "@ + decimal(size) + seq![' '] + decimal(size)
}

/// The attributes of the document's root element: the namespace and a
/// canvas of `size` by `size` pixels.
pub open spec fn canvas_attributes(config: ConfigView) -> Attributes {
    map![
        "xmlns"@ => "http://www.w3.org/2000/svg"@,
        "width"@ => decimal(config.size),
        "height"@ => decimal(config.size),
        "viewBox"@ => view_box_text(config.size),
    ]
}

/// The attributes of the path of the spoke in direction `d`: its outline,
/// filled with the arm color.
pub open spec fn arm_attributes(config: ConfigView, d: Direction) -> Attributes {
    map!["d"@ => path_data(config.spoke(d)), "fill"@ => rgba_text(config.arm_color)]
}

/// The attributes of the spokes' paths, one for each angle, in their order.
pub open spec fn arms(config: ConfigView) -> Seq<Attributes> {
    Seq::new(config.angles.len(), |i: int| arm_attributes(config, config.angles[i]))
}

/// The attributes of the ring's circle: centered on the canvas, stroked
/// along the exact draw radius, half the draw diameter, with the ring's
/// thickness in the rim color, and not filled.
pub open spec fn ring_attributes(config: ConfigView) -> Attributes {
    map![
        "cx"@ => fixed_text(config.center()),
        "cy"@ => fixed_text(config.center()),
        "r"@ => halves_text(config.draw_diameter() as nat),
        "stroke-width"@ => fixed_text(config.ring_thickness),
        "stroke"@ => rgba_text(config.rim_color),
        "fill"@ => "none"@,
    ]
}

/// Whether `doc` is the vector document of `config`: a canvas of `size` by
/// `size`, a group without attributes that holds one filled path for each
/// angle, and after it the ring's circle.
pub open spec fn is_rendering(doc: SVG, config: ConfigView) -> bool {
    &&& document_attributes(doc) == canvas_attributes(config)
    &&& document_children(doc) == seq![
        ChildView::Group(Map::empty(), arms(config)),
        ChildView::Circle(ring_attributes(config)),
    ]
}

/// The reticle as a vector document: a canvas of `size` by `size`, a group
/// with one filled path for each angle, and after it the ring's circle.
pub fn generate_svg(config: &CrosshairConfig) -> (doc: SVG)
    ensures
        is_rendering(doc, config@),
{
    let center = canvas_border_radius(config.size);
    let base_r = spoke_base_radius(config);
    let tip_r = spoke_tip_radius(config);
    let rim_color = rgba_string(config.rim_color);
    let arm_color = rgba_string(config.arm_color);

    let mut group = group_new();
    let n = config.angles.len();
    let mut k: usize = 0;
    while k < n
        invariant
            n == config.angles@.len(),
            k <= n,
            center == config@.center(),
            base_r == config@.base_radius(),
            tip_r == config@.tip_radius(),
            in_range(center as int),
            in_range(base_r as int),
            in_range(tip_r as int),
            arm_color@ == rgba_text(config.arm_color),
            group_attributes(group) == Map::<Seq<char>, Seq<char>>::empty(),
            group_paths(group) == arms(config@).take(k as int),
        decreases n - k,
    {
        let path = bezier_spoke(
            center,
            center,
            config.angles[k],
            tip_r,
            base_r,
            config.spoke_base_width as i64,
            config.spoke_tip_width as i64,
        );
        let path = path_set(path, "fill", arm_color.as_str());
        assert(path_attributes(path) == arm_attributes(config@, config.angles@[k as int]));
        group = group_add(group, path);
        assert(group_paths(group) =~= arms(config@).take(k + 1));
        k = k + 1;
    }
    assert(arms(config@).take(n as int) =~= arms(config@));

    let size = decimal_string(config.size as u64);
    let mut view_box = String::new();
    view_box.append("0 0 ");
    push_decimal(&mut view_box, config.size as u64);
    push_char(&mut view_box, ' ');
    push_decimal(&mut view_box, config.size as u64);
    assert(view_box@ =~= view_box_text(config.size as nat));

    let ring = circle_new();
    let ring = circle_set(ring, "cx", fixed_string(center).as_str());
    let ring = circle_set(ring, "cy", fixed_string(center).as_str());
    let ring = circle_set(ring, "r", halves_string(ring_draw_diameter(config) as u64).as_str());
    let ring = circle_set(
        ring,
        "stroke-width",
        fixed_string(config.ring_thickness as i64).as_str(),
    );
    let ring = circle_set(ring, "stroke", rim_color.as_str());
    let ring = circle_set(ring, "fill", "none");

    let doc = document_new();
    let doc = document_set(doc, "width", size.as_str());
    let doc = document_set(doc, "height", size.as_str());
    let doc = document_set(doc, "viewBox", view_box.as_str());
    let doc = document_add_group(doc, group);
    let doc = document_add_circle(doc, ring);
    assert(document_children(doc) =~= seq![
        ChildView::Group(Map::empty(), arms(config@)),
        ChildView::Circle(ring_attributes(config@)),
    ]);
    doc
}

} // verus!
