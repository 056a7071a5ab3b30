//! The outline of one spoke: a closed path of straight and curved segments.

use vstd::prelude::*;
use crate::fixed::{
    div_round, half, in_range, lemma_round_div_between, lemma_round_div_error,
    lemma_round_div_exact, magnitude, mean, percent, percent_of, project, round_div, AXIS_LIMIT,
    DIR_ONE, PROJECT_LIMIT,
};

verus! {

/// Tip widths up to this one select the razor taper.
pub const RAZOR_TIP_WIDTH: i64 = 10;

/// Number of points that stand for one curve in a polygon.
pub const CURVE_STEPS: u16 = 6;

/// A point of the plane.
pub struct Pos {
    pub x: int,
    pub y: int,
}

impl Pos {
    /// The point moved by `step`.
    pub open spec fn plus(self, step: Pos) -> Pos {
        Pos { x: self.x + step.x, y: self.y + step.y }
    }

    /// The point moved against `step`.
    pub open spec fn minus(self, step: Pos) -> Pos {
        Pos { x: self.x - step.x, y: self.y - step.y }
    }
}

/// A point in canvas coordinates.
#[derive(Clone, Copy, Debug, PartialEq, Eq, Structural)]
pub struct Point {
    pub x: i64,
    pub y: i64,
}

impl View for Point {
    type V = Pos;

    open spec fn view(&self) -> Pos {
        Pos { x: self.x as int, y: self.y as int }
    }
}

/// The direction of a spoke: the cosine and sine of its angle, each times
/// [`DIR_ONE`].
///
/// Any two numbers are a direction, and every contract of this library
/// holds of every direction. What the contracts call a radius or a width is
/// that length in pixels only for a direction of unit length, as
/// [`Direction::is_unit`] says it: [`along`] and [`across`] multiply a
/// length by the direction's components, so a direction of another length
/// stretches or shrinks the spoke by that length. For a direction of unit
/// length [`lemma_unit_step_has_its_length`] bounds how far a step's length
/// lies from the length asked for.
#[derive(Clone, Copy, Debug, PartialEq, Eq, Structural)]
pub struct Direction {
    pub x: i32,
    pub y: i32,
}

/// How far the square of a direction's length may lie from the square of
/// [`DIR_ONE`] for the direction to count as one of unit length. A cosine
/// and a sine, each rounded to the nearest whole number, stay within it.
pub const UNIT_TOLERANCE: i64 = 2_000_000;

impl Direction {
    /// Whether the direction has unit length, within what the rounding of
    /// its two components allows.
    pub open spec fn is_unit(self) -> bool {
        let square = self.x * self.x + self.y * self.y;
        DIR_ONE * DIR_ONE - UNIT_TOLERANCE <= square <= DIR_ONE * DIR_ONE + UNIT_TOLERANCE
    }

    /// Whether the direction has unit length, within what the rounding of
    /// its two components allows.
    pub fn has_unit_length(&self) -> (b: bool)
        ensures
            b == self.is_unit(),
    {
        let x: i128 = self.x as i128;
        let y: i128 = self.y as i128;
        assert(0 <= x * x <= 0x8000_0000 * 0x8000_0000) by (nonlinear_arith)
            requires
                -0x8000_0000 <= x <= 0x8000_0000,
        ;
        assert(0 <= y * y <= 0x8000_0000 * 0x8000_0000) by (nonlinear_arith)
            requires
                -0x8000_0000 <= y <= 0x8000_0000,
        ;
        let square: i128 = x * x + y * y;
        let one: i128 = 1_000_000_000_000;
        assert(one == DIR_ONE * DIR_ONE) by (nonlinear_arith)
            requires
                one == 1_000_000_000_000,
                DIR_ONE == 1_000_000,
        ;
        one - UNIT_TOLERANCE as i128 <= square && square <= one + UNIT_TOLERANCE as i128
    }
}

/// One segment of an outline, from the point where the one before it ended.
#[derive(Clone, Copy, Debug, PartialEq, Eq, Structural)]
pub enum Segment {
    /// A straight line to a point.
    Line(Point),
    /// A quadratic curve with a control point, to an end point.
    Quad(Point, Point),
}

/// What a [`Segment`] stands for.
pub enum SegmentView {
    Line(Pos),
    Quad(Pos, Pos),
}

impl SegmentView {
    /// The point where the segment ends.
    pub open spec fn end(self) -> Pos {
        match self {
            SegmentView::Line(to) => to,
            SegmentView::Quad(_, to) => to,
        }
    }
}

impl View for Segment {
    type V = SegmentView;

    open spec fn view(&self) -> SegmentView {
        match *self {
            Segment::Line(to) => SegmentView::Line(to@),
            Segment::Quad(ctrl, to) => SegmentView::Quad(ctrl@, to@),
        }
    }
}

/// A path: its first point and the segments that follow.
#[derive(Clone, Debug)]
pub struct Outline {
    pub start: Point,
    pub segments: Vec<Segment>,
}

/// What an [`Outline`] stands for.
pub struct OutlineView {
    pub start: Pos,
    pub segments: Seq<SegmentView>,
}

impl OutlineView {
    /// The point where the path ends.
    pub open spec fn end(self) -> Pos {
        if self.segments.len() == 0 {
            self.start
        } else {
            self.segments.last().end()
        }
    }

    /// Whether the path ends where it started.
    pub open spec fn closed(self) -> bool {
        self.end() == self.start
    }
}

impl View for Outline {
    type V = OutlineView;

    open spec fn view(&self) -> OutlineView {
        OutlineView {
            start: self.start@,
            segments: self.segments@.map_values(|s: Segment| s@),
        }
    }
}

/// The step of `r` times the direction `d`: for a `d` of unit length, the
/// step of length `r` in that direction, each coordinate rounded.
pub open spec fn along(d: Direction, r: int) -> Pos {
    Pos { x: round_div(r * d.x, DIR_ONE as int), y: round_div(r * d.y, DIR_ONE as int) }
}

/// The step of `h` times the direction a quarter turn on from `d`: for a
/// `d` of unit length, the step of length `h` across `d`, each coordinate
/// rounded.
pub open spec fn across(d: Direction, h: int) -> Pos {
    Pos { x: round_div(h * (-d.y), DIR_ONE as int), y: round_div(h * d.x, DIR_ONE as int) }
}

/// The point halfway between `a` and `b`.
pub open spec fn midpoint(a: Pos, b: Pos) -> Pos {
    Pos { x: (a.x + b.x) / 2, y: (a.y + b.y) / 2 }
}

/// The curve to `to` whose control point lies halfway from `from`.
pub open spec fn curve(from: Pos, to: Pos) -> SegmentView {
    SegmentView::Quad(midpoint(from, to), to)
}

/// The razor taper: the outline narrows through a shoulder, a middle and a
/// pinch into a point at the tip.
pub open spec fn razor_outline(c: Pos, d: Direction, tip_r: int, base_r: int, base_width: int)
    -> OutlineView {
    let base_half = base_width / 2;
    let dist = if base_r >= tip_r { base_r - tip_r } else { tip_r - base_r };
    let base = c.plus(along(d, base_r));
    let shoulder = c.plus(along(d, base_r - percent(dist, 25)));
    let mid = c.plus(along(d, base_r - percent(dist, 60)));
    let pinch = c.plus(along(d, base_r - percent(dist, 90)));
    let tip = c.plus(along(d, tip_r));
    let bl = base.minus(across(d, base_half));
    let br = base.plus(across(d, base_half));
    let sl = shoulder.minus(across(d, percent(base_half, 90)));
    let sr = shoulder.plus(across(d, percent(base_half, 90)));
    let ml = mid.minus(across(d, percent(base_half, 60)));
    let mr = mid.plus(across(d, percent(base_half, 60)));
    let pl = pinch.minus(across(d, percent(base_half, 18)));
    let pr = pinch.plus(across(d, percent(base_half, 18)));
    OutlineView {
        start: bl,
        segments: seq![
            SegmentView::Line(br),
            SegmentView::Line(sr),
            curve(sr, mr),
            curve(mr, pr),
            curve(pr, tip),
            curve(tip, pl),
            curve(pl, ml),
            curve(ml, sl),
            SegmentView::Line(bl),
        ],
    }
}

/// The beveled taper: a trapezoid from the base to the tip.
pub open spec fn beveled_outline(
    c: Pos,
    d: Direction,
    tip_r: int,
    base_r: int,
    base_width: int,
    tip_width: int,
) -> OutlineView {
    let base = c.plus(along(d, base_r));
    let tip = c.plus(along(d, tip_r));
    let bl = base.minus(across(d, base_width / 2));
    let br = base.plus(across(d, base_width / 2));
    let tl = tip.minus(across(d, tip_width / 2));
    let tr = tip.plus(across(d, tip_width / 2));
    OutlineView {
        start: bl,
        segments: seq![
            SegmentView::Line(br),
            curve(br, tr),
            SegmentView::Line(tl),
            curve(tl, bl),
        ],
    }
}

/// The outline of the spoke that points from `c` in direction `d`, with its
/// tip at radius `tip_r` and its base at radius `base_r`.
pub open spec fn spoke_outline_view(
    c: Pos,
    d: Direction,
    tip_r: int,
    base_r: int,
    base_width: int,
    tip_width: int,
) -> OutlineView {
    if tip_width <= RAZOR_TIP_WIDTH {
        razor_outline(c, d, tip_r, base_r, base_width)
    } else {
        beveled_outline(c, d, tip_r, base_r, base_width, tip_width)
    }
}

/// Along an axis a step has exactly its length: in the direction whose one
/// component is [`DIR_ONE`] and whose other is nothing, nothing is rounded.
pub proof fn lemma_axis_steps_are_exact(r: int)
    ensures
        (Direction { x: 1_000_000, y: 0 }).is_unit(),
        along(Direction { x: 1_000_000, y: 0 }, r) == (Pos { x: r, y: 0 }),
        across(Direction { x: 1_000_000, y: 0 }, r) == (Pos { x: 0, y: r }),
{
    lemma_round_div_exact(r, DIR_ONE as int);
    lemma_round_div_exact(0, DIR_ONE as int);
    assert(r * 1_000_000 == r * (DIR_ONE as int));
    assert(r * 0 == 0 * (DIR_ONE as int));
    assert(r * (-0int) == 0 * (DIR_ONE as int));
}

/// The square of a step's length.
pub open spec fn square_length(p: Pos) -> int {
    p.x * p.x + p.y * p.y
}

/// How far the square of the length of a step of `r` times a unit direction
/// may lie from the square of `r`, times [`DIR_ONE`]: two parts in a million
/// of that square for the direction's rounding, and about twice `r` for the
/// rounding of the step's coordinates.
pub open spec fn step_slack(r: int) -> int {
    2 * (r * r) + 2 * (DIR_ONE + 1) * magnitude(r) + DIR_ONE
}

/// One rounded product of a length and a component of a unit direction:
/// [`DIR_ONE`] squared times its square is the square of the exact product,
/// and an error that the rounding bounds.
proof fn lemma_rounded_product(r: int, x: int, a: int, e: int)
    requires
        a == round_div(r * x, DIR_ONE as int),
        e == DIR_ONE * a - r * x,
        -1_000_001 < x < 1_000_001,
    ensures
        1_000_000_000_000 * (a * a) == (r * r) * (x * x) + 2 * ((r * x) * e) + e * e,
        0 <= e * e <= 250_000_000_000,
        -500_000_500_000 * magnitude(r) <= (r * x) * e <= 500_000_500_000 * magnitude(r),
{
    lemma_round_div_error(r * x, DIR_ONE as int);
    let n = r * x;
    let da = 1_000_000 * a;
    assert(da == n + e);
    assert(1_000_000_000_000 * (a * a) == da * da) by (nonlinear_arith)
        requires
            da == 1_000_000 * a,
    ;
    assert(da * da == n * n + 2 * (n * e) + e * e) by (nonlinear_arith)
        requires
            da == n + e,
    ;
    assert(n * n == (r * r) * (x * x)) by (nonlinear_arith)
        requires
            n == r * x,
    ;
    assert(0 <= e * e <= 250_000_000_000) by (nonlinear_arith)
        requires
            -500_000 <= e <= 500_000,
    ;
    let m = magnitude(r);
    let xe = x * e;
    assert(-500_000_500_000 <= xe <= 500_000_500_000) by (nonlinear_arith)
        requires
            xe == x * e,
            -1_000_001 < x < 1_000_001,
            -500_000 <= e <= 500_000,
    ;
    assert(n * e == r * xe) by (nonlinear_arith)
        requires
            n == r * x,
            xe == x * e,
    ;
    assert(-500_000_500_000 * m <= r * xe <= 500_000_500_000 * m) by (nonlinear_arith)
        requires
            m == magnitude(r),
            -500_000_500_000 <= xe <= 500_000_500_000,
    ;
}

/// In a direction of unit length a step has its length: the square of the
/// length of the step of `r` times the direction lies within
/// [`step_slack`] of the square of `r`, both times [`DIR_ONE`].
pub proof fn lemma_unit_step_has_its_length(d: Direction, r: int)
    requires
        d.is_unit(),
    ensures
        -step_slack(r) <= DIR_ONE * (square_length(along(d, r)) - r * r) <= step_slack(r),
        -step_slack(r) <= DIR_ONE * (square_length(across(d, r)) - r * r) <= step_slack(r),
{
    let x = d.x as int;
    let y = d.y as int;
    assert(x * x >= 0 && y * y >= 0) by (nonlinear_arith);
    assert(-1_000_001 < x < 1_000_001) by (nonlinear_arith)
        requires
            x * x <= 1_000_002_000_000,
    ;
    assert(-1_000_001 < y < 1_000_001) by (nonlinear_arith)
        requires
            y * y <= 1_000_002_000_000,
    ;
    lemma_step_of_unit(r, x, y);
    assert((-y) * (-y) == y * y) by (nonlinear_arith);
    lemma_step_of_unit(r, -y, x);
}

/// The step whose coordinates are `r` times `x` and `r` times `y`, each
/// divided by [`DIR_ONE`] and rounded, has the length `r` within
/// [`step_slack`] where `x` and `y` are the components of a unit direction.
proof fn lemma_step_of_unit(r: int, x: int, y: int)
    requires
        -1_000_001 < x < 1_000_001,
        -1_000_001 < y < 1_000_001,
        1_000_000_000_000 - 2_000_000 <= x * x + y * y <= 1_000_000_000_000 + 2_000_000,
    ensures
        -step_slack(r) <= DIR_ONE * (square_length(
            Pos { x: round_div(r * x, DIR_ONE as int), y: round_div(r * y, DIR_ONE as int) },
        ) - r * r) <= step_slack(r),
{
    let a = round_div(r * x, DIR_ONE as int);
    let b = round_div(r * y, DIR_ONE as int);
    let e1 = DIR_ONE * a - r * x;
    let e2 = DIR_ONE * b - r * y;
    lemma_rounded_product(r, x, a, e1);
    lemma_rounded_product(r, y, b, e2);
    let m = magnitude(r);
    let rr = r * r;
    let eps = x * x + y * y - 1_000_000_000_000;
    let gap = a * a + b * b - rr;
    assert(rr >= 0) by (nonlinear_arith)
        requires
            rr == r * r,
    ;
    assert(1_000_000_000_000 * gap == 1_000_000_000_000 * (a * a) + 1_000_000_000_000 * (b * b)
        - 1_000_000_000_000 * rr);
    assert(rr * eps == rr * (x * x) + rr * (y * y) - 1_000_000_000_000 * rr)
        by (nonlinear_arith)
        requires
            eps == x * x + y * y - 1_000_000_000_000,
    ;
    assert(1_000_000_000_000 * gap == rr * eps + 2 * ((r * x) * e1) + 2 * ((r * y) * e2) + e1
        * e1 + e2 * e2);
    assert(-2_000_000 * rr <= rr * eps <= 2_000_000 * rr) by (nonlinear_arith)
        requires
            rr >= 0,
            -2_000_000 <= eps <= 2_000_000,
    ;
    let slack = 2 * rr + 2_000_002 * m + 1_000_000;
    assert(slack == step_slack(r));
    assert(-(1_000_000 * slack) <= 1_000_000_000_000 * gap <= 1_000_000 * slack);
    assert(-slack <= 1_000_000 * gap <= slack);
    assert(gap == square_length(Pos { x: a, y: b }) - r * r);
}

/// Every spoke outline ends where it started, whatever the radii and widths.
pub proof fn lemma_spoke_outline_closed(
    c: Pos,
    d: Direction,
    tip_r: int,
    base_r: int,
    base_width: int,
    tip_width: int,
)
    ensures
        spoke_outline_view(c, d, tip_r, base_r, base_width, tip_width).closed(),
{
}

/// The point at radius `r` from `c` in direction `d`.
pub(crate) fn on_axis(c: Point, d: Direction, r: i64) -> (p: Point)
    requires
        in_range(c.x as int),
        in_range(c.y as int),
        -PROJECT_LIMIT <= r <= PROJECT_LIMIT,
    ensures
        p@ == c@.plus(along(d, r as int)),
        -AXIS_LIMIT <= p.x <= AXIS_LIMIT,
        -AXIS_LIMIT <= p.y <= AXIS_LIMIT,
{
    Point { x: c.x + project(r, d.x as i64), y: c.y + project(r, d.y as i64) }
}

/// The points at distance `h` from `p` to the left and to the right of
/// direction `d`.
pub(crate) fn sides(p: Point, d: Direction, h: i64) -> (lr: (Point, Point))
    requires
        -AXIS_LIMIT <= p.x <= AXIS_LIMIT,
        -AXIS_LIMIT <= p.y <= AXIS_LIMIT,
        -PROJECT_LIMIT <= h <= PROJECT_LIMIT,
    ensures
        lr.0@ == p@.minus(across(d, h as int)),
        lr.1@ == p@.plus(across(d, h as int)),
{
    let sx = project(h, -(d.y as i64));
    let sy = project(h, d.x as i64);
    (Point { x: p.x - sx, y: p.y - sy }, Point { x: p.x + sx, y: p.y + sy })
}

/// The curve from `from` to `to` whose control point lies halfway between them.
fn curve_to(from: Point, to: Point) -> (s: Segment)
    ensures
        s@ == curve(from@, to@),
{
    Segment::Quad(Point { x: mean(from.x, to.x), y: mean(from.y, to.y) }, to)
}

/// Builds the outline of one spoke.
///
/// The base corners lie half a base width to either side of the axis at
/// `base_r`. A tip width of at most [`RAZOR_TIP_WIDTH`] gives the razor taper,
/// a wider one the beveled taper. The radii and widths are lengths in
/// pixels for a `dir` of unit length ([`Direction::is_unit`]); the outline is
/// as stated, and closed, for every `dir`.
pub fn spoke_outline(
    cx: i64,
    cy: i64,
    dir: Direction,
    tip_r: i64,
    base_r: i64,
    base_width: i64,
    tip_width: i64,
) -> (outline: Outline)
    requires
        in_range(cx as int),
        in_range(cy as int),
        in_range(tip_r as int),
        in_range(base_r as int),
        in_range(base_width as int),
        in_range(tip_width as int),
    ensures
        outline@ == spoke_outline_view(
            Pos { x: cx as int, y: cy as int },
            dir,
            tip_r as int,
            base_r as int,
            base_width as int,
            tip_width as int,
        ),
        outline@.closed(),
{
    let c = Point { x: cx, y: cy };
    let base_half = half(base_width);
    let base = on_axis(c, dir, base_r);
    let tip = on_axis(c, dir, tip_r);
    let (bl, br) = sides(base, dir, base_half);
    let mut segments: Vec<Segment> = Vec::new();
    if tip_width <= RAZOR_TIP_WIDTH {
        let dist = if base_r >= tip_r { base_r - tip_r } else { tip_r - base_r };
        let shoulder = on_axis(c, dir, base_r - percent_of(dist, 25));
        let mid = on_axis(c, dir, base_r - percent_of(dist, 60));
        let pinch = on_axis(c, dir, base_r - percent_of(dist, 90));
        let (sl, sr) = sides(shoulder, dir, percent_of(base_half, 90));
        let (ml, mr) = sides(mid, dir, percent_of(base_half, 60));
        let (pl, pr) = sides(pinch, dir, percent_of(base_half, 18));
        segments.push(Segment::Line(br));
        segments.push(Segment::Line(sr));
        segments.push(curve_to(sr, mr));
        segments.push(curve_to(mr, pr));
        segments.push(curve_to(pr, tip));
        segments.push(curve_to(tip, pl));
        segments.push(curve_to(pl, ml));
        segments.push(curve_to(ml, sl));
        segments.push(Segment::Line(bl));
    } else {
        let (tl, tr) = sides(tip, dir, half(tip_width));
        segments.push(Segment::Line(br));
        segments.push(curve_to(br, tr));
        segments.push(Segment::Line(tl));
        segments.push(curve_to(tl, bl));
    }
    let outline = Outline { start: bl, segments };
    proof {
        let want = spoke_outline_view(
            Pos { x: cx as int, y: cy as int },
            dir,
            tip_r as int,
            base_r as int,
            base_width as int,
            tip_width as int,
        );
        assert(outline@.segments =~= want.segments);
    }
    outline
}

/// One coordinate of the point at `i` of `n` equal steps along a quadratic
/// curve from `s` to `e` with control coordinate `c`.
pub open spec fn blend(s: int, c: int, e: int, i: int, n: int) -> int {
    round_div((n - i) * (n - i) * s + 2 * (n - i) * i * c + i * i * e, n * n)
}

/// The point at `i` of `n` equal steps along a quadratic curve.
pub open spec fn quad_sample(start: Pos, ctrl: Pos, end: Pos, i: int, n: int) -> Pos {
    Pos { x: blend(start.x, ctrl.x, end.x, i, n), y: blend(start.y, ctrl.y, end.y, i, n) }
}

/// The points at steps 1 to `n` along a quadratic curve; the last is its end.
pub open spec fn quad_samples(start: Pos, ctrl: Pos, end: Pos, n: int) -> Seq<Pos> {
    Seq::new(n as nat, |k: int| quad_sample(start, ctrl, end, k + 1, n))
}

/// What a sequence of points stands for.
pub open spec fn positions(points: Seq<Point>) -> Seq<Pos> {
    points.map_values(|p: Point| p@)
}

/// The points that one segment adds to a polygon that has reached `from`.
pub open spec fn segment_points(from: Pos, s: SegmentView, steps: int) -> Seq<Pos> {
    match s {
        SegmentView::Line(to) => seq![to],
        SegmentView::Quad(ctrl, to) => quad_samples(from, ctrl, to, steps),
    }
}

/// The polygon that stands for an outline: its first point, then what each
/// segment adds, a curve being cut into `steps` points.
pub open spec fn polyline(o: OutlineView, steps: int) -> Seq<Pos>
    decreases o.segments.len(),
{
    if o.segments.len() == 0 {
        seq![o.start]
    } else {
        let before = polyline(
            OutlineView { start: o.start, segments: o.segments.drop_last() },
            steps,
        );
        before + segment_points(before.last(), o.segments.last(), steps)
    }
}

/// The last of the points along a curve is the curve's end.
pub proof fn lemma_quad_sample_end(start: Pos, ctrl: Pos, end: Pos, n: int)
    requires
        n >= 1,
    ensures
        quad_sample(start, ctrl, end, n, n) == end,
{
    assert(n * n > 0) by (nonlinear_arith)
        requires n >= 1;
    assert((n - n) * (n - n) * start.x + 2 * (n - n) * n * ctrl.x + n * n * end.x == end.x * (n
        * n)) by (nonlinear_arith);
    assert((n - n) * (n - n) * start.y + 2 * (n - n) * n * ctrl.y + n * n * end.y == end.y * (n
        * n)) by (nonlinear_arith);
    lemma_round_div_exact(end.x, n * n);
    lemma_round_div_exact(end.y, n * n);
}

/// A polygon starts where its outline starts and, with at least one point to
/// a curve, ends where its outline ends.
pub proof fn lemma_polyline_ends(o: OutlineView, steps: int)
    requires
        steps >= 1,
    ensures
        polyline(o, steps).len() >= 1,
        polyline(o, steps).first() == o.start,
        polyline(o, steps).last() == o.end(),
    decreases o.segments.len(),
{
    if o.segments.len() > 0 {
        let shorter = OutlineView { start: o.start, segments: o.segments.drop_last() };
        lemma_polyline_ends(shorter, steps);
        let before = polyline(shorter, steps);
        match o.segments.last() {
            SegmentView::Line(to) => {},
            SegmentView::Quad(ctrl, to) => {
                lemma_quad_sample_end(before.last(), ctrl, to, steps);
            },
        }
    }
}

/// The polygon of a closed outline is closed.
pub proof fn lemma_polygon_closed(o: OutlineView, steps: int)
    requires
        steps >= 1,
        o.closed(),
    ensures
        polyline(o, steps).first() == polyline(o, steps).last(),
{
    lemma_polyline_ends(o, steps);
}

/// One coordinate of a point along a curve.
fn blend_coordinate(s: i64, c: i64, e: i64, i: u16, n: u16) -> (v: i64)
    requires
        1 <= i <= n,
    ensures
        v == blend(s as int, c as int, e as int, i as int, n as int),
{
    let rest: i128 = (n - i) as i128;
    let step: i128 = i as i128;
    let whole: i128 = n as i128;
    let ghost lo: int = if s <= c && s <= e { s as int } else if c <= e { c as int } else { e as int };
    let ghost hi: int = if s >= c && s >= e { s as int } else if c >= e { c as int } else { e as int };
    assert(0 <= rest * rest <= 0xffff * 0xffff) by (nonlinear_arith)
        requires 0 <= rest <= 0xffff;
    assert(0 <= rest * step <= 0xffff * 0xffff) by (nonlinear_arith)
        requires 0 <= rest <= 0xffff, 0 <= step <= 0xffff;
    assert(0 <= step * step <= 0xffff * 0xffff) by (nonlinear_arith)
        requires 0 <= step <= 0xffff;
    assert(0 < whole * whole <= 0xffff * 0xffff) by (nonlinear_arith)
        requires 0 < whole <= 0xffff;
    let w0: i128 = rest * rest;
    let w1: i128 = 2 * (rest * step);
    let w2: i128 = step * step;
    let d: i128 = whole * whole;
    assert(w0 + w1 + w2 == d) by (nonlinear_arith)
        requires
            w0 == rest * rest,
            w1 == 2 * (rest * step),
            w2 == step * step,
            d == whole * whole,
            whole == rest + step,
    ;
    assert(w0 * lo <= w0 * s <= w0 * hi) by (nonlinear_arith)
        requires w0 >= 0, lo <= s <= hi;
    assert(w1 * lo <= w1 * c <= w1 * hi) by (nonlinear_arith)
        requires w1 >= 0, lo <= c <= hi;
    assert(w2 * lo <= w2 * e <= w2 * hi) by (nonlinear_arith)
        requires w2 >= 0, lo <= e <= hi;
    assert(w0 * lo + w1 * lo + w2 * lo == lo * d) by (nonlinear_arith)
        requires w0 + w1 + w2 == d;
    assert(w0 * hi + w1 * hi + w2 * hi == hi * d) by (nonlinear_arith)
        requires w0 + w1 + w2 == d;
    assert(-0x8000_0000_0000_0000 * 0x1_0000_0000 <= lo * d) by (nonlinear_arith)
        requires -0x8000_0000_0000_0000 <= lo, lo <= 0x8000_0000_0000_0000, 0 < d <= 0x1_0000_0000;
    assert(hi * d <= 0x8000_0000_0000_0000 * 0x1_0000_0000) by (nonlinear_arith)
        requires -0x8000_0000_0000_0000 <= hi, hi <= 0x8000_0000_0000_0000, 0 < d <= 0x1_0000_0000;
    assert(-0x8000_0000_0000_0000 * 0x2_0000_0000 <= w0 * s <= 0x8000_0000_0000_0000
        * 0x2_0000_0000) by (nonlinear_arith)
        requires 0 <= w0 <= 0x2_0000_0000, -0x8000_0000_0000_0000 <= s <= 0x8000_0000_0000_0000;
    assert(-0x8000_0000_0000_0000 * 0x2_0000_0000 <= w1 * c <= 0x8000_0000_0000_0000
        * 0x2_0000_0000) by (nonlinear_arith)
        requires 0 <= w1 <= 0x2_0000_0000, -0x8000_0000_0000_0000 <= c <= 0x8000_0000_0000_0000;
    assert(-0x8000_0000_0000_0000 * 0x2_0000_0000 <= w2 * e <= 0x8000_0000_0000_0000
        * 0x2_0000_0000) by (nonlinear_arith)
        requires 0 <= w2 <= 0x2_0000_0000, -0x8000_0000_0000_0000 <= e <= 0x8000_0000_0000_0000;
    let total: i128 = w0 * (s as i128) + w1 * (c as i128) + w2 * (e as i128);
    assert(total == (n - i) * (n - i) * s + 2 * (n - i) * i * c + i * i * e) by (nonlinear_arith)
        requires
            total == w0 * s + w1 * c + w2 * e,
            w0 == rest * rest,
            w1 == 2 * (rest * step),
            w2 == step * step,
            rest == n - i,
            step == i,
    ;
    assert(d == n * n);
    let q = div_round(total, d as i64);
    proof {
        lemma_round_div_between(total as int, d as int, lo, hi);
    }
    q as i64
}

/// Appends the points at steps 1 to `steps` along the quadratic curve that
/// runs from the last of `points` to `end` with control point `ctrl`. With no
/// point to start from, nothing is appended.
pub fn add_quad_samples(points: &mut Vec<Point>, ctrl: Point, end: Point, steps: u16)
    ensures
        old(points)@.len() == 0 ==> final(points)@ == old(points)@,
        old(points)@.len() > 0 ==> final(points)@.len() == old(points)@.len() + steps,
        old(points)@.len() > 0 ==> positions(final(points)@) == positions(old(points)@)
            + quad_samples(old(points)@.last()@, ctrl@, end@, steps as int),
{
    let len = points.len();
    if len == 0 {
        return ;
    }
    let start = points[len - 1];
    let mut i: u16 = 0;
    while i < steps
        invariant
            len == old(points)@.len(),
            len > 0,
            start == old(points)@.last(),
            i <= steps,
            points@.len() == len + i,
            points@.take(len as int) == old(points)@,
            forall|k: int|
                0 <= k < i ==> (#[trigger] points@[len + k])@ == quad_sample(
                    start@,
                    ctrl@,
                    end@,
                    k + 1,
                    steps as int,
                ),
        decreases steps - i,
    {
        let x = blend_coordinate(start.x, ctrl.x, end.x, i + 1, steps);
        let y = blend_coordinate(start.y, ctrl.y, end.y, i + 1, steps);
        let ghost before = points@;
        points.push(Point { x, y });
        assert(points@.take(len as int) =~= before.take(len as int));
        i = i + 1;
    }
    assert(positions(points@) =~= positions(old(points)@) + quad_samples(
        start@,
        ctrl@,
        end@,
        steps as int,
    )) by {
        let got = positions(points@);
        let want = positions(old(points)@) + quad_samples(start@, ctrl@, end@, steps as int);
        assert(got.len() == want.len());
        assert forall|k: int| 0 <= k < got.len() implies got[k] == want[k] by {
            if k < len {
                assert(points@.take(len as int)[k] == points@[k]);
            } else {
                assert(points@[len + (k - len)]@ == quad_sample(
                    start@,
                    ctrl@,
                    end@,
                    (k - len) + 1,
                    steps as int,
                ));
            }
        }
    }
}

/// The polygon that stands for `outline`, each curve cut into `steps` points.
pub fn flatten(outline: &Outline, steps: u16) -> (points: Vec<Point>)
    ensures
        positions(points@) == polyline(outline@, steps as int),
{
    let mut points: Vec<Point> = Vec::new();
    points.push(outline.start);
    let n = outline.segments.len();
    let mut k: usize = 0;
    assert(outline@.segments.take(0) =~= Seq::<SegmentView>::empty());
    assert(positions(points@) =~= seq![outline.start@]);
    while k < n
        invariant
            n == outline.segments@.len(),
            k <= n,
            points@.len() > 0,
            positions(points@) == polyline(
                OutlineView { start: outline@.start, segments: outline@.segments.take(k as int) },
                steps as int,
            ),
        decreases n - k,
    {
        let ghost before = positions(points@);
        let ghost prefix = outline@.segments.take(k as int);
        let ghost next = outline@.segments.take(k + 1);
        assert(next.drop_last() =~= prefix);
        assert(next.last() == outline.segments@[k as int]@);
        assert(before.last() == points@.last()@);
        match outline.segments[k] {
            Segment::Line(to) => {
                points.push(to);
                assert(positions(points@) =~= before + seq![to@]);
            },
            Segment::Quad(ctrl, to) => {
                add_quad_samples(&mut points, ctrl, to, steps);
            },
        }
        k = k + 1;
    }
    assert(outline@.segments.take(n as int) =~= outline@.segments);
    points
}

/// The polygon that stands for the outline of one spoke, each curve cut into
/// [`CURVE_STEPS`] points. Its last point is its first.
pub fn spoke_outline_points(
    cx: i64,
    cy: i64,
    dir: Direction,
    tip_r: i64,
    base_r: i64,
    base_width: i64,
    tip_width: i64,
) -> (points: Vec<Point>)
    requires
        in_range(cx as int),
        in_range(cy as int),
        in_range(tip_r as int),
        in_range(base_r as int),
        in_range(base_width as int),
        in_range(tip_width as int),
    ensures
        positions(points@) == polyline(
            spoke_outline_view(
                Pos { x: cx as int, y: cy as int },
                dir,
                tip_r as int,
                base_r as int,
                base_width as int,
                tip_width as int,
            ),
            CURVE_STEPS as int,
        ),
        points@.len() >= 1,
        points@.first() == points@.last(),
{
    let outline = spoke_outline(cx, cy, dir, tip_r, base_r, base_width, tip_width);
    let points = flatten(&outline, CURVE_STEPS);
    proof {
        lemma_polygon_closed(outline@, CURVE_STEPS as int);
        assert(positions(points@).len() == points@.len());
        assert(positions(points@).first() == points@.first()@);
        assert(positions(points@).last() == points@.last()@);
    }
    points
}

} // verus!
