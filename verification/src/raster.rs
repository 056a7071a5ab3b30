//! The raster picture: a coverage mask found by supersampling, and the
//! pixel buffers colored from it.

use vstd::prelude::*;
use crate::config::{
    at_least_zero, canvas_border_radius, lemma_stroke_covers_ring, ring_inner_radius,
    spoke_base_radius, spoke_tip_radius, ConfigView, CrosshairConfig, MAX_CANVAS_SIZE,
};
use crate::fixed::{half, lemma_projection_bound, magnitude, UNIT};
use crate::outline::{across, along, on_axis, sides, Direction, Point, Pos};

verus! {

/// The number of samples along each edge of a pixel, where none is named.
pub const SUPERSAMPLE: u8 = 4;

/// The coverage of a sample that a shape covers.
pub const FULL_COVERAGE: u8 = 255;

/// The four corners of a spoke drawn with straight edges.
#[derive(Clone, Copy, Debug, PartialEq, Eq, Structural)]
pub struct Quad {
    pub bl: Point,
    pub br: Point,
    pub tr: Point,
    pub tl: Point,
}

/// What a [`Quad`] stands for.
pub struct QuadView {
    pub bl: Pos,
    pub br: Pos,
    pub tr: Pos,
    pub tl: Pos,
}

impl View for Quad {
    type V = QuadView;

    open spec fn view(&self) -> QuadView {
        QuadView { bl: self.bl@, br: self.br@, tr: self.tr@, tl: self.tl@ }
    }
}

/// The corners of the spoke in direction `d`: the base corners half a base
/// width, the tip corners half a tip width to either side of the axis.
pub open spec fn spoke_quad(config: ConfigView, d: Direction) -> QuadView {
    let c = Pos { x: config.center(), y: config.center() };
    let base = c.plus(along(d, config.base_radius()));
    let tip = c.plus(along(d, config.tip_radius()));
    QuadView {
        bl: base.minus(across(d, config.spoke_base_width / 2)),
        br: base.plus(across(d, config.spoke_base_width / 2)),
        tr: tip.plus(across(d, config.spoke_tip_width / 2)),
        tl: tip.minus(across(d, config.spoke_tip_width / 2)),
    }
}

/// `p` with both coordinates multiplied by `k`.
pub open spec fn scaled(p: Pos, k: int) -> Pos {
    Pos { x: p.x * k, y: p.y * k }
}

/// The middle of the sample in column `sx` and row `sy`, in units of one
/// `2 * s`-th of a fixed-point unit, `s` being the number of samples along
/// a pixel's edge.
pub open spec fn sample_center(sx: int, sy: int) -> Pos {
    Pos { x: (2 * sx + 1) * UNIT, y: (2 * sy + 1) * UNIT }
}

/// Twice the area of the triangle `a`, `b`, `p`, with the sign of the side
/// of the line from `a` to `b` on which `p` lies.
pub open spec fn side(a: Pos, b: Pos, p: Pos) -> int {
    (b.x - a.x) * (p.y - a.y) - (b.y - a.y) * (p.x - a.x)
}

/// The least of four numbers.
pub open spec fn min4(a: int, b: int, c: int, d: int) -> int {
    let ab = if a <= b { a } else { b };
    let cd = if c <= d { c } else { d };
    if ab <= cd { ab } else { cd }
}

/// The greatest of four numbers.
pub open spec fn max4(a: int, b: int, c: int, d: int) -> int {
    let ab = if a >= b { a } else { b };
    let cd = if c >= d { c } else { d };
    if ab >= cd { ab } else { cd }
}

/// Whether `p` lies in the quadrilateral with the corners `bl`, `br`, `tr`
/// and `tl`, its edges counted in: `p` lies on one and the same side of all
/// four edges, and within the corners' bounds.
pub open spec fn in_quad(q: QuadView, p: Pos) -> bool {
    let a = side(q.bl, q.br, p);
    let b = side(q.br, q.tr, p);
    let c = side(q.tr, q.tl, p);
    let d = side(q.tl, q.bl, p);
    &&& min4(q.bl.x, q.br.x, q.tr.x, q.tl.x) <= p.x <= max4(q.bl.x, q.br.x, q.tr.x, q.tl.x)
    &&& min4(q.bl.y, q.br.y, q.tr.y, q.tl.y) <= p.y <= max4(q.bl.y, q.br.y, q.tr.y, q.tl.y)
    &&& (a >= 0 && b >= 0 && c >= 0 && d >= 0) || (a <= 0 && b <= 0 && c <= 0 && d <= 0)
}

/// The quadrilateral with every corner scaled by `k`.
pub open spec fn scaled_quad(q: QuadView, k: int) -> QuadView {
    QuadView {
        bl: scaled(q.bl, k),
        br: scaled(q.br, k),
        tr: scaled(q.tr, k),
        tl: scaled(q.tl, k),
    }
}

/// Whether the spoke in direction `d` covers the middle of the sample in
/// column `sx` and row `sy`, with `s` samples along a pixel's edge.
pub open spec fn spoke_covers(config: ConfigView, d: Direction, s: int, sx: int, sy: int) -> bool {
    in_quad(scaled_quad(spoke_quad(config, d), 2 * s), sample_center(sx, sy))
}

/// Whether the ring covers the middle of the sample in column `sx` and row
/// `sy`: its distance from the middle of the canvas is at least the ring's
/// inner radius and at most its outer radius.
pub open spec fn ring_covers(config: ConfigView, s: int, sx: int, sy: int) -> bool {
    let dx = 2 * sx + 1 - config.size * s;
    let dy = 2 * sy + 1 - config.size * s;
    let inner = 2 * config.inner_radius() * s;
    let outer = 2 * config.ring_outer_radius * s;
    &&& config.ring_outer_radius >= 0
    &&& inner * inner <= (dx * dx + dy * dy) * (UNIT * UNIT)
    &&& (dx * dx + dy * dy) * (UNIT * UNIT) <= outer * outer
}

/// Whether a stroke of the ring's thickness along the exact draw radius, as
/// the vector document has it, covers the middle of the sample in column
/// `sx` and row `sy`. A stroke wider than its circle reaches the middle.
pub open spec fn stroke_covers(config: ConfigView, s: int, sx: int, sy: int) -> bool {
    let dx = 2 * sx + 1 - config.size * s;
    let dy = 2 * sy + 1 - config.size * s;
    let inner = at_least_zero(config.draw_diameter() - config.ring_thickness) * s;
    let outer = (config.draw_diameter() + config.ring_thickness) * s;
    &&& config.draw_diameter() + config.ring_thickness >= 0
    &&& inner * inner <= (dx * dx + dy * dy) * (UNIT * UNIT)
    &&& (dx * dx + dy * dy) * (UNIT * UNIT) <= outer * outer
}

/// The ring of the raster picture is the ring of the vector document: where
/// the thickness is not negative and the draw radius is not cut off at zero,
/// the ring covers a sample exactly where the stroke along the draw radius
/// does.
pub proof fn lemma_ring_is_the_stroke(config: ConfigView, s: int, sx: int, sy: int)
    requires
        0 <= config.ring_thickness <= 2 * config.ring_outer_radius,
    ensures
        ring_covers(config, s, sx, sy) == stroke_covers(config, s, sx, sy),
{
    lemma_stroke_covers_ring(config);
}

/// Whether the ring or one of the spokes covers a sample.
pub open spec fn covered(config: ConfigView, s: int, sx: int, sy: int) -> bool {
    ring_covers(config, s, sx, sy) || exists|k: int|
        0 <= k < config.angles.len() && #[trigger] spoke_covers(
            config,
            config.angles[k],
            s,
            sx,
            sy,
        )
}

/// The number of covered samples among the first `j` samples, row by row,
/// of the block of `s` by `s` samples that makes up the pixel in column `px`
/// and row `py`.
pub open spec fn covered_samples(config: ConfigView, s: int, px: int, py: int, j: int) -> int
    decreases j,
{
    if j <= 0 {
        0
    } else {
        covered_samples(config, s, px, py, j - 1) + if covered(
            config,
            s,
            px * s + (j - 1) % s,
            py * s + (j - 1) / s,
        ) {
            1int
        } else {
            0int
        }
    }
}

/// The coverage of a pixel: the mean of its samples, a covered sample
/// counting [`FULL_COVERAGE`], rounded to the nearest number.
pub open spec fn block_average(config: ConfigView, s: int, px: int, py: int) -> int {
    (FULL_COVERAGE * covered_samples(config, s, px, py, s * s) + (s * s) / 2) / (s * s)
}

/// A coverage multiplied by an opacity of 0 to 255, rounded.
pub open spec fn with_alpha(coverage: int, alpha: int) -> int {
    (coverage * alpha + 127) / 255
}

/// The value of the mask at the pixel in column `px` and row `py`.
pub open spec fn pixel_coverage(config: ConfigView, s: int, alpha: int, px: int, py: int) -> int {
    with_alpha(block_average(config, s, px, py), alpha)
}

/// Largest magnitude of a corner's coordinate.
pub const CORNER_LIMIT: i64 = 0x4000_0000_0000;

/// Whether both coordinates of `p` are at most `limit` in magnitude.
pub open spec fn within(p: Pos, limit: int) -> bool {
    -limit <= p.x <= limit && -limit <= p.y <= limit
}

/// Whether all four corners of `q` are at most `limit` in magnitude.
pub open spec fn quad_within(q: QuadView, limit: int) -> bool {
    within(q.bl, limit) && within(q.br, limit) && within(q.tr, limit) && within(q.tl, limit)
}

/// A step of a length up to `limit`, along a direction or across it, moves
/// a point by at most 2148 times `limit` on either axis.
proof fn lemma_step_within(d: Direction, r: int, limit: int)
    requires
        magnitude(r) <= limit,
    ensures
        within(along(d, r), 2148 * limit),
        within(across(d, r), 2148 * limit),
{
    lemma_projection_bound(r, d.x as int);
    lemma_projection_bound(r, d.y as int);
    lemma_projection_bound(r, -d.y);
}

/// The corners of the spoke of `config` in direction `dir`.
pub fn spoke_corners(config: &CrosshairConfig, dir: Direction) -> (q: Quad)
    ensures
        q@ == spoke_quad(config@, dir),
        quad_within(q@, CORNER_LIMIT as int),
{
    let center = canvas_border_radius(config.size);
    let c = Point { x: center, y: center };
    let base_r = spoke_base_radius(config);
    let tip_r = spoke_tip_radius(config);
    let base_half = half(config.spoke_base_width as i64);
    let tip_half = half(config.spoke_tip_width as i64);
    proof {
        lemma_step_within(dir, base_r as int, 0x2_0000_0000);
        lemma_step_within(dir, tip_r as int, 0x2_0000_0000);
        lemma_step_within(dir, base_half as int, 0x2_0000_0000);
        lemma_step_within(dir, tip_half as int, 0x2_0000_0000);
    }
    let base = on_axis(c, dir, base_r);
    let tip = on_axis(c, dir, tip_r);
    let (bl, br) = sides(base, dir, base_half);
    let (tl, tr) = sides(tip, dir, tip_half);
    Quad { bl, br, tr, tl }
}

fn scale_point(p: Point, k: i64) -> (q: Point)
    requires
        within(p@, CORNER_LIMIT as int),
        0 <= k <= 510,
    ensures
        q@ == scaled(p@, k as int),
        within(q@, 510 * CORNER_LIMIT),
{
    assert(-510 * 0x4000_0000_0000 <= p.x * k <= 510 * 0x4000_0000_0000) by (nonlinear_arith)
        requires
            -0x4000_0000_0000 <= p.x <= 0x4000_0000_0000,
            0 <= k <= 510,
    ;
    assert(-510 * 0x4000_0000_0000 <= p.y * k <= 510 * 0x4000_0000_0000) by (nonlinear_arith)
        requires
            -0x4000_0000_0000 <= p.y <= 0x4000_0000_0000,
            0 <= k <= 510,
    ;
    Point { x: p.x * k, y: p.y * k }
}

fn scale_quad(q: Quad, k: i64) -> (r: Quad)
    requires
        quad_within(q@, CORNER_LIMIT as int),
        0 <= k <= 510,
    ensures
        r@ == scaled_quad(q@, k as int),
        quad_within(r@, 510 * CORNER_LIMIT),
{
    Quad {
        bl: scale_point(q.bl, k),
        br: scale_point(q.br, k),
        tr: scale_point(q.tr, k),
        tl: scale_point(q.tl, k),
    }
}

fn times(a: i128, b: i128) -> (r: i128)
    requires
        -0x1000_0000_0000_0000 <= a <= 0x1000_0000_0000_0000,
        -0x1000_0000_0000_0000 <= b <= 0x1000_0000_0000_0000,
    ensures
        r == a * b,
{
    assert(-0x1000_0000_0000_0000 * 0x1000_0000_0000_0000 <= a * b <= 0x1000_0000_0000_0000
        * 0x1000_0000_0000_0000) by (nonlinear_arith)
        requires
            -0x1000_0000_0000_0000 <= a <= 0x1000_0000_0000_0000,
            -0x1000_0000_0000_0000 <= b <= 0x1000_0000_0000_0000,
    ;
    a * b
}

fn cross(a: Point, b: Point, p: Point) -> (r: i128)
    requires
        within(a@, 510 * CORNER_LIMIT),
        within(b@, 510 * CORNER_LIMIT),
        within(p@, 510 * CORNER_LIMIT),
    ensures
        r == side(a@, b@, p@),
{
    let ux: i128 = b.x as i128 - a.x as i128;
    let uy: i128 = b.y as i128 - a.y as i128;
    let vx: i128 = p.x as i128 - a.x as i128;
    let vy: i128 = p.y as i128 - a.y as i128;
    let right = times(ux, vy);
    let left = times(uy, vx);
    assert(-0x1000_0000_0000_0000 * 0x1000_0000_0000_0000 <= right <= 0x1000_0000_0000_0000
        * 0x1000_0000_0000_0000) by (nonlinear_arith)
        requires
            right == ux * vy,
            -0x1000_0000_0000_0000 <= ux <= 0x1000_0000_0000_0000,
            -0x1000_0000_0000_0000 <= vy <= 0x1000_0000_0000_0000,
    ;
    assert(-0x1000_0000_0000_0000 * 0x1000_0000_0000_0000 <= left <= 0x1000_0000_0000_0000
        * 0x1000_0000_0000_0000) by (nonlinear_arith)
        requires
            left == uy * vx,
            -0x1000_0000_0000_0000 <= uy <= 0x1000_0000_0000_0000,
            -0x1000_0000_0000_0000 <= vx <= 0x1000_0000_0000_0000,
    ;
    right - left
}

fn least(a: i64, b: i64, c: i64, d: i64) -> (m: i64)
    ensures
        m == min4(a as int, b as int, c as int, d as int),
{
    let ab = if a <= b { a } else { b };
    let cd = if c <= d { c } else { d };
    if ab <= cd { ab } else { cd }
}

fn greatest(a: i64, b: i64, c: i64, d: i64) -> (m: i64)
    ensures
        m == max4(a as int, b as int, c as int, d as int),
{
    let ab = if a >= b { a } else { b };
    let cd = if c >= d { c } else { d };
    if ab >= cd { ab } else { cd }
}

fn quad_holds(q: &Quad, p: Point) -> (b: bool)
    requires
        quad_within(q@, 510 * CORNER_LIMIT),
        within(p@, 510 * CORNER_LIMIT),
    ensures
        b == in_quad(q@, p@),
{
    if p.x < least(q.bl.x, q.br.x, q.tr.x, q.tl.x) || p.x > greatest(
        q.bl.x,
        q.br.x,
        q.tr.x,
        q.tl.x,
    ) {
        return false;
    }
    if p.y < least(q.bl.y, q.br.y, q.tr.y, q.tl.y) || p.y > greatest(
        q.bl.y,
        q.br.y,
        q.tr.y,
        q.tl.y,
    ) {
        return false;
    }
    let a = cross(q.bl, q.br, p);
    let b = cross(q.br, q.tr, p);
    let c = cross(q.tr, q.tl, p);
    let d = cross(q.tl, q.bl, p);
    (a >= 0 && b >= 0 && c >= 0 && d >= 0) || (a <= 0 && b <= 0 && c <= 0 && d <= 0)
}

fn ring_holds(config: &CrosshairConfig, s: u8, sx: u32, sy: u32) -> (b: bool)
    requires
        sx < 0x20_0000,
        sy < 0x20_0000,
    ensures
        b == ring_covers(config@, s as int, sx as int, sy as int),
{
    if config.ring_outer_radius < 0 {
        return false;
    }
    let span = times(config.size as i128, s as i128);
    assert(0 <= span <= 0xffff_ffff * 255) by (nonlinear_arith)
        requires
            span == config.size * s,
            0 <= config.size <= 0xffff_ffff,
            0 <= s <= 255,
    ;
    let dx: i128 = 2 * (sx as i128) + 1 - span;
    let dy: i128 = 2 * (sy as i128) + 1 - span;
    let dx2 = times(dx, dx);
    let dy2 = times(dy, dy);
    assert(0 <= dx2 <= 0x100_0000_0000 * 0x100_0000_0000) by (nonlinear_arith)
        requires
            dx2 == dx * dx,
            -0x100_0000_0000 <= dx <= 0x100_0000_0000,
    ;
    assert(0 <= dy2 <= 0x100_0000_0000 * 0x100_0000_0000) by (nonlinear_arith)
        requires
            dy2 == dy * dy,
            -0x100_0000_0000 <= dy <= 0x100_0000_0000,
    ;
    let far: i128 = (dx2 + dy2) * 1_000_000;
    assert(far == (dx * dx + dy * dy) * (UNIT * UNIT));
    let inner = times(2 * (ring_inner_radius(config) as i128), s as i128);
    assert(inner == 2 * config@.inner_radius() * s) by (nonlinear_arith)
        requires
            inner == (2 * config@.inner_radius()) * s,
    ;
    assert(0 <= inner <= 0x1000_0000_0000) by (nonlinear_arith)
        requires
            inner == 2 * config@.inner_radius() * s,
            0 <= config@.inner_radius() <= 0x1_0000_0000,
            0 <= s <= 255,
    ;
    let outer = times(2 * (config.ring_outer_radius as i128), s as i128);
    assert(outer == 2 * config@.ring_outer_radius * s) by (nonlinear_arith)
        requires
            outer == (2 * config@.ring_outer_radius) * s,
    ;
    assert(0 <= outer <= 0x1000_0000_0000) by (nonlinear_arith)
        requires
            outer == 2 * config@.ring_outer_radius * s,
            0 <= config@.ring_outer_radius <= 0x8000_0000,
            0 <= s <= 255,
    ;
    let inner2 = times(inner, inner);
    let outer2 = times(outer, outer);
    inner2 <= far && far <= outer2
}

/// Whether `quads` holds the corners of each spoke of `config`, in the
/// order of its angles, scaled to twice the number of samples along a
/// pixel's edge.
pub open spec fn are_spokes_of(quads: Seq<Quad>, config: ConfigView, s: int) -> bool {
    &&& quads.len() == config.angles.len()
    &&& forall|k: int|
        0 <= k < quads.len() ==> {
            &&& (#[trigger] quads[k])@ == scaled_quad(spoke_quad(config, config.angles[k]), 2 * s)
            &&& quad_within(quads[k]@, 510 * CORNER_LIMIT)
        }
}

fn scaled_spokes(config: &CrosshairConfig, s: u8) -> (quads: Vec<Quad>)
    ensures
        are_spokes_of(quads@, config@, s as int),
{
    let mut quads: Vec<Quad> = Vec::new();
    let mut k: usize = 0;
    while k < config.angles.len()
        invariant
            k <= config.angles@.len(),
            quads@.len() == k,
            forall|i: int|
                0 <= i < k ==> {
                    &&& (#[trigger] quads@[i])@ == scaled_quad(
                        spoke_quad(config@, config@.angles[i]),
                        2 * s,
                    )
                    &&& quad_within(quads@[i]@, 510 * CORNER_LIMIT)
                },
        decreases config.angles@.len() - k,
    {
        let q = spoke_corners(config, config.angles[k]);
        quads.push(scale_quad(q, 2 * (s as i64)));
        k = k + 1;
    }
    quads
}

fn sample_covered(config: &CrosshairConfig, quads: &Vec<Quad>, s: u8, sx: u32, sy: u32) -> (b:
    bool)
    requires
        sx < 0x20_0000,
        sy < 0x20_0000,
        are_spokes_of(quads@, config@, s as int),
    ensures
        b == covered(config@, s as int, sx as int, sy as int),
{
    if ring_holds(config, s, sx, sy) {
        return true;
    }
    let p = Point { x: (2 * (sx as i64) + 1) * UNIT, y: (2 * (sy as i64) + 1) * UNIT };
    assert(p@ == sample_center(sx as int, sy as int));
    let mut k: usize = 0;
    while k < quads.len()
        invariant
            k <= quads@.len(),
            are_spokes_of(quads@, config@, s as int),
            p@ == sample_center(sx as int, sy as int),
            within(p@, 510 * CORNER_LIMIT),
            forall|i: int|
                0 <= i < k ==> !#[trigger] spoke_covers(
                    config@,
                    config@.angles[i],
                    s as int,
                    sx as int,
                    sy as int,
                ),
        decreases quads@.len() - k,
    {
        assert(quads@[k as int]@ == scaled_quad(
            spoke_quad(config@, config@.angles[k as int]),
            2 * s,
        ));
        if quad_holds(&quads[k], p) {
            assert(spoke_covers(
                config@,
                config@.angles[k as int],
                s as int,
                sx as int,
                sy as int,
            ));
            return true;
        }
        k = k + 1;
    }
    false
}

/// The average of a block is a coverage: between nothing and
/// [`FULL_COVERAGE`].
proof fn lemma_average_is_coverage(count: int, area: int)
    requires
        0 <= count <= area,
        area > 0,
    ensures
        0 <= (255 * count + area / 2) / area <= 255,
{
    let n = 255 * count + area / 2;
    assert(0 <= n / area) by (nonlinear_arith)
        requires
            n >= 0,
            area > 0,
    ;
    assert(n < 256 * area);
    assert(n / area <= 255) by (nonlinear_arith)
        requires
            n < 256 * area,
            area > 0,
    ;
}

fn pixel(config: &CrosshairConfig, quads: &Vec<Quad>, s: u8, alpha: u8, px: u32, py: u32) -> (v:
    u8)
    requires
        s >= 1,
        config.size <= MAX_CANVAS_SIZE,
        px < config.size,
        py < config.size,
        are_spokes_of(quads@, config@, s as int),
    ensures
        v == pixel_coverage(config@, s as int, alpha as int, px as int, py as int),
{
    let side: u32 = s as u32;
    assert(1 <= side * side <= 255 * 255) by (nonlinear_arith)
        requires
            1 <= side <= 255,
    ;
    let area: u32 = side * side;
    assert(px * side + side <= 8192 * 255 && py * side + side <= 8192 * 255) by (nonlinear_arith)
        requires
            px < 8192,
            py < 8192,
            1 <= side <= 255,
    ;
    let x0: u32 = px * side;
    let y0: u32 = py * side;
    let mut count: u32 = 0;
    let mut j: u32 = 0;
    while j < area
        invariant
            j <= area,
            area == s * s,
            side == s,
            1 <= s <= 255,
            x0 == px * s,
            y0 == py * s,
            x0 + side <= 8192 * 255,
            y0 + side <= 8192 * 255,
            count <= j,
            count == covered_samples(config@, s as int, px as int, py as int, j as int),
            are_spokes_of(quads@, config@, s as int),
        decreases area - j,
    {
        assert(j / side < side) by (nonlinear_arith)
            requires
                j < side * side,
                side >= 1,
        ;
        let sx: u32 = x0 + j % side;
        let sy: u32 = y0 + j / side;
        if sample_covered(config, quads, s, sx, sy) {
            count = count + 1;
        }
        j = j + 1;
    }
    proof {
        lemma_average_is_coverage(count as int, area as int);
    }
    let average: u32 = (255 * count + area / 2) / area;
    assert(average == block_average(config@, s as int, px as int, py as int));
    assert(average * alpha <= 255 * 255) by (nonlinear_arith)
        requires
            0 <= average <= 255,
            0 <= alpha <= 255,
    ;
    ((average * (alpha as u32) + 127) / 255) as u8
}

/// The coverage mask of `config`, one value for each pixel, row by row.
///
/// Each pixel is cut into `s` by `s` samples. A sample counts
/// [`FULL_COVERAGE`] where its middle lies on the ring or in a spoke's
/// straight-edged outline, and nothing elsewhere. The pixel's value is the
/// mean of its samples, multiplied by the opacity `alpha`.
pub fn coverage_mask(config: &CrosshairConfig, s: u8, alpha: u8) -> (mask: Vec<u8>)
    requires
        s >= 1,
        config.size <= MAX_CANVAS_SIZE,
    ensures
        mask@.len() == config.size * config.size,
        forall|i: int|
            0 <= i < mask@.len() ==> #[trigger] mask@[i] == pixel_coverage(
                config@,
                s as int,
                alpha as int,
                i % (config.size as int),
                i / (config.size as int),
            ),
{
    let quads = scaled_spokes(config, s);
    let size: u32 = config.size;
    assert(size * size <= 8192 * 8192) by (nonlinear_arith)
        requires
            0 <= size <= 8192,
    ;
    let total: u32 = size * size;
    let mut mask: Vec<u8> = Vec::new();
    let mut i: u32 = 0;
    while i < total
        invariant
            i <= total,
            total == size * size,
            size == config.size,
            size <= MAX_CANVAS_SIZE,
            s >= 1,
            mask@.len() == i,
            are_spokes_of(quads@, config@, s as int),
            forall|k: int|
                0 <= k < i ==> #[trigger] mask@[k] == pixel_coverage(
                    config@,
                    s as int,
                    alpha as int,
                    k % (size as int),
                    k / (size as int),
                ),
        decreases total - i,
    {
        assert(size > 0 && i / size < size) by (nonlinear_arith)
            requires
                i < size * size,
                size >= 0,
        ;
        let v = pixel(config, &quads, s, alpha, i % size, i / size);
        mask.push(v);
        i = i + 1;
    }
    mask
}

/// The four bytes of pixel `i` of a buffer: red, green, blue and opacity.
pub open spec fn pixel_at(pixels: Seq<u8>, i: int) -> (u8, u8, u8, u8) {
    (pixels[4 * i], pixels[4 * i + 1], pixels[4 * i + 2], pixels[4 * i + 3])
}

/// The picture of a mask in one color: for each value of the mask the red,
/// green and blue of `rgb`, then the value as the opacity.
pub fn colorize(mask: &Vec<u8>, rgb: (u8, u8, u8)) -> (pixels: Vec<u8>)
    ensures
        pixels@.len() == 4 * mask@.len(),
        forall|i: int|
            0 <= i < mask@.len() ==> #[trigger] pixel_at(pixels@, i) == (
                rgb.0,
                rgb.1,
                rgb.2,
                mask@[i],
            ),
{
    let mut pixels: Vec<u8> = Vec::new();
    let mut i: usize = 0;
    while i < mask.len()
        invariant
            i <= mask@.len(),
            pixels@.len() == 4 * i,
            forall|k: int|
                0 <= k < i ==> #[trigger] pixel_at(pixels@, k) == (rgb.0, rgb.1, rgb.2, mask@[k]),
        decreases mask@.len() - i,
    {
        let ghost before = pixels@;
        pixels.push(rgb.0);
        pixels.push(rgb.1);
        pixels.push(rgb.2);
        pixels.push(mask[i]);
        assert forall|k: int| 0 <= k < i + 1 implies #[trigger] pixel_at(pixels@, k) == (
            rgb.0,
            rgb.1,
            rgb.2,
            mask@[k],
        ) by {
            if k < i {
                assert(pixel_at(before, k) == (rgb.0, rgb.1, rgb.2, mask@[k]));
            }
        }
        i = i + 1;
    }
    pixels
}

/// Two pictures of one mask: one in a color, one in black.
pub struct RasterPair {
    pub colored: Vec<u8>,
    pub black: Vec<u8>,
}

/// The reticle as two pixel buffers of four bytes to a pixel, row by row:
/// one in the rim color and one in black, both with the coverage mask of
/// `config` as their opacity.
pub fn render_raster(config: &CrosshairConfig, s: u8, alpha: u8) -> (pair: RasterPair)
    requires
        s >= 1,
        config.size <= MAX_CANVAS_SIZE,
    ensures
        pair.colored@.len() == 4 * (config.size * config.size),
        pair.black@.len() == 4 * (config.size * config.size),
        forall|i: int|
            0 <= i < config.size * config.size ==> #[trigger] pixel_at(pair.colored@, i) == (
                config.rim_color.r,
                config.rim_color.g,
                config.rim_color.b,
                pixel_coverage(
                    config@,
                    s as int,
                    alpha as int,
                    i % (config.size as int),
                    i / (config.size as int),
                ) as u8,
            ),
        forall|i: int|
            0 <= i < config.size * config.size ==> #[trigger] pixel_at(pair.black@, i) == (
                0u8,
                0u8,
                0u8,
                pixel_coverage(
                    config@,
                    s as int,
                    alpha as int,
                    i % (config.size as int),
                    i / (config.size as int),
                ) as u8,
            ),
{
    let mask = coverage_mask(config, s, alpha);
    let colored = colorize(&mask, (config.rim_color.r, config.rim_color.g, config.rim_color.b));
    let black = colorize(&mask, (0, 0, 0));
    assert forall|i: int| 0 <= i < config.size * config.size implies #[trigger] pixel_at(
        colored@,
        i,
    ) == (
        config.rim_color.r,
        config.rim_color.g,
        config.rim_color.b,
        pixel_coverage(
            config@,
            s as int,
            alpha as int,
            i % (config.size as int),
            i / (config.size as int),
        ) as u8,
    ) by {
        assert(mask@[i] == pixel_coverage(
            config@,
            s as int,
            alpha as int,
            i % (config.size as int),
            i / (config.size as int),
        ));
    }
    assert forall|i: int| 0 <= i < config.size * config.size implies #[trigger] pixel_at(
        black@,
        i,
    ) == (
        0u8,
        0u8,
        0u8,
        pixel_coverage(
            config@,
            s as int,
            alpha as int,
            i % (config.size as int),
            i / (config.size as int),
        ) as u8,
    ) by {
        assert(mask@[i] == pixel_coverage(
            config@,
            s as int,
            alpha as int,
            i % (config.size as int),
            i / (config.size as int),
        ));
    }
    RasterPair { colored, black }
}

} // verus!
