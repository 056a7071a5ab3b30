//! The configuration of a reticle and the radii that follow from it.

use vstd::prelude::*;
use crate::fixed::{div_round, half, round_div, HALF_UNIT, UNIT};
use crate::outline::{spoke_outline_view, Direction, OutlineView, Pos};

verus! {

/// Smallest canvas edge, in pixels.
pub const MIN_CANVAS_SIZE: u32 = 64;

/// Largest canvas edge, in pixels.
pub const MAX_CANVAS_SIZE: u32 = 8192;

/// Largest outer radius of the ring.
pub const MAX_RING_OUTER_RADIUS: i32 = 4_192_000;

/// The alpha of an opaque color.
pub const OPAQUE: i32 = 1000;

/// A color: red, green and blue, and an opacity in thousandths.
#[derive(Clone, Copy, Debug, PartialEq, Eq, Structural)]
pub struct Color {
    pub r: u8,
    pub g: u8,
    pub b: u8,
    pub alpha: i32,
}

/// What a reticle looks like: a ring and spokes on a square canvas.
///
/// `size` is in pixels; the radii, gaps and widths are fixed-point lengths.
/// Each angle is given by its direction, which is meant to be of unit length
/// ([`Direction::is_unit`]); the default's four are. The blur and glow radii
/// are kept with the configuration and read by no renderer.
#[derive(Clone, Debug)]
pub struct CrosshairConfig {
    pub size: u32,
    pub ring_outer_radius: i32,
    pub ring_thickness: i32,
    pub rim_color: Color,
    pub arm_color: Color,
    pub gap_from_ring: i32,
    pub center_gap_radius: i32,
    pub spoke_base_width: i32,
    pub spoke_tip_width: i32,
    pub angles: Vec<Direction>,
    pub blur_radius: i32,
    pub glow_radius: i32,
}

/// `v`, or zero if `v` is negative.
pub open spec fn at_least_zero(v: int) -> int {
    if v < 0 {
        0
    } else {
        v
    }
}

/// What a [`CrosshairConfig`] stands for.
pub struct ConfigView {
    pub size: nat,
    pub ring_outer_radius: int,
    pub ring_thickness: int,
    pub rim_color: Color,
    pub arm_color: Color,
    pub gap_from_ring: int,
    pub center_gap_radius: int,
    pub spoke_base_width: int,
    pub spoke_tip_width: int,
    pub angles: Seq<Direction>,
    pub blur_radius: int,
    pub glow_radius: int,
}

impl View for CrosshairConfig {
    type V = ConfigView;

    open spec fn view(&self) -> ConfigView {
        ConfigView {
            size: self.size as nat,
            ring_outer_radius: self.ring_outer_radius as int,
            ring_thickness: self.ring_thickness as int,
            rim_color: self.rim_color,
            arm_color: self.arm_color,
            gap_from_ring: self.gap_from_ring as int,
            center_gap_radius: self.center_gap_radius as int,
            spoke_base_width: self.spoke_base_width as int,
            spoke_tip_width: self.spoke_tip_width as int,
            angles: self.angles@,
            blur_radius: self.blur_radius as int,
            glow_radius: self.glow_radius as int,
        }
    }
}

impl ConfigView {
    /// The radius of the circle along which the ring is stroked, in whole
    /// units: the outer radius less half the thickness, that half rounded
    /// down to a whole unit.
    pub open spec fn draw_radius(self) -> int {
        at_least_zero(self.ring_outer_radius - self.ring_thickness / 2)
    }

    /// Twice the radius of the circle along which the ring is stroked:
    /// twice the outer radius less the thickness, with nothing rounded.
    pub open spec fn draw_diameter(self) -> int {
        at_least_zero(2 * self.ring_outer_radius - self.ring_thickness)
    }

    /// The radius of the ring's inner edge.
    pub open spec fn inner_radius(self) -> int {
        at_least_zero(self.ring_outer_radius - self.ring_thickness)
    }

    /// The radius at which the spokes have their base.
    pub open spec fn base_radius(self) -> int {
        at_least_zero(self.inner_radius() - self.gap_from_ring)
    }

    /// The radius at which the spokes have their tip.
    pub open spec fn tip_radius(self) -> int {
        at_least_zero(self.center_gap_radius)
    }

    /// The coordinate, on either axis, of the middle of the canvas.
    pub open spec fn center(self) -> int {
        self.size * HALF_UNIT
    }

    /// The outline of the spoke that points in direction `d`.
    pub open spec fn spoke(self, d: Direction) -> OutlineView {
        spoke_outline_view(
            Pos { x: self.center(), y: self.center() },
            d,
            self.tip_radius(),
            self.base_radius(),
            self.spoke_base_width,
            self.spoke_tip_width,
        )
    }

    /// The same configuration with opaque colors: `rim` for the ring and
    /// `arm` for the spokes.
    pub open spec fn with_colors(self, rim: (u8, u8, u8), arm: (u8, u8, u8)) -> ConfigView {
        ConfigView {
            rim_color: Color { r: rim.0, g: rim.1, b: rim.2, alpha: OPAQUE },
            arm_color: Color { r: arm.0, g: arm.1, b: arm.2, alpha: OPAQUE },
            ..self
        }
    }
}

impl CrosshairConfig {
    /// A copy of the configuration with opaque colors: `rim` for the ring
    /// and `arm` for the spokes, whatever opacity the colors had.
    pub fn with_colors(&self, rim: (u8, u8, u8), arm: (u8, u8, u8)) -> (config: CrosshairConfig)
        ensures
            config@ == self@.with_colors(rim, arm),
    {
        let mut angles: Vec<Direction> = Vec::new();
        let n = self.angles.len();
        let mut k: usize = 0;
        while k < n
            invariant
                n == self.angles@.len(),
                k <= n,
                angles@ == self.angles@.take(k as int),
            decreases n - k,
        {
            angles.push(self.angles[k]);
            assert(angles@ =~= self.angles@.take(k + 1));
            k = k + 1;
        }
        assert(angles@ =~= self.angles@);
        CrosshairConfig {
            size: self.size,
            ring_outer_radius: self.ring_outer_radius,
            ring_thickness: self.ring_thickness,
            rim_color: Color { r: rim.0, g: rim.1, b: rim.2, alpha: OPAQUE },
            arm_color: Color { r: arm.0, g: arm.1, b: arm.2, alpha: OPAQUE },
            gap_from_ring: self.gap_from_ring,
            center_gap_radius: self.center_gap_radius,
            spoke_base_width: self.spoke_base_width,
            spoke_tip_width: self.spoke_tip_width,
            angles,
            blur_radius: self.blur_radius,
            glow_radius: self.glow_radius,
        }
    }
}

/// The direction halfway between two axes, `sx` and `sy` giving the signs of
/// its components.
pub open spec fn diagonal(sx: int, sy: int) -> Direction {
    Direction { x: (sx * 707_107) as i32, y: (sy * 707_107) as i32 }
}

impl Default for CrosshairConfig {
    fn default() -> (config: Self)
        ensures
            config.size == 256,
            config.ring_outer_radius == 118 * UNIT,
            config.ring_thickness == 20 * UNIT,
            config.rim_color == (Color { r: 255, g: 255, b: 255, alpha: OPAQUE }),
            config.arm_color == (Color { r: 0, g: 0, b: 0, alpha: OPAQUE }),
            config.gap_from_ring == 10 * UNIT,
            config.center_gap_radius == 2 * UNIT,
            config.spoke_base_width == 12 * UNIT,
            config.spoke_tip_width == 1500,
            config.angles@ == seq![
                diagonal(1, 1),
                diagonal(-1, 1),
                diagonal(-1, -1),
                diagonal(1, -1),
            ],
            config.blur_radius == UNIT,
            config.glow_radius == 2 * UNIT,
            forall|k: int| 0 <= k < 4 ==> (#[trigger] config.angles@[k]).is_unit(),
    {
        let mut angles: Vec<Direction> = Vec::new();
        angles.push(Direction { x: 707_107, y: 707_107 });
        angles.push(Direction { x: -707_107, y: 707_107 });
        angles.push(Direction { x: -707_107, y: -707_107 });
        angles.push(Direction { x: 707_107, y: -707_107 });
        assert(707_107 * 707_107 == 500_000_309_449 && (-707_107) * (-707_107)
            == 500_000_309_449) by (nonlinear_arith);
        assert(angles@[0].is_unit() && angles@[1].is_unit() && angles@[2].is_unit()
            && angles@[3].is_unit());
        CrosshairConfig {
            size: 256,
            ring_outer_radius: 118_000,
            ring_thickness: 20_000,
            rim_color: Color { r: 255, g: 255, b: 255, alpha: OPAQUE },
            arm_color: Color { r: 0, g: 0, b: 0, alpha: OPAQUE },
            gap_from_ring: 10_000,
            center_gap_radius: 2_000,
            spoke_base_width: 12_000,
            spoke_tip_width: 1_500,
            angles,
            blur_radius: 1_000,
            glow_radius: 2_000,
        }
    }
}

/// Half the edge of a canvas of `size` pixels.
pub fn canvas_border_radius(size: u32) -> (r: i64)
    ensures
        r == size * HALF_UNIT,
{
    size as i64 * HALF_UNIT
}

/// Twice the radius of the circle along which the ring is stroked: twice
/// the outer radius less the thickness, and never negative. Nothing is
/// rounded: half of it is the radius to the half unit.
pub fn ring_draw_diameter(config: &CrosshairConfig) -> (d: i64)
    ensures
        d == config@.draw_diameter(),
        d >= 0,
{
    let d = 2 * (config.ring_outer_radius as i64) - config.ring_thickness as i64;
    if d < 0 {
        0
    } else {
        d
    }
}

/// The radius of the circle along which the ring is stroked, in whole
/// units: the outer radius less half the thickness, and never negative.
///
/// Half the thickness is rounded down to a whole unit. For a thickness of
/// an even number of units the result is exact; for an odd one it is half a
/// unit more than the exact radius, which [`ring_draw_diameter`] gives.
pub fn ring_draw_radius(config: &CrosshairConfig) -> (r: i64)
    ensures
        r == config@.draw_radius(),
        r >= 0,
{
    let r = config.ring_outer_radius as i64 - half(config.ring_thickness as i64);
    if r < 0 {
        0
    } else {
        r
    }
}

/// The radius of the ring's inner edge: the outer radius less the
/// thickness, and never negative.
pub fn ring_inner_radius(config: &CrosshairConfig) -> (r: i64)
    ensures
        r == config@.inner_radius(),
        r >= 0,
{
    let r = config.ring_outer_radius as i64 - config.ring_thickness as i64;
    if r < 0 {
        0
    } else {
        r
    }
}

/// The radius of the spokes' base: the ring's inner radius less the gap,
/// and never negative.
pub fn spoke_base_radius(config: &CrosshairConfig) -> (r: i64)
    ensures
        r == config@.base_radius(),
        r >= 0,
{
    let r = ring_inner_radius(config) - config.gap_from_ring as i64;
    if r < 0 {
        0
    } else {
        r
    }
}

/// The radius of the spokes' tip: the radius of the center gap, or zero if
/// that is negative.
pub fn spoke_tip_radius(config: &CrosshairConfig) -> (r: i64)
    ensures
        r == config@.tip_radius(),
        r >= 0,
        config.center_gap_radius >= 0 ==> r == config.center_gap_radius,
        config.center_gap_radius < 0 ==> r == 0,
{
    if config.center_gap_radius < 0 {
        0
    } else {
        config.center_gap_radius as i64
    }
}

/// All four radii that follow from a configuration are zero or more,
/// whatever its fields hold.
pub proof fn lemma_radii_never_negative(config: ConfigView)
    ensures
        config.draw_radius() >= 0,
        config.inner_radius() >= 0,
        config.base_radius() >= 0,
        config.tip_radius() >= 0,
{
}

/// The tip radius is the radius of the center gap where that is not
/// negative, and zero where it is.
pub proof fn lemma_tip_radius_is_center_gap(config: ConfigView)
    ensures
        config.center_gap_radius >= 0 ==> config.tip_radius() == config.center_gap_radius,
        config.center_gap_radius < 0 ==> config.tip_radius() == 0,
{
}

/// The draw radius in whole units is the exact one or half a unit more:
/// twice the one is the draw diameter, or one more than it. With a thickness
/// of an even number of units it is exact.
pub proof fn lemma_draw_radius_rounds_half_up(config: ConfigView)
    ensures
        0 <= 2 * config.draw_radius() - config.draw_diameter() <= 1,
        config.ring_thickness % 2 == 0 ==> 2 * config.draw_radius() == config.draw_diameter(),
{
}

/// The band that a stroke of the ring's thickness covers along the exact
/// draw radius is the ring: where the thickness is not negative and the draw
/// radius is not cut off at zero, the band reaches from the ring's inner
/// radius, or from the middle where the stroke is wider than the circle, to
/// the ring's outer radius. All lengths are doubled, so that none is rounded.
pub proof fn lemma_stroke_covers_ring(config: ConfigView)
    requires
        0 <= config.ring_thickness <= 2 * config.ring_outer_radius,
    ensures
        at_least_zero(config.draw_diameter() - config.ring_thickness) == 2
            * config.inner_radius(),
        config.draw_diameter() + config.ring_thickness == 2 * config.ring_outer_radius,
{
}

/// A stroke along the draw radius in whole units lies within half a unit of
/// the ring: where the thickness is not negative and no larger than the
/// outer radius, each edge of its band is the ring's edge or half a unit
/// outside it on the outer side, inside on the inner side. All lengths are
/// doubled.
pub proof fn lemma_rounded_stroke_is_near_ring(config: ConfigView)
    requires
        0 <= config.ring_thickness <= config.ring_outer_radius,
    ensures
        0 <= (2 * config.draw_radius() - config.ring_thickness) - 2 * config.inner_radius() <= 1,
        0 <= (2 * config.draw_radius() + config.ring_thickness) - 2 * config.ring_outer_radius
            <= 1,
{
}

/// An opacity brought into the range from transparent to opaque.
pub fn clamp_alpha(alpha: i32) -> (a: i32)
    ensures
        0 <= a <= OPAQUE,
        0 <= alpha <= OPAQUE ==> a == alpha,
        alpha < 0 ==> a == 0,
        alpha > OPAQUE ==> a == OPAQUE,
{
    if alpha < 0 {
        0
    } else if alpha > OPAQUE {
        OPAQUE
    } else {
        alpha
    }
}

/// The outer radius that goes with a canvas of `size` pixels where the two
/// are chained: half the canvas, up to [`MAX_RING_OUTER_RADIUS`].
pub fn chained_ring_radius(size: u32) -> (r: i32)
    ensures
        size * HALF_UNIT <= MAX_RING_OUTER_RADIUS ==> r == size * HALF_UNIT,
        size * HALF_UNIT > MAX_RING_OUTER_RADIUS ==> r == MAX_RING_OUTER_RADIUS,
{
    let border = canvas_border_radius(size);
    if border > MAX_RING_OUTER_RADIUS as i64 {
        MAX_RING_OUTER_RADIUS
    } else {
        border as i32
    }
}

/// The canvas size, in pixels, that goes with an outer radius where the two
/// are chained: twice the radius, rounded to whole pixels.
pub open spec fn chained_size(ring_outer_radius: int) -> int {
    round_div(2 * ring_outer_radius, UNIT as int)
}

/// The canvas size that goes with an outer radius where the two are
/// chained: twice the radius in whole pixels, no less than
/// [`MIN_CANVAS_SIZE`] and no more than [`MAX_CANVAS_SIZE`].
pub fn chained_canvas_size(ring_outer_radius: i32) -> (size: u32)
    ensures
        MIN_CANVAS_SIZE <= size <= MAX_CANVAS_SIZE,
        chained_size(ring_outer_radius as int) < MIN_CANVAS_SIZE ==> size == MIN_CANVAS_SIZE,
        chained_size(ring_outer_radius as int) > MAX_CANVAS_SIZE ==> size == MAX_CANVAS_SIZE,
        MIN_CANVAS_SIZE <= chained_size(ring_outer_radius as int) <= MAX_CANVAS_SIZE ==> size
            == chained_size(ring_outer_radius as int),
{
    let wide = div_round(2 * (ring_outer_radius as i128), UNIT);
    if wide < MIN_CANVAS_SIZE as i128 {
        MIN_CANVAS_SIZE
    } else if wide > MAX_CANVAS_SIZE as i128 {
        MAX_CANVAS_SIZE
    } else {
        wide as u32
    }
}

} // verus!
