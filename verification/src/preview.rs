//! The polygons that a preview draws in place of the spokes' outlines.

use vstd::prelude::*;
use crate::config::{
    canvas_border_radius, spoke_base_radius, spoke_tip_radius, ConfigView, CrosshairConfig,
};
use crate::outline::{polyline, positions, spoke_outline_points, Point, CURVE_STEPS};

verus! {

/// Whether `polygons` holds, for each angle of `config` in their order, the
/// polygon that stands for that spoke's outline.
pub open spec fn are_polygons_of(polygons: Seq<Vec<Point>>, config: ConfigView) -> bool {
    &&& polygons.len() == config.angles.len()
    &&& forall|k: int|
        0 <= k < polygons.len() ==> {
            &&& positions((#[trigger] polygons[k])@) == polyline(
                config.spoke(config.angles[k]),
                CURVE_STEPS as int,
            )
            &&& polygons[k]@.len() >= 1
            &&& polygons[k]@.first() == polygons[k]@.last()
        }
}

/// One closed polygon for each spoke of `config`, each curve of the spoke's
/// outline cut into [`CURVE_STEPS`] points.
pub fn preview_polygons(config: &CrosshairConfig) -> (polygons: Vec<Vec<Point>>)
    ensures
        are_polygons_of(polygons@, config@),
{
    let center = canvas_border_radius(config.size);
    let base_r = spoke_base_radius(config);
    let tip_r = spoke_tip_radius(config);
    let mut polygons: Vec<Vec<Point>> = Vec::new();
    let mut k: usize = 0;
    while k < config.angles.len()
        invariant
            k <= config.angles@.len(),
            center == config@.center(),
            base_r == config@.base_radius(),
            tip_r == config@.tip_radius(),
            0 <= center <= 0xffff_ffff * 500,
            0 <= base_r <= 0x2_0000_0000,
            0 <= tip_r <= 0x8000_0000,
            polygons@.len() == k,
            forall|i: int|
                0 <= i < k ==> {
                    &&& positions((#[trigger] polygons@[i])@) == polyline(
                        config@.spoke(config@.angles[i]),
                        CURVE_STEPS as int,
                    )
                    &&& polygons@[i]@.len() >= 1
                    &&& polygons@[i]@.first() == polygons@[i]@.last()
                },
        decreases config.angles@.len() - k,
    {
        let polygon = spoke_outline_points(
            center,
            center,
            config.angles[k],
            tip_r,
            base_r,
            config.spoke_base_width as i64,
            config.spoke_tip_width as i64,
        );
        polygons.push(polygon);
        k = k + 1;
    }
    polygons
}

} // verus!
