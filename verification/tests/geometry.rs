use xhgen::config::{
    canvas_border_radius, clamp_alpha, ring_draw_diameter, ring_draw_radius, ring_inner_radius, spoke_base_radius,
    spoke_tip_radius, Color, CrosshairConfig,
};
use xhgen::outline::{
    add_quad_samples, flatten, spoke_outline, spoke_outline_points, Direction, Outline, Point,
    Segment,
};

fn config() -> CrosshairConfig {
    CrosshairConfig::default()
}

const EAST: Direction = Direction { x: 1_000_000, y: 0 };
const SOUTH: Direction = Direction { x: 0, y: 1_000_000 };

#[test]
fn default_config_holds_the_documented_values() {
    let c = config();
    assert_eq!(c.size, 256);
    assert_eq!(c.ring_outer_radius, 118_000);
    assert_eq!(c.ring_thickness, 20_000);
    assert_eq!(c.rim_color, Color { r: 255, g: 255, b: 255, alpha: 1000 });
    assert_eq!(c.arm_color, Color { r: 0, g: 0, b: 0, alpha: 1000 });
    assert_eq!(c.gap_from_ring, 10_000);
    assert_eq!(c.center_gap_radius, 2_000);
    assert_eq!(c.spoke_base_width, 12_000);
    assert_eq!(c.spoke_tip_width, 1_500);
    assert_eq!(c.angles.len(), 4);
    assert_eq!(c.angles[0], Direction { x: 707_107, y: 707_107 });
    assert_eq!(c.angles[3], Direction { x: 707_107, y: -707_107 });
    assert_eq!(c.blur_radius, 1_000);
    assert_eq!(c.glow_radius, 2_000);
}

#[test]
fn ring_radii_of_outer_118_and_thickness_20() {
    let c = config();
    assert_eq!(ring_draw_radius(&c), 108_000);
    assert_eq!(ring_inner_radius(&c), 98_000);
}

#[test]
fn spoke_base_radius_of_inner_98_and_gap_10() {
    let c = config();
    assert_eq!(ring_inner_radius(&c), 98_000);
    assert_eq!(spoke_base_radius(&c), 88_000);
}

#[test]
fn spoke_tip_radius_is_the_center_gap_or_zero() {
    let mut c = config();
    assert_eq!(spoke_tip_radius(&c), 2_000);
    c.center_gap_radius = 0;
    assert_eq!(spoke_tip_radius(&c), 0);
    c.center_gap_radius = 2_147_483_647;
    assert_eq!(spoke_tip_radius(&c), 2_147_483_647);
    c.center_gap_radius = -1;
    assert_eq!(spoke_tip_radius(&c), 0);
    c.center_gap_radius = -2_147_483_648;
    assert_eq!(spoke_tip_radius(&c), 0);
}

#[test]
fn derived_radii_are_never_negative() {
    let extremes = [-2_147_483_648i32, -1, 0, 1, 2_147_483_647];
    for outer in extremes {
        for thickness in extremes {
            for gap in extremes {
                let mut c = config();
                c.ring_outer_radius = outer;
                c.ring_thickness = thickness;
                c.gap_from_ring = gap;
                c.center_gap_radius = outer;
                assert!(ring_draw_radius(&c) >= 0);
                assert!(ring_inner_radius(&c) >= 0);
                assert!(spoke_base_radius(&c) >= 0);
                assert!(spoke_tip_radius(&c) >= 0);
            }
        }
    }
}

#[test]
fn derived_radii_clamp_and_round() {
    let mut c = config();
    c.ring_outer_radius = 10_000;
    c.ring_thickness = 30_001;
    assert_eq!(ring_draw_radius(&c), 0);
    assert_eq!(ring_inner_radius(&c), 0);
    c.ring_thickness = 5_001;
    assert_eq!(ring_draw_radius(&c), 7_500);
    assert_eq!(ring_inner_radius(&c), 4_999);
    c.gap_from_ring = 5_000;
    assert_eq!(spoke_base_radius(&c), 0);
    c.ring_thickness = -3;
    assert_eq!(ring_draw_radius(&c), 10_002);
    c.ring_outer_radius = 2_147_483_647;
    c.ring_thickness = -2_147_483_648;
    c.gap_from_ring = -2_147_483_648;
    assert_eq!(ring_inner_radius(&c), 4_294_967_295);
    assert_eq!(spoke_base_radius(&c), 6_442_450_943);
}

#[test]
fn canvas_border_radius_is_half_the_edge() {
    assert_eq!(canvas_border_radius(256), 128_000);
    assert_eq!(canvas_border_radius(65), 32_500);
    assert_eq!(canvas_border_radius(0), 0);
    assert_eq!(canvas_border_radius(4_294_967_295), 2_147_483_647_500);
}

#[test]
fn clamp_alpha_keeps_the_range() {
    assert_eq!(clamp_alpha(-1), 0);
    assert_eq!(clamp_alpha(0), 0);
    assert_eq!(clamp_alpha(500), 500);
    assert_eq!(clamp_alpha(1000), 1000);
    assert_eq!(clamp_alpha(1001), 1000);
}

#[test]
fn razor_outline_runs_through_shoulder_mid_and_pinch() {
    let o = spoke_outline(128_000, 128_000, EAST, 2_000, 88_000, 12_000, 0);
    assert_eq!(o.start, Point { x: 216000, y: 122000 });
    let want = vec![
        Segment::Line(Point { x: 216000, y: 134000 }),
        Segment::Line(Point { x: 194500, y: 133400 }),
        Segment::Quad(Point { x: 179450, y: 132500 }, Point { x: 164400, y: 131600 }),
        Segment::Quad(Point { x: 151500, y: 130340 }, Point { x: 138600, y: 129080 }),
        Segment::Quad(Point { x: 134300, y: 128540 }, Point { x: 130000, y: 128000 }),
        Segment::Quad(Point { x: 134300, y: 127460 }, Point { x: 138600, y: 126920 }),
        Segment::Quad(Point { x: 151500, y: 125660 }, Point { x: 164400, y: 124400 }),
        Segment::Quad(Point { x: 179450, y: 123500 }, Point { x: 194500, y: 122600 }),
        Segment::Line(Point { x: 216000, y: 122000 }),
    ];
    assert_eq!(o.segments, want);
}

#[test]
fn beveled_outline_is_a_trapezoid() {
    let o = spoke_outline(128_000, 128_000, EAST, 2_000, 88_000, 12_000, 1_500);
    assert_eq!(o.start, Point { x: 216000, y: 122000 });
    let want = vec![
        Segment::Line(Point { x: 216000, y: 134000 }),
        Segment::Quad(Point { x: 173000, y: 131375 }, Point { x: 130000, y: 128750 }),
        Segment::Line(Point { x: 130000, y: 127250 }),
        Segment::Quad(Point { x: 173000, y: 124625 }, Point { x: 216000, y: 122000 }),
    ];
    assert_eq!(o.segments, want);
}

#[test]
fn tip_width_at_the_threshold_is_razor_and_above_it_beveled() {
    let razor = spoke_outline(0, 0, EAST, 0, 10_000, 2_000, 10);
    assert_eq!(razor.segments.len(), 9);
    let beveled = spoke_outline(0, 0, EAST, 0, 10_000, 2_000, 11);
    assert_eq!(beveled.segments.len(), 4);
}

fn end_of(o: &Outline) -> Point {
    match o.segments[o.segments.len() - 1] {
        Segment::Line(to) => to,
        Segment::Quad(_, to) => to,
    }
}

#[test]
fn razor_outline_is_closed() {
    let dirs = [EAST, SOUTH, Direction { x: 707_107, y: 707_107 }, Direction { x: -500_000, y: 866_025 }];
    for d in dirs {
        for (tip, base) in [(0i64, 1i64), (0, 88_000), (2_000, 88_000), (87_999, 88_000), (5, 4_000_000_000)] {
            for width in [0i64, 1, 12_000, 999_999] {
                let o = spoke_outline(128_000, 128_000, d, tip, base, width, 0);
                assert_eq!(end_of(&o), o.start);
                let p = spoke_outline_points(128_000, 128_000, d, tip, base, width, 0);
                assert_eq!(p[0], p[p.len() - 1]);
                assert_eq!(p[0], o.start);
            }
        }
    }
}

#[test]
fn inverted_and_flat_spokes_still_close() {
    let o = spoke_outline(128_000, 128_000, SOUTH, 90_000, 10_000, 0, 0);
    assert_eq!(o.start, Point { x: 128000, y: 138000 });
    assert_eq!(end_of(&o), o.start);
    let want = vec![
        Segment::Line(Point { x: 128000, y: 138000 }),
        Segment::Line(Point { x: 128000, y: 118000 }),
        Segment::Quad(Point { x: 128000, y: 104000 }, Point { x: 128000, y: 90000 }),
        Segment::Quad(Point { x: 128000, y: 78000 }, Point { x: 128000, y: 66000 }),
        Segment::Quad(Point { x: 128000, y: 142000 }, Point { x: 128000, y: 218000 }),
        Segment::Quad(Point { x: 128000, y: 142000 }, Point { x: 128000, y: 66000 }),
        Segment::Quad(Point { x: 128000, y: 78000 }, Point { x: 128000, y: 90000 }),
        Segment::Quad(Point { x: 128000, y: 104000 }, Point { x: 128000, y: 118000 }),
        Segment::Line(Point { x: 128000, y: 138000 }),
    ];
    assert_eq!(o.segments, want);
    let b = spoke_outline(128_000, 128_000, SOUTH, 90_000, 10_000, 0, 4_000);
    assert_eq!(end_of(&b), b.start);
}

#[test]
fn beveled_polygon_has_fifteen_points() {
    let p = spoke_outline_points(128_000, 128_000, EAST, 2_000, 88_000, 12_000, 1_500);
    let want = vec![Point { x: 216000, y: 122000 }, Point { x: 216000, y: 134000 }, Point { x: 201667, y: 133125 }, Point { x: 187333, y: 132250 }, Point { x: 173000, y: 131375 }, Point { x: 158667, y: 130500 }, Point { x: 144333, y: 129625 }, Point { x: 130000, y: 128750 }, Point { x: 130000, y: 127250 }, Point { x: 144333, y: 126375 }, Point { x: 158667, y: 125500 }, Point { x: 173000, y: 124625 }, Point { x: 187333, y: 123750 }, Point { x: 201667, y: 122875 }, Point { x: 216000, y: 122000 }];
    assert_eq!(p, want);
}

#[test]
fn razor_polygon_has_forty_points() {
    let p = spoke_outline_points(128_000, 128_000, SOUTH, 2_000, 88_000, 12_000, 0);
    let want = vec![Point { x: 134000, y: 216000 }, Point { x: 122000, y: 216000 }, Point { x: 122600, y: 194500 }, Point { x: 122900, y: 189483 }, Point { x: 123200, y: 184467 }, Point { x: 123500, y: 179450 }, Point { x: 123800, y: 174433 }, Point { x: 124100, y: 169417 }, Point { x: 124400, y: 164400 }, Point { x: 124820, y: 160100 }, Point { x: 125240, y: 155800 }, Point { x: 125660, y: 151500 }, Point { x: 126080, y: 147200 }, Point { x: 126500, y: 142900 }, Point { x: 126920, y: 138600 }, Point { x: 127100, y: 137167 }, Point { x: 127280, y: 135733 }, Point { x: 127460, y: 134300 }, Point { x: 127640, y: 132867 }, Point { x: 127820, y: 131433 }, Point { x: 128000, y: 130000 }, Point { x: 128180, y: 131433 }, Point { x: 128360, y: 132867 }, Point { x: 128540, y: 134300 }, Point { x: 128720, y: 135733 }, Point { x: 128900, y: 137167 }, Point { x: 129080, y: 138600 }, Point { x: 129500, y: 142900 }, Point { x: 129920, y: 147200 }, Point { x: 130340, y: 151500 }, Point { x: 130760, y: 155800 }, Point { x: 131180, y: 160100 }, Point { x: 131600, y: 164400 }, Point { x: 131900, y: 169417 }, Point { x: 132200, y: 174433 }, Point { x: 132500, y: 179450 }, Point { x: 132800, y: 184467 }, Point { x: 133100, y: 189483 }, Point { x: 133400, y: 194500 }, Point { x: 134000, y: 216000 }];
    assert_eq!(p.len(), 40);
    assert_eq!(p, want);
}

#[test]
fn quad_samples_follow_the_curve() {
    let mut pts = vec![Point { x: 0, y: 0 }];
    add_quad_samples(&mut pts, Point { x: 6_000, y: 12_000 }, Point { x: 12_000, y: 0 }, 4);
    let want = vec![Point { x: 0, y: 0 }, Point { x: 3000, y: 4500 }, Point { x: 6000, y: 6000 }, Point { x: 9000, y: 4500 }, Point { x: 12000, y: 0 }];
    assert_eq!(pts, want);
}

#[test]
fn quad_samples_round_to_the_nearest_unit() {
    let mut pts = vec![Point { x: -7, y: 1 }];
    add_quad_samples(&mut pts, Point { x: 2, y: -9 }, Point { x: 10, y: 4 }, 3);
    let want = vec![Point { x: -7, y: 1 }, Point { x: -1, y: -3 }, Point { x: 5, y: -2 }, Point { x: 10, y: 4 }];
    assert_eq!(pts, want);
}

#[test]
fn quad_samples_need_a_start_and_steps() {
    let mut none: Vec<Point> = Vec::new();
    add_quad_samples(&mut none, Point { x: 1, y: 1 }, Point { x: 2, y: 2 }, 6);
    assert!(none.is_empty());
    let mut one = vec![Point { x: 5, y: 5 }];
    add_quad_samples(&mut one, Point { x: 1, y: 1 }, Point { x: 2, y: 2 }, 0);
    assert_eq!(one, vec![Point { x: 5, y: 5 }]);
}

#[test]
fn quad_samples_stay_in_range_at_the_extremes() {
    let big = 9_223_372_036_854_775_807i64;
    let mut pts = vec![Point { x: big, y: -big - 1 }];
    add_quad_samples(&mut pts, Point { x: big, y: -big - 1 }, Point { x: big, y: -big - 1 }, 65_535);
    assert_eq!(pts.len(), 65_536);
    assert_eq!(pts[1], Point { x: big, y: -big - 1 });
    assert_eq!(pts[65_535], Point { x: big, y: -big - 1 });
}

#[test]
fn flatten_keeps_lines_and_cuts_curves() {
    let o = Outline {
        start: Point { x: 0, y: 0 },
        segments: vec![
            Segment::Line(Point { x: 10, y: 0 }),
            Segment::Quad(Point { x: 10, y: 10 }, Point { x: 0, y: 10 }),
        ],
    };
    let p = flatten(&o, 2);
    assert_eq!(
        p,
        vec![
            Point { x: 0, y: 0 },
            Point { x: 10, y: 0 },
            Point { x: 8, y: 8 },
            Point { x: 0, y: 10 },
        ]
    );
    assert_eq!(flatten(&o, 0), vec![Point { x: 0, y: 0 }, Point { x: 10, y: 0 }]);
}

#[test]
fn draw_diameter_is_exact_and_the_radius_rounds_half_up() {
    let mut c = config();
    assert_eq!(ring_draw_diameter(&c), 216_000);
    assert_eq!(2 * ring_draw_radius(&c), ring_draw_diameter(&c));
    c.ring_thickness = 20_001;
    assert_eq!(ring_draw_diameter(&c), 215_999);
    assert_eq!(ring_draw_radius(&c), 108_000);
    c.ring_outer_radius = 5;
    c.ring_thickness = 11;
    assert_eq!(ring_draw_diameter(&c), 0);
    assert_eq!(ring_draw_radius(&c), 0);
    c.ring_thickness = 9;
    assert_eq!(ring_draw_diameter(&c), 1);
    assert_eq!(ring_draw_radius(&c), 1);
    c.ring_outer_radius = -2_147_483_648;
    c.ring_thickness = 2_147_483_647;
    assert_eq!(ring_draw_diameter(&c), 0);
    c.ring_outer_radius = 2_147_483_647;
    c.ring_thickness = -2_147_483_648;
    assert_eq!(ring_draw_diameter(&c), 6_442_450_942);
}

#[test]
fn directions_of_unit_length() {
    assert!(EAST.has_unit_length());
    assert!(SOUTH.has_unit_length());
    for d in config().angles {
        assert!(d.has_unit_length());
    }
    assert!(Direction { x: -500_000, y: 866_025 }.has_unit_length());
    assert!(Direction { x: 999_999, y: 0 }.has_unit_length());
    assert!(Direction { x: 1_000_000, y: 1_414 }.has_unit_length());
    assert!(!Direction { x: 1_000_000, y: 1_415 }.has_unit_length());
    assert!(!Direction { x: 1_000_001, y: 0 }.has_unit_length());
    assert!(!Direction { x: 999_998, y: 0 }.has_unit_length());
    assert!(!Direction { x: 0, y: 0 }.has_unit_length());
    assert!(!Direction { x: 1_000_000, y: 1_000_000 }.has_unit_length());
    assert!(!Direction { x: -2_147_483_648, y: -2_147_483_648 }.has_unit_length());
}

#[test]
fn every_degree_rounds_to_a_direction_of_unit_length() {
    for tenth in 0..3600 {
        let th = (tenth as f64 / 10.0).to_radians();
        let d = Direction {
            x: (th.cos() * 1_000_000.0).round() as i32,
            y: (th.sin() * 1_000_000.0).round() as i32,
        };
        assert!(d.has_unit_length(), "{} tenths of a degree", tenth);
    }
}

#[test]
fn a_step_along_an_axis_has_its_length() {
    let o = spoke_outline(0, 0, EAST, 1_234, 56_789, 2_468, 1_000);
    assert_eq!(o.start, Point { x: 56_789, y: -1_234 });
    assert_eq!(
        o.segments[0],
        Segment::Line(Point { x: 56_789, y: 1_234 })
    );
    assert_eq!(o.segments[2], Segment::Line(Point { x: 1_234, y: -500 }));
}

#[test]
fn a_step_in_a_unit_direction_has_its_length() {
    for tenth in (0..3600).step_by(7) {
        let th = (tenth as f64 / 10.0).to_radians();
        let d = Direction {
            x: (th.cos() * 1_000_000.0).round() as i32,
            y: (th.sin() * 1_000_000.0).round() as i32,
        };
        for r in [0i64, 1, 999, 88_000, 4_192_000, 4_000_000_000] {
            let o = spoke_outline(0, 0, d, 0, r, 0, 100);
            let (x, y) = (o.start.x as i128, o.start.y as i128);
            let r = r as i128;
            let gap = 1_000_000 * (x * x + y * y - r * r);
            let slack = 2 * r * r + 2_000_002 * r + 1_000_000;
            assert!(-slack <= gap && gap <= slack, "{} tenths, r {}", tenth, r);
        }
    }
}
