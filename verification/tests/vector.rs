use xhgen::config::{Color, CrosshairConfig};
use xhgen::outline::{spoke_outline, Direction};
use xhgen::text::{decimal_string, fixed_string, halves_string};
use xhgen::vector::{bezier_spoke, generate_svg, outline_path_data, rgba_string};

const EAST: Direction = Direction { x: 1_000_000, y: 0 };

#[test]
fn default_document_is_complete() {
    let doc = generate_svg(&CrosshairConfig::default());
    assert_eq!(doc.to_string(), r##"<svg height="256" viewBox="0 0 256 256" width="256" xmlns="http://www.w3.org/2000/svg">
<g>
<path d="M194.468,185.982 L185.982,194.468 Q157.433,162.206,128.884,129.944 L129.944,128.884 Q162.206,157.433,194.468,185.982 z" fill="rgba(0,0,0,1)"/>
<path d="M70.018,194.468 L61.532,185.982 Q93.794,157.433,126.056,128.884 L127.116,129.944 Q98.567,162.206,70.018,194.468 z" fill="rgba(0,0,0,1)"/>
<path d="M61.532,70.018 L70.018,61.532 Q98.567,93.794,127.116,126.056 L126.056,127.116 Q93.794,98.567,61.532,70.018 z" fill="rgba(0,0,0,1)"/>
<path d="M185.982,61.532 L194.468,70.018 Q162.206,98.567,129.944,127.116 L128.884,126.056 Q157.433,93.794,185.982,61.532 z" fill="rgba(0,0,0,1)"/>
</g>
<circle cx="128" cy="128" fill="none" r="108" stroke="rgba(255,255,255,1)" stroke-width="20"/>
</svg>"##);
}

#[test]
fn document_is_the_same_for_the_same_config() {
    let c = CrosshairConfig::default();
    assert_eq!(generate_svg(&c).to_string(), generate_svg(&c.clone()).to_string());
}

#[test]
fn document_without_angles_has_an_empty_group() {
    let mut c = CrosshairConfig::default();
    c.size = 64;
    c.ring_outer_radius = -5_000;
    c.ring_thickness = -3_000;
    c.angles = Vec::new();
    c.rim_color = Color { r: 1, g: 2, b: 3, alpha: 500 };
    c.arm_color = Color { r: 0, g: 0, b: 0, alpha: 0 };
    assert_eq!(generate_svg(&c).to_string(), r##"<svg height="64" viewBox="0 0 64 64" width="64" xmlns="http://www.w3.org/2000/svg">
<g/>
<circle cx="32" cy="32" fill="none" r="0" stroke="rgba(1,2,3,0.5)" stroke-width="-3"/>
</svg>"##);
}

#[test]
fn document_with_a_razor_spoke_and_clamped_opacity() {
    let c = CrosshairConfig {
        size: 100,
        ring_outer_radius: 40_000,
        ring_thickness: 5_001,
        rim_color: Color { r: 10, g: 20, b: 30, alpha: 1_250 },
        arm_color: Color { r: 200, g: 100, b: 50, alpha: -5 },
        gap_from_ring: 2_000,
        center_gap_radius: 1_000,
        spoke_base_width: 4_000,
        spoke_tip_width: 0,
        angles: vec![EAST],
        blur_radius: 0,
        glow_radius: 0,
    };
    assert_eq!(generate_svg(&c).to_string(), r##"<svg height="100" viewBox="0 0 100 100" width="100" xmlns="http://www.w3.org/2000/svg">
<g>
<path d="M82.999,48 L82.999,52 L74.999,51.8 Q69.399,51.5,63.8,51.2 Q59,50.78,54.2,50.36 Q52.6,50.18,51,50 Q52.6,49.82,54.2,49.64 Q59,49.22,63.8,48.8 Q69.399,48.5,74.999,48.2 L82.999,48 z" fill="rgba(200,100,50,0)"/>
</g>
<circle cx="50" cy="50" fill="none" r="37.4995" stroke="rgba(10,20,30,1)" stroke-width="5.001"/>
</svg>"##);
}

#[test]
fn duplicate_angles_are_drawn_twice() {
    let mut c = CrosshairConfig::default();
    c.angles = vec![EAST, EAST];
    let text = generate_svg(&c).to_string();
    assert_eq!(text.matches("<path ").count(), 2);
}

#[test]
fn bezier_spoke_holds_the_path_data() {
    let p = bezier_spoke(128_000, 128_000, EAST, 2_000, 88_000, 12_000, 0);
    assert_eq!(
        p.to_string(),
        r##"<path d="M216,122 L216,134 L194.5,133.4 Q179.45,132.5,164.4,131.6 Q151.5,130.34,138.6,129.08 Q134.3,128.54,130,128 Q134.3,127.46,138.6,126.92 Q151.5,125.66,164.4,124.4 Q179.45,123.5,194.5,122.6 L216,122 z"/>"##
    );
    let b = bezier_spoke(128_000, 128_000, EAST, 2_000, 88_000, 12_000, 1_500);
    assert_eq!(
        b.to_string(),
        r##"<path d="M216,122 L216,134 Q173,131.375,130,128.75 L130,127.25 Q173,124.625,216,122 z"/>"##
    );
}

#[test]
fn path_data_of_an_outline() {
    let o = spoke_outline(0, 0, EAST, -1_500, 10_250, 2_001, 11);
    assert_eq!(outline_path_data(&o), "M10.25,-1 L10.25,1 Q4.375,0.502,-1.5,0.005 L-1.5,-0.005 Q4.375,-0.503,10.25,-1 z");
}

#[test]
fn rgba_text_clamps_the_opacity() {
    assert_eq!(rgba_string(Color { r: 255, g: 170, b: 0, alpha: 1000 }), "rgba(255,170,0,1)");
    assert_eq!(rgba_string(Color { r: 0, g: 0, b: 9, alpha: 125 }), "rgba(0,0,9,0.125)");
    assert_eq!(rgba_string(Color { r: 0, g: 0, b: 0, alpha: -7 }), "rgba(0,0,0,0)");
    assert_eq!(rgba_string(Color { r: 0, g: 0, b: 0, alpha: 2_000_000 }), "rgba(0,0,0,1)");
}

#[test]
fn fixed_numbers_in_decimal_notation() {
    assert_eq!(fixed_string(0), "0");
    assert_eq!(fixed_string(108_000), "108");
    assert_eq!(fixed_string(1_500), "1.5");
    assert_eq!(fixed_string(1_050), "1.05");
    assert_eq!(fixed_string(1_005), "1.005");
    assert_eq!(fixed_string(7), "0.007");
    assert_eq!(fixed_string(-7), "-0.007");
    assert_eq!(fixed_string(-12_340), "-12.34");
    assert_eq!(fixed_string(9_223_372_036_854_775_807), "9223372036854775.807");
    assert_eq!(fixed_string(-9_223_372_036_854_775_807 - 1), "-9223372036854775.808");
}

#[test]
fn whole_numbers_in_decimal_notation() {
    assert_eq!(decimal_string(0), "0");
    assert_eq!(decimal_string(9), "9");
    assert_eq!(decimal_string(10), "10");
    assert_eq!(decimal_string(8192), "8192");
    assert_eq!(decimal_string(18_446_744_073_709_551_615), "18446744073709551615");
}

#[test]
fn half_units_in_decimal_notation() {
    assert_eq!(halves_string(0), "0");
    assert_eq!(halves_string(1), "0.0005");
    assert_eq!(halves_string(2), "0.001");
    assert_eq!(halves_string(3), "0.0015");
    assert_eq!(halves_string(216_000), "108");
    assert_eq!(halves_string(74_999), "37.4995");
    assert_eq!(halves_string(2_001), "1.0005");
    assert_eq!(halves_string(2_201), "1.1005");
    assert_eq!(halves_string(3_000), "1.5");
    assert_eq!(halves_string(18_446_744_073_709_551_615), "9223372036854775.8075");
}

#[test]
fn circle_radius_is_exact_for_an_odd_thickness() {
    let mut c = CrosshairConfig::default();
    c.ring_outer_radius = 10_000;
    c.ring_thickness = 3;
    c.angles = Vec::new();
    let text = generate_svg(&c).to_string();
    assert!(text.contains(" r=\"9.9985\" "), "{}", text);
    assert!(text.contains(" stroke-width=\"0.003\""), "{}", text);
    c.ring_thickness = 4;
    assert!(generate_svg(&c).to_string().contains(" r=\"9.998\" "));
    c.ring_thickness = 20_001;
    assert!(generate_svg(&c).to_string().contains(" r=\"0\" "));
}
