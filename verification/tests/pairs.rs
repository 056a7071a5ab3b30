use xhgen::batch::{artifact_filename, generate_batch_svgs, render_batch, render_pair};
use xhgen::color::{parse_color_spec, ReticleError};
use xhgen::config::{Color, CrosshairConfig};
use xhgen::pairs::load_color_pairs;
use xhgen::vector::generate_svg;

#[test]
fn two_rows_give_two_pairs() {
    let pairs = load_color_pairs("outer,inner\nFF0000,00FF00\n0000FF,FFFFFF\n").unwrap();
    assert_eq!(pairs.len(), 2);
    assert_eq!(pairs[0].0.hex, "FF0000");
    assert_eq!(pairs[0].0.rgb, (255, 0, 0));
    assert_eq!(pairs[0].1.hex, "00FF00");
    assert_eq!(pairs[0].1.rgb, (0, 255, 0));
    assert_eq!(pairs[1].0.hex, "0000FF");
    assert_eq!(pairs[1].1.rgb, (255, 255, 255));
}

#[test]
fn header_is_skipped_whatever_it_holds() {
    assert_eq!(load_color_pairs("FF0000,00FF00").unwrap().len(), 0);
    assert_eq!(load_color_pairs("no comma here\nFF0000,00FF00").unwrap().len(), 1);
    assert_eq!(load_color_pairs("").unwrap().len(), 0);
    assert_eq!(load_color_pairs("\n").unwrap().len(), 0);
}

#[test]
fn blank_lines_and_line_endings_are_passed_over() {
    let text = "h\r\n\r\n  \t \n#ff0000 , 00ff00\r\n\n0000FF,ffffff";
    let pairs = load_color_pairs(text).unwrap();
    assert_eq!(pairs.len(), 2);
    assert_eq!(pairs[0].0.hex, "FF0000");
    assert_eq!(pairs[0].1.hex, "00FF00");
    assert_eq!(pairs[1].1.hex, "FFFFFF");
}

#[test]
fn row_without_comma_is_malformed_with_its_line_number() {
    let r = load_color_pairs("h\nFF0000,00FF00\n\nFF0000 00FF00\n000000,000000");
    assert_eq!(
        r,
        Err(ReticleError::MalformedRow { line: 4, text: "FF0000 00FF00".to_string() })
    );
    assert_eq!(r.unwrap_err().message(), "Invalid row 4: FF0000 00FF00");
}

#[test]
fn malformed_hex_aborts_the_batch() {
    let csv = "outer,inner\nZZZZZZ,00FF00\nFF0000,00FF00\n";
    assert_eq!(
        load_color_pairs(csv),
        Err(ReticleError::InvalidHexColor { token: "ZZZZZZ".to_string(), line: Some(2) })
    );
    let r = generate_batch_svgs(&CrosshairConfig::default(), csv);
    match r {
        Err(ReticleError::InvalidHexColor { token, line }) => {
            assert_eq!(token, "ZZZZZZ");
            assert_eq!(line, Some(2));
        }
        _ => panic!("the batch went on"),
    }
}

#[test]
fn error_in_a_later_row_gives_back_no_earlier_row() {
    let csv = "outer,inner\nFF0000,00FF00\n0000FF,12345\n";
    assert_eq!(
        load_color_pairs(csv),
        Err(ReticleError::InvalidHexColor { token: "12345".to_string(), line: Some(3) })
    );
    assert!(generate_batch_svgs(&CrosshairConfig::default(), csv).is_err());
}

#[test]
fn invalid_color_in_a_row_names_the_row() {
    let e = load_color_pairs("h\n\n\n  \nFF0000, 00GG00 \n").unwrap_err();
    assert_eq!(
        e,
        ReticleError::InvalidHexColor { token: " 00GG00 ".to_string(), line: Some(5) }
    );
    assert_eq!(e.message(), "Invalid hex color in row 5:  00GG00 ");
}

#[test]
fn two_hashes_before_a_color_abort_the_batch() {
    assert_eq!(
        load_color_pairs("h\n#FF0000,##00FF00\n"),
        Err(ReticleError::InvalidHexColor { token: "##00FF00".to_string(), line: Some(2) })
    );
    assert!(generate_batch_svgs(&CrosshairConfig::default(), "h\n##FF0000,00FF00").is_err());
}

#[test]
fn second_comma_belongs_to_the_second_color() {
    assert_eq!(
        load_color_pairs("h\nFF0000,00FF00,0000FF"),
        Err(ReticleError::InvalidHexColor { token: "00FF00,0000FF".to_string(), line: Some(2) })
    );
}

#[test]
fn first_error_in_a_row_is_the_rims() {
    assert_eq!(
        load_color_pairs("h\nxx,yy"),
        Err(ReticleError::InvalidHexColor { token: "xx".to_string(), line: Some(2) })
    );
}

#[test]
fn two_rows_give_two_named_artifacts() {
    let mut c = CrosshairConfig::default();
    c.size = 256;
    let arts =
        generate_batch_svgs(&c, "outer,inner\nFF0000,00FF00\n0000FF,FFFFFF").unwrap();
    assert_eq!(arts.len(), 2);
    assert_eq!(arts[0].filename, "xhMan_256px-rim-FF0000_arms-00FF00.svg");
    assert_eq!(arts[1].filename, "xhMan_256px-rim-0000FF_arms-FFFFFF.svg");
}

#[test]
fn duplicate_pairs_share_one_file_name() {
    let c = CrosshairConfig::default();
    let arts = generate_batch_svgs(&c, "h\nff0000,00ff00\n#FF0000,#00FF00\n").unwrap();
    assert_eq!(arts.len(), 2);
    assert_eq!(arts[0].filename, arts[1].filename);
    assert_eq!(arts[0].document.to_string(), arts[1].document.to_string());
    let mut names: Vec<String> = arts.iter().map(|a| a.filename.clone()).collect();
    names.sort();
    names.dedup();
    assert_eq!(names.len(), 1);
}

#[test]
fn file_name_takes_the_size_of_the_config() {
    let rim = parse_color_spec("abcdef").unwrap();
    let arm = parse_color_spec("012345").unwrap();
    assert_eq!(artifact_filename(64, &rim, &arm), "xhMan_64px-rim-ABCDEF_arms-012345.svg");
    assert_eq!(artifact_filename(8192, &rim, &arm), "xhMan_8192px-rim-ABCDEF_arms-012345.svg");
}

#[test]
fn batch_colors_are_opaque_whatever_the_template_says() {
    let mut c = CrosshairConfig::default();
    c.rim_color = Color { r: 9, g: 9, b: 9, alpha: 250 };
    c.arm_color = Color { r: 9, g: 9, b: 9, alpha: 0 };
    let rim = parse_color_spec("FF0000").unwrap();
    let arm = parse_color_spec("00FF00").unwrap();
    let art = render_pair(&c, &rim, &arm);
    let mut want = c.clone();
    want.rim_color = Color { r: 255, g: 0, b: 0, alpha: 1000 };
    want.arm_color = Color { r: 0, g: 255, b: 0, alpha: 1000 };
    assert_eq!(art.document.to_string(), generate_svg(&want).to_string());
    assert!(art.document.to_string().contains("stroke=\"rgba(255,0,0,1)\""));
    assert!(art.document.to_string().contains("fill=\"rgba(0,255,0,1)\""));
    assert_eq!(c.rim_color.alpha, 250);
}

#[test]
fn with_colors_changes_the_colors_alone() {
    let c = CrosshairConfig::default();
    let d = c.with_colors((1, 2, 3), (4, 5, 6));
    assert_eq!(d.rim_color, Color { r: 1, g: 2, b: 3, alpha: 1000 });
    assert_eq!(d.arm_color, Color { r: 4, g: 5, b: 6, alpha: 1000 });
    assert_eq!(d.size, c.size);
    assert_eq!(d.angles, c.angles);
    assert_eq!(d.ring_outer_radius, c.ring_outer_radius);
    assert_eq!(d.spoke_tip_width, c.spoke_tip_width);
    assert_eq!(d.blur_radius, c.blur_radius);
    assert_eq!(d.glow_radius, c.glow_radius);
}

#[test]
fn render_batch_keeps_the_order_of_the_pairs() {
    let pairs = load_color_pairs("h\n111111,222222\n333333,444444\n555555,666666").unwrap();
    let arts = render_batch(&CrosshairConfig::default(), &pairs);
    assert_eq!(arts.len(), 3);
    assert_eq!(arts[0].filename, "xhMan_256px-rim-111111_arms-222222.svg");
    assert_eq!(arts[2].filename, "xhMan_256px-rim-555555_arms-666666.svg");
    assert!(render_batch(&CrosshairConfig::default(), &Vec::new()).is_empty());
}
