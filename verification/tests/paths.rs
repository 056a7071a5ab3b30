use xhgen::color::ReticleError;
use xhgen::names::{place, sorted_names, Place};
use xhgen::paths::{
    default_csv_path, default_csv_path_string, default_output_dir_string, join, preferred_profile, profile_path, profiles_dir, sanitize_profile_name,
    user_base_dir, user_csv_dir, user_output_dir,
};
use xhgen::text::{chars_of, is_whitespace, string_from, string_of, trim};

#[test]
fn directories_below_the_home_directory() {
    assert_eq!(user_base_dir(Some("/home/u")), "/home/u/.local/lib/xhGen");
    assert_eq!(user_csv_dir(Some("/home/u")), "/home/u/.local/lib/xhGen/csv-library");
    assert_eq!(
        default_csv_path(Some("/home/u")),
        "/home/u/.local/lib/xhGen/csv-library/unique_crosshair_color_pairs.csv"
    );
    assert_eq!(user_output_dir(Some("/home/u")), "/home/u/.local/lib/xhGen/xhGenerated");
    assert_eq!(profiles_dir(Some("/home/u")), "/home/u/.local/lib/xhGen/profiles");
}

#[test]
fn default_paths_as_text() {
    assert_eq!(default_csv_path_string(Some("/h")), default_csv_path(Some("/h")));
    assert_eq!(
        default_csv_path_string(None),
        "./.local/lib/xhGen/csv-library/unique_crosshair_color_pairs.csv"
    );
    assert_eq!(default_output_dir_string(Some("/h")), "/h/.local/lib/xhGen/xhGenerated");
}

#[test]
fn directories_without_a_home_directory() {
    assert_eq!(user_base_dir(None), "./.local/lib/xhGen");
    assert_eq!(profiles_dir(None), "./.local/lib/xhGen/profiles");
}

#[test]
fn join_adds_a_separator_where_one_is_needed() {
    assert_eq!(join("a", "b"), "a/b");
    assert_eq!(join("a/", "b"), "a/b");
    assert_eq!(join("/", "b"), "/b");
    assert_eq!(join("", "b"), "b");
    assert_eq!(user_base_dir(Some("/home/u/")), "/home/u/.local/lib/xhGen");
    assert_eq!(user_base_dir(Some("")), ".local/lib/xhGen");
}

#[test]
fn profile_names_are_made_fit_for_files() {
    assert_eq!(sanitize_profile_name("  my profile!  "), Some("my_profile_".to_string()));
    assert_eq!(sanitize_profile_name("a-b_C9"), Some("a-b_C9".to_string()));
    assert_eq!(sanitize_profile_name("../etc/passwd"), Some("___etc_passwd".to_string()));
    assert_eq!(sanitize_profile_name("\u{e9}t\u{e9}"), Some("_t_".to_string()));
    assert_eq!(sanitize_profile_name(""), None);
    assert_eq!(sanitize_profile_name(" \t\n\u{a0}\u{3000}"), None);
}

#[test]
fn sanitizing_twice_changes_nothing_more() {
    for raw in ["  my profile!  ", "x", "a b\tc", "\u{2003}wide\u{2003}"] {
        let once = sanitize_profile_name(raw).unwrap();
        assert_eq!(sanitize_profile_name(&once), Some(once.clone()));
    }
}

#[test]
fn profile_path_is_the_name_with_json_in_the_directory() {
    assert_eq!(profile_path("/p", " night mode "), Some("/p/night_mode.json".to_string()));
    assert_eq!(profile_path("/p/", "a"), Some("/p/a.json".to_string()));
    assert_eq!(profile_path("/p", "   "), None);
}

#[test]
fn typed_name_comes_before_the_picked_one() {
    assert_eq!(preferred_profile(" typed ", Some("picked")), Some("typed".to_string()));
    assert_eq!(preferred_profile("   ", Some("picked")), Some("picked".to_string()));
    assert_eq!(preferred_profile("", None), None);
    assert_eq!(preferred_profile("x", None), Some("x".to_string()));
}

#[test]
fn white_space_is_what_std_calls_white_space() {
    let mut n: u32 = 0;
    while n <= 0x10ffff {
        if let Some(c) = char::from_u32(n) {
            assert_eq!(is_whitespace(c), c.is_whitespace(), "U+{:04X}", n);
        }
        n += 1;
    }
}

#[test]
fn trim_is_what_std_calls_trim() {
    for s in ["", " ", "a", " a", "a ", "  a b  ", "\t\r\n x \u{85}\u{2028}", "\u{3000}\u{1680}"] {
        assert_eq!(string_from(&trim(&chars_of(s))), s.trim());
    }
}

#[test]
fn strings_and_characters_convert_both_ways() {
    let chars = chars_of("h\u{e9}llo");
    assert_eq!(chars, vec!['h', '\u{e9}', 'l', 'l', 'o']);
    assert_eq!(string_from(&chars), "h\u{e9}llo");
    assert_eq!(string_of(&chars, 1, 3), "\u{e9}l");
    assert_eq!(string_of(&chars, 2, 2), "");
}

#[test]
fn io_failure_names_the_path() {
    let e = ReticleError::IOFailure { path: "/out/a.svg".to_string(), reason: "denied".to_string() };
    assert_eq!(e.message(), "/out/a.svg: denied");
}

fn strings(names: &[&str]) -> Vec<String> {
    names.iter().map(|n| n.to_string()).collect()
}

#[test]
fn names_come_out_in_order_each_once() {
    let names = strings(&["night", "day", "night", "Day", "", "da", "day2", "day", "\u{e9}t\u{e9}", "z", "\u{1f600}", "\u{ffff}"]);
    let mut want = names.clone();
    want.sort();
    want.dedup();
    assert_eq!(sorted_names(&names), want);
    assert_eq!(
        sorted_names(&strings(&["b", "a", "b", "a"])),
        strings(&["a", "b"])
    );
    assert!(sorted_names(&Vec::new()).is_empty());
    assert_eq!(sorted_names(&strings(&["one"])), strings(&["one"]));
}

#[test]
fn sorting_names_twice_changes_nothing_more() {
    let once = sorted_names(&strings(&["c", "a", "b", "a", "cc", ""]));
    assert_eq!(sorted_names(&once), once);
}

#[test]
fn place_of_one_name_to_another() {
    let v = |s: &str| -> Vec<char> { s.chars().collect() };
    assert_eq!(place(&v("a"), &v("b")), Place::Before);
    assert_eq!(place(&v("b"), &v("a")), Place::After);
    assert_eq!(place(&v("ab"), &v("ab")), Place::Same);
    assert_eq!(place(&v("a"), &v("ab")), Place::Before);
    assert_eq!(place(&v("ab"), &v("a")), Place::After);
    assert_eq!(place(&v(""), &v("")), Place::Same);
    assert_eq!(place(&v(""), &v("a")), Place::Before);
    assert_eq!(place(&v("Z"), &v("a")), Place::Before);
    assert_eq!(place(&v("\u{ffff}"), &v("\u{1f600}")), Place::Before);
}
