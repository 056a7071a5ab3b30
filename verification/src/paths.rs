//! Where the user's files are kept, and the names of saved profiles.

use vstd::prelude::*;
use crate::text::{
    chars_of, is_space, push_char, string_from, trim, trim_end, trim_start, trimmed,
};

verus! {

/// `part` below the directory `base`: the two with one `/` between them,
/// which an empty `base`, or one that ends in `/`, does not need.
pub open spec fn joined(base: Seq<char>, part: Seq<char>) -> Seq<char> {
    if base.len() == 0 || base.last() == '/' {
        base + part
    } else {
        base + seq!['/'] + part
    }
}

/// The directory of the user's files below the home directory `home`, or
/// below the current directory where there is no home directory.
pub open spec fn base_dir_of(home: Option<Seq<char>>) -> Seq<char> {
    joined(
        match home {
            Some(dir) => dir,
            None => "."@,
        },
        ".local/lib/xhGen"@,
    )
}

/// `part` below the directory `base`.
pub fn join(base: &str, part: &str) -> (path: String)
    ensures
        path@ == joined(base@, part@),
{
    let chars = chars_of(base);
    let mut path = string_from(&chars);
    if chars.len() > 0 && chars[chars.len() - 1] != '/' {
        push_char(&mut path, '/');
    }
    path.append(part);
    assert(path@ =~= joined(base@, part@));
    path
}

/// The directory of the user's files.
pub fn user_base_dir(home: Option<&str>) -> (dir: String)
    ensures
        dir@ == base_dir_of(
            match home {
                Some(h) => Some(h@),
                None => None,
            },
        ),
{
    match home {
        Some(h) => join(h, ".local/lib/xhGen"),
        None => join(".", ".local/lib/xhGen"),
    }
}

/// The directory of the user's lists of color pairs.
pub fn user_csv_dir(home: Option<&str>) -> (dir: String)
    ensures
        dir@ == joined(
            base_dir_of(
                match home {
                    Some(h) => Some(h@),
                    None => None,
                },
            ),
            "csv-library"@,
        ),
{
    join(user_base_dir(home).as_str(), "csv-library")
}

/// The list of color pairs that is read where none is named.
pub fn default_csv_path(home: Option<&str>) -> (path: String)
    ensures
        path@ == joined(
            joined(
                base_dir_of(
                    match home {
                        Some(h) => Some(h@),
                        None => None,
                    },
                ),
                "csv-library"@,
            ),
            "unique_crosshair_color_pairs.csv"@,
        ),
{
    join(user_csv_dir(home).as_str(), "unique_crosshair_color_pairs.csv")
}

/// The directory that rendered files go to where none is named.
pub fn user_output_dir(home: Option<&str>) -> (dir: String)
    ensures
        dir@ == joined(
            base_dir_of(
                match home {
                    Some(h) => Some(h@),
                    None => None,
                },
            ),
            "xhGenerated"@,
        ),
{
    join(user_base_dir(home).as_str(), "xhGenerated")
}

/// The directory of the saved profiles.
pub fn profiles_dir(home: Option<&str>) -> (dir: String)
    ensures
        dir@ == joined(
            base_dir_of(
                match home {
                    Some(h) => Some(h@),
                    None => None,
                },
            ),
            "profiles"@,
        ),
{
    join(user_base_dir(home).as_str(), "profiles")
}

/// The text that stands for the default list of color pairs where its path
/// is shown or typed.
pub fn default_csv_path_string(home: Option<&str>) -> (text: String)
    ensures
        text@ == joined(
            joined(
                base_dir_of(
                    match home {
                        Some(h) => Some(h@),
                        None => None,
                    },
                ),
                "csv-library"@,
            ),
            "unique_crosshair_color_pairs.csv"@,
        ),
{
    default_csv_path(home)
}

/// The text that stands for the default output directory where its path is
/// shown or typed.
pub fn default_output_dir_string(home: Option<&str>) -> (text: String)
    ensures
        text@ == joined(
            base_dir_of(
                match home {
                    Some(h) => Some(h@),
                    None => None,
                },
            ),
            "xhGenerated"@,
        ),
{
    user_output_dir(home)
}

/// Whether `c` may stand in the name of a profile's file: an ASCII letter
/// or digit, a hyphen or an underscore.
pub open spec fn is_name_char(c: char) -> bool {
    ('0' <= c <= '9') || ('a' <= c <= 'z') || ('A' <= c <= 'Z') || c == '-' || c == '_'
}

/// `c` where it may stand in a name, an underscore in its place where not.
pub open spec fn safe_char(c: char) -> char {
    if is_name_char(c) {
        c
    } else {
        '_'
    }
}

/// The name of a profile as it is used for its file: `raw` without the
/// white space around it, and with an underscore for every character that
/// may not stand in a name. Nothing but white space gives no name.
pub open spec fn sanitized(raw: Seq<char>) -> Option<Seq<char>> {
    if trimmed(raw).len() == 0 {
        None
    } else {
        Some(trimmed(raw).map_values(|c: char| safe_char(c)))
    }
}

fn name_char(c: char) -> (b: bool)
    ensures
        b == is_name_char(c),
{
    ('0' <= c && c <= '9') || ('a' <= c && c <= 'z') || ('A' <= c && c <= 'Z') || c == '-' || c
        == '_'
}

/// The name of a profile as it is used for its file.
pub fn sanitize_profile_name(raw: &str) -> (name: Option<String>)
    ensures
        match name {
            Some(n) => sanitized(raw@) == Some(n@),
            None => sanitized(raw@) is None,
        },
{
    let kept = trim(&chars_of(raw));
    if kept.len() == 0 {
        return None;
    }
    let ghost want = kept@.map_values(|c: char| safe_char(c));
    let mut cleaned: Vec<char> = Vec::new();
    let mut i: usize = 0;
    while i < kept.len()
        invariant
            i <= kept@.len(),
            want == kept@.map_values(|c: char| safe_char(c)),
            cleaned@ == want.take(i as int),
        decreases kept@.len() - i,
    {
        let c = kept[i];
        cleaned.push(if name_char(c) { c } else { '_' });
        assert(cleaned@ =~= want.take(i + 1));
        i = i + 1;
    }
    assert(want.take(kept@.len() as int) =~= want);
    Some(string_from(&cleaned))
}

/// A name that was made fit for a file stays as it is when it is made fit
/// again.
pub proof fn lemma_sanitized_is_stable(raw: Seq<char>)
    requires
        sanitized(raw) is Some,
    ensures
        sanitized(sanitized(raw)->0) == sanitized(raw),
{
    let name = sanitized(raw)->0;
    assert(name.len() > 0);
    assert forall|i: int| 0 <= i < name.len() implies is_name_char(#[trigger] name[i]) by {}
    assert(!is_space(name.first()));
    assert(!is_space(name.last()));
    assert(trim_start(name) == name);
    assert(trim_end(name) == name);
    assert(name.map_values(|c: char| safe_char(c)) =~= name);
}

/// The file of the profile called `name` in the directory `dir`: the name,
/// made fit for a file, with `.json` after it.
pub open spec fn profile_path_of(dir: Seq<char>, name: Seq<char>) -> Option<Seq<char>> {
    match sanitized(name) {
        Some(safe) => Some(joined(dir, safe + ".json"@)),
        None => None,
    }
}

/// The file of the profile called `name` in the directory `dir`, or `None`
/// where `name` holds nothing but white space.
pub fn profile_path(dir: &str, name: &str) -> (path: Option<String>)
    ensures
        match path {
            Some(p) => profile_path_of(dir@, name@) == Some(p@),
            None => profile_path_of(dir@, name@) is None,
        },
{
    match sanitize_profile_name(name) {
        Some(safe) => {
            let mut file = safe;
            file.append(".json");
            Some(join(dir, file.as_str()))
        },
        None => None,
    }
}

/// The profile that a request is about: the name that was typed, without
/// the white space around it, or, where nothing was typed, the name that was
/// picked from the list.
pub open spec fn preferred_of(typed: Seq<char>, picked: Option<Seq<char>>) -> Option<Seq<char>> {
    if trimmed(typed).len() > 0 {
        Some(trimmed(typed))
    } else {
        picked
    }
}

/// The profile that a request is about.
pub fn preferred_profile(typed: &str, picked: Option<&str>) -> (name: Option<String>)
    ensures
        match name {
            Some(n) => preferred_of(
                typed@,
                match picked {
                    Some(p) => Some(p@),
                    None => None,
                },
            ) == Some(n@),
            None => preferred_of(
                typed@,
                match picked {
                    Some(p) => Some(p@),
                    None => None,
                },
            ) is None,
        },
{
    let kept = trim(&chars_of(typed));
    if kept.len() > 0 {
        Some(string_from(&kept))
    } else {
        match picked {
            Some(p) => Some(string_from(&chars_of(p))),
            None => None,
        }
    }
}

} // verus!
