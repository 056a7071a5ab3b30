//! Colors given as hexadecimal text.

use vstd::prelude::*;
use crate::text::{
    chars_of, decimal, is_space, push_decimal, slice, string_from, to_upper, trim, trim_end,
    trim_start, trimmed, upper,
};

verus! {

/// What can go wrong between a list of color pairs and the files made of it.
#[derive(Clone, Debug, PartialEq, Eq)]
pub enum ReticleError {
    /// A color that is not six hexadecimal digits: the text as it was given
    /// and, where it stood in a list, the number of its line, counted from 1.
    InvalidHexColor { token: String, line: Option<usize> },
    /// A row without a comma: its line number, counted from 1, and the line.
    MalformedRow { line: usize, text: String },
    /// A file or directory that could not be read or written.
    IOFailure { path: String, reason: String },
}

/// What a [`ReticleError`] stands for.
pub enum ErrorView {
    InvalidHexColor { token: Seq<char>, line: Option<nat> },
    MalformedRow { line: nat, text: Seq<char> },
    IOFailure { path: Seq<char>, reason: Seq<char> },
}

impl View for ReticleError {
    type V = ErrorView;

    open spec fn view(&self) -> ErrorView {
        match self {
            ReticleError::InvalidHexColor { token, line } => ErrorView::InvalidHexColor {
                token: token@,
                line: match line {
                    Some(n) => Some(*n as nat),
                    None => None,
                },
            },
            ReticleError::MalformedRow { line, text } => ErrorView::MalformedRow {
                line: *line as nat,
                text: text@,
            },
            ReticleError::IOFailure { path, reason } => ErrorView::IOFailure {
                path: path@,
                reason: reason@,
            },
        }
    }
}

impl ErrorView {
    /// The error in words.
    pub open spec fn message(self) -> Seq<char> {
        match self {
            ErrorView::InvalidHexColor { token, line } => match line {
                Some(n) => "Invalid hex color in row "@ + decimal(n) + ": "@ + token,
                None => "Invalid hex color: "@ + token,
            },
            ErrorView::MalformedRow { line, text } => "Invalid row "@ + decimal(line) + ": "@
                + text,
            ErrorView::IOFailure { path, reason } => path + ": "@ + reason,
        }
    }
}

impl ReticleError {
    /// The error in words.
    pub fn message(&self) -> (text: String)
        ensures
            text@ == self@.message(),
    {
        let mut out = String::new();
        match self {
            ReticleError::InvalidHexColor { token, line } => {
                match line {
                    Some(n) => {
                        out.append("Invalid hex color in row ");
                        push_decimal(&mut out, *n as u64);
                        out.append(": ");
                    },
                    None => {
                        out.append("Invalid hex color: ");
                    },
                }
                out.append(token.as_str());
            },
            ReticleError::MalformedRow { line, text } => {
                out.append("Invalid row ");
                push_decimal(&mut out, *line as u64);
                out.append(": ");
                out.append(text.as_str());
            },
            ReticleError::IOFailure { path, reason } => {
                out.append(path.as_str());
                out.append(": ");
                out.append(reason.as_str());
            },
        }
        assert(out@ =~= self@.message());
        out
    }
}

/// A color parsed from text: its channels and its six upper-case digits.
#[derive(Debug, PartialEq, Eq)]
pub struct ColorSpec {
    pub rgb: (u8, u8, u8),
    pub hex: String,
}

/// What a [`ColorSpec`] stands for.
pub struct ColorSpecView {
    pub rgb: (u8, u8, u8),
    pub hex: Seq<char>,
}

impl View for ColorSpec {
    type V = ColorSpecView;

    open spec fn view(&self) -> ColorSpecView {
        ColorSpecView { rgb: self.rgb, hex: self.hex@ }
    }
}

impl Clone for ColorSpec {
    fn clone(&self) -> (copy: Self)
        ensures
            copy@ == self@,
    {
        ColorSpec { rgb: self.rgb, hex: self.hex.clone() }
    }
}

/// Whether `c` is a hexadecimal digit, in either case.
pub open spec fn is_hex_digit(c: char) -> bool {
    ('0' <= c <= '9') || ('a' <= c <= 'f') || ('A' <= c <= 'F')
}

/// The number that the hexadecimal digit `c` stands for.
pub open spec fn hex_value(c: char) -> int {
    if '0' <= c <= '9' {
        c as int - 48
    } else if 'a' <= c <= 'f' {
        c as int - 87
    } else {
        c as int - 55
    }
}

/// Whether `s` is six hexadecimal digits.
pub open spec fn is_hex_token(s: Seq<char>) -> bool {
    s.len() == 6 && forall|i: int| 0 <= i < 6 ==> is_hex_digit(#[trigger] s[i])
}

/// `s` without the `#` sign it starts with, if it starts with one.
pub open spec fn strip_hash(s: Seq<char>) -> Seq<char> {
    if s.len() > 0 && s.first() == '#' {
        s.drop_first()
    } else {
        s
    }
}

/// The digits of a color given as `raw`: what is left of it without the
/// white space around it and without one `#` sign before the digits.
pub open spec fn hex_token(raw: Seq<char>) -> Seq<char> {
    strip_hash(trimmed(raw))
}

/// The channel that the two digits of `s` from index `i` stand for.
pub open spec fn channel(s: Seq<char>, i: int) -> int {
    16 * hex_value(s[i]) + hex_value(s[i + 1])
}

/// The red, green and blue channels of six hexadecimal digits.
pub open spec fn rgb_of(s: Seq<char>) -> (u8, u8, u8) {
    (channel(s, 0) as u8, channel(s, 2) as u8, channel(s, 4) as u8)
}

/// The color that `raw` gives, if it gives one.
pub open spec fn color_spec_of(raw: Seq<char>) -> Result<ColorSpecView, ErrorView> {
    if is_hex_token(hex_token(raw)) {
        Ok(ColorSpecView { rgb: rgb_of(upper(hex_token(raw))), hex: upper(hex_token(raw)) })
    } else {
        Err(ErrorView::InvalidHexColor { token: raw, line: None })
    }
}

fn hex_digit(c: char) -> (b: bool)
    ensures
        b == is_hex_digit(c),
{
    ('0' <= c && c <= '9') || ('a' <= c && c <= 'f') || ('A' <= c && c <= 'F')
}

fn digit_value(c: char) -> (v: u8)
    requires
        is_hex_digit(c),
    ensures
        v == hex_value(c),
        v < 16,
{
    if '0' <= c && c <= '9' {
        c as u8 - 48
    } else if 'a' <= c && c <= 'f' {
        c as u8 - 87
    } else {
        c as u8 - 55
    }
}

fn all_hex_digits(chars: &Vec<char>) -> (b: bool)
    ensures
        b == (forall|i: int| 0 <= i < chars@.len() ==> is_hex_digit(#[trigger] chars@[i])),
{
    let mut i: usize = 0;
    while i < chars.len()
        invariant
            i <= chars@.len(),
            forall|k: int| 0 <= k < i ==> is_hex_digit(#[trigger] chars@[k]),
        decreases chars@.len() - i,
    {
        if !hex_digit(chars[i]) {
            return false;
        }
        i = i + 1;
    }
    true
}

fn without_hash(chars: &Vec<char>) -> (part: Vec<char>)
    ensures
        part@ == strip_hash(chars@),
{
    let n = chars.len();
    if n > 0 && chars[0] == '#' {
        assert(chars@.drop_first() =~= chars@.subrange(1, n as int));
        slice(chars, 1, n)
    } else {
        assert(chars@.subrange(0, n as int) =~= chars@);
        slice(chars, 0, n)
    }
}

fn upper_case(chars: &Vec<char>) -> (out: Vec<char>)
    ensures
        out@ == upper(chars@),
{
    let mut out: Vec<char> = Vec::new();
    let mut i: usize = 0;
    while i < chars.len()
        invariant
            i <= chars@.len(),
            out@ == upper(chars@).take(i as int),
        decreases chars@.len() - i,
    {
        out.push(to_upper(chars[i]));
        assert(out@ =~= upper(chars@).take(i + 1));
        i = i + 1;
    }
    assert(upper(chars@).take(chars@.len() as int) =~= upper(chars@));
    out
}

/// The six upper-case digits of the color given by `raw`, whose white space
/// around it and one `#` sign before the digits are passed over; `None` if
/// what is left is not six hexadecimal digits.
pub fn normalized_digits(raw: &Vec<char>) -> (digits: Option<Vec<char>>)
    ensures
        digits is Some <==> is_hex_token(hex_token(raw@)),
        digits is Some ==> digits->0@ == upper(hex_token(raw@)),
{
    let token = without_hash(&trim(raw));
    if token.len() != 6 || !all_hex_digits(&token) {
        None
    } else {
        Some(upper_case(&token))
    }
}

/// The canonical form of a color given as text: six upper-case hexadecimal
/// digits.
///
/// White space around the text and one `#` sign before the digits are
/// passed over. Text that does not leave exactly six hexadecimal digits, a
/// second `#` sign among them, is refused as
/// [`ReticleError::InvalidHexColor`], which holds the text as given.
pub fn normalize_hex(raw: &str) -> (r: Result<String, ReticleError>)
    ensures
        r is Ok <==> is_hex_token(hex_token(raw@)),
        r is Ok ==> r->Ok_0@ == upper(hex_token(raw@)),
        r is Err ==> r->Err_0@ == (ErrorView::InvalidHexColor { token: raw@, line: None }),
{
    let chars = chars_of(raw);
    match normalized_digits(&chars) {
        Some(digits) => Ok(string_from(&digits)),
        None => Err(ReticleError::InvalidHexColor { token: string_from(&chars), line: None }),
    }
}

fn channel_of(chars: &Vec<char>, i: usize) -> (v: u8)
    requires
        is_hex_token(chars@),
        i == 0 || i == 2 || i == 4,
    ensures
        v == channel(chars@, i as int),
{
    16 * digit_value(chars[i]) + digit_value(chars[i + 1])
}

fn rgb_of_digits(chars: &Vec<char>) -> (rgb: (u8, u8, u8))
    requires
        is_hex_token(chars@),
    ensures
        rgb == rgb_of(chars@),
{
    (channel_of(chars, 0), channel_of(chars, 2), channel_of(chars, 4))
}

/// The red, green and blue channels of a color given as six hexadecimal
/// digits, two digits to a channel. Any other text is refused as
/// [`ReticleError::InvalidHexColor`].
pub fn hex_to_rgb(hex: &str) -> (r: Result<(u8, u8, u8), ReticleError>)
    ensures
        r is Ok <==> is_hex_token(hex@),
        r is Ok ==> r->Ok_0 == rgb_of(hex@),
        r is Err ==> r->Err_0@ == (ErrorView::InvalidHexColor { token: hex@, line: None }),
{
    let chars = chars_of(hex);
    if chars.len() != 6 || !all_hex_digits(&chars) {
        Err(ReticleError::InvalidHexColor { token: string_from(&chars), line: None })
    } else {
        Ok(rgb_of_digits(&chars))
    }
}

/// Upper case keeps hexadecimal digits hexadecimal.
pub proof fn lemma_upper_keeps_hex(s: Seq<char>)
    requires
        is_hex_token(s),
    ensures
        is_hex_token(upper(s)),
{
    assert forall|i: int| 0 <= i < 6 implies is_hex_digit(#[trigger] upper(s)[i]) by {
        assert(is_hex_digit(s[i]));
    }
}

/// The canonical digits of a color give that color again: a color's `hex`
/// is read as the same digits and the same channels.
pub proof fn lemma_canonical_is_stable(raw: Seq<char>)
    requires
        color_spec_of(raw) is Ok,
    ensures
        color_spec_of(color_spec_of(raw)->Ok_0.hex) == color_spec_of(raw),
{
    let token = hex_token(raw);
    let hex = upper(token);
    lemma_upper_keeps_hex(token);
    assert(is_hex_digit(hex[0]));
    assert(is_hex_digit(hex[5]));
    assert(hex.first() == hex[0] && hex.last() == hex[5]);
    assert(!is_space(hex.first()));
    assert(!is_space(hex.last()));
    assert(trim_start(hex) == hex);
    assert(trim_end(hex) == hex);
    assert(strip_hash(hex) == hex);
    assert(hex_token(hex) == hex);
    assert(upper(hex) =~= hex) by {
        assert forall|i: int| 0 <= i < hex.len() implies upper(hex)[i] == hex[i] by {
            assert(is_hex_digit(token[i]));
        }
    }
}

/// The color given by the characters `raw`.
pub fn parse_color_chars(raw: &Vec<char>) -> (r: Result<ColorSpec, ReticleError>)
    ensures
        r is Ok ==> color_spec_of(raw@) == Ok::<ColorSpecView, ErrorView>(r->Ok_0@),
        r is Err ==> color_spec_of(raw@) == Err::<ColorSpecView, ErrorView>(r->Err_0@),
{
    match normalized_digits(raw) {
        Some(digits) => {
            proof {
                lemma_upper_keeps_hex(hex_token(raw@));
            }
            let rgb = rgb_of_digits(&digits);
            Ok(ColorSpec { rgb, hex: string_from(&digits) })
        },
        None => Err(ReticleError::InvalidHexColor { token: string_from(raw), line: None }),
    }
}

/// The color given by `raw`: its canonical digits and the channels they
/// stand for.
///
/// The text is accepted exactly where [`normalize_hex`] accepts it, and
/// refused with the same error.
pub fn parse_color_spec(raw: &str) -> (r: Result<ColorSpec, ReticleError>)
    ensures
        r is Ok ==> color_spec_of(raw@) == Ok::<ColorSpecView, ErrorView>(r->Ok_0@),
        r is Err ==> color_spec_of(raw@) == Err::<ColorSpecView, ErrorView>(r->Err_0@),
{
    let chars = chars_of(raw);
    parse_color_chars(&chars)
}

} // verus!
