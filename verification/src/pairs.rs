//! Lists of color pairs: a header line, then one `rim,arm` pair to a line.

use vstd::prelude::*;
use crate::color::{
    color_spec_of, parse_color_chars, ColorSpec, ColorSpecView, ErrorView, ReticleError,
};
use crate::text::{chars_of, is_blank, slice, string_from, trim};

verus! {

/// What a pair of colors stands for: the rim's color, then the arms'.
pub type PairView = (ColorSpecView, ColorSpecView);

/// `line` without the carriage return it ends with, if it ends with one.
pub open spec fn strip_cr(line: Seq<char>) -> Seq<char> {
    if line.len() > 0 && line.last() == '\r' {
        line.drop_last()
    } else {
        line
    }
}

/// The lines of `s` from the one that starts at `start`, `i` being the place
/// up to which that line was read.
pub open spec fn lines_from(s: Seq<char>, start: int, i: int) -> Seq<Seq<char>>
    decreases s.len() - i,
{
    if i < 0 || i >= s.len() {
        if 0 <= start < s.len() {
            seq![s.subrange(start, s.len() as int)]
        } else {
            Seq::empty()
        }
    } else if s[i] == '\n' {
        seq![strip_cr(s.subrange(start, i))] + lines_from(s, i + 1, i + 1)
    } else {
        lines_from(s, start, i + 1)
    }
}

/// The lines of `s`. A line ends with a line feed, or with a carriage return
/// and a line feed, neither of which belongs to it; the last line need not
/// end with either.
pub open spec fn lines(s: Seq<char>) -> Seq<Seq<char>> {
    lines_from(s, 0, 0)
}

/// The index of the first comma of `s` at or after `i`, or the length of `s`
/// if there is none.
pub open spec fn find_comma(s: Seq<char>, i: int) -> int
    decreases s.len() - i,
{
    if i < 0 || i >= s.len() || s[i] == ',' {
        i
    } else {
        find_comma(s, i + 1)
    }
}

/// The color that `raw` gives on the line with the given number; where it
/// gives none, the error names that line.
pub open spec fn color_on_line(raw: Seq<char>, number: nat) -> Result<ColorSpecView, ErrorView> {
    match color_spec_of(raw) {
        Ok(color) => Ok(color),
        Err(_) => Err(ErrorView::InvalidHexColor { token: raw, line: Some(number) }),
    }
}

/// The pair that the line with the given number holds: the rim's color
/// before the first comma, the arms' color after it.
pub open spec fn row_of(line: Seq<char>, number: nat) -> Result<PairView, ErrorView> {
    let k = find_comma(line, 0);
    if k >= line.len() {
        Err(ErrorView::MalformedRow { line: number, text: line })
    } else {
        match color_on_line(line.subrange(0, k), number) {
            Err(e) => Err(e),
            Ok(rim) => match color_on_line(line.subrange(k + 1, line.len() as int), number) {
                Err(e) => Err(e),
                Ok(arm) => Ok((rim, arm)),
            },
        }
    }
}

/// `done`, then what `rest` holds; the error of `rest` if it is one.
pub open spec fn after(done: Seq<PairView>, rest: Result<Seq<PairView>, ErrorView>) -> Result<
    Seq<PairView>,
    ErrorView,
> {
    match rest {
        Ok(more) => Ok(done + more),
        Err(e) => Err(e),
    }
}

/// The pairs that the lines from index `k` hold, or the error of the first
/// line among them that holds none. The first line of all is a header and
/// blank lines count for nothing: they are passed over.
pub open spec fn rows_from(all: Seq<Seq<char>>, k: int) -> Result<Seq<PairView>, ErrorView>
    decreases all.len() - k,
{
    if k < 0 || k >= all.len() {
        Ok(Seq::empty())
    } else if k == 0 || is_blank(all[k]) {
        rows_from(all, k + 1)
    } else {
        match row_of(all[k], (k + 1) as nat) {
            Err(e) => Err(e),
            Ok(pair) => after(seq![pair], rows_from(all, k + 1)),
        }
    }
}

/// The pairs that a list of color pairs holds, or its first error.
pub open spec fn color_pairs_of(text: Seq<char>) -> Result<Seq<PairView>, ErrorView> {
    rows_from(lines(text), 0)
}

/// What a sequence of pairs stands for.
pub open spec fn pairs_view(pairs: Seq<(ColorSpec, ColorSpec)>) -> Seq<PairView> {
    pairs.map_values(|p: (ColorSpec, ColorSpec)| (p.0@, p.1@))
}

/// What a sequence of lines stands for.
pub open spec fn lines_view(all: Seq<Vec<char>>) -> Seq<Seq<char>> {
    all.map_values(|l: Vec<char>| l@)
}

fn line_without_cr(chars: &Vec<char>, from: usize, to: usize) -> (line: Vec<char>)
    requires
        from <= to <= chars@.len(),
    ensures
        line@ == strip_cr(chars@.subrange(from as int, to as int)),
{
    if to > from && chars[to - 1] == '\r' {
        assert(chars@.subrange(from as int, to as int).drop_last() =~= chars@.subrange(
            from as int,
            to - 1,
        ));
        slice(chars, from, to - 1)
    } else {
        slice(chars, from, to)
    }
}

/// The lines of `chars`.
pub fn split_lines(chars: &Vec<char>) -> (all: Vec<Vec<char>>)
    ensures
        lines_view(all@) == lines(chars@),
{
    let n = chars.len();
    let mut all: Vec<Vec<char>> = Vec::new();
    let mut start: usize = 0;
    let mut i: usize = 0;
    assert(lines_view(all@) + lines_from(chars@, 0, 0) =~= lines(chars@));
    while i < n
        invariant
            n == chars@.len(),
            start <= i <= n,
            lines_view(all@) + lines_from(chars@, start as int, i as int) == lines(chars@),
        decreases n - i,
    {
        if chars[i] == '\n' {
            let line = line_without_cr(chars, start, i);
            let ghost before = lines_view(all@);
            all.push(line);
            assert(lines_view(all@) =~= before + seq![line@]);
            assert(lines_view(all@) + lines_from(chars@, i + 1, i + 1) =~= before + (seq![line@]
                + lines_from(chars@, i + 1, i + 1)));
            start = i + 1;
        }
        i = i + 1;
    }
    if start < n {
        let line = slice(chars, start, n);
        let ghost before = lines_view(all@);
        all.push(line);
        assert(lines_view(all@) =~= before + seq![line@]);
    } else {
        assert(lines_view(all@) + Seq::<Seq<char>>::empty() =~= lines_view(all@));
    }
    all
}

fn comma_index(line: &Vec<char>) -> (k: usize)
    ensures
        k == find_comma(line@, 0),
        k <= line@.len(),
{
    let mut k: usize = 0;
    while k < line.len() && line[k] != ','
        invariant
            k <= line@.len(),
            find_comma(line@, 0) == find_comma(line@, k as int),
        decreases line@.len() - k,
    {
        k = k + 1;
    }
    k
}

fn color_in_row(raw: &Vec<char>, number: usize) -> (r: Result<ColorSpec, ReticleError>)
    ensures
        r is Ok ==> color_on_line(raw@, number as nat) == Ok::<ColorSpecView, ErrorView>(
            r->Ok_0@,
        ),
        r is Err ==> color_on_line(raw@, number as nat) == Err::<ColorSpecView, ErrorView>(
            r->Err_0@,
        ),
{
    match parse_color_chars(raw) {
        Ok(color) => Ok(color),
        Err(_) => Err(
            ReticleError::InvalidHexColor { token: string_from(raw), line: Some(number) },
        ),
    }
}

/// The pair that `line` holds, `number` being its line number.
pub fn parse_row(line: &Vec<char>, number: usize) -> (r: Result<
    (ColorSpec, ColorSpec),
    ReticleError,
>)
    ensures
        r is Ok ==> row_of(line@, number as nat) == Ok::<PairView, ErrorView>(
            (r->Ok_0.0@, r->Ok_0.1@),
        ),
        r is Err ==> row_of(line@, number as nat) == Err::<PairView, ErrorView>(r->Err_0@),
{
    let k = comma_index(line);
    if k >= line.len() {
        return Err(ReticleError::MalformedRow { line: number, text: string_from(line) });
    }
    let rim = match color_in_row(&slice(line, 0, k), number) {
        Ok(rim) => rim,
        Err(e) => {
            return Err(e);
        },
    };
    let arm = match color_in_row(&slice(line, k + 1, line.len()), number) {
        Ok(arm) => arm,
        Err(e) => {
            return Err(e);
        },
    };
    Ok((rim, arm))
}

/// Reads a list of color pairs.
///
/// The first line is a header and is passed over, as is every blank line.
/// Each other line gives the rim's color, a comma and the arms' color. The
/// first line without a comma ends the reading with
/// [`ReticleError::MalformedRow`], the first color that is not six
/// hexadecimal digits with [`ReticleError::InvalidHexColor`]; either holds
/// the number of its line, counted from 1. Nothing is given back of the
/// rows before an error.
pub fn load_color_pairs(csv: &str) -> (r: Result<Vec<(ColorSpec, ColorSpec)>, ReticleError>)
    ensures
        r is Ok ==> color_pairs_of(csv@) == Ok::<Seq<PairView>, ErrorView>(pairs_view(r->Ok_0@)),
        r is Err ==> color_pairs_of(csv@) == Err::<Seq<PairView>, ErrorView>(r->Err_0@),
{
    let chars = chars_of(csv);
    let all = split_lines(&chars);
    let ghost rows = lines(csv@);
    let mut pairs: Vec<(ColorSpec, ColorSpec)> = Vec::new();
    let mut k: usize = 0;
    assert(after(pairs_view(pairs@), rows_from(rows, 0)) == rows_from(rows, 0)) by {
        match rows_from(rows, 0) {
            Ok(more) => {
                assert(pairs_view(pairs@) + more =~= more);
            },
            Err(e) => {},
        }
    }
    while k < all.len()
        invariant
            k <= all@.len(),
            lines_view(all@) == rows,
            color_pairs_of(csv@) == after(pairs_view(pairs@), rows_from(rows, k as int)),
        decreases all@.len() - k,
    {
        assert(rows[k as int] == all@[k as int]@);
        if k != 0 && trim(&all[k]).len() != 0 {
            match parse_row(&all[k], k + 1) {
                Ok(pair) => {
                    let ghost before = pairs_view(pairs@);
                    let ghost row = (pair.0@, pair.1@);
                    pairs.push(pair);
                    assert(pairs_view(pairs@) =~= before + seq![row]);
                    assert(after(before, rows_from(rows, k as int)) == after(
                        pairs_view(pairs@),
                        rows_from(rows, k + 1),
                    )) by {
                        match rows_from(rows, k + 1) {
                            Ok(more) => {
                                assert(before + (seq![row] + more) =~= (before + seq![row])
                                    + more);
                            },
                            Err(e) => {},
                        }
                    }
                },
                Err(e) => {
                    return Err(e);
                },
            }
        }
        k = k + 1;
    }
    assert(pairs_view(pairs@) + Seq::<PairView>::empty() =~= pairs_view(pairs@));
    Ok(pairs)
}

} // verus!
