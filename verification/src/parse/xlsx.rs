//! XLSX: bands of rows.
//!
//! A spreadsheet chunk carries the row range. So a chunk here is a band of
//! rows rendered as text, not a cell and not a whole sheet. A cell on its own
//! says "8.4" and means nothing; a whole sheet is one undifferentiated blob
//! that no citation can point into. A row band keeps the header with the
//! values and gives the citation somewhere to land.
//!
//! Opening the workbook and rendering its cells is the caller's; what the
//! rendered rows become is decided here.
use vstd::prelude::*;

use crate::chars::{
    append_str, chars_of, contains_chars, contains_seq, join, join_strings, push_char, split_chars,
    split_on, string_views, trim_end_chars, trim_end_seq, views_of, white_space, is_white_space,
};
use crate::chunking::{numbered_in_order, placements, text_and_place, Chunk, ChunkLocation, Place};
use crate::parse::ParseError;

verus! {

/// Rows per chunk, after the header.
pub const ROWS_PER_CHUNK: usize = 12;

/// One worksheet, its cells rendered as text, the header first.
#[derive(Debug, Clone)]
pub struct Sheet {
    pub name: String,
    pub rows: Vec<Vec<String>>,
}

/// A row as one line: its cells joined by ` | `.
pub open spec fn row_line(row: Vec<String>) -> Seq<char> {
    join(string_views(row@), " | "@)
}

/// Each row's line followed by a line break.
pub open spec fn row_lines(rows: Seq<Vec<String>>) -> Seq<char>
    decreases rows.len(),
{
    if rows.len() == 0 {
        seq![]
    } else {
        row_lines(rows.drop_last()) + row_line(rows.last()) + seq!['\n']
    }
}

/// A band's text: the sheet's name, the header, then the band's rows, one
/// per line, with trailing white space removed. The header rides along with
/// every band, because "8.4" under a column nobody named is not a fact.
pub open spec fn band_text(name: Seq<char>, header: Vec<String>, rows: Seq<Vec<String>>) -> Seq<
    char,
> {
    trim_end_seq(name + seq!['\n'] + row_line(header) + seq!['\n'] + row_lines(rows))
}

/// A line that holds nothing but column separators and white space.
pub open spec fn decorative(line: Seq<char>) -> bool {
    forall|j: int| 0 <= j < line.len() ==> line[j] == '|' || white_space(#[trigger] line[j])
}

/// A band whose every line after the name and the header is decorative: its
/// rows were empty.
pub open spec fn blank_band(text: Seq<char>) -> bool {
    let lines = split_on(text, |c: char| c == '\n');
    forall|k: int| 2 <= k < lines.len() ==> decorative(#[trigger] lines[k])
}

/// Where the band starting at row index `start` ends: twelve rows on, or at
/// the end of the sheet.
pub open spec fn band_end(len: int, start: int) -> int {
    if start + ROWS_PER_CHUNK <= len {
        start + ROWS_PER_CHUNK
    } else {
        len
    }
}

/// The passages of a sheet's bands from row index `start` on. A band's rows
/// are numbered as a spreadsheet numbers them, from 1 with the header as row
/// 1; a blank band yields nothing.
pub open spec fn bands_from(name: Seq<char>, rows: Seq<Vec<String>>, start: int) -> Seq<
    (Seq<char>, Place),
>
    decreases rows.len() - start,
{
    if start < 1 || start >= rows.len() {
        seq![]
    } else {
        let end = band_end(rows.len() as int, start);
        let text = band_text(name, rows[0], rows.subrange(start, end));
        let here = if blank_band(text) {
            seq![]
        } else {
            seq![(text, Place::RowRange(name, (start + 1) as usize, end as usize))]
        };
        here + if end >= rows.len() {
            seq![]
        } else {
            bands_from(name, rows, end)
        }
    }
}

/// The passages of a workbook: each sheet's bands in turn; a sheet with no
/// rows yields nothing.
pub open spec fn workbook_passages(sheets: Seq<Sheet>) -> Seq<(Seq<char>, Place)>
    decreases sheets.len(),
{
    if sheets.len() == 0 {
        seq![]
    } else {
        workbook_passages(sheets.drop_last()) + bands_from(sheets.last().name@, sheets.last().rows@, 1)
    }
}

fn is_decorative(line: &Vec<char>) -> (b: bool)
    ensures
        b == decorative(line@),
{
    let mut j: usize = 0;
    while j < line.len()
        invariant
            j <= line@.len(),
            forall|k: int| 0 <= k < j ==> line@[k] == '|' || white_space(#[trigger] line@[k]),
        decreases line@.len() - j,
    {
        if !(line[j] == '|' || is_white_space(line[j])) {
            return false;
        }
        j += 1;
    }
    true
}

fn is_blank_band(text: &Vec<char>) -> (b: bool)
    ensures
        b == blank_band(text@),
{
    let lines = split_chars(text, '\n');
    let mut k: usize = 2;
    while k < lines.len()
        invariant
            2 <= k,
            views_of(lines@) == split_on(text@, |c: char| c == '\n'),
            forall|j: int| 2 <= j < k && j < lines@.len() ==> decorative(#[trigger] lines@[j]@),
        decreases lines@.len() - k,
    {
        assert(views_of(lines@)[k as int] == lines@[k as int]@);
        if !is_decorative(&lines[k]) {
            return false;
        }
        k += 1;
    }
    assert forall|j: int| 2 <= j < views_of(lines@).len() implies decorative(
        #[trigger] views_of(lines@)[j],
    ) by {
        assert(views_of(lines@)[j] == lines@[j]@);
    }
    true
}

fn line_of(row: &Vec<String>) -> (r: String)
    ensures
        r@ == row_line(*row),
{
    join_strings(row.as_slice(), " | ")
}

/// The passages of a workbook's sheets, numbered in order.
pub fn bands(sheets: &[Sheet]) -> (out: Vec<Chunk>)
    ensures
        numbered_in_order(out@),
        placements(out@) == workbook_passages(sheets@),
{
    let mut out: Vec<Chunk> = Vec::new();
    let mut i: usize = 0;
    assert(sheets@.take(0) == Seq::<Sheet>::empty());
    assert(placements(out@) == Seq::<(Seq<char>, Place)>::empty());
    while i < sheets.len()
        invariant
            i <= sheets@.len(),
            numbered_in_order(out@),
            placements(out@) == workbook_passages(sheets@.take(i as int)),
        decreases sheets@.len() - i,
    {
        assert(sheets@.take(i + 1).drop_last() == sheets@.take(i as int));
        assert(sheets@.take(i + 1).last() == sheets@[i as int]);
        let sheet = &sheets[i];
        let ghost before = placements(out@);
        let ghost target = bands_from(sheet.name@, sheet.rows@, 1);
        let n = sheet.rows.len();
        if n > 0 {
            let header = line_of(&sheet.rows[0]);
            let mut start: usize = 1;
            while start < n
                invariant
                    1 <= start,
                    n == sheet.rows@.len(),
                    header@ == row_line(sheet.rows@[0]),
                    numbered_in_order(out@),
                    placements(out@) + bands_from(sheet.name@, sheet.rows@, start as int) == before
                        + target,
                decreases n - start,
            {
                let end = if n - start >= ROWS_PER_CHUNK {
                    start + ROWS_PER_CHUNK
                } else {
                    n
                };
                let mut text = String::new();
                append_str(&mut text, sheet.name.as_str());
                push_char(&mut text, '\n');
                append_str(&mut text, header.as_str());
                push_char(&mut text, '\n');
                let mut r = start;
                assert(sheet.rows@.subrange(start as int, r as int) == Seq::<Vec<String>>::empty());
                while r < end
                    invariant
                        start <= r <= end <= n,
                        n == sheet.rows@.len(),
                        text@ == sheet.name@ + seq!['\n'] + row_line(sheet.rows@[0]) + seq!['\n']
                            + row_lines(sheet.rows@.subrange(start as int, r as int)),
                    decreases end - r,
                {
                    let line = line_of(&sheet.rows[r]);
                    append_str(&mut text, line.as_str());
                    push_char(&mut text, '\n');
                    assert(sheet.rows@.subrange(start as int, r + 1).drop_last()
                        == sheet.rows@.subrange(start as int, r as int));
                    r += 1;
                }
                let trimmed = trim_end_chars(&chars_of(text.as_str()));
                let ghost t = band_text(sheet.name@, sheet.rows@[0], sheet.rows@.subrange(start as int, end as int));
                assert(trimmed@ == t);
                let blank = is_blank_band(&chars_of(trimmed.as_str()));
                let ghost rest = if end >= n {
                    Seq::<(Seq<char>, Place)>::empty()
                } else {
                    bands_from(sheet.name@, sheet.rows@, end as int)
                };
                assert(bands_from(sheet.name@, sheet.rows@, start as int) == (if blank {
                    Seq::<(Seq<char>, Place)>::empty()
                } else {
                    seq![(t, Place::RowRange(sheet.name@, (start + 1) as usize, end as usize))]
                }) + rest);
                if !blank {
                    let location = ChunkLocation::RowRange {
                        sheet: sheet.name.clone(),
                        from: start + 1,
                        to: end,
                    };
                    let ghost prior = out@;
                    let k = out.len();
                    out.push(Chunk::new(trimmed, location, k));
                    assert(out@.drop_last() == prior);
                    assert(placements(out@) == placements(prior).push(text_and_place(out@.last())));
                    assert(placements(out@) + rest == placements(prior) + bands_from(
                        sheet.name@,
                        sheet.rows@,
                        start as int,
                    ));
                } else {
                    assert(placements(out@) + rest == placements(out@) + bands_from(
                        sheet.name@,
                        sheet.rows@,
                        start as int,
                    ));
                }
                if end >= n {
                    assert(rest == Seq::<(Seq<char>, Place)>::empty());
                    start = n;
                } else {
                    start = end;
                }
            }
            assert(bands_from(sheet.name@, sheet.rows@, start as int) == Seq::<
                (Seq<char>, Place),
            >::empty());
        } else {
            assert(target == Seq::<(Seq<char>, Place)>::empty());
        }
        assert(placements(out@) == before + target);
        i += 1;
    }
    assert(sheets@.take(sheets@.len() as int) == sheets@);
    out
}

/// Whether a workbook reader's error reads as a password problem.
pub open spec fn says_locked(detail: Seq<char>) -> bool {
    contains_seq(detail, "Password"@) || contains_seq(detail, "encrypt"@)
}

/// What a workbook that would not open is reported as: protected when the
/// reader's error speaks of a password or encryption, otherwise malformed.
pub fn workbook_error(detail: &str, path: &str) -> (e: ParseError)
    ensures
        says_locked(detail@) ==> (e matches ParseError::Protected(p) && p@ == path@),
        !says_locked(detail@) ==> (e matches ParseError::Malformed { format, detail: d } && format
            == "xlsx" && d@ == detail@),
{
    let d = chars_of(detail);
    if contains_chars(&d, &chars_of("Password")) || contains_chars(&d, &chars_of("encrypt")) {
        ParseError::Protected(String::from_str(path))
    } else {
        ParseError::Malformed { format: "xlsx", detail: String::from_str(detail) }
    }
}

} // verus!
