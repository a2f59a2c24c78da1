//! The tolerant parser for the exported data file.
//!
//! The file is delimited text: any number of preamble lines, then a
//! header line, then data rows of the form `<year-month>,<intensity>`
//! with possible extra columns. Lines are separated by `\n`, an
//! optional trailing `\r` is dropped, fields are separated by `,`.
//! Preamble and header are recognised by position: everything before
//! the first line whose first field is shaped like a year-month
//! (`DDDD-DD`) is skipped. From that line on, every non-empty line
//! must be a well-formed data row; a malformed one fails the whole
//! parse with the index of the offending line.

use vstd::prelude::*;

use crate::date::{spec_days_in_month, Date};
use crate::text::{
    all_digits, digits_value, is_digit, lemma_digits_value_prefix, split_bytes, split_on,
};

verus! {

/// What went wrong in a data row.
#[derive(Clone, Copy, PartialEq, Eq, Structural, Debug)]
pub enum ParseErrorKind {
    /// The row has no second field to read the intensity from.
    MissingIntensity,
    /// The first field is not a valid year-month period.
    InvalidDate,
    /// The second field is not an integer.
    InvalidIntensity,
}

/// A failed parse: the zero-based index of the offending line in the
/// file, and what was wrong with it.
#[derive(Clone, Copy, PartialEq, Eq, Structural, Debug)]
pub struct ParseError {
    pub row: usize,
    pub kind: ParseErrorKind,
}

/// A line with its trailing carriage return, if any, dropped.
pub open spec fn strip_cr(line: Seq<u8>) -> Seq<u8> {
    if line.len() > 0 && line[line.len() - 1] == 13 {
        line.drop_last()
    } else {
        line
    }
}

/// The lines of the file: split on `\n`, each with a trailing `\r`
/// dropped.
pub open spec fn lines_of(data: Seq<u8>) -> Seq<Seq<u8>> {
    split_on(data, 10).map_values(|l: Seq<u8>| strip_cr(l))
}

/// The fields of a line: split on `,`.
pub open spec fn row_fields(line: Seq<u8>) -> Seq<Seq<u8>> {
    split_on(line, 44)
}

/// The year-month shape: four digits, a dash, two digits.
pub open spec fn ym_shape(f: Seq<u8>) -> bool {
    &&& f.len() == 7
    &&& is_digit(f[0])
    &&& is_digit(f[1])
    &&& is_digit(f[2])
    &&& is_digit(f[3])
    &&& f[4] == 45
    &&& is_digit(f[5])
    &&& is_digit(f[6])
}

pub open spec fn ym_year(f: Seq<u8>) -> int {
    digits_value(f.take(4))
}

pub open spec fn ym_month(f: Seq<u8>) -> int {
    (f[5] - 48) * 10 + (f[6] - 48)
}

/// A valid year-month period: right shape and a real month.
pub open spec fn ym_ok(f: Seq<u8>) -> bool {
    ym_shape(f) && 1 <= ym_month(f) <= 12
}

/// The period normalized to a calendar date: day one of the month.
pub open spec fn ym_date(f: Seq<u8>) -> Date {
    Date { year: ym_year(f) as i32, month: ym_month(f) as u8, day: 1 }
}

/// Length of the sign, if the field starts with one.
pub open spec fn sign_len(f: Seq<u8>) -> int {
    if f.len() > 0 && (f[0] == 43 || f[0] == 45) {
        1
    } else {
        0
    }
}

/// The shape of an integer: an optional sign, then at least one digit
/// and nothing else.
pub open spec fn int_shape(f: Seq<u8>) -> bool {
    f.len() > sign_len(f) && all_digits(f.skip(sign_len(f)))
}

/// The magnitude the digits denote.
pub open spec fn int_mag(f: Seq<u8>) -> int {
    digits_value(f.skip(sign_len(f)))
}

/// The signed value of the field.
pub open spec fn int_val(f: Seq<u8>) -> int {
    if f.len() > 0 && f[0] == 45 {
        -int_mag(f)
    } else {
        int_mag(f)
    }
}

/// An integer field that a 32-bit signed intensity can hold.
pub open spec fn int_fits_i32(f: Seq<u8>) -> bool {
    int_shape(f) && -0x8000_0000 <= int_val(f) <= 0x7fff_ffff
}

/// A line that begins the data table, or continues it: non-empty and
/// its first field is shaped like a year-month.
pub open spec fn is_data_line(line: Seq<u8>) -> bool {
    line.len() > 0 && ym_shape(row_fields(line)[0])
}

/// Index of the first data line at or after `i`, or `lines.len()`.
pub open spec fn start_row(lines: Seq<Seq<u8>>, i: int) -> int
    decreases lines.len() - i,
{
    if i < 0 || i >= lines.len() {
        lines.len() as int
    } else if is_data_line(lines[i]) {
        i
    } else {
        start_row(lines, i + 1)
    }
}

/// A row the parser accepts: a date and an intensity, extra fields
/// ignored.
pub open spec fn valid_row(line: Seq<u8>) -> bool {
    &&& line.len() > 0
    &&& row_fields(line).len() >= 2
    &&& ym_ok(row_fields(line)[0])
    &&& int_fits_i32(row_fields(line)[1])
}

/// The record a valid row denotes.
pub open spec fn row_record(line: Seq<u8>) -> (Date, i32) {
    (ym_date(row_fields(line)[0]), int_val(row_fields(line)[1]) as i32)
}

/// The records of the lines from `i` on: empty lines are skipped, and
/// the first malformed row aborts the parse with its line index.
pub open spec fn rows_from(lines: Seq<Seq<u8>>, i: int) -> Result<Seq<(Date, i32)>, ParseError>
    decreases lines.len() - i,
{
    if i < 0 || i >= lines.len() {
        Ok(seq![])
    } else if lines[i].len() == 0 {
        rows_from(lines, i + 1)
    } else if row_fields(lines[i]).len() < 2 {
        Err(ParseError { row: i as usize, kind: ParseErrorKind::MissingIntensity })
    } else if !ym_ok(row_fields(lines[i])[0]) {
        Err(ParseError { row: i as usize, kind: ParseErrorKind::InvalidDate })
    } else if !int_fits_i32(row_fields(lines[i])[1]) {
        Err(ParseError { row: i as usize, kind: ParseErrorKind::InvalidIntensity })
    } else {
        match rows_from(lines, i + 1) {
            Ok(rest) => Ok(seq![row_record(lines[i])] + rest),
            Err(e) => Err(e),
        }
    }
}

/// What parsing the whole file yields: the records of the data table,
/// whose first row is found by shape, everything before it skipped.
pub open spec fn parse_export_spec(data: Seq<u8>) -> Result<Seq<(Date, i32)>, ParseError> {
    rows_from(lines_of(data), start_row(lines_of(data), 0))
}

/// Drops a trailing carriage return.
fn trim_trailing_cr(l: &Vec<u8>) -> (out: Vec<u8>)
    ensures
        out@ == strip_cr(l@),
{
    let m: usize = if l.len() > 0 && l[l.len() - 1] == 13 {
        l.len() - 1
    } else {
        l.len()
    };
    proof {
        assert(strip_cr(l@) =~= l@.take(m as int));
    }
    let mut out: Vec<u8> = Vec::new();
    let mut j: usize = 0;
    while j < m
        invariant
            m <= l@.len(),
            j <= m,
            out@ =~= l@.take(j as int),
            strip_cr(l@) =~= l@.take(m as int),
        decreases m - j,
    {
        out.push(l[j]);
        proof {
            assert(out@ =~= l@.take(j + 1));
        }
        j += 1;
    }
    proof {
        assert(out@ =~= strip_cr(l@));
    }
    out
}

/// Splits the file into lines, dropping each line's trailing `\r`.
pub fn split_lines(data: &[u8]) -> (lines: Vec<Vec<u8>>)
    ensures
        lines@.map_values(|l: Vec<u8>| l@) == lines_of(data@),
{
    let raw = split_bytes(data, 10);
    let ghost model = lines_of(data@);
    let mut lines: Vec<Vec<u8>> = Vec::new();
    let mut i: usize = 0;
    proof {
        assert(lines@.map_values(|l: Vec<u8>| l@) =~= model.take(0));
    }
    while i < raw.len()
        invariant
            i <= raw.len(),
            raw@.map_values(|p: Vec<u8>| p@) == split_on(data@, 10),
            model == lines_of(data@),
            lines@.map_values(|l: Vec<u8>| l@) == model.take(i as int),
        decreases raw.len() - i,
    {
        let t = trim_trailing_cr(&raw[i]);
        proof {
            assert(raw@.map_values(|p: Vec<u8>| p@)[i as int] == raw@[i as int]@);
            assert(model[i as int] == strip_cr(split_on(data@, 10)[i as int]));
            assert(lines@.push(t).map_values(|l: Vec<u8>| l@) =~= lines@.map_values(
                |l: Vec<u8>| l@,
            ).push(t@));
            assert(lines@.map_values(|l: Vec<u8>| l@).push(t@) =~= model.take(i + 1));
        }
        lines.push(t);
        i += 1;
    }
    proof {
        assert(model.take(raw@.len() as int) =~= model);
    }
    lines
}

/// Whether a field has the year-month shape.
pub fn ym_shape_check(f: &[u8]) -> (r: bool)
    ensures
        r == ym_shape(f@),
{
    f.len() == 7 && f[0] >= 48 && f[0] <= 57 && f[1] >= 48 && f[1] <= 57 && f[2] >= 48 && f[2]
        <= 57 && f[3] >= 48 && f[3] <= 57 && f[4] == 45 && f[5] >= 48 && f[5] <= 57 && f[6] >= 48
        && f[6] <= 57
}

/// Whether a line is a data line: non-empty, first field shaped like a
/// year-month.
pub fn is_data_row(l: &[u8]) -> (r: bool)
    ensures
        r == is_data_line(l@),
{
    if l.len() == 0 {
        return false;
    }
    let fs = split_bytes(l, 44);
    proof {
        assert(fs@.map_values(|p: Vec<u8>| p@)[0] == fs@[0]@);
    }
    ym_shape_check(fs[0].as_slice())
}

/// Parses a year-month field into the first day of that month.
/// Returns the date exactly when the field is a valid period, and
/// nothing otherwise.
pub fn parse_year_month(f: &[u8]) -> (r: Option<Date>)
    ensures
        ym_ok(f@) ==> r == Some(ym_date(f@)),
        !ym_ok(f@) ==> r is None,
        r matches Some(d) ==> d.is_valid() && d.day == 1,
{
    if !ym_shape_check(f) {
        return None;
    }
    let year: i32 = (f[0] - 48) as i32 * 1000 + (f[1] - 48) as i32 * 100 + (f[2] - 48) as i32 * 10
        + (f[3] - 48) as i32;
    let month: u8 = (f[5] - 48) * 10 + (f[6] - 48);
    proof {
        assert(f@.take(1).drop_last() =~= f@.take(0));
        assert(f@.take(2).drop_last() =~= f@.take(1));
        assert(f@.take(3).drop_last() =~= f@.take(2));
        assert(f@.take(4).drop_last() =~= f@.take(3));
        assert(f@.take(0).len() == 0);
        assert(digits_value(f@.take(0)) == 0);
        assert(f@.take(1).last() == f@[0]);
        assert(digits_value(f@.take(1)) == f@[0] - 48);
        assert(f@.take(2).last() == f@[1]);
        assert(digits_value(f@.take(2)) == (f@[0] - 48) * 10 + (f@[1] - 48));
        assert(f@.take(3).last() == f@[2]);
        assert(digits_value(f@.take(3)) == digits_value(f@.take(2)) * 10 + (f@[2] - 48));
        assert(f@.take(4).last() == f@[3]);
        assert(digits_value(f@.take(4)) == digits_value(f@.take(3)) * 10 + (f@[3] - 48));
        assert(ym_year(f@) == year);
        assert(ym_month(f@) == month);
    }
    if month < 1 || month > 12 {
        return None;
    }
    proof {
        assert(spec_days_in_month(year as int, month as int) >= 28);
    }
    Some(Date { year, month, day: 1 })
}

/// Parses an integer field: an optional sign, then digits. Returns the
/// value exactly when the field is well-shaped and fits a 32-bit
/// signed integer, and nothing otherwise.
pub fn parse_intensity(f: &[u8]) -> (r: Option<i32>)
    ensures
        int_fits_i32(f@) ==> r == Some(int_val(f@) as i32),
        !int_fits_i32(f@) ==> r is None,
{
    let negative = f.len() > 0 && f[0] == 45;
    let start: usize = if f.len() > 0 && (f[0] == 43 || f[0] == 45) {
        1
    } else {
        0
    };
    proof {
        assert(sign_len(f@) == start);
    }
    if f.len() <= start {
        return None;
    }
    let mut mag: u64 = 0;
    let mut j: usize = start;
    proof {
        assert(f@.subrange(start as int, start as int) =~= Seq::<u8>::empty());
    }
    while j < f.len()
        invariant
            start <= j <= f@.len(),
            start == sign_len(f@),
            start < f@.len(),
            negative == (f@.len() > 0 && f@[0] == 45),
            all_digits(f@.subrange(start as int, j as int)),
            mag == digits_value(f@.subrange(start as int, j as int)),
            mag <= 0x8000_0000,
        decreases f@.len() - j,
    {
        let b = f[j];
        if b < 48 || b > 57 {
            proof {
                assert(f@.skip(start as int)[j - start] == f@[j as int]);
                assert(!all_digits(f@.skip(start as int)));
            }
            return None;
        }
        proof {
            assert(f@.subrange(start as int, j + 1).drop_last() =~= f@.subrange(
                start as int,
                j as int,
            ));
            assert(f@.subrange(start as int, j + 1).last() == f@[j as int]);
        }
        mag = mag * 10 + (b - 48) as u64;
        j += 1;
        if mag > 0x8000_0000 {
            proof {
                let digits = f@.skip(start as int);
                if all_digits(digits) {
                    assert(digits.take(j - start) =~= f@.subrange(start as int, j as int));
                    lemma_digits_value_prefix(digits, j - start);
                    assert(int_mag(f@) > 0x8000_0000);
                }
            }
            return None;
        }
    }
    proof {
        assert(f@.subrange(start as int, f@.len() as int) =~= f@.skip(start as int));
        assert(int_shape(f@));
        assert(int_mag(f@) == mag);
    }
    if negative {
        if mag == 0x8000_0000 {
            Some(i32::MIN)
        } else {
            Some(-(mag as i32))
        }
    } else {
        if mag > 0x7fff_ffff {
            return None;
        }
        Some(mag as i32)
    }
}

/// Parses the exported file. Returns exactly what the file denotes:
/// the records of every data row in file order, or the first error
/// with the index of its line.
pub fn parse_export(data: &[u8]) -> (r: Result<Vec<(Date, i32)>, ParseError>)
    ensures
        match r {
            Ok(v) => parse_export_spec(data@) == Ok::<Seq<(Date, i32)>, ParseError>(v@),
            Err(e) => parse_export_spec(data@) == Err::<Seq<(Date, i32)>, ParseError>(e),
        },
        r matches Ok(v) ==> forall|k: int|
            0 <= k < v@.len() ==> (#[trigger] v@[k]).0.is_valid() && v@[k].0.day == 1,
{
    let lines = split_lines(data);
    let ghost ls = lines_of(data@);
    let mut i: usize = 0;
    while i < lines.len() && !is_data_row(lines[i].as_slice())
        invariant
            i <= lines@.len(),
            ls == lines_of(data@),
            lines@.map_values(|l: Vec<u8>| l@) == ls,
            start_row(ls, 0) == start_row(ls, i as int),
            forall|j: int| 0 <= j < i ==> !is_data_line(ls[j]),
        decreases lines@.len() - i,
    {
        proof {
            assert(lines@.map_values(|l: Vec<u8>| l@)[i as int] == ls[i as int]);
        }
        i += 1;
    }
    proof {
        if i < lines@.len() {
            assert(lines@.map_values(|l: Vec<u8>| l@)[i as int] == ls[i as int]);
            assert(start_row(ls, i as int) == i);
        }
    }
    let ghost start = start_row(ls, 0);
    let mut out: Vec<(Date, i32)> = Vec::new();
    proof {
        assert(start == i as int);
        if rows_from(ls, start) is Ok {
            assert(out@ + (rows_from(ls, start)->Ok_0) =~= rows_from(ls, start)->Ok_0);
        }
    }
    while i < lines.len()
        invariant
            i <= lines@.len(),
            ls == lines_of(data@),
            start == start_row(ls, 0),
            lines@.map_values(|l: Vec<u8>| l@) == ls,
            rows_from(ls, start) == match rows_from(ls, i as int) {
                Ok(rest) => Ok::<Seq<(Date, i32)>, ParseError>(out@ + rest),
                Err(e) => Err::<Seq<(Date, i32)>, ParseError>(e),
            },
            forall|k: int|
                0 <= k < out@.len() ==> (#[trigger] out@[k]).0.is_valid() && out@[k].0.day == 1,
        decreases lines@.len() - i,
    {
        proof {
            assert(lines@.map_values(|l: Vec<u8>| l@)[i as int] == ls[i as int]);
        }
        let line = &lines[i];
        if line.len() == 0 {
            i += 1;
            continue;
        }
        let fs = split_bytes(line.as_slice(), 44);
        proof {
            assert(fs@.map_values(|p: Vec<u8>| p@) == row_fields(ls[i as int]));
            assert(fs@.map_values(|p: Vec<u8>| p@)[0] == fs@[0]@);
        }
        if fs.len() < 2 {
            proof {
                assert(row_fields(ls[i as int]).len() == fs@.len());
                assert(rows_from(ls, i as int) == Err::<Seq<(Date, i32)>, ParseError>(
                    ParseError { row: i, kind: ParseErrorKind::MissingIntensity },
                ));
            }
            return Err(ParseError { row: i, kind: ParseErrorKind::MissingIntensity });
        }
        proof {
            assert(fs@.map_values(|p: Vec<u8>| p@)[1] == fs@[1]@);
        }
        let date = match parse_year_month(fs[0].as_slice()) {
            Some(d) => d,
            None => {
                proof {
                    assert(row_fields(ls[i as int]).len() == fs@.len());
                    assert(rows_from(ls, i as int) == Err::<Seq<(Date, i32)>, ParseError>(
                        ParseError { row: i, kind: ParseErrorKind::InvalidDate },
                    ));
                }
                return Err(ParseError { row: i, kind: ParseErrorKind::InvalidDate });
            },
        };
        let level = match parse_intensity(fs[1].as_slice()) {
            Some(v) => v,
            None => {
                proof {
                    assert(row_fields(ls[i as int]).len() == fs@.len());
                    assert(rows_from(ls, i as int) == Err::<Seq<(Date, i32)>, ParseError>(
                        ParseError { row: i, kind: ParseErrorKind::InvalidIntensity },
                    ));
                }
                return Err(ParseError { row: i, kind: ParseErrorKind::InvalidIntensity });
            },
        };
        proof {
            assert(row_record(ls[i as int]) == (date, level));
            if rows_from(ls, i + 1) is Ok {
                assert(out@.push((date, level)) + (rows_from(ls, i + 1)->Ok_0) =~= out@ + (seq![
                    (date, level),
                ] + (rows_from(ls, i + 1)->Ok_0)));
            }
        }
        out.push((date, level));
        i += 1;
    }
    proof {
        assert(out@ + Seq::<(Date, i32)>::empty() =~= out@);
    }
    Ok(out)
}

/// Everything before the first data row is skipped, and nothing else:
/// the rows the parser reads begin at the first line whose first field
/// has the year-month shape.
pub proof fn lemma_start_row(lines: Seq<Seq<u8>>, i: int)
    requires
        0 <= i <= lines.len(),
    ensures
        i <= start_row(lines, i) <= lines.len(),
        forall|j: int| i <= j < start_row(lines, i) ==> !is_data_line(lines[j]),
        start_row(lines, i) < lines.len() ==> is_data_line(lines[start_row(lines, i)]),
    decreases lines.len() - i,
{
    if i < lines.len() && !is_data_line(lines[i]) {
        lemma_start_row(lines, i + 1);
    }
}

/// The data rows among the lines from `i` on: the non-empty ones.
pub open spec fn data_rows(lines: Seq<Seq<u8>>, i: int) -> Seq<Seq<u8>>
    decreases lines.len() - i,
{
    if i < 0 || i >= lines.len() {
        seq![]
    } else if lines[i].len() == 0 {
        data_rows(lines, i + 1)
    } else {
        seq![lines[i]] + data_rows(lines, i + 1)
    }
}

/// A well-formed table parses in full: every data row yields its
/// record, one each, in order.
pub proof fn lemma_rows_well_formed(lines: Seq<Seq<u8>>, i: int)
    requires
        forall|j: int| i <= j < lines.len() ==> lines[j].len() == 0 || valid_row(#[trigger] lines[j]),
    ensures
        rows_from(lines, i) == Ok::<Seq<(Date, i32)>, ParseError>(
            data_rows(lines, i).map_values(|l: Seq<u8>| row_record(l)),
        ),
    decreases lines.len() - i,
{
    if i < 0 || i >= lines.len() {
        assert(data_rows(lines, i).map_values(|l: Seq<u8>| row_record(l)) =~= Seq::<(
            Date,
            i32,
        )>::empty());
    } else if lines[i].len() == 0 {
        lemma_rows_well_formed(lines, i + 1);
    } else {
        lemma_rows_well_formed(lines, i + 1);
        assert(valid_row(lines[i]));
        assert(data_rows(lines, i).map_values(|l: Seq<u8>| row_record(l)) =~= seq![
            row_record(lines[i]),
        ] + data_rows(lines, i + 1).map_values(|l: Seq<u8>| row_record(l)));
    }
}

/// The whole-file law: in a file whose lines from the first data row
/// on are all blank or well-formed, parsing succeeds and yields
/// exactly one record per data row, in file order.
pub proof fn lemma_parse_export_well_formed(data: Seq<u8>)
    requires
        forall|j: int|
            start_row(lines_of(data), 0) <= j < lines_of(data).len() ==> lines_of(data)[j].len()
                == 0 || valid_row(#[trigger] lines_of(data)[j]),
    ensures
        parse_export_spec(data) == Ok::<Seq<(Date, i32)>, ParseError>(
            data_rows(lines_of(data), start_row(lines_of(data), 0)).map_values(
                |l: Seq<u8>| row_record(l),
            ),
        ),
{
    lemma_rows_well_formed(lines_of(data), start_row(lines_of(data), 0));
}

} // verus!
