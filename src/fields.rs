//! Data lines: three fixed-width numeric fields, each behind its label.

use vstd::prelude::*;
use crate::error::{EphemerisError, ErrorModel, result_view};
use crate::number::{Decimal, decimal_value, parse_decimal};
use crate::text::{chars_of, has_prefix_at, split_fixed, string_of, strip_label, trim, trim_bounds};

verus! {

/// Width of every numeric field after its label.
pub const FIELD_WIDTH: usize = 22;

/// The raw texts of the three fields of `line`: each label must stand
/// exactly where the previous field ends, and each field is the
/// `FIELD_WIDTH` characters after its label (fewer at the end of the line).
pub open spec fn row_texts(line: Seq<char>, l1: Seq<char>, l2: Seq<char>, l3: Seq<char>) -> Result<
    (Seq<char>, Seq<char>, Seq<char>),
    ErrorModel,
> {
    match strip_label(line, l1) {
        None => Err(ErrorModel::UnexpectedLabel { expected: l1, line }),
        Some(r1) => {
            let (f1, r1) = split_fixed(r1, FIELD_WIDTH as nat);
            match strip_label(r1, l2) {
                None => Err(ErrorModel::UnexpectedLabel { expected: l2, line }),
                Some(r2) => {
                    let (f2, r2) = split_fixed(r2, FIELD_WIDTH as nat);
                    match strip_label(r2, l3) {
                        None => Err(ErrorModel::UnexpectedLabel { expected: l3, line }),
                        Some(r3) => Ok((f1, f2, split_fixed(r3, FIELD_WIDTH as nat).0)),
                    }
                },
            }
        },
    }
}

/// The number in the field `raw` behind `label`, read once trimmed.
pub open spec fn field_value(label: Seq<char>, raw: Seq<char>) -> Result<Decimal, ErrorModel> {
    match decimal_value(trim(raw)) {
        Some(d) => Ok(d),
        None => Err(ErrorModel::NumericParseError { field: label, text: trim(raw) }),
    }
}

/// The three numbers of a data line, read from the first field to the last.
#[verifier::opaque]
pub open spec fn row_values(line: Seq<char>, l1: Seq<char>, l2: Seq<char>, l3: Seq<char>) -> Result<
    (Decimal, Decimal, Decimal),
    ErrorModel,
> {
    match row_texts(line, l1, l2, l3) {
        Err(e) => Err(e),
        Ok((f1, f2, f3)) => match field_value(l1, f1) {
            Err(e) => Err(e),
            Ok(a) => match field_value(l2, f2) {
                Err(e) => Err(e),
                Ok(b) => match field_value(l3, f3) {
                    Err(e) => Err(e),
                    Ok(c) => Ok((a, b, c)),
                },
            },
        },
    }
}

/// Checks that `line[at..]` starts with `label`; on success returns where the
/// label ends.
fn take_label(line: &[char], at: usize, label: &str) -> (r: Result<usize, EphemerisError>)
    requires
        at <= line@.len(),
    ensures
        match strip_label(line@.subrange(at as int, line@.len() as int), label@) {
            Some(_) => r == Ok::<usize, EphemerisError>((at + label@.len()) as usize),
            None => r is Err && r->Err_0@ == (ErrorModel::UnexpectedLabel {
                expected: label@,
                line: line@,
            }),
        },
{
    let n = line.len();
    let l = chars_of(label);
    let ghost rest = line@.subrange(at as int, line@.len() as int);
    if has_prefix_at(line, at, l.as_slice()) {
        assert(rest.subrange(0, l@.len() as int) =~= line@.subrange(at as int, at + l@.len()));
        assert(at + l@.len() <= n);
        Ok(at + l.len())
    } else {
        proof {
            if l@.len() <= rest.len() {
                assert(rest.subrange(0, l@.len() as int) =~= line@.subrange(
                    at as int,
                    at + l@.len(),
                ));
            }
        }
        Err(EphemerisError::UnexpectedLabel { expected: label.to_owned(), line: string_of(line) })
    }
}

/// End of the fixed-width field that starts at `at`.
fn field_end(line: &[char], at: usize) -> (r: usize)
    requires
        at <= line@.len(),
    ensures
        at <= r <= line@.len(),
        split_fixed(line@.subrange(at as int, line@.len() as int), FIELD_WIDTH as nat).0
            == line@.subrange(at as int, r as int),
        split_fixed(line@.subrange(at as int, line@.len() as int), FIELD_WIDTH as nat).1
            == line@.subrange(r as int, line@.len() as int),
{
    let r = if line.len() - at < FIELD_WIDTH {
        line.len()
    } else {
        at + FIELD_WIDTH
    };
    assert(split_fixed(line@.subrange(at as int, line@.len() as int), FIELD_WIDTH as nat).0
        =~= line@.subrange(at as int, r as int));
    assert(split_fixed(line@.subrange(at as int, line@.len() as int), FIELD_WIDTH as nat).1
        =~= line@.subrange(r as int, line@.len() as int));
    r
}

/// Reads the field `line[from..to]` behind `label` as a number.
fn read_field(line: &[char], from: usize, to: usize, label: &str) -> (r: Result<
    Decimal,
    EphemerisError,
>)
    requires
        from <= to <= line@.len(),
    ensures
        result_view(r) == field_value(label@, line@.subrange(from as int, to as int)),
{
    let (a, b) = trim_bounds(line, from, to);
    match parse_decimal(line, a, b) {
        Some(d) => Ok(d),
        None => {
            let text = string_of(crate::text::slice_to_vec(line, a, b).as_slice());
            Err(EphemerisError::NumericParseError { field: label.to_owned(), text })
        },
    }
}

/// Reads the three labelled fields of a data line.
pub fn read_row(line: &[char], l1: &str, l2: &str, l3: &str) -> (r: Result<
    (Decimal, Decimal, Decimal),
    EphemerisError,
>)
    ensures
        result_view(r) == row_values(line@, l1@, l2@, l3@),
{
    reveal(row_values);
    let n = line.len();
    assert(line@.subrange(0, n as int) =~= line@);
    let p1 = match take_label(line, 0, l1) {
        Ok(p) => p,
        Err(e) => return Err(e),
    };
    assert(strip_label(line@, l1@) == Some(line@.subrange(p1 as int, n as int)));
    let e1 = field_end(line, p1);
    let p2 = match take_label(line, e1, l2) {
        Ok(p) => p,
        Err(e) => return Err(e),
    };
    assert(strip_label(line@.subrange(e1 as int, n as int), l2@) == Some(
        line@.subrange(p2 as int, n as int),
    )) by {
        assert(line@.subrange(e1 as int, n as int).subrange(l2@.len() as int, n - e1)
            =~= line@.subrange(p2 as int, n as int));
    }
    let e2 = field_end(line, p2);
    let p3 = match take_label(line, e2, l3) {
        Ok(p) => p,
        Err(e) => return Err(e),
    };
    assert(strip_label(line@.subrange(e2 as int, n as int), l3@) == Some(
        line@.subrange(p3 as int, n as int),
    )) by {
        assert(line@.subrange(e2 as int, n as int).subrange(l3@.len() as int, n - e2)
            =~= line@.subrange(p3 as int, n as int));
    }
    let e3 = field_end(line, p3);
    let a = match read_field(line, p1, e1, l1) {
        Ok(v) => v,
        Err(e) => return Err(e),
    };
    let b = match read_field(line, p2, e2, l2) {
        Ok(v) => v,
        Err(e) => return Err(e),
    };
    let c = match read_field(line, p3, e3, l3) {
        Ok(v) => v,
        Err(e) => return Err(e),
    };
    Ok((a, b, c))
}

} // verus!
