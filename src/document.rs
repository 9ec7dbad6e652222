//! The whole-document reader of orbital elements: it reads the full text at
//! once, tolerant of how the fields are spaced, and reports every place
//! where the text stops following the grammar:
//!
//! ```text
//! document := any* "$$SOE" ws* (record newline)* "$$EOE" any*
//! record   := number ws* "=" ws* "A.D. " date " TDB" (ws* name ws* "=" ws* number){12}
//! ```
//!
//! where the leading text holds no `$$SOE`, and with the twelve names `EC QR IN OM W Tp N MA TA A AD PR` in that order.
//! After a record that breaks the grammar, reading resumes at the next line
//! that begins with a digit or `$`.
//! Offsets count characters from the start of the text.

use vstd::prelude::*;
use crate::elements::{EphemerisOrbitalElementsItem, Row, elements_item};
use crate::number::{Decimal, decimal_value, parse_decimal};
use crate::text::{chars_of, has_prefix_at, is_space, is_space_char, slice_to_vec};
use crate::timestamp::{FRACTION_FORMAT, Timestamp, chrono_date_time, timestamp_of};
use crate::vectors::{END_MARKER, START_MARKER, after};

verus! {

/// What went wrong at a syntax error.
#[derive(Clone, Copy, Debug, PartialEq, Eq, Structural)]
pub enum SyntaxErrorKind {
    /// A character (or the end of the text) that the grammar does not allow there.
    Unexpected,
    /// Number characters that do not form a number.
    InvalidNumber,
    /// A date that does not read as `YYYY-Mon-DD HH:MM:SS.fff`.
    InvalidDate,
}

/// What the grammar would have accepted at a syntax error.
#[derive(Clone, Copy, Debug, PartialEq, Eq, Structural)]
pub enum Expected {
    /// This one character.
    Char(char),
    /// A number.
    Number,
    /// A record, which begins with a number, or the end marker `$$EOE`.
    NumberOrEndMarker,
    /// A date `YYYY-Mon-DD HH:MM:SS.fff`.
    Date,
    /// A line break: `\n`, `\r\n` or `\r`.
    LineBreak,
    /// Nothing more: the end of the text.
    EndOfText,
}

/// A place where the text does not follow the grammar.
#[derive(Clone, Copy, Debug, PartialEq, Eq, Structural)]
pub struct GrammarSyntaxError {
    /// Character offset of the failure.
    pub offset: usize,
    /// The character found there, or `None` at the end of the text.
    pub found: Option<char>,
    /// What the grammar would have accepted there.
    pub expected: Option<Expected>,
    pub kind: SyntaxErrorKind,
}

pub const ERA_LITERAL: &'static str = "A.D. ";
pub const TIME_SCALE: &'static str = " TDB";

pub open spec fn char_at(t: Seq<char>, p: nat) -> Option<char> {
    if p < t.len() {
        Some(t[p as int])
    } else {
        None
    }
}

pub open spec fn syntax_error(t: Seq<char>, p: nat, expected: Option<Expected>, kind: SyntaxErrorKind) -> GrammarSyntaxError {
    GrammarSyntaxError { offset: p as usize, found: char_at(t, p), expected, kind }
}

pub open spec fn is_number_char(c: char) -> bool {
    ('0' <= c && c <= '9') || c == '.' || c == 'E' || c == '-' || c == '+'
}

/// The first position at or after `p` that is not whitespace.
pub open spec fn skip_ws(t: Seq<char>, p: nat) -> nat
    decreases t.len() - p,
{
    if p < t.len() && is_space(t[p as int]) {
        skip_ws(t, p + 1)
    } else {
        p
    }
}

/// The first position at or after `p` that does not hold a number character.
pub open spec fn number_end(t: Seq<char>, p: nat) -> nat
    decreases t.len() - p,
{
    if p < t.len() && is_number_char(t[p as int]) {
        number_end(t, p + 1)
    } else {
        p
    }
}

/// How many characters of `lit`, from its `k`-th on, `t` repeats from `p + k` on.
pub open spec fn match_len(t: Seq<char>, p: nat, lit: Seq<char>, k: nat) -> nat
    decreases lit.len() - k,
{
    if k < lit.len() && p + k < t.len() && t[p + k as int] == lit[k as int] {
        match_len(t, p, lit, k + 1)
    } else {
        k
    }
}

/// `lit` at position `p`: the position after it, or an error where the two
/// first differ.
pub open spec fn literal_at(t: Seq<char>, p: nat, lit: Seq<char>) -> Result<nat, GrammarSyntaxError> {
    let k = match_len(t, p, lit, 0);
    if k >= lit.len() {
        Ok(p + lit.len())
    } else {
        Err(syntax_error(t, p + k, Some(Expected::Char(lit[k as int])), SyntaxErrorKind::Unexpected))
    }
}

/// Whether `lit` stands at position `p`.
pub open spec fn starts_at(t: Seq<char>, p: nat, lit: Seq<char>) -> bool {
    p + lit.len() <= t.len() && t.subrange(p as int, p + lit.len() as int) == lit
}

/// The first position at or after `p` where `lit` stands, or the length of `t`.
pub open spec fn find_literal(t: Seq<char>, p: nat, lit: Seq<char>) -> nat
    decreases t.len() - p,
{
    if p >= t.len() {
        t.len()
    } else if starts_at(t, p, lit) {
        p
    } else {
        find_literal(t, p + 1, lit)
    }
}

/// The number that the number characters from `p` spell out, if any.
pub open spec fn decimal_value_at(t: Seq<char>, p: nat) -> Option<Decimal> {
    decimal_value(t.subrange(p as int, number_end(t, p) as int))
}

/// The number whose characters start at `p`, and the position after them.
pub open spec fn number_at(t: Seq<char>, p: nat) -> Result<(Decimal, nat), GrammarSyntaxError> {
    let e = number_end(t, p);
    match decimal_value(t.subrange(p as int, e as int)) {
        Some(d) => Ok((d, e)),
        None => Err(syntax_error(t, p, Some(Expected::Number), SyntaxErrorKind::InvalidNumber)),
    }
}

/// `ws* name ws* "=" ws* number` from `p`.
pub open spec fn parameter_at(t: Seq<char>, p: nat, name: Seq<char>) -> Result<
    (Decimal, nat),
    GrammarSyntaxError,
> {
    match literal_at(t, skip_ws(t, p), name) {
        Err(e) => Err(e),
        Ok(q) => match literal_at(t, skip_ws(t, q), "="@) {
            Err(e) => Err(e),
            Ok(q) => number_at(t, skip_ws(t, q)),
        },
    }
}

/// Three parameters in a row.
pub open spec fn row_at(t: Seq<char>, p: nat, a: Seq<char>, b: Seq<char>, c: Seq<char>) -> Result<
    (Row, nat),
    GrammarSyntaxError,
> {
    match parameter_at(t, p, a) {
        Err(e) => Err(e),
        Ok((x, p)) => match parameter_at(t, p, b) {
            Err(e) => Err(e),
            Ok((y, p)) => match parameter_at(t, p, c) {
                Err(e) => Err(e),
                Ok((z, p)) => Ok(((x, y, z), p)),
            },
        },
    }
}

/// `"A.D. " date " TDB"` from `p`: the date read with fractional seconds.
pub open spec fn date_at(t: Seq<char>, p: nat) -> Result<(Timestamp, nat), GrammarSyntaxError> {
    match literal_at(t, p, ERA_LITERAL@) {
        Err(e) => Err(e),
        Ok(q) => {
            let k = find_literal(t, q, TIME_SCALE@);
            if k >= t.len() {
                Err(syntax_error(t, t.len(), Some(Expected::Char(' ')), SyntaxErrorKind::Unexpected))
            } else {
                match timestamp_of(chrono_date_time(t.subrange(q as int, k as int), FRACTION_FORMAT@)) {
                    Some(time) => Ok((time, k + TIME_SCALE@.len())),
                    None => Err(syntax_error(t, q, Some(Expected::Date), SyntaxErrorKind::InvalidDate)),
                }
            }
        },
    }
}

/// One record from `p`, and the position after its last number.
#[verifier::opaque]
pub open spec fn record_at(t: Seq<char>, p: nat) -> Result<
    (EphemerisOrbitalElementsItem, nat),
    GrammarSyntaxError,
> {
    match number_at(t, p) {
        Err(_) => Err(
            syntax_error(t, p, Some(Expected::NumberOrEndMarker), SyntaxErrorKind::InvalidNumber),
        ),
        Ok((_, q)) => match literal_at(t, skip_ws(t, q), "="@) {
            Err(e) => Err(e),
            Ok(q) => match date_at(t, skip_ws(t, q)) {
                Err(e) => Err(e),
                Ok((time, q)) => match row_at(t, q, "EC"@, "QR"@, "IN"@) {
                    Err(e) => Err(e),
                    Ok((r1, q)) => match row_at(t, q, "OM"@, "W"@, "Tp"@) {
                        Err(e) => Err(e),
                        Ok((r2, q)) => match row_at(t, q, "N"@, "MA"@, "TA"@) {
                            Err(e) => Err(e),
                            Ok((r3, q)) => match row_at(t, q, "A"@, "AD"@, "PR"@) {
                                Err(e) => Err(e),
                                Ok((r4, q)) => Ok((elements_item(time, r1, r2, r3, r4), q)),
                            },
                        },
                    },
                },
            },
        },
    }
}

/// A line break (`\r\n`, `\n` or `\r`) at `p`, and the position after it.
pub open spec fn newline_at(t: Seq<char>, p: nat) -> Result<nat, GrammarSyntaxError> {
    if p + 1 < t.len() && t[p as int] == '\r' && t[p as int + 1] == '\n' {
        Ok(p + 2)
    } else if p < t.len() && (t[p as int] == '\n' || t[p as int] == '\r') {
        Ok(p + 1)
    } else {
        Err(syntax_error(t, p, Some(Expected::LineBreak), SyntaxErrorKind::Unexpected))
    }
}

/// Whether position `q` begins a line.
pub open spec fn is_line_start(t: Seq<char>, q: nat) -> bool {
    q > 0 && (t[q - 1] == '\n' || t[q - 1] == '\r')
}

/// Where reading resumes after a record that does not follow the grammar:
/// the first line at or after `q` that begins with a digit (a record's date
/// line) or with `$` (the end marker), or the end of the text.
pub open spec fn resume_from(t: Seq<char>, q: nat) -> nat
    decreases t.len() - q,
{
    if q >= t.len() {
        t.len()
    } else if is_line_start(t, q) && (('0' <= t[q as int] && t[q as int] <= '9') || t[q as int]
        == '$') {
        q
    } else {
        resume_from(t, q + 1)
    }
}

/// One record and the line break after it, from `p`.
pub open spec fn record_line_at(t: Seq<char>, p: nat) -> Result<
    (EphemerisOrbitalElementsItem, nat),
    GrammarSyntaxError,
> {
    match record_at(t, p) {
        Err(e) => Err(e),
        Ok((item, q)) => match newline_at(t, q) {
            Err(e) => Err(e),
            Ok(q) => Ok((item, q)),
        },
    }
}

/// Records and syntax errors side by side.
pub type Outcome = (Seq<EphemerisOrbitalElementsItem>, Seq<GrammarSyntaxError>);

pub open spec fn join(a: Outcome, b: Outcome) -> Outcome {
    (a.0 + b.0, a.1 + b.1)
}

/// The records from `p` up to the end marker, and every syntax error on the
/// way: a record that breaks the grammar gives its first error, and reading
/// resumes at the next line that may begin a record. A text that ends
/// before the end marker gives an error at its end.
pub open spec fn records_from(t: Seq<char>, p: nat) -> Outcome
    decreases t.len() - p,
{
    if starts_at(t, p, END_MARKER@) {
        (Seq::empty(), Seq::empty())
    } else if p >= t.len() {
        (Seq::empty(), seq![syntax_error(t, p, Some(Expected::NumberOrEndMarker), SyntaxErrorKind::Unexpected)])
    } else {
        match record_line_at(t, p) {
            Ok((item, q)) => if p < q <= t.len() {
                join((seq![item], Seq::empty()), records_from(t, q))
            } else {
                (Seq::empty(), seq![syntax_error(t, q, None, SyntaxErrorKind::Unexpected)])
            },
            Err(e) => {
                let q = resume_from(t, p + 1);
                if p < q <= t.len() {
                    join((Seq::empty(), seq![e]), records_from(t, q))
                } else {
                    (Seq::empty(), seq![e])
                }
            },
        }
    }
}

/// The records of a whole document, or every syntax error in it. Text
/// before the first `$$SOE` and after `$$EOE` is not read.
pub open spec fn document(t: Seq<char>) -> Result<
    Seq<EphemerisOrbitalElementsItem>,
    Seq<GrammarSyntaxError>,
> {
    match literal_at(t, find_literal(t, 0, START_MARKER@), START_MARKER@) {
        Err(e) => Err(seq![e]),
        Ok(q) => {
            let (items, errors) = records_from(t, skip_ws(t, q));
            if errors.len() == 0 {
                Ok(items)
            } else {
                Err(errors)
            }
        },
    }
}

pub open spec fn at_result(r: Result<usize, GrammarSyntaxError>) -> Result<nat, GrammarSyntaxError> {
    match r {
        Ok(q) => Ok(q as nat),
        Err(e) => Err(e),
    }
}

pub open spec fn value_result<T>(r: Result<(T, usize), GrammarSyntaxError>) -> Result<
    (T, nat),
    GrammarSyntaxError,
> {
    match r {
        Ok((v, q)) => Ok((v, q as nat)),
        Err(e) => Err(e),
    }
}

fn error_at(t: &[char], p: usize, expected: Option<Expected>, kind: SyntaxErrorKind) -> (r:
    GrammarSyntaxError)
    requires
        p <= t@.len(),
    ensures
        r == syntax_error(t@, p as nat, expected, kind),
        r.offset <= t@.len(),
{
    let found = if p < t.len() {
        Some(t[p])
    } else {
        None
    };
    GrammarSyntaxError { offset: p, found, expected, kind }
}

fn skip_ws_from(t: &[char], p: usize) -> (r: usize)
    requires
        p <= t@.len(),
    ensures
        r == skip_ws(t@, p as nat),
        p <= r <= t@.len(),
{
    let mut i = p;
    while i < t.len() && is_space_char(t[i])
        invariant
            p <= i <= t@.len(),
            skip_ws(t@, p as nat) == skip_ws(t@, i as nat),
        decreases t@.len() - i,
    {
        i = i + 1;
    }
    i
}

fn is_number_char_exec(c: char) -> (r: bool)
    ensures
        r == is_number_char(c),
{
    ('0' <= c && c <= '9') || c == '.' || c == 'E' || c == '-' || c == '+'
}

fn number_end_from(t: &[char], p: usize) -> (r: usize)
    requires
        p <= t@.len(),
    ensures
        r == number_end(t@, p as nat),
        p <= r <= t@.len(),
{
    let mut i = p;
    while i < t.len() && is_number_char_exec(t[i])
        invariant
            p <= i <= t@.len(),
            number_end(t@, p as nat) == number_end(t@, i as nat),
        decreases t@.len() - i,
    {
        i = i + 1;
    }
    i
}

/// `lit` at `p`.
fn literal(t: &[char], p: usize, lit: &str) -> (r: Result<usize, GrammarSyntaxError>)
    requires
        p <= t@.len(),
    ensures
        at_result(r) == literal_at(t@, p as nat, lit@),
        r is Ok ==> p <= r->Ok_0 <= t@.len(),
        r is Err ==> r->Err_0.offset <= t@.len(),
{
    let l = chars_of(lit);
    let n = t.len();
    let mut k: usize = 0;
    while k < l.len() && k < t.len() - p && t[p + k] == l[k]
        invariant
            n == t@.len(),
            p <= n,
            p + k <= n,
            k <= l@.len(),
            l@ == lit@,
            match_len(t@, p as nat, lit@, 0) == match_len(t@, p as nat, lit@, k as nat),
            forall|j: int| 0 <= j < k ==> p + j < t@.len() && t@[p + j] == #[trigger] lit@[j],
        decreases l@.len() - k,
    {
        k = k + 1;
    }
    if k >= l.len() {
        assert(t@.subrange(p as int, p + lit@.len()) =~= lit@);
        Ok(p + k)
    } else {
        Err(error_at(t, p + k, Some(Expected::Char(l[k])), SyntaxErrorKind::Unexpected))
    }
}

/// The first position at or after `p` where `lit` stands, or the end.
fn find_literal_from(t: &[char], p: usize, lit: &str) -> (r: usize)
    requires
        p <= t@.len(),
    ensures
        r == find_literal(t@, p as nat, lit@),
        p <= r <= t@.len(),
{
    let l = chars_of(lit);
    let mut i = p;
    while i < t.len()
        invariant
            p <= i <= t@.len(),
            l@ == lit@,
            find_literal(t@, p as nat, lit@) == find_literal(t@, i as nat, lit@),
        decreases t@.len() - i,
    {
        if has_prefix_at(t, i, l.as_slice()) {
            return i;
        }
        i = i + 1;
    }
    i
}

fn number(t: &[char], p: usize) -> (r: Result<(Decimal, usize), GrammarSyntaxError>)
    requires
        p <= t@.len(),
    ensures
        value_result(r) == number_at(t@, p as nat),
        r is Ok ==> p <= r->Ok_0.1 <= t@.len(),
        r is Err ==> r->Err_0.offset <= t@.len(),
{
    let e = number_end_from(t, p);
    match parse_decimal(t, p, e) {
        Some(d) => Ok((d, e)),
        None => Err(error_at(t, p, Some(Expected::Number), SyntaxErrorKind::InvalidNumber)),
    }
}

fn parameter(t: &[char], p: usize, name: &str) -> (r: Result<(Decimal, usize), GrammarSyntaxError>)
    requires
        p <= t@.len(),
    ensures
        value_result(r) == parameter_at(t@, p as nat, name@),
        r is Ok ==> p <= r->Ok_0.1 <= t@.len(),
        r is Err ==> r->Err_0.offset <= t@.len(),
{
    let q = match literal(t, skip_ws_from(t, p), name) {
        Ok(q) => q,
        Err(e) => return Err(e),
    };
    let q = match literal(t, skip_ws_from(t, q), "=") {
        Ok(q) => q,
        Err(e) => return Err(e),
    };
    number(t, skip_ws_from(t, q))
}

fn row(t: &[char], p: usize, a: &str, b: &str, c: &str) -> (r: Result<
    (Row, usize),
    GrammarSyntaxError,
>)
    requires
        p <= t@.len(),
    ensures
        value_result(r) == row_at(t@, p as nat, a@, b@, c@),
        r is Ok ==> p <= r->Ok_0.1 <= t@.len(),
        r is Err ==> r->Err_0.offset <= t@.len(),
{
    let (x, p) = match parameter(t, p, a) {
        Ok(v) => v,
        Err(e) => return Err(e),
    };
    let (y, p) = match parameter(t, p, b) {
        Ok(v) => v,
        Err(e) => return Err(e),
    };
    let (z, p) = match parameter(t, p, c) {
        Ok(v) => v,
        Err(e) => return Err(e),
    };
    Ok(((x, y, z), p))
}

fn date(t: &[char], p: usize) -> (r: Result<(Timestamp, usize), GrammarSyntaxError>)
    requires
        p <= t@.len(),
    ensures
        value_result(r) == date_at(t@, p as nat),
        r is Ok ==> p <= r->Ok_0.1 <= t@.len(),
        r is Err ==> r->Err_0.offset <= t@.len(),
{
    let q = match literal(t, p, ERA_LITERAL) {
        Ok(q) => q,
        Err(e) => return Err(e),
    };
    let k = find_literal_from(t, q, TIME_SCALE);
    if k >= t.len() {
        return Err(error_at(t, t.len(), Some(Expected::Char(' ')), SyntaxErrorKind::Unexpected));
    }
    let scale = chars_of(TIME_SCALE);
    proof {
        lemma_find_literal(t@, q as nat, TIME_SCALE@);
    }
    let text = slice_to_vec(t, q, k);
    match crate::timestamp::chrono_parse(text.as_slice(), FRACTION_FORMAT) {
        Some((seconds, nanos)) => Ok((Timestamp { seconds, nanos }, k + scale.len())),
        None => Err(error_at(t, q, Some(Expected::Date), SyntaxErrorKind::InvalidDate)),
    }
}

proof fn lemma_find_literal(t: Seq<char>, p: nat, lit: Seq<char>)
    ensures
        p <= t.len() ==> p <= find_literal(t, p, lit) <= t.len(),
        find_literal(t, p, lit) < t.len() ==> starts_at(t, find_literal(t, p, lit), lit),
    decreases t.len() - p,
{
    if p < t.len() && !starts_at(t, p, lit) {
        lemma_find_literal(t, p + 1, lit);
    }
}

fn record(t: &[char], p: usize) -> (r: Result<
    (EphemerisOrbitalElementsItem, usize),
    GrammarSyntaxError,
>)
    requires
        p <= t@.len(),
    ensures
        value_result(r) == record_at(t@, p as nat),
        r is Ok ==> p <= r->Ok_0.1 <= t@.len(),
        r is Err ==> r->Err_0.offset <= t@.len(),
{
    reveal(record_at);
    let q = match number(t, p) {
        Ok((_, q)) => q,
        Err(_) => {
            return Err(
                error_at(t, p, Some(Expected::NumberOrEndMarker), SyntaxErrorKind::InvalidNumber),
            )
        },
    };
    let q = match literal(t, skip_ws_from(t, q), "=") {
        Ok(q) => q,
        Err(e) => return Err(e),
    };
    let (time, q) = match date(t, skip_ws_from(t, q)) {
        Ok(v) => v,
        Err(e) => return Err(e),
    };
    let (r1, q) = match row(t, q, "EC", "QR", "IN") {
        Ok(v) => v,
        Err(e) => return Err(e),
    };
    let (r2, q) = match row(t, q, "OM", "W", "Tp") {
        Ok(v) => v,
        Err(e) => return Err(e),
    };
    let (r3, q) = match row(t, q, "N", "MA", "TA") {
        Ok(v) => v,
        Err(e) => return Err(e),
    };
    let (r4, q) = match row(t, q, "A", "AD", "PR") {
        Ok(v) => v,
        Err(e) => return Err(e),
    };
    let item = EphemerisOrbitalElementsItem {
        time,
        eccentricity: r1.0,
        periapsis_distance: r1.1,
        inclination: r1.2,
        longitude_of_ascending_node: r2.0,
        argument_of_perifocus: r2.1,
        time_of_periapsis: r2.2,
        mean_motion: r3.0,
        mean_anomaly: r3.1,
        true_anomaly: r3.2,
        semi_major_axis: r4.0,
        apoapsis_distance: r4.1,
        sidereal_orbit_period: r4.2,
    };
    Ok((item, q))
}

fn newline(t: &[char], p: usize) -> (r: Result<usize, GrammarSyntaxError>)
    requires
        p <= t@.len(),
    ensures
        at_result(r) == newline_at(t@, p as nat),
        r is Ok ==> p < r->Ok_0 <= t@.len(),
        r is Err ==> r->Err_0.offset <= t@.len(),
{
    if t.len() - p >= 2 && t[p] == '\r' && t[p + 1] == '\n' {
        Ok(p + 2)
    } else if p < t.len() && (t[p] == '\n' || t[p] == '\r') {
        Ok(p + 1)
    } else {
        Err(error_at(t, p, Some(Expected::LineBreak), SyntaxErrorKind::Unexpected))
    }
}

fn record_line(t: &[char], p: usize) -> (r: Result<
    (EphemerisOrbitalElementsItem, usize),
    GrammarSyntaxError,
>)
    requires
        p <= t@.len(),
    ensures
        value_result(r) == record_line_at(t@, p as nat),
        r is Ok ==> p <= r->Ok_0.1 <= t@.len(),
        r is Err ==> r->Err_0.offset <= t@.len(),
{
    let (item, q) = match record(t, p) {
        Ok(v) => v,
        Err(e) => return Err(e),
    };
    match newline(t, q) {
        Ok(q) => Ok((item, q)),
        Err(e) => Err(e),
    }
}

fn resume(t: &[char], q: usize) -> (r: usize)
    requires
        q <= t@.len(),
    ensures
        r == resume_from(t@, q as nat),
{
    let mut i = q;
    while i < t.len() && !(i > 0 && (t[i - 1] == '\n' || t[i - 1] == '\r') && (('0' <= t[i]
        && t[i] <= '9') || t[i] == '$'))
        invariant
            q <= i <= t@.len(),
            resume_from(t@, q as nat) == resume_from(t@, i as nat),
        decreases t@.len() - i,
    {
        i = i + 1;
    }
    i
}

/// Reads the records from `p` up to the end marker, with every syntax error
/// on the way.
fn records(t: &[char], p: usize) -> (r: (Vec<EphemerisOrbitalElementsItem>, Vec<GrammarSyntaxError>))
    requires
        p <= t@.len(),
    ensures
        (r.0@, r.1@) == records_from(t@, p as nat),
        forall|k: int| 0 <= k < r.1@.len() ==> #[trigger] r.1@[k].offset <= t@.len(),
{
    let end = chars_of(END_MARKER);
    let mut out: Vec<EphemerisOrbitalElementsItem> = Vec::new();
    let mut errors: Vec<GrammarSyntaxError> = Vec::new();
    let mut i = p;
    loop
        invariant
            i <= t@.len(),
            end@ == END_MARKER@,
            records_from(t@, p as nat) == join((out@, errors@), records_from(t@, i as nat)),
            forall|k: int| 0 <= k < errors@.len() ==> #[trigger] errors@[k].offset <= t@.len(),
        decreases t@.len() - i,
    {
        let ghost before = (out@, errors@);
        if has_prefix_at(t, i, end.as_slice()) {
            assert(out@ + Seq::<EphemerisOrbitalElementsItem>::empty() =~= out@);
            assert(errors@ + Seq::<GrammarSyntaxError>::empty() =~= errors@);
            return (out, errors);
        }
        if i >= t.len() {
            errors.push(error_at(t, i, Some(Expected::NumberOrEndMarker), SyntaxErrorKind::Unexpected));
            assert(out@ + Seq::<EphemerisOrbitalElementsItem>::empty() =~= out@);
            return (out, errors);
        }
        match record_line(t, i) {
            Ok((item, q)) => {
                if !(i < q && q <= t.len()) {
                    errors.push(error_at(t, q, None, SyntaxErrorKind::Unexpected));
                    assert(out@ + Seq::<EphemerisOrbitalElementsItem>::empty() =~= out@);
                    return (out, errors);
                }
                proof {
                    let rest = records_from(t@, q as nat);
                    assert(before.0 + (seq![item] + rest.0) =~= before.0.push(item) + rest.0);
                    assert(before.1 + (Seq::<GrammarSyntaxError>::empty() + rest.1) =~= before.1
                        + rest.1);
                }
                out.push(item);
                i = q;
            },
            Err(e) => {
                let q = resume(t, i + 1);
                errors.push(e);
                if !(i < q && q <= t.len()) {
                    assert(out@ + Seq::<EphemerisOrbitalElementsItem>::empty() =~= out@);
                    return (out, errors);
                }
                proof {
                    let rest = records_from(t@, q as nat);
                    assert(before.0 + (Seq::<EphemerisOrbitalElementsItem>::empty() + rest.0)
                        =~= before.0 + rest.0);
                    assert(before.1 + (seq![e] + rest.1) =~= before.1.push(e) + rest.1);
                }
                i = q;
            },
        }
    }
}

/// Reads a whole orbital-element document: every record between the first
/// `$$SOE` and the `$$EOE` after it, or every syntax error found on the way.
pub fn parse(input: &str) -> (r: Result<Vec<EphemerisOrbitalElementsItem>, Vec<GrammarSyntaxError>>)
    ensures
        match r {
            Ok(v) => document(input@) == Ok::<_, Seq<GrammarSyntaxError>>(v@),
            Err(errors) => document(input@) == Err::<Seq<EphemerisOrbitalElementsItem>, _>(
                errors@,
            ),
        },
        r is Err ==> r->Err_0@.len() > 0,
        r is Err ==> forall|k: int|
            0 <= k < r->Err_0@.len() ==> #[trigger] r->Err_0@[k].offset <= input@.len(),
{
    let t = chars_of(input);
    let start = find_literal_from(t.as_slice(), 0, START_MARKER);
    let q = match literal(t.as_slice(), start, START_MARKER) {
        Ok(q) => q,
        Err(e) => {
            let errors = vec![e];
            assert(errors@ =~= seq![e]);
            return Err(errors);
        },
    };
    let (items, errors) = records(t.as_slice(), skip_ws_from(t.as_slice(), q));
    if errors.len() == 0 {
        Ok(items)
    } else {
        Err(errors)
    }
}

/// A text that holds exactly one record.
pub open spec fn single_record(t: Seq<char>) -> Result<EphemerisOrbitalElementsItem, GrammarSyntaxError> {
    match record_at(t, 0) {
        Err(e) => Err(e),
        Ok((item, q)) => if q == t.len() {
            Ok(item)
        } else {
            Err(syntax_error(t, q, Some(Expected::EndOfText), SyntaxErrorKind::Unexpected))
        },
    }
}

impl EphemerisOrbitalElementsItem {
    /// Reads a text that holds exactly one record, without the markers.
    pub fn parser(input: &str) -> (r: Result<EphemerisOrbitalElementsItem, Vec<GrammarSyntaxError>>)
        ensures
            match r {
                Ok(item) => single_record(input@) == Ok::<_, GrammarSyntaxError>(item),
                Err(errors) => single_record(input@) == Err::<EphemerisOrbitalElementsItem, _>(
                    errors@[0],
                ) && errors@.len() == 1 && errors@[0].offset <= input@.len(),
            },
    {
        let t = chars_of(input);
        match record(t.as_slice(), 0) {
            Err(e) => Err(vec![e]),
            Ok((item, q)) => if q == t.len() {
                Ok(item)
            } else {
                Err(vec![error_at(t.as_slice(), q, Some(Expected::EndOfText), SyntaxErrorKind::Unexpected)])
            },
        }
    }
}

} // verus!
