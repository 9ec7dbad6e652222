//! Record timestamps: the `<julian day> = A.D. <date> TDB` line that opens
//! each record, read as a point in UTC.

use vstd::prelude::*;
use crate::text::{chars_of, has_prefix_at, slice_to_vec, split_fixed, strip_label, trim, trim_bounds};

verus! {

/// A point in UTC: whole seconds since 1970-01-01T00:00:00Z and the
/// nanoseconds past that second.
#[derive(Clone, Copy, Debug, PartialEq, Eq, Structural)]
pub struct Timestamp {
    pub seconds: i64,
    pub nanos: u32,
}

/// Seconds since the Unix epoch and sub-second nanoseconds of the date-time
/// that chrono reads from `text` in the strftime-style `format`, taken as UTC.
pub uninterp spec fn chrono_date_time(text: Seq<char>, format: Seq<char>) -> Option<(i64, u32)>;

/// Relies on chrono's `NaiveDateTime::parse_from_str` (with `and_utc`,
/// `timestamp` and `timestamp_subsec_nanos`): the result depends on the text
/// and the format alone, and is `None` where chrono reports an error.
#[verifier::external_body]
pub(crate) fn chrono_parse(text: &[char], format: &str) -> (r: Option<(i64, u32)>)
    ensures
        r == chrono_date_time(text@, format@),
{
    let s: String = text.iter().collect();
    chrono::NaiveDateTime::parse_from_str(&s, format).ok().map(
        |d| (d.and_utc().timestamp(), d.and_utc().timestamp_subsec_nanos()),
    )
}

/// The date-time format of the line-oriented parsers, to whole seconds.
pub const SECONDS_FORMAT: &'static str = "%Y-%b-%d %H:%M:%S";

/// The date-time format of the document parser, with fractional seconds
/// (`%.f` reads the digits after the point as a fraction of a second, so
/// `.25` is a quarter second).
pub const FRACTION_FORMAT: &'static str = "%Y-%b-%d %H:%M:%S%.f";

/// The prefix of the calendar date.
pub const ERA_PREFIX: &'static str = "A.D. ";

/// Number of characters of the calendar date that the line-oriented parsers
/// read: the date and the time to whole seconds.
pub const DATE_WIDTH: usize = 20;

pub open spec fn timestamp_of(r: Option<(i64, u32)>) -> Option<Timestamp> {
    match r {
        Some((seconds, nanos)) => Some(Timestamp { seconds, nanos }),
        None => None,
    }
}

/// Index of the first `c` in `s`, or the length of `s` where there is none.
pub open spec fn find_char(s: Seq<char>, c: char) -> nat
    decreases s.len(),
{
    if s.len() == 0 {
        0
    } else if s[0] == c {
        0
    } else {
        1 + find_char(s.drop_first(), c)
    }
}

/// The text between the first `=` of `line` and the next `=` (or the end).
pub open spec fn second_segment(line: Seq<char>) -> Option<Seq<char>> {
    let i = find_char(line, '=');
    if i >= line.len() {
        None
    } else {
        let rest = line.subrange(i as int + 1, line.len() as int);
        Some(rest.subrange(0, find_char(rest, '=') as int))
    }
}

/// The calendar date of a record's first line: the second `=`-separated
/// segment, trimmed, must start with `A.D. `; the date is the next twenty
/// characters (fewer where the segment is shorter).
pub open spec fn line_date_text(line: Seq<char>) -> Option<Seq<char>> {
    match second_segment(line) {
        None => None,
        Some(seg) => match strip_label(trim(seg), ERA_PREFIX@) {
            None => None,
            Some(date) => Some(split_fixed(date, DATE_WIDTH as nat).0),
        },
    }
}

/// The time of a record's first line, to whole seconds: its calendar date
/// read as `YYYY-Mon-DD HH:MM:SS`.
#[verifier::opaque]
pub open spec fn line_time(line: Seq<char>) -> Option<Timestamp> {
    match line_date_text(line) {
        None => None,
        Some(date) => timestamp_of(chrono_date_time(date, SECONDS_FORMAT@)),
    }
}

pub proof fn lemma_find_char(s: Seq<char>, c: char)
    ensures
        find_char(s, c) <= s.len(),
        forall|i: int| 0 <= i < find_char(s, c) ==> #[trigger] s[i] != c,
        find_char(s, c) < s.len() ==> s[find_char(s, c) as int] == c,
    decreases s.len(),
{
    if s.len() > 0 && s[0] != c {
        lemma_find_char(s.drop_first(), c);
        assert forall|i: int| 0 <= i < find_char(s, c) implies #[trigger] s[i] != c by {
            if i > 0 {
                assert(s[i] == s.drop_first()[i - 1]);
            }
        }
    }
}

/// Index of the first `c` in `s[from..to]`, or `to`.
pub fn find_char_in(s: &[char], from: usize, to: usize, c: char) -> (r: usize)
    requires
        from <= to <= s@.len(),
    ensures
        r - from == find_char(s@.subrange(from as int, to as int), c),
        from <= r <= to,
{
    let ghost t = s@.subrange(from as int, to as int);
    proof {
        lemma_find_char(t, c);
    }
    let mut i: usize = from;
    while i < to && s[i] != c
        invariant
            from <= i <= to <= s@.len(),
            t == s@.subrange(from as int, to as int),
            i - from <= find_char(t, c),
            find_char(t, c) <= t.len(),
            forall|k: int| 0 <= k < find_char(t, c) ==> #[trigger] t[k] != c,
            find_char(t, c) < t.len() ==> t[find_char(t, c) as int] == c,
        decreases to - i,
    {
        assert(t[i - from] == s@[i as int]);
        i = i + 1;
    }
    if i < to {
        assert(t[i - from] == s@[i as int]);
    }
    i
}

/// Where the calendar date of a record's first line stands in it.
pub fn find_line_date(line: &[char]) -> (r: Option<(usize, usize)>)
    ensures
        match r {
            Some((from, to)) => from <= to <= line@.len() && line_date_text(line@) == Some(
                line@.subrange(from as int, to as int),
            ),
            None => line_date_text(line@) is None,
        },
{
    let n = line.len();
    let eq = find_char_in(line, 0, n, '=');
    assert(line@.subrange(0, n as int) =~= line@);
    if eq >= n {
        return None;
    }
    let end = find_char_in(line, eq + 1, n, '=');
    let ghost rest = line@.subrange(eq + 1, n as int);
    assert(rest.subrange(0, find_char(rest, '=') as int) =~= line@.subrange(eq + 1, end as int));
    let (a, b) = trim_bounds(line, eq + 1, end);
    let era = chars_of(ERA_PREFIX);
    let ghost seg = line@.subrange(a as int, b as int);
    if era.len() > b - a {
        return None;
    }
    assert(seg.subrange(0, era@.len() as int) =~= line@.subrange(a as int, a + era@.len()));
    if !has_prefix_at(line, a, era.as_slice()) {
        return None;
    }
    let start = a + era.len();
    let stop = if b - start < DATE_WIDTH {
        b
    } else {
        start + DATE_WIDTH
    };
    let ghost date = seg.subrange(era@.len() as int, seg.len() as int);
    assert(split_fixed(date, DATE_WIDTH as nat).0 =~= line@.subrange(start as int, stop as int));
    Some((start, stop))
}

/// Reads the time of a record's first line to whole seconds; `None` where
/// the line does not hold one.
pub fn parse_line_time(line: &[char]) -> (r: Option<Timestamp>)
    ensures
        r == line_time(line@),
{
    reveal(line_time);
    match find_line_date(line) {
        None => None,
        Some((start, stop)) => {
            let text = slice_to_vec(line, start, stop);
            match chrono_parse(text.as_slice(), SECONDS_FORMAT) {
                Some((seconds, nanos)) => Some(Timestamp { seconds, nanos }),
                None => None,
            }
        },
    }
}

} // verus!
