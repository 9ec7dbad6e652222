//! Request options of the ephemeris service and the key/value parameters
//! that each one contributes to a request.

use vstd::prelude::*;
use crate::text::{chars_of, string_of};

verus! {

/// A request parameter: its key and its value, as character sequences.
pub open spec fn pairs_view(v: Seq<(String, String)>) -> Seq<(Seq<char>, Seq<char>)> {
    v.map_values(|p: (String, String)| (p.0@, p.1@))
}

pub open spec fn digit_char(d: nat) -> char {
    seq!['0', '1', '2', '3', '4', '5', '6', '7', '8', '9'][d as int]
}

/// The decimal notation of `n`, without leading zeros.
pub open spec fn decimal_text(n: nat) -> Seq<char>
    decreases n,
{
    if n < 10 {
        seq![digit_char(n)]
    } else {
        decimal_text(n / 10).push(digit_char(n % 10))
    }
}

/// The decimal notation of `i`, with a leading `-` where it is negative.
pub open spec fn signed_text(i: int) -> Seq<char> {
    if i < 0 {
        seq!['-'] + decimal_text((-i) as nat)
    } else {
        decimal_text(i as nat)
    }
}

/// Appends the decimal notation of `n` to `out`.
pub fn push_decimal(n: u64, out: &mut Vec<char>)
    ensures
        final(out)@ == old(out)@ + decimal_text(n as nat),
    decreases n,
{
    let digits = ['0', '1', '2', '3', '4', '5', '6', '7', '8', '9'];
    assert(digits@ =~= seq!['0', '1', '2', '3', '4', '5', '6', '7', '8', '9']);
    if n < 10 {
        out.push(digits[n as usize]);
        assert(old(out)@ + decimal_text(n as nat) =~= old(out)@.push(digit_char(n as nat)));
    } else {
        push_decimal(n / 10, out);
        out.push(digits[(n % 10) as usize]);
        assert(old(out)@ + decimal_text(n as nat) =~= old(out)@ + decimal_text((n / 10) as nat)
            + seq![digit_char((n % 10) as nat)]);
    }
}

/// Appends the decimal notation of `i` to `out`.
pub fn push_signed(i: i64, out: &mut Vec<char>)
    requires
        i > i64::MIN,
    ensures
        final(out)@ == old(out)@ + signed_text(i as int),
{
    if i < 0 {
        out.push('-');
        push_decimal((0 - i) as u64, out);
        assert(old(out)@ + signed_text(i as int) =~= old(out)@.push('-') + decimal_text(
            (-i) as nat,
        ));
    } else {
        push_decimal(i as u64, out);
    }
}

/// The key and value of one parameter.
fn pair(key: &str, value: String) -> (r: (String, String))
    ensures
        r.0@ == key@,
        r.1@ == value@,
{
    (key.to_owned(), value)
}

/// The text of `prefix` followed by `tail`.
fn text_with(prefix: &str, tail: &Vec<char>) -> (r: String)
    ensures
        r@ == prefix@ + tail@,
{
    let mut all = chars_of(prefix);
    let mut i: usize = 0;
    let ghost start = all@;
    while i < tail.len()
        invariant
            i <= tail@.len(),
            all@ == start + tail@.subrange(0, i as int),
        decreases tail@.len() - i,
    {
        all.push(tail[i]);
        i = i + 1;
    }
    assert(tail@.subrange(0, tail@.len() as int) =~= tail@);
    string_of(all.as_slice())
}

/// Output format of the service's response.
#[derive(Clone, Copy, Debug, PartialEq, Eq, Structural, Default)]
pub enum QueryFormat {
    #[default]
    Json,
    Text,
}

impl QueryFormat {
    pub open spec fn value_text(&self) -> Seq<char> {
        match self {
            QueryFormat::Json => "json"@,
            QueryFormat::Text => "text"@,
        }
    }

    /// `format=json` or `format=text`.
    pub fn get_parameters(&self) -> (r: Vec<(String, String)>)
        ensures
            pairs_view(r@) == seq![("format"@, self.value_text())],
    {
        let value = match self {
            QueryFormat::Json => "json".to_owned(),
            QueryFormat::Text => "text".to_owned(),
        };
        let r = vec![pair("format", value)];
        assert(pairs_view(r@) =~= seq![("format"@, self.value_text())]);
        r
    }
}

/// Coordinate center of the request: the geocenter, or the center of body
/// `id` (`500@<id>`).
#[derive(Clone, Copy, Debug, PartialEq, Eq, Structural)]
pub enum Center {
    Geocentric(Option<i32>),
}

impl Center {
    pub fn default() -> (r: Center)
        ensures
            r == Center::Geocentric(None),
    {
        Center::Geocentric(None)
    }

    pub open spec fn value_text(&self) -> Seq<char> {
        match self {
            Center::Geocentric(None) => "500"@,
            Center::Geocentric(Some(id)) => "500@"@ + signed_text(*id as int),
        }
    }

    /// `CENTER=500`, or `CENTER=500@<id>`.
    pub fn get_parameters(&self) -> (r: Vec<(String, String)>)
        ensures
            pairs_view(r@) == seq![("CENTER"@, self.value_text())],
    {
        let value = match self {
            Center::Geocentric(None) => "500".to_owned(),
            Center::Geocentric(Some(id)) => {
                let mut digits: Vec<char> = Vec::new();
                push_signed(*id as i64, &mut digits);
                assert(Seq::<char>::empty() + signed_text(*id as int) =~= signed_text(*id as int));
                text_with("500@", &digits)
            },
        };
        let r = vec![pair("CENTER", value)];
        assert(pairs_view(r@) =~= seq![("CENTER"@, self.value_text())]);
        r
    }
}

/// Reference plane of vectors and elements.
#[derive(Clone, Copy, Debug, PartialEq, Eq, Structural, Default)]
pub enum RefPlane {
    #[default]
    Ecliptic,
    Frame,
    BodyEquator,
}

impl RefPlane {
    pub open spec fn value_text(&self) -> Seq<char> {
        match self {
            RefPlane::Ecliptic => "ECLIPTIC"@,
            RefPlane::Frame => "FRAME"@,
            RefPlane::BodyEquator => "BODY EQUATOR"@,
        }
    }

    /// `REF_PLANE=ECLIPTIC`, `FRAME` or `BODY EQUATOR`.
    pub fn get_parameters(&self) -> (r: Vec<(String, String)>)
        ensures
            pairs_view(r@) == seq![("REF_PLANE"@, self.value_text())],
    {
        let value = match self {
            RefPlane::Ecliptic => "ECLIPTIC".to_owned(),
            RefPlane::Frame => "FRAME".to_owned(),
            RefPlane::BodyEquator => "BODY EQUATOR".to_owned(),
        };
        let r = vec![pair("REF_PLANE", value)];
        assert(pairs_view(r@) =~= seq![("REF_PLANE"@, self.value_text())]);
        r
    }
}

/// Time between two ephemeris entries.
#[derive(Clone, Copy, Debug, PartialEq, Eq, Structural)]
pub enum StepSize {
    Days(u32),
    Hours(u32),
    Minutes(u32),
    Years(u32),
    Months(u32),
    Unitless(u32),
}

impl StepSize {
    /// One hour, in minutes.
    pub fn default() -> (r: StepSize)
        ensures
            r == StepSize::Minutes(60),
    {
        StepSize::Minutes(60)
    }

    pub open spec fn value_text(&self) -> Seq<char> {
        match self {
            StepSize::Days(n) => decimal_text(*n as nat) + " d"@,
            StepSize::Hours(n) => decimal_text(*n as nat) + " h"@,
            StepSize::Minutes(n) => decimal_text(*n as nat) + " m"@,
            StepSize::Years(n) => decimal_text(*n as nat) + " y"@,
            StepSize::Months(n) => decimal_text(*n as nat) + " mo"@,
            StepSize::Unitless(n) => decimal_text(*n as nat),
        }
    }

    /// `STEP_SIZE=<n> <unit>`, or the bare count where it has no unit.
    pub fn get_parameters(&self) -> (r: Vec<(String, String)>)
        ensures
            pairs_view(r@) == seq![("STEP_SIZE"@, self.value_text())],
    {
        let (n, unit) = match self {
            StepSize::Days(n) => (*n, " d"),
            StepSize::Hours(n) => (*n, " h"),
            StepSize::Minutes(n) => (*n, " m"),
            StepSize::Years(n) => (*n, " y"),
            StepSize::Months(n) => (*n, " mo"),
            StepSize::Unitless(n) => (*n, ""),
        };
        let mut digits: Vec<char> = Vec::new();
        push_decimal(n as u64, &mut digits);
        let unit_chars = chars_of(unit);
        let mut i: usize = 0;
        let ghost start = digits@;
        while i < unit_chars.len()
            invariant
                i <= unit_chars@.len(),
                digits@ == start + unit_chars@.subrange(0, i as int),
            decreases unit_chars@.len() - i,
        {
            digits.push(unit_chars[i]);
            i = i + 1;
        }
        proof {
            assert(unit_chars@.subrange(0, unit_chars@.len() as int) =~= unit_chars@);
            assert(Seq::<char>::empty() + decimal_text(n as nat) =~= decimal_text(n as nat));
            reveal_strlit("");
            assert(decimal_text(n as nat) + ""@ =~= decimal_text(n as nat));
        }
        let value = string_of(digits.as_slice());
        let r = vec![pair("STEP_SIZE", value)];
        assert(pairs_view(r@) =~= seq![("STEP_SIZE"@, self.value_text())]);
        r
    }
}

/// One quantity of an observer table: a numbered quantity or a letter that
/// stands for a preset group.
#[derive(Clone, Copy, Debug, PartialEq, Eq, Structural)]
pub enum Quantity {
    Select(u8),
    Macro(char),
}

impl Quantity {
    pub open spec fn text(&self) -> Seq<char> {
        match self {
            Quantity::Select(n) => decimal_text(*n as nat),
            Quantity::Macro(c) => seq![*c],
        }
    }
}

/// The quantities of an observer table, in request order.
#[derive(Clone, Debug, Default)]
pub struct Quantities(pub Vec<Quantity>);

/// The texts of `qs`, joined by commas.
pub open spec fn joined(qs: Seq<Quantity>) -> Seq<char>
    decreases qs.len(),
{
    if qs.len() <= 1 {
        if qs.len() == 0 {
            Seq::empty()
        } else {
            qs[0].text()
        }
    } else {
        joined(qs.drop_last()) + seq![','] + qs.last().text()
    }
}

impl Quantities {
    /// Nothing where no quantity is chosen, else `QUANTITIES=<q>,<q>,...`.
    pub fn get_parameters(&self) -> (r: Vec<(String, String)>)
        ensures
            self.0@.len() == 0 ==> r@.len() == 0,
            self.0@.len() > 0 ==> pairs_view(r@) == seq![("QUANTITIES"@, joined(self.0@))],
    {
        let qs = &self.0;
        if qs.len() == 0 {
            return Vec::new();
        }
        let mut text: Vec<char> = Vec::new();
        let mut i: usize = 0;
        while i < qs.len()
            invariant
                i <= qs@.len(),
                text@ == joined(qs@.subrange(0, i as int)),
            decreases qs@.len() - i,
        {
            let ghost before = text@;
            if i > 0 {
                text.push(',');
            }
            match qs[i] {
                Quantity::Select(n) => {
                    push_decimal(n as u64, &mut text);
                },
                Quantity::Macro(c) => {
                    text.push(c);
                },
            }
            proof {
                let s = qs@.subrange(0, i + 1);
                assert(s.drop_last() =~= qs@.subrange(0, i as int));
                assert(s.last() == qs@[i as int]);
                if i > 0 {
                    assert(text@ =~= before + seq![','] + qs@[i as int].text());
                } else {
                    assert(text@ =~= qs@[i as int].text());
                }
            }
            i = i + 1;
        }
        assert(qs@.subrange(0, qs@.len() as int) =~= qs@);
        let r = vec![pair("QUANTITIES", string_of(text.as_slice()))];
        assert(pairs_view(r@) =~= seq![("QUANTITIES"@, joined(self.0@))]);
        r
    }
}

/// Reference system of the coordinates.
#[derive(Clone, Copy, Debug, PartialEq, Eq, Structural, Default)]
pub enum RefSystem {
    #[default]
    Icrf,
    B1950,
}

/// Units of vectors and elements.
#[derive(Clone, Copy, Debug, PartialEq, Eq, Structural, Default)]
pub enum OutUnits {
    #[default]
    KmS,
    AuD,
    KmD,
}

/// Aberration correction of vectors.
#[derive(Clone, Copy, Debug, PartialEq, Eq, Structural, Default)]
pub enum VecCorr {
    #[default]
    Uncorrected,
    Lt,
    LtS,
}

/// How dates are printed: calendar, Julian day, or both.
#[derive(Clone, Copy, Debug, PartialEq, Eq, Structural, Default)]
pub enum CalFormat {
    #[default]
    Cal,
    Jd,
    Both,
}

/// Calendar of the printed dates.
#[derive(Clone, Copy, Debug, PartialEq, Eq, Structural, Default)]
pub enum CalType {
    #[default]
    Mixed,
    Gregorian,
}

/// How angles are printed.
#[derive(Clone, Copy, Debug, PartialEq, Eq, Structural, Default)]
pub enum AngFormat {
    #[default]
    Hms,
    Deg,
}

/// Whether apparent positions include atmospheric refraction.
#[derive(Clone, Copy, Debug, PartialEq, Eq, Structural, Default)]
pub enum Apparent {
    #[default]
    Airless,
    Refracted,
}

/// Precision of the printed times.
#[derive(Clone, Copy, Debug, PartialEq, Eq, Structural, Default)]
pub enum TimeDigits {
    #[default]
    Minutes,
    Seconds,
    Fracsec,
}

/// Unit of printed ranges.
#[derive(Clone, Copy, Debug, PartialEq, Eq, Structural, Default)]
pub enum RangeUnit {
    #[default]
    Au,
    Km,
}

/// Whether the time of periapsis is absolute or relative to the epoch.
#[derive(Clone, Copy, Debug, PartialEq, Eq, Structural, Default)]
pub enum TpType {
    #[default]
    Absolute,
    Relative,
}

/// Options of an SPK request (none yet).
#[derive(Clone, Copy, Debug, Default)]
pub struct SpkArgs {}

/// Options of a close-approach request (none yet).
#[derive(Clone, Copy, Debug, Default)]
pub struct ApproachArgs {}

} // verus!
