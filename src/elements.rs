//! Orbital elements: the Keplerian orbit of a body at an instant, read from
//! records of five lines between the `$$SOE` and `$$EOE` markers.

use vstd::prelude::*;
use crate::error::{EphemerisError, ErrorModel, result_view};
use crate::fields::{read_row, row_values};
use crate::number::Decimal;
use crate::text::{chars_of, line_is, lines_view};
use crate::timestamp::{Timestamp, line_time, parse_line_time};
use crate::vectors::{END_MARKER, START_MARKER, after, emit, output_view, records_view};

verus! {

pub const EC_LABEL: &'static str = " EC=";
pub const QR_LABEL: &'static str = " QR=";
pub const IN_LABEL: &'static str = " IN=";
pub const OM_LABEL: &'static str = " OM=";
pub const W_LABEL: &'static str = " W =";
pub const TP_LABEL: &'static str = " Tp=";
pub const N_LABEL: &'static str = " N =";
pub const MA_LABEL: &'static str = " MA=";
pub const TA_LABEL: &'static str = " TA=";
pub const A_LABEL: &'static str = " A =";
pub const AD_LABEL: &'static str = " AD=";
pub const PR_LABEL: &'static str = " PR=";

/// Orbital elements of a body at a point in time; distances in km, angles in
/// degrees, times in seconds (the time of periapsis as a Julian day number).
#[derive(Clone, Copy, Debug, PartialEq, Eq, Structural)]
pub struct EphemerisOrbitalElementsItem {
    pub time: Timestamp,
    pub eccentricity: Decimal,
    pub periapsis_distance: Decimal,
    pub inclination: Decimal,
    pub longitude_of_ascending_node: Decimal,
    pub argument_of_perifocus: Decimal,
    pub time_of_periapsis: Decimal,
    pub mean_motion: Decimal,
    pub mean_anomaly: Decimal,
    pub true_anomaly: Decimal,
    pub semi_major_axis: Decimal,
    pub apoapsis_distance: Decimal,
    pub sidereal_orbit_period: Decimal,
}

/// The three numbers of one data line.
pub type Row = (Decimal, Decimal, Decimal);

/// What the orbital-element parser has read of the record in progress.
#[derive(Clone, Copy, Debug)]
pub enum ElementsState {
    WaitingForSoe,
    WaitingForDate,
    Date { time: Timestamp },
    FirstRow { time: Timestamp, first: Row },
    SecondRow { time: Timestamp, first: Row, second: Row },
    ThirdRow { time: Timestamp, first: Row, second: Row, third: Row },
    End,
}

/// The record of a time and its four data lines:
/// `EC QR IN / OM W Tp / N MA TA / A AD PR`.
pub open spec fn elements_item(time: Timestamp, first: Row, second: Row, third: Row, fourth: Row) -> EphemerisOrbitalElementsItem {
    EphemerisOrbitalElementsItem {
        time,
        eccentricity: first.0,
        periapsis_distance: first.1,
        inclination: first.2,
        longitude_of_ascending_node: second.0,
        argument_of_perifocus: second.1,
        time_of_periapsis: second.2,
        mean_motion: third.0,
        mean_anomaly: third.1,
        true_anomaly: third.2,
        semi_major_axis: fourth.0,
        apoapsis_distance: fourth.1,
        sidereal_orbit_period: fourth.2,
    }
}

/// One transition of the orbital-element parser on `line`: the next state
/// and the record completed by this line, if any.
pub open spec fn elements_step(state: ElementsState, line: Seq<char>) -> Result<
    (ElementsState, Option<EphemerisOrbitalElementsItem>),
    ErrorModel,
> {
    match state {
        ElementsState::WaitingForSoe => if line == START_MARKER@ {
            Ok((ElementsState::WaitingForDate, None))
        } else {
            Ok((ElementsState::WaitingForSoe, None))
        },
        ElementsState::WaitingForDate => if line == END_MARKER@ {
            Ok((ElementsState::End, None))
        } else {
            match line_time(line) {
                Some(time) => Ok((ElementsState::Date { time }, None)),
                None => Err(ErrorModel::DateParseError { text: line }),
            }
        },
        ElementsState::Date { time } => match row_values(line, EC_LABEL@, QR_LABEL@, IN_LABEL@) {
            Ok(first) => Ok((ElementsState::FirstRow { time, first }, None)),
            Err(e) => Err(e),
        },
        ElementsState::FirstRow { time, first } => match row_values(
            line,
            OM_LABEL@,
            W_LABEL@,
            TP_LABEL@,
        ) {
            Ok(second) => Ok((ElementsState::SecondRow { time, first, second }, None)),
            Err(e) => Err(e),
        },
        ElementsState::SecondRow { time, first, second } => match row_values(
            line,
            N_LABEL@,
            MA_LABEL@,
            TA_LABEL@,
        ) {
            Ok(third) => Ok((ElementsState::ThirdRow { time, first, second, third }, None)),
            Err(e) => Err(e),
        },
        ElementsState::ThirdRow { time, first, second, third } => match row_values(
            line,
            A_LABEL@,
            AD_LABEL@,
            PR_LABEL@,
        ) {
            Ok(fourth) => Ok(
                (
                    ElementsState::WaitingForDate,
                    Some(elements_item(time, first, second, third, fourth)),
                ),
            ),
            Err(e) => Err(e),
        },
        ElementsState::End => Ok((ElementsState::End, None)),
    }
}

/// The records that the orbital-element parser produces from `lines` when it
/// starts in `state`, or the first error. Lines after `$$EOE` are not read;
/// lines that end before it are an error.
pub open spec fn elements_run(state: ElementsState, lines: Seq<Seq<char>>) -> Result<
    Seq<EphemerisOrbitalElementsItem>,
    ErrorModel,
>
    decreases lines.len(),
{
    if state is End {
        Ok(Seq::empty())
    } else if lines.len() == 0 {
        Err(ErrorModel::TruncatedInput)
    } else {
        match elements_step(state, lines[0]) {
            Err(e) => Err(e),
            Ok((next, out)) => after(
                emit(out, Seq::empty()),
                elements_run(next, lines.drop_first()),
            ),
        }
    }
}

/// The records of a whole input, or the first error.
pub open spec fn elements_records(lines: Seq<Seq<char>>) -> Result<
    Seq<EphemerisOrbitalElementsItem>,
    ErrorModel,
> {
    elements_run(ElementsState::WaitingForSoe, lines)
}

/// One transition of the orbital-element parser.
pub fn elements_step_exec(state: ElementsState, line: &[char]) -> (r: Result<
    (ElementsState, Option<EphemerisOrbitalElementsItem>),
    EphemerisError,
>)
    ensures
        result_view(r) == elements_step(state, line@),
{
    match state {
        ElementsState::WaitingForSoe => {
            if line_is(line, START_MARKER) {
                Ok((ElementsState::WaitingForDate, None))
            } else {
                Ok((ElementsState::WaitingForSoe, None))
            }
        },
        ElementsState::WaitingForDate => {
            if line_is(line, END_MARKER) {
                Ok((ElementsState::End, None))
            } else {
                match parse_line_time(line) {
                    Some(time) => Ok((ElementsState::Date { time }, None)),
                    None => Err(
                        EphemerisError::DateParseError { text: crate::text::string_of(line) },
                    ),
                }
            }
        },
        ElementsState::Date { time } => match read_row(line, EC_LABEL, QR_LABEL, IN_LABEL) {
            Ok(first) => Ok((ElementsState::FirstRow { time, first }, None)),
            Err(e) => Err(e),
        },
        ElementsState::FirstRow { time, first } => match read_row(
            line,
            OM_LABEL,
            W_LABEL,
            TP_LABEL,
        ) {
            Ok(second) => Ok((ElementsState::SecondRow { time, first, second }, None)),
            Err(e) => Err(e),
        },
        ElementsState::SecondRow { time, first, second } => match read_row(
            line,
            N_LABEL,
            MA_LABEL,
            TA_LABEL,
        ) {
            Ok(third) => Ok((ElementsState::ThirdRow { time, first, second, third }, None)),
            Err(e) => Err(e),
        },
        ElementsState::ThirdRow { time, first, second, third } => match read_row(
            line,
            A_LABEL,
            AD_LABEL,
            PR_LABEL,
        ) {
            Ok(fourth) => Ok(
                (
                    ElementsState::WaitingForDate,
                    Some(
                        EphemerisOrbitalElementsItem {
                            time,
                            eccentricity: first.0,
                            periapsis_distance: first.1,
                            inclination: first.2,
                            longitude_of_ascending_node: second.0,
                            argument_of_perifocus: second.1,
                            time_of_periapsis: second.2,
                            mean_motion: third.0,
                            mean_anomaly: third.1,
                            true_anomaly: third.2,
                            semi_major_axis: fourth.0,
                            apoapsis_distance: fourth.1,
                            sidereal_orbit_period: fourth.2,
                        },
                    ),
                ),
            ),
            Err(e) => Err(e),
        },
        ElementsState::End => Ok((ElementsState::End, None)),
    }
}

/// Reads every orbital-element record of `lines`: all of them in order, or
/// the first error.
pub fn parse_orbital_element_records(lines: &Vec<String>) -> (r: Result<
    Vec<EphemerisOrbitalElementsItem>,
    EphemerisError,
>)
    ensures
        records_view(r) == elements_records(lines_view(lines@)),
{
    let ghost all = lines_view(lines@);
    let n = lines.len();
    let mut state = ElementsState::WaitingForSoe;
    let mut out: Vec<EphemerisOrbitalElementsItem> = Vec::new();
    let mut i: usize = 0;
    assert(all.subrange(0, n as int) =~= all);
    while i < n && !matches!(state, ElementsState::End)
        invariant
            n == lines@.len(),
            all == lines_view(lines@),
            i <= n,
            elements_records(all) == after(
                out@,
                elements_run(state, all.subrange(i as int, n as int)),
            ),
        decreases n - i,
    {
        let ghost rest = all.subrange(i as int, n as int);
        assert(rest.drop_first() =~= all.subrange(i + 1, n as int));
        let line = chars_of(lines[i].as_str());
        match elements_step_exec(state, line.as_slice()) {
            Err(e) => {
                return Err(e);
            },
            Ok((next, item)) => {
                let ghost before = out@;
                match item {
                    Some(it) => {
                        out.push(it);
                    },
                    None => {},
                }
                proof {
                    let tail = elements_run(next, rest.drop_first());
                    match tail {
                        Ok(t) => {
                            assert(before + (emit(item, Seq::empty()) + t) =~= out@ + t);
                        },
                        Err(_) => {},
                    }
                }
                state = next;
            },
        }
        i = i + 1;
    }
    if matches!(state, ElementsState::End) {
        assert(out@ + Seq::<EphemerisOrbitalElementsItem>::empty() =~= out@);
        Ok(out)
    } else {
        Err(EphemerisError::TruncatedInput)
    }
}

/// What one call of `next` does from `state` at line `pos`: the state and
/// the line it stops at, and what it hands out (`None` once the parser has
/// ended).
pub open spec fn elements_next(state: ElementsState, lines: Seq<Seq<char>>, pos: nat) -> (
    ElementsState,
    nat,
    Option<Result<EphemerisOrbitalElementsItem, ErrorModel>>,
)
    decreases lines.len() - pos,
{
    if state is End {
        (ElementsState::End, pos, None)
    } else if pos >= lines.len() {
        (ElementsState::End, pos, Some(Err(ErrorModel::TruncatedInput)))
    } else {
        match elements_step(state, lines[pos as int]) {
            Err(e) => (ElementsState::End, pos + 1, Some(Err(e))),
            Ok((next, Some(item))) => (next, pos + 1, Some(Ok(item))),
            Ok((next, None)) => elements_next(next, lines, pos + 1),
        }
    }
}

/// An orbital-element parser that hands out one record at a time.
pub struct EphemerisOrbitalElementsParser {
    state: ElementsState,
    lines: Vec<String>,
    pos: usize,
}

impl View for EphemerisOrbitalElementsParser {
    type V = (ElementsState, Seq<Seq<char>>, nat);

    closed spec fn view(&self) -> (ElementsState, Seq<Seq<char>>, nat) {
        (self.state, lines_view(self.lines@), self.pos as nat)
    }
}

impl EphemerisOrbitalElementsParser {
    /// A parser over `lines`, before their first line.
    pub fn parse(lines: Vec<String>) -> (r: Self)
        ensures
            r@ == (ElementsState::WaitingForSoe, lines_view(lines@), 0nat),
    {
        EphemerisOrbitalElementsParser { state: ElementsState::WaitingForSoe, lines, pos: 0 }
    }

    /// The next record, the error that ends the input, or `None` once the
    /// parser has ended.
    pub fn next(&mut self) -> (r: Option<Result<EphemerisOrbitalElementsItem, EphemerisError>>)
        requires
            old(self)@.2 <= old(self)@.1.len(),
        ensures
            ({
                let (state, pos, out) = elements_next(old(self)@.0, old(self)@.1, old(self)@.2);
                &&& final(self)@ == (state, old(self)@.1, pos)
                &&& output_view(r) == out
            }),
            final(self)@.2 <= final(self)@.1.len(),
    {
        let ghost start = elements_next(self.state, lines_view(self.lines@), self.pos as nat);
        let n = self.lines.len();
        loop
            invariant
                n == self.lines@.len(),
                self.pos <= n,
                self.lines@ == old(self).lines@,
                start == elements_next(old(self)@.0, old(self)@.1, old(self)@.2),
                start == elements_next(self.state, lines_view(self.lines@), self.pos as nat),
            decreases n - self.pos,
        {
            if matches!(self.state, ElementsState::End) {
                return None;
            }
            if self.pos >= n {
                self.state = ElementsState::End;
                return Some(Err(EphemerisError::TruncatedInput));
            }
            let line = chars_of(self.lines[self.pos].as_str());
            let step = elements_step_exec(self.state, line.as_slice());
            self.pos = self.pos + 1;
            match step {
                Err(e) => {
                    self.state = ElementsState::End;
                    return Some(Err(e));
                },
                Ok((next, Some(item))) => {
                    self.state = next;
                    return Some(Ok(item));
                },
                Ok((next, None)) => {
                    self.state = next;
                },
            }
        }
    }
}

} // verus!
