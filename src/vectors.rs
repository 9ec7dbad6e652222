//! State vectors: position and velocity of a body at an instant, read from
//! records of four lines between the `$$SOE` and `$$EOE` markers.

use vstd::prelude::*;
use crate::error::{EphemerisError, ErrorModel, result_view};
use crate::fields::{read_row, row_values};
use crate::number::Decimal;
use crate::text::{chars_of, line_is, lines_view};
use crate::timestamp::{Timestamp, line_time, parse_line_time};

verus! {

/// The line that opens the block of records.
pub const START_MARKER: &'static str = "$$SOE";

/// The line that closes the block of records.
pub const END_MARKER: &'static str = "$$EOE";

pub const X_LABEL: &'static str = " X =";
pub const Y_LABEL: &'static str = " Y =";
pub const Z_LABEL: &'static str = " Z =";
pub const VX_LABEL: &'static str = " VX=";
pub const VY_LABEL: &'static str = " VY=";
pub const VZ_LABEL: &'static str = " VZ=";

/// Three Cartesian components.
#[derive(Clone, Copy, Debug, PartialEq, Eq, Structural)]
pub struct Vector3 {
    pub x: Decimal,
    pub y: Decimal,
    pub z: Decimal,
}

/// Position (km) and velocity (km/s) of a body at a point in time.
#[derive(Clone, Copy, Debug, PartialEq, Eq, Structural)]
pub struct EphemerisVectorItem {
    pub time: Timestamp,
    pub position: Vector3,
    pub velocity: Vector3,
}

/// What the state-vector parser has read of the record in progress.
#[derive(Clone, Copy, Debug, PartialEq, Eq, Structural)]
pub enum VectorState {
    WaitingForSoe,
    WaitingForDate,
    Date { time: Timestamp },
    Position { time: Timestamp, position: Vector3 },
    Complete { time: Timestamp, position: Vector3, velocity: Vector3 },
    End,
}

/// One transition of the state-vector parser on `line`: the next state and
/// the record completed by this line, if any.
pub open spec fn vector_step(state: VectorState, line: Seq<char>) -> Result<
    (VectorState, Option<EphemerisVectorItem>),
    ErrorModel,
> {
    match state {
        VectorState::WaitingForSoe => if line == START_MARKER@ {
            Ok((VectorState::WaitingForDate, None))
        } else {
            Ok((VectorState::WaitingForSoe, None))
        },
        VectorState::WaitingForDate => if line == END_MARKER@ {
            Ok((VectorState::End, None))
        } else {
            match line_time(line) {
                Some(time) => Ok((VectorState::Date { time }, None)),
                None => Err(ErrorModel::DateParseError { text: line }),
            }
        },
        VectorState::Date { time } => match row_values(line, X_LABEL@, Y_LABEL@, Z_LABEL@) {
            Ok((x, y, z)) => Ok((VectorState::Position { time, position: Vector3 { x, y, z } }, None)),
            Err(e) => Err(e),
        },
        VectorState::Position { time, position } => match row_values(
            line,
            VX_LABEL@,
            VY_LABEL@,
            VZ_LABEL@,
        ) {
            Ok((x, y, z)) => Ok(
                (VectorState::Complete { time, position, velocity: Vector3 { x, y, z } }, None),
            ),
            Err(e) => Err(e),
        },
        VectorState::Complete { time, position, velocity } => Ok(
            (
                VectorState::WaitingForDate,
                Some(EphemerisVectorItem { time, position, velocity }),
            ),
        ),
        VectorState::End => Ok((VectorState::End, None)),
    }
}

/// `out` (if any) in front of `rest`.
pub open spec fn emit<T>(out: Option<T>, rest: Seq<T>) -> Seq<T> {
    match out {
        Some(item) => seq![item] + rest,
        None => rest,
    }
}

/// `done` in front of the records of `r`, or the error of `r`.
pub open spec fn after<T, E>(done: Seq<T>, r: Result<Seq<T>, E>) -> Result<Seq<T>, E> {
    match r {
        Ok(rest) => Ok(done + rest),
        Err(e) => Err(e),
    }
}

/// The records that the state-vector parser produces from `lines` when it
/// starts in `state`, or the first error. Lines after `$$EOE` are not read;
/// lines that end before it are an error.
pub open spec fn vector_run(state: VectorState, lines: Seq<Seq<char>>) -> Result<
    Seq<EphemerisVectorItem>,
    ErrorModel,
>
    decreases lines.len(),
{
    if state is End {
        Ok(Seq::empty())
    } else if lines.len() == 0 {
        Err(ErrorModel::TruncatedInput)
    } else {
        match vector_step(state, lines[0]) {
            Err(e) => Err(e),
            Ok((next, out)) => after(emit(out, Seq::empty()), vector_run(next, lines.drop_first())),
        }
    }
}

/// The records of a whole input, or the first error.
pub open spec fn vector_records(lines: Seq<Seq<char>>) -> Result<
    Seq<EphemerisVectorItem>,
    ErrorModel,
> {
    vector_run(VectorState::WaitingForSoe, lines)
}

pub open spec fn records_view<T>(r: Result<Vec<T>, EphemerisError>) -> Result<Seq<T>, ErrorModel> {
    match r {
        Ok(v) => Ok(v@),
        Err(e) => Err(e@),
    }
}

/// One transition of the state-vector parser.
pub fn vector_step_exec(state: VectorState, line: &[char]) -> (r: Result<
    (VectorState, Option<EphemerisVectorItem>),
    EphemerisError,
>)
    ensures
        result_view(r) == vector_step(state, line@),
{
    match state {
        VectorState::WaitingForSoe => {
            if line_is(line, START_MARKER) {
                Ok((VectorState::WaitingForDate, None))
            } else {
                Ok((VectorState::WaitingForSoe, None))
            }
        },
        VectorState::WaitingForDate => {
            if line_is(line, END_MARKER) {
                Ok((VectorState::End, None))
            } else {
                match parse_line_time(line) {
                    Some(time) => Ok((VectorState::Date { time }, None)),
                    None => Err(
                        EphemerisError::DateParseError { text: crate::text::string_of(line) },
                    ),
                }
            }
        },
        VectorState::Date { time } => match read_row(line, X_LABEL, Y_LABEL, Z_LABEL) {
            Ok((x, y, z)) => Ok((VectorState::Position { time, position: Vector3 { x, y, z } }, None)),
            Err(e) => Err(e),
        },
        VectorState::Position { time, position } => match read_row(
            line,
            VX_LABEL,
            VY_LABEL,
            VZ_LABEL,
        ) {
            Ok((x, y, z)) => Ok(
                (VectorState::Complete { time, position, velocity: Vector3 { x, y, z } }, None),
            ),
            Err(e) => Err(e),
        },
        VectorState::Complete { time, position, velocity } => Ok(
            (
                VectorState::WaitingForDate,
                Some(EphemerisVectorItem { time, position, velocity }),
            ),
        ),
        VectorState::End => Ok((VectorState::End, None)),
    }
}

/// Reads every state-vector record of `lines`: all of them in order, or the
/// first error.
pub fn parse_vector_records(lines: &Vec<String>) -> (r: Result<
    Vec<EphemerisVectorItem>,
    EphemerisError,
>)
    ensures
        records_view(r) == vector_records(lines_view(lines@)),
{
    let ghost all = lines_view(lines@);
    let n = lines.len();
    let mut state = VectorState::WaitingForSoe;
    let mut out: Vec<EphemerisVectorItem> = Vec::new();
    let mut i: usize = 0;
    assert(all.subrange(0, n as int) =~= all);
    while i < n && !matches!(state, VectorState::End)
        invariant
            n == lines@.len(),
            all == lines_view(lines@),
            i <= n,
            vector_records(all) == after(out@, vector_run(state, all.subrange(i as int, n as int))),
        decreases n - i,
    {
        let ghost rest = all.subrange(i as int, n as int);
        assert(rest.drop_first() =~= all.subrange(i + 1, n as int));
        let line = chars_of(lines[i].as_str());
        match vector_step_exec(state, line.as_slice()) {
            Err(e) => {
                return Err(e);
            },
            Ok((next, item)) => {
                let ghost before = out@;
                match item {
                    Some(it) => {
                        out.push(it);
                    },
                    None => {},
                }
                proof {
                    let tail = vector_run(next, rest.drop_first());
                    match tail {
                        Ok(t) => {
                            assert(before + (emit(item, Seq::empty()) + t) =~= out@ + t);
                        },
                        Err(_) => {},
                    }
                }
                state = next;
            },
        }
        i = i + 1;
    }
    if matches!(state, VectorState::End) {
        assert(out@ + Seq::<EphemerisVectorItem>::empty() =~= out@);
        Ok(out)
    } else {
        Err(EphemerisError::TruncatedInput)
    }
}

/// What one call of `next` does from `state` at line `pos`: the state and
/// the line it stops at, and what it hands out (`None` once the parser has
/// ended).
pub open spec fn vector_next(state: VectorState, lines: Seq<Seq<char>>, pos: nat) -> (
    VectorState,
    nat,
    Option<Result<EphemerisVectorItem, ErrorModel>>,
)
    decreases lines.len() - pos,
{
    if state is End {
        (VectorState::End, pos, None)
    } else if pos >= lines.len() {
        (VectorState::End, pos, Some(Err(ErrorModel::TruncatedInput)))
    } else {
        match vector_step(state, lines[pos as int]) {
            Err(e) => (VectorState::End, pos + 1, Some(Err(e))),
            Ok((next, Some(item))) => (next, pos + 1, Some(Ok(item))),
            Ok((next, None)) => vector_next(next, lines, pos + 1),
        }
    }
}

pub open spec fn output_view<T>(r: Option<Result<T, EphemerisError>>) -> Option<
    Result<T, ErrorModel>,
> {
    match r {
        Some(x) => Some(result_view(x)),
        None => None,
    }
}

/// A state-vector parser that hands out one record at a time.
pub struct EphemerisVectorParser {
    state: VectorState,
    lines: Vec<String>,
    pos: usize,
}

impl View for EphemerisVectorParser {
    type V = (VectorState, Seq<Seq<char>>, nat);

    closed spec fn view(&self) -> (VectorState, Seq<Seq<char>>, nat) {
        (self.state, lines_view(self.lines@), self.pos as nat)
    }
}

impl EphemerisVectorParser {
    /// A parser over `lines`, before their first line.
    pub fn parse(lines: Vec<String>) -> (r: Self)
        ensures
            r@ == (VectorState::WaitingForSoe, lines_view(lines@), 0nat),
    {
        EphemerisVectorParser { state: VectorState::WaitingForSoe, lines, pos: 0 }
    }

    /// The next record, the error that ends the input, or `None` once the
    /// parser has ended.
    pub fn next(&mut self) -> (r: Option<Result<EphemerisVectorItem, EphemerisError>>)
        requires
            old(self)@.2 <= old(self)@.1.len(),
        ensures
            ({
                let (state, pos, out) = vector_next(old(self)@.0, old(self)@.1, old(self)@.2);
                &&& final(self)@ == (state, old(self)@.1, pos)
                &&& output_view(r) == out
            }),
            final(self)@.2 <= final(self)@.1.len(),
    {
        let ghost start = vector_next(self.state, lines_view(self.lines@), self.pos as nat);
        let n = self.lines.len();
        loop
            invariant
                n == self.lines@.len(),
                self.pos <= n,
                self.lines@ == old(self).lines@,
                start == vector_next(old(self)@.0, old(self)@.1, old(self)@.2),
                start == vector_next(self.state, lines_view(self.lines@), self.pos as nat),
            decreases n - self.pos,
        {
            if matches!(self.state, VectorState::End) {
                return None;
            }
            if self.pos >= n {
                self.state = VectorState::End;
                return Some(Err(EphemerisError::TruncatedInput));
            }
            let line = chars_of(self.lines[self.pos].as_str());
            let step = vector_step_exec(self.state, line.as_slice());
            self.pos = self.pos + 1;
            match step {
                Err(e) => {
                    self.state = VectorState::End;
                    return Some(Err(e));
                },
                Ok((next, Some(item))) => {
                    self.state = next;
                    return Some(Ok(item));
                },
                Ok((next, None)) => {
                    self.state = next;
                },
            }
        }
    }
}

} // verus!
