//! Failures of the line-oriented parsers.

use vstd::prelude::*;

verus! {

/// Why a line-oriented parser stopped.
#[derive(Debug, PartialEq, Eq)]
pub enum EphemerisError {
    /// A line did not begin with the required field label, in the required order.
    UnexpectedLabel { expected: String, line: String },
    /// A field could not be read as a decimal number.
    NumericParseError { field: String, text: String },
    /// A record's first line did not hold a date in the expected form.
    DateParseError { text: String },
    /// The lines ended before the end-of-ephemeris marker.
    TruncatedInput,
}

/// The content of an `EphemerisError`, as character sequences.
pub enum ErrorModel {
    UnexpectedLabel { expected: Seq<char>, line: Seq<char> },
    NumericParseError { field: Seq<char>, text: Seq<char> },
    DateParseError { text: Seq<char> },
    TruncatedInput,
}

impl View for EphemerisError {
    type V = ErrorModel;

    open spec fn view(&self) -> ErrorModel {
        match self {
            EphemerisError::UnexpectedLabel { expected, line } => ErrorModel::UnexpectedLabel {
                expected: expected@,
                line: line@,
            },
            EphemerisError::NumericParseError { field, text } => ErrorModel::NumericParseError {
                field: field@,
                text: text@,
            },
            EphemerisError::DateParseError { text } => ErrorModel::DateParseError { text: text@ },
            EphemerisError::TruncatedInput => ErrorModel::TruncatedInput,
        }
    }
}

/// A result with its error replaced by the error's content.
pub open spec fn result_view<T>(r: Result<T, EphemerisError>) -> Result<T, ErrorModel> {
    match r {
        Ok(v) => Ok(v),
        Err(e) => Err(e@),
    }
}

} // verus!
