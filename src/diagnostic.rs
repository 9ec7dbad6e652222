//! Human-readable diagnostics for the syntax errors of the document reader:
//! a message, an optional label for the offending character and an optional
//! note on what was expected.

use vstd::prelude::*;
use crate::document::{Expected, GrammarSyntaxError, SyntaxErrorKind};
use crate::text::{chars_of, string_of};

verus! {

/// The text of one syntax error, ready to be rendered at `offset`.
#[derive(Clone, Debug, PartialEq, Eq)]
pub struct Diagnostic {
    /// Character offset of the error.
    pub offset: usize,
    /// A short message.
    pub message: String,
    /// A label for the character at `offset`, where there is one.
    pub label: Option<String>,
    /// A note on what the grammar would have accepted.
    pub note: Option<String>,
}

pub open spec fn opt_view(o: Option<String>) -> Option<Seq<char>> {
    match o {
        Some(s) => Some(s@),
        None => None,
    }
}

/// How an expected alternative is named: a character in single quotes, or
/// the words for a class of tokens.
pub open spec fn expected_text(x: Expected) -> Seq<char> {
    match x {
        Expected::Char(c) => seq!['\'', c, '\''],
        Expected::Number => "a number"@,
        Expected::NumberOrEndMarker => "a record or $$EOE"@,
        Expected::Date => "a date"@,
        Expected::LineBreak => "a line break"@,
        Expected::EndOfText => "end of file"@,
    }
}

pub open spec fn message_text(e: GrammarSyntaxError) -> Seq<char> {
    match e.kind {
        SyntaxErrorKind::Unexpected => if e.found is Some {
            "Unexpected token"@
        } else {
            "Unexpected end of file"@
        },
        SyntaxErrorKind::InvalidNumber => "Invalid number"@,
        SyntaxErrorKind::InvalidDate => "Invalid date"@,
    }
}

pub open spec fn label_text(e: GrammarSyntaxError) -> Option<Seq<char>> {
    match e.kind {
        SyntaxErrorKind::Unexpected => match e.found {
            Some(c) => Some("Unexpected token "@ + seq![c]),
            None => None,
        },
        _ => Some(message_text(e)),
    }
}

pub open spec fn note_text(e: GrammarSyntaxError) -> Option<Seq<char>> {
    if e.kind == SyntaxErrorKind::Unexpected && e.found is Some && e.expected is Some {
        Some("Expected "@ + expected_text(e.expected->Some_0))
    } else {
        None
    }
}

/// Whether `d` renders the error `e`.
pub open spec fn describes(d: Diagnostic, e: GrammarSyntaxError) -> bool {
    &&& d.offset == e.offset
    &&& d.message@ == message_text(e)
    &&& opt_view(d.label) == label_text(e)
    &&& opt_view(d.note) == note_text(e)
}

/// Appends the characters of `s` to `out`.
fn push_str(out: &mut Vec<char>, s: &str)
    ensures
        final(out)@ == old(out)@ + s@,
{
    let t = chars_of(s);
    let ghost start = out@;
    let mut i: usize = 0;
    while i < t.len()
        invariant
            i <= t@.len(),
            t@ == s@,
            out@ == start + t@.subrange(0, i as int),
        decreases t@.len() - i,
    {
        out.push(t[i]);
        i = i + 1;
    }
    assert(t@.subrange(0, t@.len() as int) =~= t@);
}

fn expected_chars(x: Expected, out: &mut Vec<char>)
    ensures
        final(out)@ == old(out)@ + expected_text(x),
{
    match x {
        Expected::Char(c) => {
            out.push('\'');
            out.push(c);
            out.push('\'');
            assert(final(out)@ =~= old(out)@ + expected_text(x));
        },
        Expected::Number => push_str(out, "a number"),
        Expected::NumberOrEndMarker => push_str(out, "a record or $$EOE"),
        Expected::Date => push_str(out, "a date"),
        Expected::LineBreak => push_str(out, "a line break"),
        Expected::EndOfText => push_str(out, "end of file"),
    }
}

/// The diagnostic of one syntax error.
pub fn diagnostic(e: &GrammarSyntaxError) -> (r: Diagnostic)
    ensures
        describes(r, *e),
{
    let message = match e.kind {
        SyntaxErrorKind::Unexpected => match e.found {
            Some(_) => "Unexpected token".to_owned(),
            None => "Unexpected end of file".to_owned(),
        },
        SyntaxErrorKind::InvalidNumber => "Invalid number".to_owned(),
        SyntaxErrorKind::InvalidDate => "Invalid date".to_owned(),
    };
    let label = match e.kind {
        SyntaxErrorKind::Unexpected => match e.found {
            Some(c) => {
                let mut t: Vec<char> = Vec::new();
                push_str(&mut t, "Unexpected token ");
                t.push(c);
                assert(t@ =~= "Unexpected token "@ + seq![c]);
                Some(string_of(t.as_slice()))
            },
            None => None,
        },
        _ => Some(message.clone()),
    };
    let note = match (e.kind, e.found, e.expected) {
        (SyntaxErrorKind::Unexpected, Some(_), Some(x)) => {
            let mut t: Vec<char> = Vec::new();
            push_str(&mut t, "Expected ");
            expected_chars(x, &mut t);
            assert(t@ =~= "Expected "@ + expected_text(x));
            Some(string_of(t.as_slice()))
        },
        _ => None,
    };
    assert(message@ == message_text(*e));
    assert(opt_view(label) == label_text(*e));
    assert(opt_view(note) == note_text(*e));
    Diagnostic { offset: e.offset, message, label, note }
}

/// The diagnostics of a sequence of syntax errors, one each, in order.
pub fn diagnostics(errors: &Vec<GrammarSyntaxError>) -> (r: Vec<Diagnostic>)
    ensures
        r@.len() == errors@.len(),
        forall|i: int| 0 <= i < r@.len() ==> describes(#[trigger] r@[i], errors@[i]),
{
    let mut r: Vec<Diagnostic> = Vec::new();
    let mut i: usize = 0;
    while i < errors.len()
        invariant
            i <= errors@.len(),
            r@.len() == i,
            forall|k: int| 0 <= k < i ==> describes(#[trigger] r@[k], errors@[k]),
        decreases errors@.len() - i,
    {
        r.push(diagnostic(&errors[i]));
        i = i + 1;
    }
    r
}

} // verus!
