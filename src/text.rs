//! Character-level helpers shared by the parsers: fixed labels, fixed-width
//! fields and whitespace trimming.

use vstd::prelude::*;
use vstd::string::*;

verus! {

/// The whitespace that a field may be padded with: the characters of
/// Unicode's White_Space property, as `char::is_whitespace` and `str::trim`
/// take them.
pub open spec fn is_space(c: char) -> bool {
    ('\t' <= c && c <= '\r') || c == ' ' || c == '\u{85}' || c == '\u{A0}' || c == '\u{1680}' || (
    '\u{2000}' <= c && c <= '\u{200A}') || c == '\u{2028}' || c == '\u{2029}' || c == '\u{202F}'
        || c == '\u{205F}' || c == '\u{3000}'
}

/// What is left of `line` once `label` is taken off its front, if it starts
/// with exactly that label.
pub open spec fn strip_label(line: Seq<char>, label: Seq<char>) -> Option<Seq<char>> {
    if label.len() <= line.len() && line.subrange(0, label.len() as int) == label {
        Some(line.subrange(label.len() as int, line.len() as int))
    } else {
        None
    }
}

/// The first `width` characters of `s` (all of it, if shorter) and the rest.
pub open spec fn split_fixed(s: Seq<char>, width: nat) -> (Seq<char>, Seq<char>) {
    let w = if width <= s.len() { width as int } else { s.len() as int };
    (s.subrange(0, w), s.subrange(w, s.len() as int))
}

/// Number of leading whitespace characters of `s`.
pub open spec fn leading_spaces(s: Seq<char>) -> nat
    decreases s.len(),
{
    if s.len() > 0 && is_space(s[0]) {
        1 + leading_spaces(s.drop_first())
    } else {
        0
    }
}

/// Number of trailing whitespace characters of `s`.
pub open spec fn trailing_spaces(s: Seq<char>) -> nat
    decreases s.len(),
{
    if s.len() > 0 && is_space(s.last()) {
        1 + trailing_spaces(s.drop_last())
    } else {
        0
    }
}

/// `s` without whitespace at either end.
pub open spec fn trim(s: Seq<char>) -> Seq<char> {
    let t = s.subrange(leading_spaces(s) as int, s.len() as int);
    t.subrange(0, t.len() - trailing_spaces(t))
}

pub proof fn lemma_leading_spaces(s: Seq<char>)
    ensures
        leading_spaces(s) <= s.len(),
        forall|i: int| 0 <= i < leading_spaces(s) ==> is_space(#[trigger] s[i]),
        leading_spaces(s) < s.len() ==> !is_space(s[leading_spaces(s) as int]),
    decreases s.len(),
{
    if s.len() > 0 && is_space(s[0]) {
        lemma_leading_spaces(s.drop_first());
        assert forall|i: int| 0 <= i < leading_spaces(s) implies is_space(#[trigger] s[i]) by {
            if i > 0 {
                assert(s[i] == s.drop_first()[i - 1]);
            }
        }
    }
}

pub proof fn lemma_trailing_spaces(s: Seq<char>)
    ensures
        trailing_spaces(s) <= s.len(),
        forall|i: int| s.len() - trailing_spaces(s) <= i < s.len() ==> is_space(#[trigger] s[i]),
        trailing_spaces(s) < s.len() ==> !is_space(s[s.len() - trailing_spaces(s) - 1]),
    decreases s.len(),
{
    if s.len() > 0 && is_space(s.last()) {
        lemma_trailing_spaces(s.drop_last());
        assert forall|i: int| s.len() - trailing_spaces(s) <= i < s.len() implies is_space(
            #[trigger] s[i],
        ) by {
            if i < s.len() - 1 {
                assert(s[i] == s.drop_last()[i]);
            }
        }
    }
}

pub fn is_space_char(c: char) -> (r: bool)
    ensures
        r == is_space(c),
{
    ('\t' <= c && c <= '\r') || c == ' ' || c == '\u{85}' || c == '\u{A0}' || c == '\u{1680}' || (
    '\u{2000}' <= c && c <= '\u{200A}') || c == '\u{2028}' || c == '\u{2029}' || c == '\u{202F}'
        || c == '\u{205F}' || c == '\u{3000}'
}

/// Relies on std's `FromIterator<char>` for `String`: the string holds
/// exactly the given characters, in order.
#[verifier::external_body]
pub(crate) fn string_of(chars: &[char]) -> (r: String)
    ensures
        r@ == chars@,
{
    chars.iter().collect()
}

/// The characters of `s`, one by one.
pub fn chars_of(s: &str) -> (r: Vec<char>)
    ensures
        r@ == s@,
{
    let n = s.unicode_len();
    let mut r: Vec<char> = Vec::new();
    let mut i: usize = 0;
    while i < n
        invariant
            n == s@.len(),
            i <= n,
            r@ == s@.subrange(0, i as int),
        decreases n - i,
    {
        r.push(s.get_char(i));
        i = i + 1;
    }
    r
}

/// The characters of `s[from..to]` as a new vector.
pub fn slice_to_vec(s: &[char], from: usize, to: usize) -> (r: Vec<char>)
    requires
        from <= to <= s@.len(),
    ensures
        r@ == s@.subrange(from as int, to as int),
{
    let mut r: Vec<char> = Vec::new();
    let mut i: usize = from;
    while i < to
        invariant
            from <= i <= to <= s@.len(),
            r@ == s@.subrange(from as int, i as int),
        decreases to - i,
    {
        r.push(s[i]);
        i = i + 1;
    }
    r
}

/// Whether `s[at..]` begins with `label`.
pub fn has_prefix_at(s: &[char], at: usize, label: &[char]) -> (r: bool)
    requires
        at <= s@.len(),
    ensures
        r == (at + label@.len() <= s@.len() && s@.subrange(at as int, at + label@.len()) == label@),
{
    let n = s.len();
    if label.len() > n - at {
        return false;
    }
    let mut i: usize = 0;
    while i < label.len()
        invariant
            n == s@.len(),
            at + label@.len() <= s@.len(),
            i <= label@.len(),
            forall|j: int| 0 <= j < i ==> s@[at + j] == label@[j],
        decreases label@.len() - i,
    {
        assert(at + i < s@.len());
        if s[at + i] != label[i] {
            assert(s@.subrange(at as int, at + label@.len())[i as int] != label@[i as int]);
            return false;
        }
        i = i + 1;
    }
    assert(s@.subrange(at as int, at + label@.len()) =~= label@);
    true
}

/// Whether the line `line` is exactly `s`.
pub fn line_is(line: &[char], s: &str) -> (r: bool)
    ensures
        r == (line@ == s@),
{
    let t = chars_of(s);
    if line.len() != t.len() {
        return false;
    }
    let r = has_prefix_at(line, 0, t.as_slice());
    assert(line@.subrange(0, t@.len() as int) =~= line@);
    r
}

/// The views of a sequence of strings.
pub open spec fn lines_view(lines: Seq<String>) -> Seq<Seq<char>> {
    lines.map_values(|l: String| l@)
}

/// Start and end of `s[from..to]` once whitespace is trimmed from both ends.
pub fn trim_bounds(s: &[char], from: usize, to: usize) -> (r: (usize, usize))
    requires
        from <= to <= s@.len(),
    ensures
        from <= r.0 <= r.1 <= to,
        s@.subrange(r.0 as int, r.1 as int) == trim(s@.subrange(from as int, to as int)),
{
    let ghost f = s@.subrange(from as int, to as int);
    proof {
        lemma_leading_spaces(f);
    }
    let mut a: usize = from;
    while a < to && is_space_char(s[a])
        invariant
            from <= a <= to <= s@.len(),
            f == s@.subrange(from as int, to as int),
            a - from <= leading_spaces(f),
            leading_spaces(f) <= f.len(),
            forall|i: int| 0 <= i < leading_spaces(f) ==> is_space(#[trigger] f[i]),
            leading_spaces(f) < f.len() ==> !is_space(f[leading_spaces(f) as int]),
        decreases to - a,
    {
        assert(f[a - from] == s@[a as int]);
        a = a + 1;
    }
    assert(a - from == leading_spaces(f)) by {
        if a < to {
            assert(f[a - from] == s@[a as int]);
        }
    }
    let ghost t = f.subrange(leading_spaces(f) as int, f.len() as int);
    assert(t =~= s@.subrange(a as int, to as int));
    proof {
        lemma_trailing_spaces(t);
    }
    let mut b: usize = to;
    while b > a && is_space_char(s[b - 1])
        invariant
            from <= a <= b <= to <= s@.len(),
            t == s@.subrange(a as int, to as int),
            to - b <= trailing_spaces(t),
            trailing_spaces(t) <= t.len(),
            forall|i: int| t.len() - trailing_spaces(t) <= i < t.len() ==> is_space(#[trigger] t[i]),
            trailing_spaces(t) < t.len() ==> !is_space(t[t.len() - trailing_spaces(t) - 1]),
        decreases b,
    {
        assert(t[b - 1 - a] == s@[b - 1]);
        b = b - 1;
    }
    assert(to - b == trailing_spaces(t)) by {
        if b > a {
            assert(t[b - 1 - a] == s@[b - 1]);
        }
    }
    assert(s@.subrange(a as int, b as int) =~= trim(f));
    (a, b)
}

} // verus!
