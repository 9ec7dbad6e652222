//! Decimal numbers in the notation of the ephemeris fields: an optional sign,
//! digits with an optional decimal point, and an optional exponent introduced
//! by `E` with its own optional sign.

use vstd::prelude::*;

verus! {

/// A number written in decimal notation, kept exactly:
/// `(-1)^negative * mantissa * 10^exponent`.
#[derive(Clone, Copy, Debug, PartialEq, Eq, Structural)]
pub struct Decimal {
    pub negative: bool,
    pub mantissa: u128,
    pub exponent: i32,
}

pub open spec fn is_digit(c: char) -> bool {
    '0' <= c && c <= '9'
}

pub open spec fn digit_value(c: char) -> nat {
    (c as u32 - '0' as u32) as nat
}

/// The value of a string of decimal digits (zero for the empty string).
pub open spec fn digits_value(s: Seq<char>) -> nat
    decreases s.len(),
{
    if s.len() == 0 {
        0
    } else {
        digits_value(s.drop_last()) * 10 + digit_value(s.last())
    }
}

/// Number of leading decimal digits of `s`.
pub open spec fn digit_run(s: Seq<char>) -> nat
    decreases s.len(),
{
    if s.len() > 0 && is_digit(s[0]) {
        1 + digit_run(s.drop_first())
    } else {
        0
    }
}

/// Length of the optional sign at the front of `s`.
pub open spec fn sign_len(s: Seq<char>) -> nat {
    if s.len() > 0 && (s[0] == '+' || s[0] == '-') {
        1
    } else {
        0
    }
}

/// Whether `w`, the text after `E`, is a signed exponent with at least one digit.
pub open spec fn exponent_ok(w: Seq<char>) -> bool {
    let d = w.subrange(sign_len(w) as int, w.len() as int);
    d.len() > 0 && digit_run(d) == d.len()
}

pub open spec fn exponent_value(w: Seq<char>) -> int {
    let d = w.subrange(sign_len(w) as int, w.len() as int);
    if w.len() > 0 && w[0] == '-' {
        -digits_value(d)
    } else {
        digits_value(d) as int
    }
}

/// The digits before the decimal point, the digits after it, and what
/// follows them, of the unsigned text `t`.
pub open spec fn split_mantissa(t: Seq<char>) -> (Seq<char>, Seq<char>, Seq<char>) {
    let int_part = t.subrange(0, digit_run(t) as int);
    let u = t.subrange(digit_run(t) as int, t.len() as int);
    let after_point = u.subrange(1, u.len() as int);
    if u.len() > 0 && u[0] == '.' {
        (
            int_part,
            after_point.subrange(0, digit_run(after_point) as int),
            after_point.subrange(digit_run(after_point) as int, after_point.len() as int),
        )
    } else {
        (int_part, Seq::<char>::empty(), u)
    }
}

/// Sign, digits (before and after the point, together) and power of ten
/// of the last digit of the decimal number that `s` spells out, or `None`
/// where `s` is not such a number.
pub open spec fn decimal_parts(s: Seq<char>) -> Option<(bool, Seq<char>, int)> {
    let negative = s.len() > 0 && s[0] == '-';
    let (int_part, frac, v) = split_mantissa(s.subrange(sign_len(s) as int, s.len() as int));
    if int_part.len() + frac.len() == 0 {
        None
    } else if v.len() == 0 {
        Some((negative, int_part + frac, -frac.len()))
    } else if v[0] == 'E' && exponent_ok(v.subrange(1, v.len() as int)) {
        Some((negative, int_part + frac, exponent_value(v.subrange(1, v.len() as int)) - frac.len()))
    } else {
        None
    }
}

/// Length of the longest prefix of the digits `s` whose value fits in `u128`.
pub open spec fn fit_len(s: Seq<char>) -> nat
    decreases s.len(),
{
    if digits_value(s) <= u128::MAX || s.len() == 0 {
        s.len()
    } else {
        fit_len(s.drop_last())
    }
}

/// `e`, or the nearest bound of `i32` where it lies beyond.
pub open spec fn clamp_i32(e: int) -> i32 {
    if e < i32::MIN {
        i32::MIN
    } else if e > i32::MAX {
        i32::MAX
    } else {
        e as i32
    }
}

/// The `Decimal` that `s` spells out. Where the digits exceed `u128`, the
/// longest leading run that fits is kept and the power of ten grows by one
/// for each digit dropped (the number is cut toward zero); a power of ten
/// beyond `i32` is clamped to its bound (as a 32-bit float such a number is
/// already infinite or zero).
pub open spec fn decimal_value(s: Seq<char>) -> Option<Decimal> {
    match decimal_parts(s) {
        Some((negative, digits, exponent)) => {
            let k = fit_len(digits);
            Some(
                Decimal {
                    negative,
                    mantissa: digits_value(digits.subrange(0, k as int)) as u128,
                    exponent: clamp_i32(exponent + digits.len() - k),
                },
            )
        },
        None => None,
    }
}

proof fn lemma_fit_len(s: Seq<char>)
    ensures
        fit_len(s) <= s.len(),
        digits_value(s.subrange(0, fit_len(s) as int)) <= u128::MAX,
    decreases s.len(),
{
    if digits_value(s) <= u128::MAX || s.len() == 0 {
        assert(s.subrange(0, s.len() as int) =~= s);
    } else {
        lemma_fit_len(s.drop_last());
        assert(s.drop_last().subrange(0, fit_len(s) as int) =~= s.subrange(0, fit_len(s) as int));
    }
}

pub proof fn lemma_digit_run(s: Seq<char>)
    ensures
        digit_run(s) <= s.len(),
        forall|i: int| 0 <= i < digit_run(s) ==> is_digit(#[trigger] s[i]),
        digit_run(s) < s.len() ==> !is_digit(s[digit_run(s) as int]),
    decreases s.len(),
{
    if s.len() > 0 && is_digit(s[0]) {
        lemma_digit_run(s.drop_first());
        assert forall|i: int| 0 <= i < digit_run(s) implies is_digit(#[trigger] s[i]) by {
            if i > 0 {
                assert(s[i] == s.drop_first()[i - 1]);
            }
        }
    }
}

proof fn lemma_digits_push(s: Seq<char>, c: char)
    ensures
        digits_value(s.push(c)) == digits_value(s) * 10 + digit_value(c),
{
    assert(s.push(c).drop_last() =~= s);
}

pub fn is_digit_char(c: char) -> (r: bool)
    ensures
        r == is_digit(c),
{
    '0' <= c && c <= '9'
}

/// Index of the first character at or after `from` (and before `to`) that is
/// not a decimal digit, or `to`.
fn scan_digits(s: &[char], from: usize, to: usize) -> (r: usize)
    requires
        from <= to <= s@.len(),
    ensures
        r - from == digit_run(s@.subrange(from as int, to as int)),
        from <= r <= to,
        forall|k: int| from <= k < r ==> is_digit(#[trigger] s@[k]),
{
    let ghost t = s@.subrange(from as int, to as int);
    proof {
        lemma_digit_run(t);
    }
    let mut i: usize = from;
    while i < to && is_digit_char(s[i])
        invariant
            from <= i <= to <= s@.len(),
            t == s@.subrange(from as int, to as int),
            i - from <= digit_run(t),
            forall|k: int| 0 <= k < digit_run(t) ==> is_digit(#[trigger] t[k]),
            digit_run(t) < t.len() ==> !is_digit(t[digit_run(t) as int]),
        decreases to - i,
    {
        assert(t[i - from] == s@[i as int]);
        i = i + 1;
    }
    assert forall|k: int| from <= k < i implies is_digit(#[trigger] s@[k]) by {
        assert(t[k - from] == s@[k]);
    }
    if i < to {
        assert(t[i - from] == s@[i as int]);
    }
    i
}

/// What has been kept of the digits `digs`: their longest leading run that
/// fits in `u128` has value `m`, and `dropped` digits follow it.
pub open spec fn kept(digs: Seq<char>, m: u128, dropped: nat) -> bool {
    &&& m == digits_value(digs.subrange(0, fit_len(digs) as int))
    &&& dropped == digs.len() - fit_len(digs)
    &&& fit_len(digs) <= digs.len()
}

/// Feeds the digits of `s[from..to]` into `m`, keeping the longest leading
/// run that fits in `u128` and counting the digits dropped after it.
fn accumulate(s: &[char], from: usize, to: usize, m: u128, dropped: usize, Ghost(digs): Ghost<
    Seq<char>,
>) -> (r: (u128, usize))
    requires
        from <= to <= s@.len(),
        digs.len() + (to - from) <= s@.len(),
        forall|k: int| from <= k < to ==> is_digit(#[trigger] s@[k]),
        kept(digs, m, dropped as nat),
    ensures
        kept(digs + s@.subrange(from as int, to as int), r.0, r.1 as nat),
{
    let mut m = m;
    let mut dropped = dropped;
    let mut i: usize = from;
    while i < to
        invariant
            from <= i <= to <= s@.len(),
            digs.len() + (to - from) <= s@.len(),
            forall|k: int| from <= k < to ==> is_digit(#[trigger] s@[k]),
            kept(digs + s@.subrange(from as int, i as int), m, dropped as nat),
        decreases to - i,
    {
        let ghost before = digs + s@.subrange(from as int, i as int);
        let ghost after = before.push(s@[i as int]);
        assert(digs + s@.subrange(from as int, i + 1) =~= after);
        assert(after.drop_last() =~= before);
        proof {
            lemma_digits_push(before, s@[i as int]);
            lemma_fit_len(before);
        }
        let d = (s[i] as u32 - '0' as u32) as u128;
        if dropped > 0 {
            assert(digits_value(before) > u128::MAX);
            assert(after.subrange(0, fit_len(before) as int) =~= before.subrange(
                0,
                fit_len(before) as int,
            ));
            dropped = dropped + 1;
        } else {
            assert(before.subrange(0, before.len() as int) =~= before);
            match m.checked_mul(10) {
                Some(m10) => match m10.checked_add(d) {
                    Some(m2) => {
                        m = m2;
                        assert(after.subrange(0, after.len() as int) =~= after);
                    },
                    None => {
                        dropped = 1;
                    },
                },
                None => {
                    dropped = 1;
                },
            }
        }
        i = i + 1;
    }
    (m, dropped)
}

/// Reads the unsigned digits of `s[from..to]`, with their optional decimal
/// point: the lengths of the two digit runs, where they end, the value of
/// the digits kept and the number of digits dropped.
fn read_mantissa(s: &[char], from: usize, to: usize) -> (r: (usize, usize, usize, u128, usize))
    requires
        from <= to <= s@.len(),
    ensures
        ({
            let (int_part, frac, v) = split_mantissa(s@.subrange(from as int, to as int));
            &&& r.0 == int_part.len()
            &&& r.1 == frac.len()
            &&& from <= r.2 <= to
            &&& v == s@.subrange(r.2 as int, to as int)
            &&& kept(int_part + frac, r.3, r.4 as nat)
        }),
{
    let ghost t = s@.subrange(from as int, to as int);
    let int_end = scan_digits(s, from, to);
    proof {
        lemma_digit_run(t);
    }
    let ghost int_part = t.subrange(0, digit_run(t) as int);
    assert(int_part =~= s@.subrange(from as int, int_end as int));
    let ghost u = t.subrange(digit_run(t) as int, t.len() as int);
    assert(u =~= s@.subrange(int_end as int, to as int));
    assert(int_part =~= Seq::<char>::empty() + s@.subrange(from as int, int_end as int));
    assert(kept(Seq::<char>::empty(), 0, 0)) by {
        assert(Seq::<char>::empty().subrange(0, 0) =~= Seq::<char>::empty());
    }
    let (m, dropped) = accumulate(s, from, int_end, 0, 0, Ghost(Seq::<char>::empty()));
    if int_end < to && s[int_end] == '.' {
        let ghost after_point = u.subrange(1, u.len() as int);
        assert(after_point =~= s@.subrange(int_end + 1, to as int));
        let frac_end = scan_digits(s, int_end + 1, to);
        proof {
            lemma_digit_run(after_point);
        }
        let ghost frac = after_point.subrange(0, digit_run(after_point) as int);
        assert(frac =~= s@.subrange(int_end + 1, frac_end as int));
        let r = accumulate(s, int_end + 1, frac_end, m, dropped, Ghost(int_part));
        assert(after_point.subrange(digit_run(after_point) as int, after_point.len() as int)
            =~= s@.subrange(frac_end as int, to as int));
        (int_end - from, frac_end - int_end - 1, frac_end, r.0, r.1)
    } else {
        assert(int_part + Seq::<char>::empty() =~= int_part);
        (int_end - from, 0, int_end, m, dropped)
    }
}

/// The bound that `read_exponent` holds exponents to.
pub open spec fn exponent_cap() -> int {
    0x40_0000_0000_0000_0000
}

/// Reads the exponent `s[from..to]` that follows an `E`, held to within
/// 2^70 of zero; `None` where it is malformed.
fn read_exponent(s: &[char], from: usize, to: usize) -> (r: Option<i128>)
    requires
        from <= to <= s@.len(),
    ensures
        ({
            let w = s@.subrange(from as int, to as int);
            match r {
                Some(e) => exponent_ok(w) && -exponent_cap() <= e <= exponent_cap() && (
                -exponent_cap() < exponent_value(w) < exponent_cap() ==> e == exponent_value(w))
                    && (exponent_value(w) >= exponent_cap() ==> e == exponent_cap()) && (
                exponent_value(w) <= -exponent_cap() ==> e == -exponent_cap()),
                None => !exponent_ok(w),
            }
        }),
{
    let ghost w = s@.subrange(from as int, to as int);
    let mut k: usize = from;
    let negative = k < to && s[k] == '-';
    if k < to && (s[k] == '+' || s[k] == '-') {
        k = k + 1;
    }
    let ghost d = w.subrange(sign_len(w) as int, w.len() as int);
    assert(d =~= s@.subrange(k as int, to as int));
    let end = scan_digits(s, k, to);
    proof {
        lemma_digit_run(d);
    }
    if end == k || end != to {
        return None;
    }
    assert(d =~= Seq::<char>::empty() + s@.subrange(k as int, to as int));
    assert(kept(Seq::<char>::empty(), 0, 0)) by {
        assert(Seq::<char>::empty().subrange(0, 0) =~= Seq::<char>::empty());
    }
    let (e, dropped) = accumulate(s, k, to, 0, 0, Ghost(Seq::<char>::empty()));
    proof {
        if dropped == 0 {
            assert(d.subrange(0, d.len() as int) =~= d);
        } else {
            lemma_fit_len(d);
            assert(digits_value(d) > u128::MAX);
        }
    }
    let magnitude: i128 = if dropped > 0 || e >= 0x40_0000_0000_0000_0000 {
        0x40_0000_0000_0000_0000
    } else {
        e as i128
    };
    if negative {
        Some(0 - magnitude)
    } else {
        Some(magnitude)
    }
}

fn clamp_exponent(e: i128) -> (r: i32)
    ensures
        r == clamp_i32(e as int),
{
    if e < -2147483648 {
        -2147483648
    } else if e > 2147483647 {
        2147483647
    } else {
        e as i32
    }
}

/// Reads `s[from..to]` as a decimal number.
pub fn parse_decimal(s: &[char], from: usize, to: usize) -> (r: Option<Decimal>)
    requires
        from <= to <= s@.len(),
    ensures
        r == decimal_value(s@.subrange(from as int, to as int)),
{
    let ghost f = s@.subrange(from as int, to as int);
    let negative = from < to && s[from] == '-';
    let mut i: usize = from;
    if from < to && (s[from] == '+' || s[from] == '-') {
        i = i + 1;
    }
    assert(f.subrange(sign_len(f) as int, f.len() as int) =~= s@.subrange(i as int, to as int));
    let (int_len, frac_len, j, m, dropped) = read_mantissa(s, i, to);
    if int_len == 0 && frac_len == 0 {
        return None;
    }
    let shift: i128 = dropped as i128 - frac_len as i128;
    if j == to {
        return Some(Decimal { negative, mantissa: m, exponent: clamp_exponent(shift) });
    }
    if s[j] != 'E' {
        return None;
    }
    assert(s@.subrange(j as int, to as int).subrange(1, to - j) =~= s@.subrange(j + 1, to as int));
    match read_exponent(s, j + 1, to) {
        None => None,
        Some(e) => Some(Decimal { negative, mantissa: m, exponent: clamp_exponent(e + shift) }),
    }
}

} // verus!
