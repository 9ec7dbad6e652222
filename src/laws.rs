//! Properties of the parsers as a whole.

use vstd::prelude::*;
use crate::document::{
    Expected,
    SyntaxErrorKind,
    date_at,
    decimal_value_at,
    document,
    find_literal,
    literal_at,
    number_at,
    parameter_at,
    record_at,
    syntax_error,
    join,
    match_len,
    record_line_at,
    records_from,
    resume_from,
    skip_ws,
    starts_at,
};
use crate::elements::{
    AD_LABEL,
    A_LABEL,
    EC_LABEL,
    ElementsState,
    EphemerisOrbitalElementsItem,
    IN_LABEL,
    MA_LABEL,
    N_LABEL,
    OM_LABEL,
    PR_LABEL,
    QR_LABEL,
    TA_LABEL,
    TP_LABEL,
    W_LABEL,
    elements_item,
    elements_next,
    elements_records,
    elements_run,
    elements_step,
};
use crate::error::ErrorModel;
use crate::fields::{row_texts, row_values};
use crate::text::{is_space, strip_label};
use crate::timestamp::{Timestamp, line_time};
use crate::vectors::{
    END_MARKER,
    EphemerisVectorItem,
    START_MARKER,
    Vector3,
    VectorState,
    VX_LABEL,
    VY_LABEL,
    VZ_LABEL,
    X_LABEL,
    Y_LABEL,
    Z_LABEL,
    after,
    vector_next,
    vector_records,
    vector_run,
    vector_step,
};

verus! {

/// The four lines of a well-formed state-vector record: a date line, the
/// position line, the velocity line and a last line that is not read.
pub open spec fn vector_block_ok(block: Seq<Seq<char>>) -> bool {
    &&& block.len() == 4
    &&& block[0] != END_MARKER@
    &&& line_time(block[0]) is Some
    &&& row_values(block[1], X_LABEL@, Y_LABEL@, Z_LABEL@) is Ok
    &&& row_values(block[2], VX_LABEL@, VY_LABEL@, VZ_LABEL@) is Ok
}

/// The record that a well-formed block of four lines stands for.
pub open spec fn vector_block_item(block: Seq<Seq<char>>) -> EphemerisVectorItem {
    let p = row_values(block[1], X_LABEL@, Y_LABEL@, Z_LABEL@)->Ok_0;
    let v = row_values(block[2], VX_LABEL@, VY_LABEL@, VZ_LABEL@)->Ok_0;
    EphemerisVectorItem {
        time: line_time(block[0])->Some_0,
        position: Vector3 { x: p.0, y: p.1, z: p.2 },
        velocity: Vector3 { x: v.0, y: v.1, z: v.2 },
    }
}

/// An input: lines before the start marker that are not it, the marker,
/// the records' lines, the end marker and whatever follows.
pub open spec fn framed(
    preamble: Seq<Seq<char>>,
    body: Seq<Seq<char>>,
    trailer: Seq<Seq<char>>,
) -> Seq<Seq<char>> {
    preamble + seq![START_MARKER@] + body + seq![END_MARKER@] + trailer
}

pub open spec fn no_start_marker(lines: Seq<Seq<char>>) -> bool {
    forall|i: int| 0 <= i < lines.len() ==> lines[i] != START_MARKER@
}

proof fn lemma_after_empty<T, E>(r: Result<Seq<T>, E>)
    ensures
        after(Seq::<T>::empty(), r) == r,
{
    match r {
        Ok(x) => {
            assert(Seq::<T>::empty() + x =~= x);
        },
        Err(_) => {},
    }
}

proof fn lemma_vector_preamble(preamble: Seq<Seq<char>>, rest: Seq<Seq<char>>)
    requires
        no_start_marker(preamble),
    ensures
        vector_run(VectorState::WaitingForSoe, preamble + rest) == vector_run(
            VectorState::WaitingForSoe,
            rest,
        ),
    decreases preamble.len(),
{
    if preamble.len() == 0 {
        assert(preamble + rest =~= rest);
    } else {
        let s = preamble + rest;
        assert(s[0] == preamble[0]);
        assert(s.drop_first() =~= preamble.drop_first() + rest);
        assert(no_start_marker(preamble.drop_first())) by {
            assert forall|i: int| 0 <= i < preamble.drop_first().len() implies preamble.drop_first()[i]
                != START_MARKER@ by {
                assert(preamble.drop_first()[i] == preamble[i + 1]);
            }
        }
        lemma_vector_preamble(preamble.drop_first(), rest);
        lemma_after_empty(vector_run(VectorState::WaitingForSoe, s.drop_first()));
    }
}

proof fn lemma_vector_blocks(blocks: Seq<Seq<Seq<char>>>, trailer: Seq<Seq<char>>)
    requires
        forall|i: int| 0 <= i < blocks.len() ==> vector_block_ok(#[trigger] blocks[i]),
    ensures
        vector_run(VectorState::WaitingForDate, blocks.flatten() + seq![END_MARKER@] + trailer)
            == Ok::<_, ErrorModel>(blocks.map_values(|b: Seq<Seq<char>>| vector_block_item(b))),
    decreases blocks.len(),
{
    let s = blocks.flatten() + seq![END_MARKER@] + trailer;
    if blocks.len() == 0 {
        assert(s[0] == END_MARKER@);
        lemma_after_empty(vector_run(VectorState::End, s.drop_first()));
        assert(blocks.map_values(|b: Seq<Seq<char>>| vector_block_item(b)) =~= Seq::empty());
    } else {
        let b = blocks[0];
        let rest = blocks.drop_first();
        assert(vector_block_ok(b));
        let s4 = rest.flatten() + seq![END_MARKER@] + trailer;
        assert(s =~= b + s4);
        let s1 = s.drop_first();
        let s2 = s1.drop_first();
        let s3 = s2.drop_first();
        assert(s[0] == b[0]);
        assert(s1[0] == b[1]);
        assert(s2[0] == b[2]);
        assert(s3[0] == b[3]);
        assert(s3.drop_first() =~= s4);
        assert forall|i: int| 0 <= i < rest.len() implies vector_block_ok(#[trigger] rest[i]) by {
            assert(rest[i] == blocks[i + 1]);
        }
        lemma_vector_blocks(rest, trailer);
        let item = vector_block_item(b);
        let items = rest.map_values(|b: Seq<Seq<char>>| vector_block_item(b));
        let time = item.time;
        let position = item.position;
        let velocity = item.velocity;
        assert(vector_step(VectorState::Complete { time, position, velocity }, s3[0]) == Ok::<
            _,
            ErrorModel,
        >((VectorState::WaitingForDate, Some(item))));
        assert(vector_run(VectorState::Complete { time, position, velocity }, s3) == Ok::<
            _,
            ErrorModel,
        >(seq![item] + items));
        lemma_after_empty(vector_run(VectorState::Complete { time, position, velocity }, s3));
        assert(vector_run(VectorState::Position { time, position }, s2) == Ok::<_, ErrorModel>(
            seq![item] + items,
        ));
        lemma_after_empty(vector_run(VectorState::Position { time, position }, s2));
        assert(vector_run(VectorState::Date { time }, s1) == Ok::<_, ErrorModel>(
            seq![item] + items,
        ));
        lemma_after_empty(vector_run(VectorState::Date { time }, s1));
        assert(blocks.map_values(|b: Seq<Seq<char>>| vector_block_item(b)) =~= seq![item]
            + items);
    }
}

/// A well-formed input with N state-vector records between the markers
/// yields exactly those N records, in the order of the input, each read
/// from its own four lines.
pub proof fn lemma_vector_records_in_order(
    preamble: Seq<Seq<char>>,
    blocks: Seq<Seq<Seq<char>>>,
    trailer: Seq<Seq<char>>,
)
    requires
        no_start_marker(preamble),
        forall|i: int| 0 <= i < blocks.len() ==> vector_block_ok(#[trigger] blocks[i]),
    ensures
        vector_records(framed(preamble, blocks.flatten(), trailer)) == Ok::<_, ErrorModel>(
            blocks.map_values(|b: Seq<Seq<char>>| vector_block_item(b)),
        ),
        vector_records(framed(preamble, blocks.flatten(), trailer))->Ok_0.len() == blocks.len(),
{
    let rest = blocks.flatten() + seq![END_MARKER@] + trailer;
    assert(framed(preamble, blocks.flatten(), trailer) =~= preamble + (seq![START_MARKER@]
        + rest));
    lemma_vector_preamble(preamble, seq![START_MARKER@] + rest);
    let s = seq![START_MARKER@] + rest;
    assert(s[0] == START_MARKER@);
    assert(s.drop_first() =~= rest);
    lemma_vector_blocks(blocks, trailer);
    lemma_after_empty(vector_run(VectorState::WaitingForDate, rest));
}

/// Reading is a function of the input alone: the same lines, or the same
/// text, give the same records or the same error every time.
pub proof fn lemma_parsing_is_repeatable(a: Seq<Seq<char>>, b: Seq<Seq<char>>, s: Seq<char>, t: Seq<char>)
    requires
        a == b,
        s == t,
    ensures
        vector_records(a) == vector_records(b),
        elements_records(a) == elements_records(b),
        document(s) == document(t),
{
}

proof fn lemma_elements_preamble(preamble: Seq<Seq<char>>, rest: Seq<Seq<char>>)
    requires
        no_start_marker(preamble),
    ensures
        elements_run(ElementsState::WaitingForSoe, preamble + rest) == elements_run(
            ElementsState::WaitingForSoe,
            rest,
        ),
    decreases preamble.len(),
{
    if preamble.len() == 0 {
        assert(preamble + rest =~= rest);
    } else {
        let s = preamble + rest;
        assert(s[0] == preamble[0]);
        assert(s.drop_first() =~= preamble.drop_first() + rest);
        assert(no_start_marker(preamble.drop_first())) by {
            assert forall|i: int| 0 <= i < preamble.drop_first().len() implies preamble.drop_first()[i]
                != START_MARKER@ by {
                assert(preamble.drop_first()[i] == preamble[i + 1]);
            }
        }
        lemma_elements_preamble(preamble.drop_first(), rest);
        lemma_after_empty(elements_run(ElementsState::WaitingForSoe, s.drop_first()));
    }
}

/// An empty block (the start marker directly followed by the end marker)
/// yields no records and no error, with either line-oriented parser.
pub proof fn lemma_empty_body(preamble: Seq<Seq<char>>, trailer: Seq<Seq<char>>)
    requires
        no_start_marker(preamble),
    ensures
        vector_records(framed(preamble, Seq::empty(), trailer)) == Ok::<_, ErrorModel>(
            Seq::<EphemerisVectorItem>::empty(),
        ),
        elements_records(framed(preamble, Seq::empty(), trailer)) is Ok,
        elements_records(framed(preamble, Seq::empty(), trailer))->Ok_0.len() == 0,
{
    let blocks = Seq::<Seq<Seq<char>>>::empty();
    assert(blocks.flatten() =~= Seq::<Seq<char>>::empty());
    lemma_vector_records_in_order(preamble, blocks, trailer);
    assert(blocks.map_values(|b: Seq<Seq<char>>| vector_block_item(b)) =~= Seq::empty());
    let rest = seq![END_MARKER@] + trailer;
    let s = seq![START_MARKER@] + rest;
    assert(framed(preamble, Seq::empty(), trailer) =~= preamble + s);
    lemma_elements_preamble(preamble, s);
    assert(s[0] == START_MARKER@);
    assert(s.drop_first() =~= rest);
    assert(rest[0] == END_MARKER@);
    lemma_after_empty(elements_run(ElementsState::End, rest.drop_first()));
    lemma_after_empty(elements_run(ElementsState::WaitingForDate, rest));
}

/// A data line is read only when each label stands exactly in its place: a
/// line that does not begin with the first label fails with
/// `UnexpectedLabel` naming that label, and any line that is read has all
/// three labels in place.
pub proof fn lemma_labels_in_place(line: Seq<char>, l1: Seq<char>, l2: Seq<char>, l3: Seq<char>)
    ensures
        strip_label(line, l1) is None ==> row_values(line, l1, l2, l3) == Err::<
            (crate::number::Decimal, crate::number::Decimal, crate::number::Decimal),
            _,
        >(ErrorModel::UnexpectedLabel { expected: l1, line }),
        row_values(line, l1, l2, l3) is Ok ==> row_texts(line, l1, l2, l3) is Ok,
{
    reveal(row_values);
}

/// In the state-vector parser, a position line whose first label is not
/// `" X ="` is refused with `UnexpectedLabel`, never read as a position.
pub proof fn lemma_position_label_checked(time: Timestamp, line: Seq<char>)
    requires
        strip_label(line, X_LABEL@) is None,
    ensures
        vector_step(VectorState::Date { time }, line) == Err::<
            (VectorState, Option<EphemerisVectorItem>),
            _,
        >(ErrorModel::UnexpectedLabel { expected: X_LABEL@, line }),
{
    reveal(row_values);
}

proof fn lemma_find_first(t: Seq<char>, p: nat, n: nat, lit: Seq<char>)
    requires
        p <= n < t.len(),
        starts_at(t, n, lit),
        forall|q: nat| p <= q < n ==> !#[trigger] starts_at(t, q, lit),
    ensures
        find_literal(t, p, lit) == n,
    decreases n - p,
{
    if p < n {
        lemma_find_first(t, p + 1, n, lit);
    }
}

proof fn lemma_match_whole(t: Seq<char>, p: nat, lit: Seq<char>, k: nat)
    requires
        starts_at(t, p, lit),
        k <= lit.len(),
    ensures
        match_len(t, p, lit, k) == lit.len(),
    decreases lit.len() - k,
{
    if k < lit.len() {
        assert(t.subrange(p as int, p + lit.len() as int)[k as int] == t[p + k as int]);
        lemma_match_whole(t, p, lit, k + 1);
    }
}

proof fn lemma_skip_gap(t: Seq<char>, p: nat, end: nat)
    requires
        p <= end < t.len(),
        !is_space(t[end as int]),
        forall|i: int| p <= i < end ==> is_space(#[trigger] t[i]),
    ensures
        skip_ws(t, p) == end,
    decreases end - p,
{
    if p < end {
        lemma_skip_gap(t, p + 1, end);
    }
}

/// A document whose first start marker is followed, across whitespace
/// only, by the end marker holds no records and reads without error,
/// whatever text comes before the start marker and after the end marker.
pub proof fn lemma_empty_document(preamble: Seq<char>, gap: Seq<char>, trailer: Seq<char>)
    requires
        forall|q: nat|
            q < preamble.len() ==> !#[trigger] starts_at(
                preamble + START_MARKER@,
                q,
                START_MARKER@,
            ),
        forall|i: int| 0 <= i < gap.len() ==> is_space(#[trigger] gap[i]),
    ensures
        document(preamble + START_MARKER@ + gap + END_MARKER@ + trailer) == Ok::<
            _,
            Seq<crate::document::GrammarSyntaxError>,
        >(Seq::<EphemerisOrbitalElementsItem>::empty()),
{
    reveal_strlit("$$SOE");
    reveal_strlit("$$EOE");
    let u = preamble + START_MARKER@;
    let t = preamble + START_MARKER@ + gap + END_MARKER@ + trailer;
    let n = preamble.len();
    let q = n + START_MARKER@.len();
    let r = q + gap.len();
    assert(t.subrange(n as int, q as int) =~= START_MARKER@);
    assert(t.subrange(r as int, r + END_MARKER@.len() as int) =~= END_MARKER@);
    assert(t[r as int] == '$');
    assert forall|p: nat| 0 <= p < n implies !#[trigger] starts_at(t, p, START_MARKER@) by {
        assert(t.subrange(p as int, p as int + 5) =~= u.subrange(p as int, p as int + 5));
        assert(!starts_at(u, p, START_MARKER@));
    }
    lemma_find_first(t, 0, n, START_MARKER@);
    lemma_match_whole(t, n, START_MARKER@, 0);
    assert forall|i: int| q <= i < r implies is_space(#[trigger] t[i]) by {
        assert(t[i] == gap[i - q]);
    }
    lemma_skip_gap(t, q, r);
    assert(starts_at(t, r, END_MARKER@));
}

/// One call of the state-vector parser's `next` agrees with reading all
/// records at once: `None` where the rest reads as no records, the error
/// where the rest fails with it, and a record where the rest reads as that
/// record followed by what the later calls read.
pub proof fn lemma_vector_next_agrees(state: VectorState, lines: Seq<Seq<char>>, pos: nat)
    requires
        pos <= lines.len(),
    ensures
        ({
            let (next, p, out) = vector_next(state, lines, pos);
            let rest = lines.subrange(pos as int, lines.len() as int);
            &&& pos <= p <= lines.len()
            &&& out is None ==> vector_run(state, rest) == Ok::<_, ErrorModel>(
                Seq::<EphemerisVectorItem>::empty(),
            )
            &&& (out matches Some(Err(e)) ==> vector_run(state, rest) == Err::<
                Seq<EphemerisVectorItem>,
                _,
            >(e))
            &&& (out matches Some(Ok(item)) ==> pos < p && vector_run(state, rest) == after(
                seq![item],
                vector_run(next, lines.subrange(p as int, lines.len() as int)),
            ))
        }),
    decreases lines.len() - pos,
{
    let rest = lines.subrange(pos as int, lines.len() as int);
    if !(state is End) && pos < lines.len() {
        assert(rest[0] == lines[pos as int]);
        assert(rest.drop_first() =~= lines.subrange(pos as int + 1, lines.len() as int));
        match vector_step(state, lines[pos as int]) {
            Err(_) => {},
            Ok((next, Some(item))) => {},
            Ok((next, None)) => {
                lemma_vector_next_agrees(next, lines, pos + 1);
                lemma_after_empty(vector_run(next, rest.drop_first()));
            },
        }
    }
}

/// One call of the orbital-element parser's `next` agrees with reading all
/// records at once, as for state vectors.
pub proof fn lemma_elements_next_agrees(state: ElementsState, lines: Seq<Seq<char>>, pos: nat)
    requires
        pos <= lines.len(),
    ensures
        ({
            let (next, p, out) = elements_next(state, lines, pos);
            let rest = lines.subrange(pos as int, lines.len() as int);
            &&& pos <= p <= lines.len()
            &&& out is None ==> elements_run(state, rest) == Ok::<_, ErrorModel>(
                Seq::<EphemerisOrbitalElementsItem>::empty(),
            )
            &&& (out matches Some(Err(e)) ==> elements_run(state, rest) == Err::<
                Seq<EphemerisOrbitalElementsItem>,
                _,
            >(e))
            &&& (out matches Some(Ok(item)) ==> pos < p && elements_run(state, rest) == after(
                seq![item],
                elements_run(next, lines.subrange(p as int, lines.len() as int)),
            ))
        }),
    decreases lines.len() - pos,
{
    let rest = lines.subrange(pos as int, lines.len() as int);
    if !(state is End) && pos < lines.len() {
        assert(rest[0] == lines[pos as int]);
        assert(rest.drop_first() =~= lines.subrange(pos as int + 1, lines.len() as int));
        match elements_step(state, lines[pos as int]) {
            Err(_) => {},
            Ok((next, Some(item))) => {},
            Ok((next, None)) => {
                lemma_elements_next_agrees(next, lines, pos + 1);
                lemma_after_empty(elements_run(next, rest.drop_first()));
            },
        }
    }
}

/// The five lines of a well-formed orbital-element record: a date line and
/// four data lines.
pub open spec fn elements_block_ok(block: Seq<Seq<char>>) -> bool {
    &&& block.len() == 5
    &&& block[0] != END_MARKER@
    &&& line_time(block[0]) is Some
    &&& row_values(block[1], EC_LABEL@, QR_LABEL@, IN_LABEL@) is Ok
    &&& row_values(block[2], OM_LABEL@, W_LABEL@, TP_LABEL@) is Ok
    &&& row_values(block[3], N_LABEL@, MA_LABEL@, TA_LABEL@) is Ok
    &&& row_values(block[4], A_LABEL@, AD_LABEL@, PR_LABEL@) is Ok
}

/// The record that a well-formed block of five lines stands for.
pub open spec fn elements_block_item(block: Seq<Seq<char>>) -> EphemerisOrbitalElementsItem {
    elements_item(
        line_time(block[0])->Some_0,
        row_values(block[1], EC_LABEL@, QR_LABEL@, IN_LABEL@)->Ok_0,
        row_values(block[2], OM_LABEL@, W_LABEL@, TP_LABEL@)->Ok_0,
        row_values(block[3], N_LABEL@, MA_LABEL@, TA_LABEL@)->Ok_0,
        row_values(block[4], A_LABEL@, AD_LABEL@, PR_LABEL@)->Ok_0,
    )
}

proof fn lemma_elements_blocks(blocks: Seq<Seq<Seq<char>>>, trailer: Seq<Seq<char>>)
    requires
        forall|i: int| 0 <= i < blocks.len() ==> elements_block_ok(#[trigger] blocks[i]),
    ensures
        elements_run(ElementsState::WaitingForDate, blocks.flatten() + seq![END_MARKER@] + trailer)
            == Ok::<_, ErrorModel>(
            blocks.map_values(|b: Seq<Seq<char>>| elements_block_item(b)),
        ),
    decreases blocks.len(),
{
    let s = blocks.flatten() + seq![END_MARKER@] + trailer;
    if blocks.len() == 0 {
        assert(s[0] == END_MARKER@);
        lemma_after_empty(elements_run(ElementsState::End, s.drop_first()));
        assert(blocks.map_values(|b: Seq<Seq<char>>| elements_block_item(b)) =~= Seq::empty());
    } else {
        let b = blocks[0];
        let rest = blocks.drop_first();
        assert(elements_block_ok(b));
        let s5 = rest.flatten() + seq![END_MARKER@] + trailer;
        assert(s =~= b + s5);
        let s1 = s.drop_first();
        let s2 = s1.drop_first();
        let s3 = s2.drop_first();
        let s4 = s3.drop_first();
        assert(s[0] == b[0]);
        assert(s1[0] == b[1]);
        assert(s2[0] == b[2]);
        assert(s3[0] == b[3]);
        assert(s4[0] == b[4]);
        assert(s4.drop_first() =~= s5);
        assert forall|i: int| 0 <= i < rest.len() implies elements_block_ok(#[trigger] rest[i]) by {
            assert(rest[i] == blocks[i + 1]);
        }
        lemma_elements_blocks(rest, trailer);
        let item = elements_block_item(b);
        let items = rest.map_values(|b: Seq<Seq<char>>| elements_block_item(b));
        let time = line_time(b[0])->Some_0;
        let first = row_values(b[1], EC_LABEL@, QR_LABEL@, IN_LABEL@)->Ok_0;
        let second = row_values(b[2], OM_LABEL@, W_LABEL@, TP_LABEL@)->Ok_0;
        let third = row_values(b[3], N_LABEL@, MA_LABEL@, TA_LABEL@)->Ok_0;
        let st3 = ElementsState::ThirdRow { time, first, second, third };
        let st2 = ElementsState::SecondRow { time, first, second };
        let st1 = ElementsState::FirstRow { time, first };
        let st0 = ElementsState::Date { time };
        assert(elements_step(st3, s4[0]) == Ok::<_, ErrorModel>(
            (ElementsState::WaitingForDate, Some(item)),
        ));
        assert(elements_run(st3, s4) == Ok::<_, ErrorModel>(seq![item] + items));
        lemma_after_empty(elements_run(st3, s4));
        assert(elements_run(st2, s3) == Ok::<_, ErrorModel>(seq![item] + items));
        lemma_after_empty(elements_run(st2, s3));
        assert(elements_run(st1, s2) == Ok::<_, ErrorModel>(seq![item] + items));
        lemma_after_empty(elements_run(st1, s2));
        assert(elements_run(st0, s1) == Ok::<_, ErrorModel>(seq![item] + items));
        lemma_after_empty(elements_run(st0, s1));
        assert(blocks.map_values(|b: Seq<Seq<char>>| elements_block_item(b)) =~= seq![item]
            + items);
    }
}

/// A well-formed input with N orbital-element records between the markers
/// yields exactly those N records, in the order of the input, each read
/// from its own five lines.
pub proof fn lemma_elements_records_in_order(
    preamble: Seq<Seq<char>>,
    blocks: Seq<Seq<Seq<char>>>,
    trailer: Seq<Seq<char>>,
)
    requires
        no_start_marker(preamble),
        forall|i: int| 0 <= i < blocks.len() ==> elements_block_ok(#[trigger] blocks[i]),
    ensures
        elements_records(framed(preamble, blocks.flatten(), trailer)) == Ok::<_, ErrorModel>(
            blocks.map_values(|b: Seq<Seq<char>>| elements_block_item(b)),
        ),
        elements_records(framed(preamble, blocks.flatten(), trailer))->Ok_0.len()
            == blocks.len(),
{
    let rest = blocks.flatten() + seq![END_MARKER@] + trailer;
    assert(framed(preamble, blocks.flatten(), trailer) =~= preamble + (seq![START_MARKER@]
        + rest));
    lemma_elements_preamble(preamble, seq![START_MARKER@] + rest);
    let s = seq![START_MARKER@] + rest;
    assert(s[0] == START_MARKER@);
    assert(s.drop_first() =~= rest);
    lemma_elements_blocks(blocks, trailer);
    lemma_after_empty(elements_run(ElementsState::WaitingForDate, rest));
}

proof fn lemma_resume_bounds(t: Seq<char>, q: nat)
    requires
        q <= t.len(),
    ensures
        q <= resume_from(t, q) <= t.len(),
    decreases t.len() - q,
{
    if q < t.len() {
        lemma_resume_bounds(t, q + 1);
    }
}

/// A record of a document that breaks the grammar is reported with its
/// first syntax error, ahead of any later one, and reading goes on at the
/// next line that may begin a record: the records and errors after it are
/// those read from there.
pub proof fn lemma_bad_record_reported(t: Seq<char>, p: nat)
    requires
        p < t.len(),
        !starts_at(t, p, END_MARKER@),
        record_line_at(t, p) is Err,
    ensures
        p < resume_from(t, p + 1) <= t.len(),
        records_from(t, p) == join(
            (Seq::empty(), seq![record_line_at(t, p)->Err_0]),
            records_from(t, resume_from(t, p + 1)),
        ),
        records_from(t, p).1.len() > 0,
        records_from(t, p).1[0] == record_line_at(t, p)->Err_0,
{
    lemma_resume_bounds(t, p + 1);
}

/// A parameter whose name and `=` stand in place but whose value is not a
/// number is refused with an error at the value's first character.
pub proof fn lemma_bad_value_located(t: Seq<char>, p: nat, name: Seq<char>, q: nat, r: nat)
    requires
        literal_at(t, skip_ws(t, p), name) == Ok::<nat, crate::document::GrammarSyntaxError>(q),
        literal_at(t, skip_ws(t, q), "="@) == Ok::<nat, crate::document::GrammarSyntaxError>(r),
        decimal_value_at(t, skip_ws(t, r)) is None,
    ensures
        parameter_at(t, p, name) == Err::<(crate::number::Decimal, nat), _>(
            syntax_error(t, skip_ws(t, r), Some(Expected::Number), SyntaxErrorKind::InvalidNumber),
        ),
{
}

/// In a record whose first line reads (its Julian day, `=` and date), an
/// eccentricity value that is not a number makes the record fail with an
/// error at the value's first character, which the document then reports.
pub proof fn lemma_bad_eccentricity_located(t: Seq<char>, p: nat, q: nat, r: nat)
    requires
        number_at(t, p) is Ok,
        literal_at(t, skip_ws(t, number_at(t, p)->Ok_0.1), "="@) is Ok,
        date_at(t, skip_ws(t, literal_at(t, skip_ws(t, number_at(t, p)->Ok_0.1), "="@)->Ok_0))
            is Ok,
        literal_at(
            t,
            skip_ws(
                t,
                date_at(
                    t,
                    skip_ws(t, literal_at(t, skip_ws(t, number_at(t, p)->Ok_0.1), "="@)->Ok_0),
                )->Ok_0.1,
            ),
            "EC"@,
        ) == Ok::<nat, crate::document::GrammarSyntaxError>(q),
        literal_at(t, skip_ws(t, q), "="@) == Ok::<nat, crate::document::GrammarSyntaxError>(r),
        decimal_value_at(t, skip_ws(t, r)) is None,
    ensures
        record_line_at(t, p) == Err::<(EphemerisOrbitalElementsItem, nat), _>(
            syntax_error(t, skip_ws(t, r), Some(Expected::Number), SyntaxErrorKind::InvalidNumber),
        ),
{
    reveal(record_at);
    let q3 = date_at(
        t,
        skip_ws(t, literal_at(t, skip_ws(t, number_at(t, p)->Ok_0.1), "="@)->Ok_0),
    )->Ok_0.1;
    lemma_bad_value_located(t, q3, "EC"@, q, r);
}

} // verus!
