use vstd::prelude::*;
use crate::builder::FSOBuilderListState;
use crate::error::{ErrorView, GobbleView};
use crate::grammar::{
    finish_field, named_step, note_slot, open_slot, parse_spec, record_fields, record_start,
    scan_if_needed, step_over, Pending, RecordState,
};
use crate::laws::{lemma_no_newlines, lemma_scalar_round_trip, scalar_fits};
use crate::lexer::{
    count_newlines, inline_space_len, is_inline_space, lemma_count_newlines_concat,
    lemma_settled_scan, scan, settled, starts_with, Position, Scan,
};
use crate::schema::{FieldDescriptor, RecordSchema, ScalarKind, ValueShape};
use crate::tables::plain;
use crate::value::Val;
use crate::writer::{field_text, fields_text, record_text, spew_text, table_head, table_tail};

verus! {

/// A character with which no white space, comment or version marker begins.
pub open spec fn plain_start(c: char) -> bool {
    !is_inline_space(c, Seq::<char>::empty()) && c != '\n' && c != ';' && c != '/' && c != '!'
}

/// A token that a scan leaves in place: it begins with a plain character.
pub open spec fn findable(token: Seq<char>) -> bool {
    token.len() > 0 && plain_start(token[0])
}

/// The value `v` of `shape` is read back from its text where that stands
/// between two spaces: the value is read, nothing is carried on, and the
/// cursor is left before the second space.
pub open spec fn reads_back(shape: ValueShape, v: Val, lists: Seq<FSOBuilderListState>) -> bool {
    forall|tail: Seq<char>, line: nat|
        (#[trigger] parse_spec(
            shape,
            Position { rest: " "@ + (spew_text(shape, v, lists) + (" "@ + tail)), line },
            None,
        )).result == Ok::<(Val, Option<GobbleView>), ErrorView>((v, None)) && parse_spec(
            shape,
            Position { rest: " "@ + (spew_text(shape, v, lists) + (" "@ + tail)), line },
            None,
        ).pos.rest == " "@ + tail
}

/// A value behind a pointer is read back where the value itself is.
pub proof fn lemma_wrapper_reads_back(inner: ValueShape, v: Val, lists: Seq<FSOBuilderListState>)
    requires
        reads_back(inner, v, lists),
    ensures
        reads_back(ValueShape::Wrapper(Box::new(inner)), Val::Wrapper(Box::new(v)), lists),
{
    let shape = ValueShape::Wrapper(Box::new(inner));
    let wrapped = Val::Wrapper(Box::new(v));
    assert(spew_text(shape, wrapped, lists) == spew_text(inner, v, lists));
    assert forall|tail: Seq<char>, line: nat|
        (#[trigger] parse_spec(
            shape,
            Position { rest: " "@ + (spew_text(shape, wrapped, lists) + (" "@ + tail)), line },
            None,
        )).result == Ok::<(Val, Option<GobbleView>), ErrorView>((wrapped, None)) && parse_spec(
            shape,
            Position { rest: " "@ + (spew_text(shape, wrapped, lists) + (" "@ + tail)), line },
            None,
        ).pos.rest == " "@ + tail by {
        let p = Position { rest: " "@ + (spew_text(inner, v, lists) + (" "@ + tail)), line };
        assert(parse_spec(inner, p, None).result == Ok::<(Val, Option<GobbleView>), ErrorView>(
            (v, None),
        ));
    }
}

/// An optional value that is there is read back where the value itself is.
pub proof fn lemma_present_reads_back(inner: ValueShape, v: Val, lists: Seq<FSOBuilderListState>)
    requires
        reads_back(inner, v, lists),
    ensures
        reads_back(ValueShape::Optional(Box::new(inner)), Val::Present(Box::new(v)), lists),
{
    let shape = ValueShape::Optional(Box::new(inner));
    let present = Val::Present(Box::new(v));
    assert(spew_text(shape, present, lists) == spew_text(inner, v, lists));
    assert forall|tail: Seq<char>, line: nat|
        (#[trigger] parse_spec(
            shape,
            Position { rest: " "@ + (spew_text(shape, present, lists) + (" "@ + tail)), line },
            None,
        )).result == Ok::<(Val, Option<GobbleView>), ErrorView>((present, None)) && parse_spec(
            shape,
            Position { rest: " "@ + (spew_text(shape, present, lists) + (" "@ + tail)), line },
            None,
        ).pos.rest == " "@ + tail by {
        let p = Position { rest: " "@ + (spew_text(inner, v, lists) + (" "@ + tail)), line };
        assert(parse_spec(inner, p, None).result == Ok::<(Val, Option<GobbleView>), ErrorView>(
            (v, None),
        ));
    }
}

/// A named field that is not optional, with a findable token and no literal
/// after it, and a value that is read back.
pub open spec fn plain_field(field: FieldDescriptor, v: Val, lists: Seq<FSOBuilderListState>) -> bool {
    match field {
        FieldDescriptor::Named { token, shape, gobble } => {
            &&& gobble is None
            &&& findable(token@)
            &&& !(shape is Optional)
            &&& reads_back(shape, v, lists)
        },
        _ => false,
    }
}

/// A record of plain fields that is no table and not inline, with a value
/// for every field.
pub open spec fn plain_record(r: RecordSchema, values: Seq<Val>, lists: Seq<FSOBuilderListState>) -> bool {
    &&& r.table_start is None
    &&& r.table_end is None
    &&& !r.inline
    &&& values.len() == r.fields@.len()
    &&& forall|i: int|
        0 <= i < values.len() ==> plain_field(#[trigger] r.fields@[i], values[i], lists)
}

/// No text or one space.
pub open spec fn is_lead(lead: Seq<char>) -> bool {
    lead == Seq::<char>::empty() || lead == " "@
}

/// A scan over a lead, a line break and text that begins with a plain
/// character reads the lead and the line break and gathers nothing.
pub proof fn lemma_scan_to_token(lead: Seq<char>, t: Seq<char>)
    requires
        is_lead(lead),
        t.len() > 0,
        plain_start(t[0]),
    ensures
        scan(lead + "\n"@ + t, false) == (Scan {
            len: lead.len() + 1,
            comments: None,
            version: None,
        }),
{
    reveal_strlit(" ");
    reveal_strlit("\n");
    let none = Seq::<char>::empty();
    let s = lead + "\n"@ + t;
    assert(s[lead.len() as int] == '\n');
    if lead.len() == 0 {
        assert(inline_space_len(s, none) == 0);
    } else {
        assert(s[0] == ' ');
        assert(s.skip(1)[0] == '\n');
        assert(inline_space_len(s.skip(1), none) == 0);
        assert(inline_space_len(s, none) == 1);
    }
    let after = s.skip(lead.len() as int);
    assert(after[0] == '\n');
    assert(after.skip(1) =~= t);
    assert(settled(t, false));
    lemma_settled_scan(t, false, None, true);
}

/// A scan before a field, over a lead and a line break, leaves the cursor at
/// the text after them, one line on, with nothing pending.
pub proof fn lemma_scan_before_field(st: RecordState, lead: Seq<char>, t: Seq<char>)
    requires
        is_lead(lead),
        t.len() > 0,
        plain_start(t[0]),
        !st.pend.scanned,
        st.pos.rest == lead + "\n"@ + t,
    ensures
        scan_if_needed(st, false) == (RecordState {
            pos: Position { rest: t, line: st.pos.line + 1 },
            pend: Pending { comments: None, version: None, scanned: true },
            ..st
        }),
{
    reveal_strlit(" ");
    reveal_strlit("\n");
    lemma_scan_to_token(lead, t);
    let n = lead.len() + 1;
    let read = st.pos.rest.take(n as int);
    assert(st.pos.rest.skip(n as int) =~= t);
    assert(read =~= lead + "\n"@);
    lemma_count_newlines_concat(lead, "\n"@);
    lemma_no_newlines(lead);
    let nl = "\n"@;
    assert(nl.len() == 1 && nl.last() == '\n');
    assert(count_newlines(nl.drop_last()) == 0);
    assert(count_newlines(nl) == 1);
}

/// Reading a token that stands at the cursor leaves the cursor after it.
pub proof fn lemma_step_over_token(st: RecordState, token: Seq<char>, after: Seq<char>)
    requires
        st.pos.rest == token + after,
    ensures
        starts_with(st.pos.rest, token),
        step_over(st, token.len()).pos.rest == after,
        step_over(st, token.len()) == (RecordState {
            pos: step_over(st, token.len()).pos,
            ..st
        }),
{
    assert(st.pos.rest.take(token.len() as int) =~= token);
    assert(st.pos.rest.skip(token.len() as int) =~= after);
}

/// Reading a named field back whose value is read back: where the text at
/// the cursor is a lead, a line break, the token and what follows it, and
/// the value is read from what follows the token, the record gains the
/// value and the cursor is left where reading the value left it.
pub proof fn lemma_named_field(
    token: Seq<char>,
    shape: ValueShape,
    v: Val,
    lead: Seq<char>,
    after_token: Seq<char>,
    after_value: Seq<char>,
    st: RecordState,
)
    requires
        findable(token),
        !(shape is Optional),
        is_lead(lead),
        st.error is None,
        !st.pend.scanned,
        st.pos.rest == lead + "\n"@ + (token + after_token),
        forall|line: nat|
            (#[trigger] parse_spec(shape, Position { rest: after_token, line }, None)).result
                == Ok::<(Val, Option<GobbleView>), ErrorView>(
                (v, None),
            ) && parse_spec(shape, Position { rest: after_token, line }, None).pos.rest
                == after_value,
    ensures
        named_step(token, shape, None, false, st).error is None,
        named_step(token, shape, None, false, st).values == st.values.push(v),
        !named_step(token, shape, None, false, st).pend.scanned,
        named_step(token, shape, None, false, st).pos.rest == after_value,
{
    let t = token + after_token;
    assert(t[0] == token[0]);
    lemma_scan_before_field(st, lead, t);
    let s1 = scan_if_needed(st, false);
    lemma_step_over_token(s1, token, after_token);
    let s2 = note_slot(step_over(s1, token.len()), false);
    assert(s2.pos == (Position { rest: after_token, line: s2.pos.line }));
    let o = parse_spec(shape, s2.pos, None);
    assert(o.result == Ok::<(Val, Option<GobbleView>), ErrorView>(
        (v, None),
    ));
    let done = finish_field(s2, o, None, false);
    assert(named_step(token, shape, None, false, st) == done);
}

/// The text of a lead, a named field and what comes after it, taken apart:
/// a lead, a line break, the token, a space, the value, a space, the rest.
pub proof fn lemma_field_layout(
    lead: Seq<char>,
    token: Seq<char>,
    text: Seq<char>,
    later: Seq<char>,
    rest: Seq<char>,
)
    ensures
        lead + (("\n"@ + token + " "@ + text + (Seq::<char>::empty() + " "@)) + later + rest)
            == lead + "\n"@ + (token + (" "@ + (text + (" "@ + (later + rest))))),
{
    let a = lead + (("\n"@ + token + " "@ + text + (Seq::<char>::empty() + " "@)) + later + rest);
    let b = lead + "\n"@ + (token + (" "@ + (text + (" "@ + (later + rest)))));
    assert(a =~= b);
}

/// A truth value or a number of its kind is read back.
pub proof fn lemma_scalar_reads_back(kind: ScalarKind, v: Val, lists: Seq<FSOBuilderListState>)
    requires
        scalar_fits(kind, v),
    ensures
        reads_back(ValueShape::Scalar(kind), v, lists),
{
    assert forall|tail: Seq<char>, line: nat|
        (#[trigger] parse_spec(
            ValueShape::Scalar(kind),
            Position {
                rest: " "@ + (spew_text(ValueShape::Scalar(kind), v, lists) + (" "@ + tail)),
                line,
            },
            None,
        )).result == Ok::<(Val, Option<GobbleView>), ErrorView>((v, None)) && parse_spec(
            ValueShape::Scalar(kind),
            Position {
                rest: " "@ + (spew_text(ValueShape::Scalar(kind), v, lists) + (" "@ + tail)),
                line,
            },
            None,
        ).pos.rest == " "@ + tail by {
        lemma_scalar_round_trip(kind, v, lists, tail, line);
    }
}

/// Reading one plain field back: the record gains the value of the field
/// and the cursor is left before the space that ends the field.
pub proof fn lemma_plain_field(
    field: FieldDescriptor,
    v: Val,
    lead: Seq<char>,
    tail: Seq<char>,
    lists: Seq<FSOBuilderListState>,
    st: RecordState,
)
    requires
        plain_field(field, v, lists),
        is_lead(lead),
        st.error is None,
        !st.pend.scanned,
        st.pos.rest == lead + (field_text(field, v, lists) + tail),
    ensures
        crate::grammar::field_step(field, false, st).error is None,
        crate::grammar::field_step(field, false, st).values == st.values.push(v),
        !crate::grammar::field_step(field, false, st).pend.scanned,
        crate::grammar::field_step(field, false, st).pos.rest == " "@ + tail,
{
    match field {
        FieldDescriptor::Named { token, shape, gobble } => {
            let text = spew_text(shape, v, lists);
            let after_token = " "@ + (text + (" "@ + tail));
            assert(field_text(field, v, lists) == "\n"@ + token@ + " "@ + text + (
            Seq::<char>::empty() + " "@));
            assert(st.pos.rest == lead + "\n"@ + (token@ + after_token)) by {
                lemma_field_layout(lead, token@, text, Seq::<char>::empty(), tail);
                assert(Seq::<char>::empty() + tail =~= tail);
                assert(field_text(field, v, lists) + tail =~= field_text(field, v, lists)
                    + Seq::<char>::empty() + tail);
            }
            assert forall|line: nat|
                (#[trigger] parse_spec(shape, Position { rest: after_token, line }, None)).result
                    == Ok::<(Val, Option<GobbleView>), ErrorView>((v, None)) && parse_spec(
                    shape,
                    Position { rest: after_token, line },
                    None,
                ).pos.rest == " "@ + tail by {
                assert(reads_back(shape, v, lists));
            }
            lemma_named_field(token@, shape, v, lead, after_token, " "@ + tail, st);
        },
        _ => {},
    }
}

/// Reading the plain fields of a record back, from the `i`-th on.
pub proof fn lemma_plain_fields(
    r: RecordSchema,
    values: Seq<Val>,
    i: nat,
    lead: Seq<char>,
    rest: Seq<char>,
    lists: Seq<FSOBuilderListState>,
    st: RecordState,
)
    requires
        plain_record(r, values, lists),
        i <= values.len(),
        is_lead(lead),
        st.error is None,
        !st.pend.scanned,
        st.values == values.take(i as int),
        st.pos.rest == lead + (fields_text(r.fields, values, i, lists) + rest),
    ensures
        record_fields(r.fields, false, i, st).error is None,
        record_fields(r.fields, false, i, st).values == values,
        !record_fields(r.fields, false, i, st).pend.scanned,
        record_fields(r.fields, false, i, st).pos.rest == if i < values.len() {
            " "@ + rest
        } else {
            lead + rest
        },
    decreases values.len() - i,
{
    if i >= values.len() {
        assert(values.take(i as int) =~= values);
        assert(lead + (Seq::<char>::empty() + rest) =~= lead + rest);
    } else {
        let field = r.fields@[i as int];
        let v = values[i as int];
        let later = fields_text(r.fields, values, i + 1, lists);
        let s0 = open_slot(st);
        assert(plain_field(field, v, lists));
        assert(s0.pos.rest == lead + (field_text(field, v, lists) + (later + rest))) by {
            assert(field_text(field, v, lists) + later + rest =~= field_text(field, v, lists) + (
            later + rest));
        }
        lemma_plain_field(field, v, lead, later + rest, lists, s0);
        let next = crate::grammar::field_step(field, false, s0);
        assert(next.values == values.take((i + 1) as int)) by {
            assert(values.take(i as int).push(v) =~= values.take((i + 1) as int));
        }
        lemma_plain_fields(r, values, i + 1, " "@, rest, lists, next);
        if i + 1 >= values.len() {
            assert(later =~= Seq::<char>::empty());
            assert(" "@ + (later + rest) =~= " "@ + rest);
        }
    }
}

/// Writing a record of plain fields and reading the text back gives the
/// record, the comment and version text of its slots aside: every field is
/// found again with its value, nothing is carried on, and the cursor is left
/// before the space that ends the last field.
pub proof fn lemma_plain_record_round_trip(
    r: RecordSchema,
    values: Seq<Val>,
    comments: Seq<Option<Seq<char>>>,
    versions: Seq<Option<Seq<char>>>,
    lists: Seq<FSOBuilderListState>,
    rest: Seq<char>,
    line: nat,
)
    requires
        plain_record(r, values, lists),
    ensures
        ({
            let v = Val::Record(values, comments, versions);
            let text = spew_text(ValueShape::Record(r), v, lists);
            let o = parse_spec(ValueShape::Record(r), Position { rest: text + rest, line }, None);
            &&& o.result matches Ok((read, carry)) && plain(read) == plain(v) && carry is None
            &&& o.pos.rest == if values.len() > 0 {
                " "@ + rest
            } else {
                rest
            }
        }),
{
    let v = Val::Record(values, comments, versions);
    let text = spew_text(ValueShape::Record(r), v, lists);
    let p = Position { rest: text + rest, line };
    let body = fields_text(r.fields, values, 0, lists);
    assert(text =~= body) by {
        assert(table_head(r.table_start) =~= Seq::<char>::empty());
        assert(table_tail(r.table_end) =~= Seq::<char>::empty());
        assert(text == record_text(r, values, lists));
    }
    let s0 = open_slot(record_start(p, None));
    assert(s0.values =~= values.take(0));
    assert(s0.pos.rest =~= Seq::<char>::empty() + (body + rest));
    lemma_plain_fields(r, values, 0, Seq::<char>::empty(), rest, lists, s0);
    assert(Seq::<char>::empty() + rest =~= rest);
    let done = record_fields(r.fields, false, 0, s0);
    let o = crate::grammar::record_outcome(r, p, None);
    assert(o.result matches Ok((read, carry)) && read == Val::Record(
        done.values,
        open_slot(done).comments,
        open_slot(done).versions,
    ) && carry is None);
}

/// A record, no table and not inline, whose fields are named truth values
/// and numbers with findable tokens and no literals after them, with a value
/// of its kind for every field.
pub open spec fn flat_record(r: RecordSchema, values: Seq<Val>) -> bool {
    &&& r.table_start is None
    &&& r.table_end is None
    &&& !r.inline
    &&& values.len() == r.fields@.len()
    &&& forall|i: int|
        0 <= i < values.len() ==> match #[trigger] r.fields@[i] {
            FieldDescriptor::Named { token, shape, gobble } => {
                &&& gobble is None
                &&& findable(token@)
                &&& shape matches ValueShape::Scalar(kind) && scalar_fits(kind, values[i])
            },
            _ => false,
        }
}

/// Writing a record of named truth values and numbers and reading the text
/// back gives the record, the comment and version text of its slots aside.
pub proof fn lemma_flat_record_round_trip(
    r: RecordSchema,
    values: Seq<Val>,
    comments: Seq<Option<Seq<char>>>,
    versions: Seq<Option<Seq<char>>>,
    lists: Seq<FSOBuilderListState>,
    rest: Seq<char>,
    line: nat,
)
    requires
        flat_record(r, values),
    ensures
        ({
            let v = Val::Record(values, comments, versions);
            let text = spew_text(ValueShape::Record(r), v, lists);
            let o = parse_spec(ValueShape::Record(r), Position { rest: text + rest, line }, None);
            &&& o.result matches Ok((read, carry)) && plain(read) == plain(v) && carry is None
            &&& o.pos.rest == if values.len() > 0 {
                " "@ + rest
            } else {
                rest
            }
        }),
{
    assert forall|i: int| 0 <= i < values.len() implies plain_field(
        #[trigger] r.fields@[i],
        values[i],
        lists,
    ) by {
        match r.fields@[i] {
            FieldDescriptor::Named { token, shape, gobble } => {
                lemma_scalar_reads_back(shape->Scalar_0, values[i], lists);
            },
            _ => {},
        }
    }
    lemma_plain_record_round_trip(r, values, comments, versions, lists, rest, line);
}

} // verus!
