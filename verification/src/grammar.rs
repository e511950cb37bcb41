use vstd::prelude::*;
use crate::basic_types::{
    bool_of, bool_reason, has_digit, next_token, next_token_len, number_consumed, number_lexeme,
    number_reason, number_shown, snippet, string_consumed, string_value,
};
use crate::error::{ErrorView, GobbleView};
use crate::lexer::{advance, inline_space_len, scan, starts_with, token_len, Position};
use crate::number::{signed_in_range, unsigned_in_range};
use crate::parser::expected_reason;
use crate::schema::{
    FieldDescriptor, RecordSchema, ScalarKind, UnionSchema, ValueShape, VariantDescriptor,
};
use crate::value::Val;

verus! {

/// How a parse ends: where the cursor stands, and the value with the text
/// carried on to the next parse, or the failure.
pub struct Outcome {
    pub pos: Position,
    pub result: Result<(Val, Option<GobbleView>), ErrorView>,
}

/// Comment and version text that has been read and not yet attributed, and
/// whether white space has been scanned since the last field.
pub struct Pending {
    pub comments: Option<Seq<char>>,
    pub version: Option<Seq<char>>,
    pub scanned: bool,
}

/// The values of a sequence read so far, or the failure that ended it.
pub struct Items {
    pub pos: Position,
    pub values: Seq<Val>,
    pub gobble: Option<GobbleView>,
    pub error: Option<ErrorView>,
}

/// A record in the making.
pub struct RecordState {
    pub pos: Position,
    pub pend: Pending,
    pub values: Seq<Val>,
    pub comments: Seq<Option<Seq<char>>>,
    pub versions: Seq<Option<Seq<char>>>,
    pub error: Option<ErrorView>,
}

/// The position after inline space and the characters of `also`.
pub open spec fn skip_inline(p: Position, also: Seq<char>) -> Position {
    advance(p, inline_space_len(p.rest, also))
}

/// The failure of an expected literal at `p`.
pub open spec fn expect_error(p: Position, expect: Seq<char>) -> ErrorView {
    ErrorView {
        line: p.line,
        reason: expected_reason(expect, p.rest),
        comments: None,
        version_string: None,
    }
}

/// The failure `e`, carrying the pending text `pend` in place of its own.
pub open spec fn with_context(e: ErrorView, pend: Pending) -> ErrorView {
    ErrorView {
        line: e.line,
        reason: e.reason,
        comments: pend.comments,
        version_string: pend.version,
    }
}

/// A failure at `line` with no pending text.
pub open spec fn plain_error(line: nat, reason: Seq<char>) -> ErrorView {
    ErrorView { line, reason, comments: None, version_string: None }
}

/// The bounds of a signed integer kind.
pub open spec fn signed_bounds(kind: ScalarKind) -> (int, int) {
    if kind == ScalarKind::I32 {
        (i32::MIN as int, i32::MAX as int)
    } else {
        (i64::MIN as int, i64::MAX as int)
    }
}

/// The greatest number of an unsigned integer kind.
pub open spec fn unsigned_bound(kind: ScalarKind) -> nat {
    if kind == ScalarKind::U32 {
        u32::MAX as nat
    } else {
        u64::MAX as nat
    }
}

/// How reading a primitive value at `p` ends.
pub open spec fn scalar_outcome(kind: ScalarKind, p: Position) -> Outcome {
    match kind {
        ScalarKind::Bool => {
            let pos = advance(p, next_token_len(p.rest));
            Outcome {
                pos,
                result: match bool_of(next_token(p.rest)) {
                    Some(b) => Ok((Val::Bool(b), None)),
                    None => Err(plain_error(pos.line, bool_reason(next_token(p.rest)))),
                },
            }
        },
        ScalarKind::I32 | ScalarKind::I64 => {
            let pos = advance(p, number_consumed(p.rest, false, true));
            let bounds = signed_bounds(kind);
            Outcome {
                pos,
                result: match signed_in_range(
                    number_lexeme(p.rest, false, true),
                    bounds.0,
                    bounds.1,
                ) {
                    Some(v) => Ok((Val::Int(v), None)),
                    None => Err(
                        plain_error(
                            pos.line,
                            number_reason(false, number_shown(p.rest, false, true)),
                        ),
                    ),
                },
            }
        },
        ScalarKind::U32 | ScalarKind::U64 => {
            let pos = advance(p, number_consumed(p.rest, false, false));
            Outcome {
                pos,
                result: match unsigned_in_range(
                    number_lexeme(p.rest, false, false),
                    unsigned_bound(kind),
                ) {
                    Some(v) => Ok((Val::UInt(v), None)),
                    None => Err(
                        plain_error(
                            pos.line,
                            number_reason(false, number_shown(p.rest, false, false)),
                        ),
                    ),
                },
            }
        },
        ScalarKind::F32 | ScalarKind::F64 => {
            let pos = advance(p, number_consumed(p.rest, true, true));
            Outcome {
                pos,
                result: if has_digit(number_lexeme(p.rest, true, true)) {
                    Ok((Val::Float(number_lexeme(p.rest, true, true)), None))
                } else {
                    Err(
                        plain_error(
                            pos.line,
                            number_reason(true, number_shown(p.rest, true, true)),
                        ),
                    )
                },
            }
        },
        ScalarKind::Text => Outcome {
            pos: advance(p, string_consumed(p.rest)),
            result: Ok((Val::Text(string_value(p.rest)), None)),
        },
    }
}

/// The outcome `o` with its value, if any, made by `wrap`.
pub open spec fn map_value(o: Outcome, wrap: spec_fn(Val) -> Val) -> Outcome {
    Outcome {
        pos: o.pos,
        result: match o.result {
            Ok((v, g)) => Ok((wrap(v), g)),
            Err(e) => Err(e),
        },
    }
}

/// The pending text at the start of a record or union: what was carried in,
/// if anything was.
pub open spec fn pending_from(hang: Option<GobbleView>) -> Pending {
    match hang {
        Some(g) => Pending { comments: g.comments, version: g.version_string, scanned: true },
        None => Pending { comments: None, version: None, scanned: false },
    }
}

/// The text carried out of a record: the pending text, if white space was
/// scanned after the last field.
pub open spec fn carried(pend: Pending) -> Option<GobbleView> {
    if pend.scanned {
        Some(GobbleView { comments: pend.comments, version_string: pend.version })
    } else {
        None
    }
}

/// Scans white space and comments unless that was done since the last field.
pub open spec fn scan_if_needed(st: RecordState, skip: bool) -> RecordState {
    if skip || st.pend.scanned {
        st
    } else {
        let sc = scan(st.pos.rest, false);
        RecordState {
            pos: advance(st.pos, sc.len),
            pend: Pending { comments: sc.comments, version: sc.version, scanned: true },
            ..st
        }
    }
}

/// Opens the slot of the next field or table token, with no text in it.
pub open spec fn open_slot(st: RecordState) -> RecordState {
    RecordState {
        comments: st.comments.push(None),
        versions: st.versions.push(None),
        ..st
    }
}

/// Attributes the pending text to the open slot, after which white space is
/// to be scanned anew. An inline record attributes nothing.
pub open spec fn note_slot(st: RecordState, inline: bool) -> RecordState {
    if inline {
        st
    } else {
        RecordState {
            pend: Pending { scanned: false, ..st.pend },
            comments: st.comments.update(st.comments.len() - 1, st.pend.comments),
            versions: st.versions.update(st.versions.len() - 1, st.pend.version),
            ..st
        }
    }
}

/// Reads the literal that must follow a field, if one is declared.
pub open spec fn gobble_step(st: RecordState, gobble: Option<String>) -> RecordState {
    match gobble {
        None => st,
        Some(literal) => {
            let p1 = skip_inline(st.pos, Seq::<char>::empty());
            if starts_with(p1.rest, literal@) {
                RecordState { pos: advance(p1, literal@.len()), ..st }
            } else {
                RecordState {
                    pos: p1,
                    error: Some(with_context(expect_error(p1, literal@), st.pend)),
                    ..st
                }
            }
        },
    }
}

/// Completes a field whose value was read with outcome `o`: a failure fails
/// the record; text carried out of the value becomes the pending text; then
/// the field's literal is read and the value is added.
pub open spec fn finish_field(
    st: RecordState,
    o: Outcome,
    gobble: Option<String>,
    optional: bool,
) -> RecordState {
    match o.result {
        Err(e) => RecordState { pos: o.pos, error: Some(with_context(e, st.pend)), ..st },
        Ok((v, g)) => {
            let s1 = RecordState {
                pos: o.pos,
                pend: match g {
                    Some(carry) => Pending {
                        comments: carry.comments,
                        version: carry.version_string,
                        scanned: true,
                    },
                    None => st.pend,
                },
                ..st
            };
            let s2 = gobble_step(s1, gobble);
            if s2.error is Some {
                s2
            } else {
                RecordState {
                    values: s2.values.push(
                        if optional {
                            Val::Present(Box::new(v))
                        } else {
                            v
                        },
                    ),
                    ..s2
                }
            }
        },
    }
}

/// Reads the opening token of a table.
pub open spec fn table_start_step(st: RecordState, token: Seq<char>) -> RecordState {
    let s1 = scan_if_needed(st, false);
    let s2 = note_slot(s1, false);
    if starts_with(s2.pos.rest, token) {
        RecordState { pos: advance(s2.pos, token.len()), ..s2 }
    } else {
        RecordState { error: Some(with_context(expect_error(s2.pos, token), s2.pend)), ..s2 }
    }
}

/// Reads the closing token of a table. The text before it is attributed to
/// the open slot and carried out of the record as well.
pub open spec fn table_end_step(st: RecordState, token: Seq<char>) -> RecordState {
    let s1 = scan_if_needed(st, false);
    let s2 = RecordState {
        pend: Pending { scanned: true, ..s1.pend },
        comments: s1.comments.update(s1.comments.len() - 1, s1.pend.comments),
        versions: s1.versions.update(s1.versions.len() - 1, s1.pend.version),
        ..s1
    };
    if starts_with(s2.pos.rest, token) {
        RecordState { pos: advance(s2.pos, token.len()), ..s2 }
    } else {
        RecordState { error: Some(expect_error(s2.pos, token)), ..s2 }
    }
}

/// The first variant from `i` on, default captures aside, whose token stands
/// at the start of `rest`.
pub open spec fn first_match(variants: Seq<VariantDescriptor>, rest: Seq<char>, i: int) -> Option<
    int,
>
    decreases variants.len() - i,
{
    if i < 0 || i >= variants.len() {
        None
    } else if !variants[i].default_capture && starts_with(rest, variants[i].token@) {
        Some(i)
    } else {
        first_match(variants, rest, i + 1)
    }
}

/// A variant that matches is one of the variants, is no default capture, its
/// token stands at the start of the text, and no variant before it matches.
pub proof fn lemma_first_match_bound(variants: Seq<VariantDescriptor>, rest: Seq<char>, i: int)
    requires
        0 <= i,
    ensures
        first_match(variants, rest, i) matches Some(k) ==> {
            &&& i <= k < variants.len()
            &&& !variants[k].default_capture
            &&& starts_with(rest, variants[k].token@)
            &&& forall|j: int|
                i <= j < k ==> variants[j].default_capture || !starts_with(
                    rest,
                    #[trigger] variants[j].token@,
                )
        },
        first_match(variants, rest, i) is None ==> forall|j: int|
            i <= j < variants.len() ==> variants[j].default_capture || !starts_with(
                rest,
                #[trigger] variants[j].token@,
            ),
    decreases variants.len() - i,
{
    if i < variants.len() {
        lemma_first_match_bound(variants, rest, i + 1);
    }
}

/// The tokens of the variants from `i` on, each followed by a comma and a
/// space.
pub open spec fn expected_list(variants: Seq<VariantDescriptor>, i: int) -> Seq<char>
    decreases variants.len() - i,
{
    if i < 0 || i >= variants.len() {
        Seq::<char>::empty()
    } else {
        variants[i].token@ + ", "@ + expected_list(variants, i + 1)
    }
}

/// The report for input that no variant matches.
pub open spec fn union_reason(variants: Seq<VariantDescriptor>, rest: Seq<char>) -> Seq<char> {
    "Expected one of "@ + expected_list(variants, 0) + "got "@ + snippet(rest, 20) + "."@
}

/// The last variant is a default capture.
pub open spec fn has_default(variants: Seq<VariantDescriptor>) -> bool {
    variants.len() > 0 && variants.last().default_capture
}

/// How reading a value of `shape` at `p` ends, with `hang` carried in.
pub open spec fn parse_spec(shape: ValueShape, p: Position, hang: Option<GobbleView>) -> Outcome
    decreases shape, 0nat, 0nat,
{
    match shape {
        ValueShape::Scalar(kind) => scalar_outcome(kind, p),
        ValueShape::Optional(inner) => map_value(
            parse_spec(*inner, p, hang),
            |v: Val| Val::Present(Box::new(v)),
        ),
        ValueShape::Wrapper(inner) => map_value(
            parse_spec(*inner, p, hang),
            |v: Val| Val::Wrapper(Box::new(v)),
        ),
        ValueShape::List(inner, _) => {
            let items = list_items(
                *inner,
                skip_inline(p, seq!['(']),
                None,
                Seq::<Val>::empty(),
            );
            Outcome {
                pos: skip_inline(items.pos, seq![')']),
                result: Ok((Val::List(items.values), items.gobble)),
            }
        },
        ValueShape::Tuple(shapes) => {
            let items = tuple_items(shapes, 0, skip_inline(p, seq!['(']), hang, Seq::<Val>::empty());
            match items.error {
                Some(e) => Outcome { pos: items.pos, result: Err(e) },
                None => Outcome {
                    pos: skip_inline(items.pos, seq![')']),
                    result: Ok((Val::Tuple(items.values), None)),
                },
            }
        },
        ValueShape::Record(r) => record_outcome(r, p, hang),
        ValueShape::TaggedUnion(u) => union_outcome(u, p, hang),
    }
}

/// The elements of a list from `p` on, after `values`: elements are read
/// until one fails, whose pending text is carried out of the list. An
/// element that reads nothing ends the list as well.
pub open spec fn list_items(
    elem: ValueShape,
    p: Position,
    hang: Option<GobbleView>,
    values: Seq<Val>,
) -> Items
    decreases elem, 1nat, p.rest.len(),
{
    let o = parse_spec(elem, p, hang);
    match o.result {
        Err(e) => Items {
            pos: o.pos,
            values,
            gobble: Some(GobbleView { comments: e.comments, version_string: e.version_string }),
            error: None,
        },
        Ok((v, g)) => if o.pos.rest.len() < p.rest.len() {
            list_items(elem, o.pos, g, values.push(v))
        } else {
            Items { pos: o.pos, values: values.push(v), gobble: g, error: None }
        },
    }
}

/// The elements of a tuple from the `i`-th on, after `values`. The first
/// failure ends the tuple.
pub open spec fn tuple_items(
    shapes: Vec<ValueShape>,
    i: nat,
    p: Position,
    hang: Option<GobbleView>,
    values: Seq<Val>,
) -> Items
    decreases shapes, 0nat, shapes.len() - i,
{
    if i >= shapes.len() {
        Items { pos: p, values, gobble: None, error: None }
    } else {
        let o = parse_spec(shapes[i as int], p, hang);
        match o.result {
            Err(e) => Items { pos: o.pos, values, gobble: None, error: Some(e) },
            Ok((v, _)) => tuple_items(shapes, i + 1, o.pos, None, values.push(v)),
        }
    }
}

/// The fields of a variant from the `i`-th on, after `values`. An optional
/// field that fails is absent; any other failure ends the variant.
pub open spec fn variant_items(shapes: Vec<ValueShape>, i: nat, p: Position, values: Seq<Val>) -> Items
    decreases shapes, 0nat, shapes.len() - i,
{
    if i >= shapes.len() {
        Items { pos: p, values, gobble: None, error: None }
    } else {
        match shapes[i as int] {
            ValueShape::Optional(inner) => {
                let o = parse_spec(*inner, p, None);
                variant_items(
                    shapes,
                    i + 1,
                    o.pos,
                    values.push(
                        match o.result {
                            Ok((v, _)) => Val::Present(Box::new(v)),
                            Err(_) => Val::Absent,
                        },
                    ),
                )
            },
            _ => {
                let o = parse_spec(shapes[i as int], p, None);
                match o.result {
                    Err(e) => Items { pos: o.pos, values, gobble: None, error: Some(e) },
                    Ok((v, _)) => variant_items(shapes, i + 1, o.pos, values.push(v)),
                }
            },
        }
    }
}

/// The pending text of a tagged union: what was carried in, or else what a
/// scan at `p` gathers.
pub open spec fn union_pending(p: Position, hang: Option<GobbleView>) -> Pending {
    match hang {
        Some(g) => pending_from(hang),
        None => Pending {
            comments: scan(p.rest, false).comments,
            version: scan(p.rest, false).version,
            scanned: true,
        },
    }
}

/// Where the token of a tagged union is looked for: at `p` where text was
/// carried in, or else after a scan.
pub open spec fn union_start(p: Position, hang: Option<GobbleView>) -> Position {
    match hang {
        Some(g) => p,
        None => advance(p, scan(p.rest, false).len),
    }
}

/// How reading a tagged union at `p` ends: with the first variant whose
/// token stands at the start, or else with the default capture, which takes
/// the next bare token, or else with a failure that names every token.
pub open spec fn union_outcome(u: UnionSchema, p: Position, hang: Option<GobbleView>) -> Outcome
    decreases u, 0nat, 0nat,
{
    let pend = union_pending(p, hang);
    let p1 = union_start(p, hang);
    match first_match(u.variants@, p1.rest, 0) {
        Some(k) => {
            proof {
                lemma_first_match_bound(u.variants@, p1.rest, 0);
            }
            let items = variant_items(
                u.variants[k].fields,
                0,
                advance(p1, u.variants[k].token@.len()),
                Seq::<Val>::empty(),
            );
            match items.error {
                Some(e) => Outcome { pos: items.pos, result: Err(with_context(e, pend)) },
                None => Outcome {
                    pos: items.pos,
                    result: Ok((Val::Variant(k as nat, items.values), None)),
                },
            }
        },
        None => if has_default(u.variants@) {
            Outcome {
                pos: advance(p1, token_len(p1.rest)),
                result: Ok(
                    (
                        Val::Variant(
                            (u.variants.len() - 1) as nat,
                            seq![Val::Text(p1.rest.take(token_len(p1.rest) as int))],
                        ),
                        None,
                    ),
                ),
            }
        } else {
            Outcome {
                pos: p1,
                result: Err(
                    with_context(plain_error(p1.line, union_reason(u.variants@, p1.rest)), pend),
                ),
            }
        },
    }
}

/// A record before anything is read.
pub open spec fn record_start(p: Position, hang: Option<GobbleView>) -> RecordState {
    RecordState {
        pos: p,
        pend: pending_from(hang),
        values: Seq::<Val>::empty(),
        comments: Seq::<Option<Seq<char>>>::empty(),
        versions: Seq::<Option<Seq<char>>>::empty(),
        error: None,
    }
}

/// How reading a record at `p` ends.
pub open spec fn record_outcome(r: RecordSchema, p: Position, hang: Option<GobbleView>) -> Outcome
    decreases r, 1nat, 0nat,
{
    let s0 = open_slot(record_start(p, hang));
    let s1 = match r.table_start {
        Some(token) => table_start_step(s0, token@),
        None => s0,
    };
    let s2 = record_fields(r.fields, r.inline, 0, s1);
    let s3 = if s2.error is Some {
        s2
    } else {
        match r.table_end {
            Some(token) => table_end_step(open_slot(s2), token@),
            None => open_slot(s2),
        }
    };
    Outcome {
        pos: s3.pos,
        result: match s3.error {
            Some(e) => Err(e),
            None => Ok((Val::Record(s3.values, s3.comments, s3.versions), carried(s3.pend))),
        },
    }
}

/// The record after its fields from the `i`-th on are read. Nothing more is
/// read once the record has failed.
pub open spec fn record_fields(
    fields: Vec<FieldDescriptor>,
    inline: bool,
    i: nat,
    st: RecordState,
) -> RecordState
    decreases fields, 0nat, fields.len() - i,
{
    if i >= fields.len() || st.error is Some {
        st
    } else {
        record_fields(fields, inline, i + 1, field_step(fields[i as int], inline, open_slot(st)))
    }
}

/// The record after one more field is read, whose slot is open.
pub open spec fn field_step(field: FieldDescriptor, inline: bool, st: RecordState) -> RecordState
    decreases field, 0nat, 0nat,
{
    match field {
        FieldDescriptor::Skipped { default } => add_value(st, default@),
        FieldDescriptor::ExistenceFlag { token, gobble } => flag_step(token@, gobble, inline, st),
        FieldDescriptor::Named { token, shape, gobble } => named_step(
            token@,
            shape,
            gobble,
            inline,
            st,
        ),
        FieldDescriptor::Positional { shape, gobble } => positional_step(shape, gobble, inline, st),
    }
}

/// The record with one more value.
pub open spec fn add_value(st: RecordState, v: Val) -> RecordState {
    RecordState { values: st.values.push(v), ..st }
}

/// The record with the cursor moved over `n` characters.
pub open spec fn step_over(st: RecordState, n: nat) -> RecordState {
    RecordState { pos: advance(st.pos, n), ..st }
}

/// The record failed with `e`, which carries the pending text.
pub open spec fn failed(st: RecordState, e: ErrorView) -> RecordState {
    RecordState { error: Some(with_context(e, st.pend)), ..st }
}

/// An existence flag: true if its token is there, which is then read with
/// the literal after it; false, with nothing read, if it is not.
pub open spec fn flag_step(
    token: Seq<char>,
    gobble: Option<String>,
    inline: bool,
    st: RecordState,
) -> RecordState {
    let s1 = scan_if_needed(st, inline);
    if starts_with(s1.pos.rest, token) {
        let s2 = gobble_step(note_slot(step_over(s1, token.len()), inline), gobble);
        if s2.error is Some {
            s2
        } else {
            add_value(s2, Val::Bool(true))
        }
    } else {
        add_value(s1, Val::Bool(false))
    }
}

/// A named field: its token, then its value. Where the token is missing, an
/// optional field is absent and any other field fails the record. After the
/// token the value must be there, optional or not.
pub open spec fn named_step(
    token: Seq<char>,
    shape: ValueShape,
    gobble: Option<String>,
    inline: bool,
    st: RecordState,
) -> RecordState
    decreases shape, 1nat, 0nat,
{
    let s1 = scan_if_needed(st, inline);
    if starts_with(s1.pos.rest, token) {
        let s2 = note_slot(step_over(s1, token.len()), inline);
        match shape {
            ValueShape::Optional(inner) => finish_field(
                s2,
                parse_spec(*inner, s2.pos, None),
                gobble,
                true,
            ),
            _ => finish_field(s2, parse_spec(shape, s2.pos, None), gobble, false),
        }
    } else if shape is Optional {
        add_value(s1, Val::Absent)
    } else {
        failed(s1, expect_error(s1.pos, token))
    }
}

/// A positional field: its value. An optional field whose value fails is
/// absent, and the cursor stays where the failed attempt left it; any other
/// failure fails the record.
pub open spec fn positional_step(
    shape: ValueShape,
    gobble: Option<String>,
    inline: bool,
    st: RecordState,
) -> RecordState
    decreases shape, 1nat, 0nat,
{
    let s1 = scan_if_needed(st, inline);
    match shape {
        ValueShape::Optional(inner) => {
            let o = parse_spec(*inner, s1.pos, None);
            if o.result is Err {
                add_value(RecordState { pos: o.pos, ..s1 }, Val::Absent)
            } else {
                finish_field(note_slot(s1, inline), o, gobble, true)
            }
        },
        _ => {
            let s2 = note_slot(s1, inline);
            finish_field(s2, parse_spec(shape, s2.pos, None), gobble, false)
        },
    }
}

} // verus!
