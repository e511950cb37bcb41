use vstd::prelude::*;
use crate::basic_types::{
    bool_text, spew_bool, spew_float, spew_signed, spew_string, spew_unsigned, string_text,
};
use crate::builder::{FSOBuilder, FSOBuilderListState};
use crate::number::{decimal_text, signed_text};
use crate::schema::{FieldDescriptor, RecordSchema, UnionSchema, ValueShape};
use crate::value::{values_view, FSOValue, Val};

verus! {

/// The text of an optional literal; nothing where there is none.
pub open spec fn literal_text(literal: Option<String>) -> Seq<char> {
    match literal {
        Some(t) => t@,
        None => Seq::<char>::empty(),
    }
}

/// What is written after a field: its literal, if it has one, and a space.
pub open spec fn gobble_text(gobble: Option<String>) -> Seq<char> {
    literal_text(gobble) + " "@
}

/// A primitive value as written. Strings stand within double quotes inside
/// an inline list.
pub open spec fn scalar_text(v: Val, lists: Seq<FSOBuilderListState>) -> Seq<char> {
    match v {
        Val::Bool(b) => bool_text(b),
        Val::Int(n) => signed_text(n),
        Val::UInt(n) => decimal_text(n),
        Val::Float(t) => t,
        Val::Text(t) => string_text(t, lists),
        _ => Seq::<char>::empty(),
    }
}

/// What is written before the `i`-th field of a variant.
pub open spec fn field_separator(i: nat, spacing: Seq<char>) -> Seq<char> {
    if i == 0 {
        spacing
    } else {
        ", "@
    }
}

/// The text captured by a default capture.
pub open spec fn captured_text(items: Seq<Val>) -> Seq<char> {
    if items.len() > 0 {
        match items[0] {
            Val::Text(t) => t,
            _ => Seq::<char>::empty(),
        }
    } else {
        Seq::<char>::empty()
    }
}

/// The value `v` of `shape` as written, inside the lists `lists`. A value
/// that is not of the shape is not written.
pub open spec fn spew_text(shape: ValueShape, v: Val, lists: Seq<FSOBuilderListState>) -> Seq<char>
    decreases shape, 0nat, 0nat,
{
    match shape {
        ValueShape::Scalar(_) => scalar_text(v, lists),
        ValueShape::Optional(inner) => match v {
            Val::Present(x) => spew_text(*inner, *x, lists),
            _ => Seq::<char>::empty(),
        },
        ValueShape::Wrapper(inner) => match v {
            Val::Wrapper(x) => spew_text(*inner, *x, lists),
            _ => Seq::<char>::empty(),
        },
        ValueShape::List(inner, mode) => match v {
            Val::List(items) => if mode == FSOBuilderListState::InlineList {
                "("@ + list_text(*inner, items, 0, lists.push(mode), false) + ")"@
            } else {
                list_text(*inner, items, 0, lists.push(mode), true)
            },
            _ => Seq::<char>::empty(),
        },
        ValueShape::Tuple(shapes) => match v {
            Val::Tuple(items) => "("@ + tuple_text(shapes, items, 0, lists) + ")"@,
            _ => Seq::<char>::empty(),
        },
        ValueShape::Record(r) => match v {
            Val::Record(values, _, _) => record_text(r, values, lists),
            _ => Seq::<char>::empty(),
        },
        ValueShape::TaggedUnion(u) => match v {
            Val::Variant(k, items) => union_text(u, k, items, lists),
            _ => Seq::<char>::empty(),
        },
    }
}

/// The elements of a list from the `i`-th on as written, each after a line
/// break where `newline` is set.
pub open spec fn list_text(
    elem: ValueShape,
    items: Seq<Val>,
    i: nat,
    lists: Seq<FSOBuilderListState>,
    newline: bool,
) -> Seq<char>
    decreases elem, 1nat, items.len() - i,
{
    if i >= items.len() {
        Seq::<char>::empty()
    } else {
        (if newline {
            "\n"@
        } else {
            Seq::<char>::empty()
        }) + spew_text(elem, items[i as int], lists) + list_text(elem, items, i + 1, lists, newline)
    }
}

/// The elements of a tuple from the `i`-th on as written, with a comma and a
/// space between two of them.
pub open spec fn tuple_text(
    shapes: Vec<ValueShape>,
    items: Seq<Val>,
    i: nat,
    lists: Seq<FSOBuilderListState>,
) -> Seq<char>
    decreases shapes, 0nat, shapes.len() - i,
{
    if i >= shapes.len() || i >= items.len() {
        Seq::<char>::empty()
    } else {
        (if i > 0 {
            ", "@
        } else {
            Seq::<char>::empty()
        }) + spew_text(shapes[i as int], items[i as int], lists) + tuple_text(
            shapes,
            items,
            i + 1,
            lists,
        )
    }
}

/// A record as written: the opening token and an empty line if it is a
/// table, the fields in order, and an empty line and the closing token.
pub open spec fn record_text(r: RecordSchema, values: Seq<Val>, lists: Seq<FSOBuilderListState>) -> Seq<
    char,
>
    decreases r, 1nat, 0nat,
{
    table_head(r.table_start) + fields_text(r.fields, values, 0, lists) + table_tail(r.table_end)
}

/// The opening token of a table as written, with an empty line after it.
pub open spec fn table_head(token: Option<String>) -> Seq<char> {
    match token {
        Some(t) => t@ + "\n\n"@,
        None => Seq::<char>::empty(),
    }
}

/// The closing token of a table as written, with an empty line before it.
pub open spec fn table_tail(token: Option<String>) -> Seq<char> {
    match token {
        Some(t) => "\n\n"@ + t@,
        None => Seq::<char>::empty(),
    }
}

/// The fields of a record from the `i`-th on as written.
pub open spec fn fields_text(
    fields: Vec<FieldDescriptor>,
    values: Seq<Val>,
    i: nat,
    lists: Seq<FSOBuilderListState>,
) -> Seq<char>
    decreases fields, 0nat, fields.len() - i,
{
    if i >= fields.len() || i >= values.len() {
        Seq::<char>::empty()
    } else {
        field_text(fields[i as int], values[i as int], lists) + fields_text(
            fields,
            values,
            i + 1,
            lists,
        )
    }
}

/// One field as written. A named field or a flag starts a new line with its
/// token; an absent value and a false flag are not written at all.
pub open spec fn field_text(field: FieldDescriptor, v: Val, lists: Seq<FSOBuilderListState>) -> Seq<
    char,
>
    decreases field, 0nat, 0nat,
{
    match field {
        FieldDescriptor::Skipped { .. } => Seq::<char>::empty(),
        FieldDescriptor::ExistenceFlag { token, gobble } => if v == Val::Bool(true) {
            "\n"@ + token@ + gobble_text(gobble)
        } else {
            Seq::<char>::empty()
        },
        FieldDescriptor::Named { token, shape, gobble } => match shape {
            ValueShape::Optional(inner) => match v {
                Val::Present(x) => "\n"@ + token@ + " "@ + spew_text(*inner, *x, lists)
                    + gobble_text(gobble),
                _ => Seq::<char>::empty(),
            },
            _ => "\n"@ + token@ + " "@ + spew_text(shape, v, lists) + gobble_text(gobble),
        },
        FieldDescriptor::Positional { shape, gobble } => match shape {
            ValueShape::Optional(inner) => match v {
                Val::Present(x) => spew_text(*inner, *x, lists) + gobble_text(gobble),
                _ => Seq::<char>::empty(),
            },
            _ => spew_text(shape, v, lists) + gobble_text(gobble),
        },
    }
}

/// A variant as written: its token and fields, or the captured text of a
/// default capture; then a space. A variant that the union does not have is
/// not written.
pub open spec fn union_text(
    u: UnionSchema,
    k: nat,
    items: Seq<Val>,
    lists: Seq<FSOBuilderListState>,
) -> Seq<char>
    decreases u, 0nat, 0nat,
{
    if k >= u.variants.len() {
        Seq::<char>::empty()
    } else {
        (if u.variants[k as int].default_capture {
            captured_text(items)
        } else {
            u.variants[k as int].token@ + variant_text(
                u.variants[k as int].fields,
                items,
                0,
                u.field_spacing@,
                lists,
            )
        }) + " "@
    }
}

/// The fields of a variant from the `i`-th on as written: the spacing before
/// the first, a comma and a space before the others; absent fields are not
/// written.
pub open spec fn variant_text(
    shapes: Vec<ValueShape>,
    items: Seq<Val>,
    i: nat,
    spacing: Seq<char>,
    lists: Seq<FSOBuilderListState>,
) -> Seq<char>
    decreases shapes, 0nat, shapes.len() - i,
{
    if i >= shapes.len() || i >= items.len() {
        Seq::<char>::empty()
    } else {
        (match shapes[i as int] {
            ValueShape::Optional(inner) => match items[i as int] {
                Val::Present(x) => field_separator(i, spacing) + spew_text(*inner, *x, lists),
                _ => Seq::<char>::empty(),
            },
            _ => field_separator(i, spacing) + spew_text(shapes[i as int], items[i as int], lists),
        }) + variant_text(shapes, items, i + 1, spacing, lists)
    }
}

/// Writes an optional literal.
pub fn spew_literal<B: FSOBuilder>(literal: &Option<String>, state: &mut B)
    ensures
        final(state).text() == old(state).text() + literal_text(*literal),
        final(state).lists() == old(state).lists(),
{
    match literal {
        Some(t) => state.append(t.as_str()),
        None => {
            assert(state.text() + Seq::<char>::empty() =~= state.text());
        },
    }
}

/// Writes what follows a field: its literal, if it has one, and a space.
pub fn spew_gobble<B: FSOBuilder>(gobble: &Option<String>, state: &mut B)
    ensures
        final(state).text() == old(state).text() + gobble_text(*gobble),
        final(state).lists() == old(state).lists(),
{
    spew_literal(gobble, state);
    state.append(" ");
    assert(state.text() =~= old(state).text() + gobble_text(*gobble));
}

/// Writes a primitive value.
pub fn spew_scalar<B: FSOBuilder>(value: &FSOValue, state: &mut B)
    ensures
        final(state).text() == old(state).text() + scalar_text(value@, old(state).lists()),
        final(state).lists() == old(state).lists(),
{
    match value {
        FSOValue::Bool(b) => spew_bool(*b, state),
        FSOValue::Int(n) => spew_signed(*n, state),
        FSOValue::UInt(n) => spew_unsigned(*n, state),
        FSOValue::Float(f) => spew_float(f, state),
        FSOValue::Text(t) => spew_string(t.as_str(), state),
        _ => {
            assert(state.text() + Seq::<char>::empty() =~= state.text());
        },
    }
}

/// Writes the value `value` of `shape`. A value that is not of the shape is
/// not written.
pub fn spew_value<B: FSOBuilder>(shape: &ValueShape, value: &FSOValue, state: &mut B)
    ensures
        final(state).text() == old(state).text() + spew_text(*shape, value@, old(state).lists()),
        final(state).lists() == old(state).lists(),
    decreases shape, 0nat,
{
    let ghost t0 = state.text();
    let ghost l0 = state.lists();
    proof {
        assert(t0 + Seq::<char>::empty() =~= t0);
    }
    match shape {
        ValueShape::Scalar(_) => spew_scalar(value, state),
        ValueShape::Optional(inner) => match value {
            FSOValue::Present(x) => spew_value(inner, x, state),
            _ => {},
        },
        ValueShape::Wrapper(inner) => match value {
            FSOValue::Wrapper(x) => spew_value(inner, x, state),
            _ => {},
        },
        ValueShape::List(inner, mode) => match value {
            FSOValue::List(items) => {
                match mode {
                    FSOBuilderListState::InlineList => {
                        state.append("(");
                        state.push_list(*mode);
                        spew_list(inner, items, false, state);
                        state.pop_list();
                        state.append(")");
                        proof {
                            let body = list_text(**inner, values_view(*items), 0, l0.push(*mode), false);
                            assert(l0.push(*mode).drop_last() =~= l0);
                            assert(state.text() =~= t0 + ("("@ + body + ")"@));
                        }
                    },
                    FSOBuilderListState::MutlilineList => {
                        state.push_list(*mode);
                        spew_list(inner, items, true, state);
                        state.pop_list();
                        proof {
                            assert(l0.push(*mode).drop_last() =~= l0);
                        }
                    },
                }
            },
            _ => {},
        },
        ValueShape::Tuple(shapes) => match value {
            FSOValue::Tuple(items) => {
                state.append("(");
                spew_tuple(shapes, items, state);
                state.append(")");
                proof {
                    let body = tuple_text(*shapes, values_view(*items), 0, l0);
                    assert(state.text() =~= t0 + ("("@ + body + ")"@));
                }
            },
            _ => {},
        },
        ValueShape::Record(r) => match value {
            FSOValue::Record(record) => spew_record(r, &record.fields, state),
            _ => {},
        },
        ValueShape::TaggedUnion(u) => match value {
            FSOValue::Variant(k, items) => spew_union(u, *k, items, state),
            _ => {},
        },
    }
}

/// Writes the elements of a list, each after a line break where `newline`
/// is set.
pub fn spew_list<B: FSOBuilder>(
    elem: &ValueShape,
    items: &Vec<FSOValue>,
    newline: bool,
    state: &mut B,
)
    ensures
        final(state).text() == old(state).text() + list_text(
            *elem,
            values_view(*items),
            0,
            old(state).lists(),
            newline,
        ),
        final(state).lists() == old(state).lists(),
    decreases elem, 1nat,
{
    let ghost t0 = state.text();
    let ghost l0 = state.lists();
    let ghost vals = values_view(*items);
    let mut i: usize = 0;
    while i < items.len()
        invariant
            i <= items.len(),
            vals == values_view(*items),
            t0 == old(state).text(),
            l0 == old(state).lists(),
            state.lists() == l0,
            t0 + list_text(*elem, vals, 0, l0, newline) == state.text() + list_text(
                *elem,
                vals,
                i as nat,
                l0,
                newline,
            ),
        decreases items.len() - i,
    {
        let ghost before = state.text();
        if newline {
            state.append("\n");
        }
        spew_value(elem, &items[i], state);
        proof {
            let head = if newline {
                "\n"@
            } else {
                Seq::<char>::empty()
            };
            let piece = spew_text(*elem, vals[i as int], l0);
            let rest = list_text(*elem, vals, (i + 1) as nat, l0, newline);
            assert(state.text() =~= before + head + piece);
            assert(before + (head + piece + rest) =~= before + head + piece + rest);
        }
        i += 1;
    }
    assert(state.text() + Seq::<char>::empty() =~= state.text());
}

/// Writes the elements of a tuple, with a comma and a space between two of
/// them.
pub fn spew_tuple<B: FSOBuilder>(shapes: &Vec<ValueShape>, items: &Vec<FSOValue>, state: &mut B)
    ensures
        final(state).text() == old(state).text() + tuple_text(
            *shapes,
            values_view(*items),
            0,
            old(state).lists(),
        ),
        final(state).lists() == old(state).lists(),
    decreases shapes, 0nat,
{
    let ghost t0 = state.text();
    let ghost l0 = state.lists();
    let ghost vals = values_view(*items);
    let mut i: usize = 0;
    while i < shapes.len() && i < items.len()
        invariant
            i <= shapes.len(),
            i <= items.len(),
            vals == values_view(*items),
            t0 == old(state).text(),
            l0 == old(state).lists(),
            state.lists() == l0,
            t0 + tuple_text(*shapes, vals, 0, l0) == state.text() + tuple_text(
                *shapes,
                vals,
                i as nat,
                l0,
            ),
        decreases shapes.len() - i,
    {
        let ghost before = state.text();
        if i > 0 {
            state.append(", ");
        }
        spew_value(&shapes[i], &items[i], state);
        proof {
            let head = if i > 0 {
                ", "@
            } else {
                Seq::<char>::empty()
            };
            let piece = spew_text(shapes@[i as int], vals[i as int], l0);
            let rest = tuple_text(*shapes, vals, (i + 1) as nat, l0);
            assert(state.text() =~= before + head + piece);
            assert(before + (head + piece + rest) =~= before + head + piece + rest);
        }
        i += 1;
    }
    assert(state.text() + Seq::<char>::empty() =~= state.text());
}

/// Writes a record.
pub fn spew_record<B: FSOBuilder>(r: &RecordSchema, values: &Vec<FSOValue>, state: &mut B)
    ensures
        final(state).text() == old(state).text() + record_text(
            *r,
            values_view(*values),
            old(state).lists(),
        ),
        final(state).lists() == old(state).lists(),
    decreases r, 1nat,
{
    let ghost t0 = state.text();
    let ghost l0 = state.lists();
    match &r.table_start {
        Some(token) => {
            state.append(token.as_str());
            state.append("\n\n");
        },
        None => {},
    }
    let ghost t1 = state.text();
    spew_fields(&r.fields, values, state);
    let ghost t2 = state.text();
    match &r.table_end {
        Some(token) => {
            state.append("\n\n");
            state.append(token.as_str());
        },
        None => {},
    }
    proof {
        let head = table_head(r.table_start);
        let tail = table_tail(r.table_end);
        let body = fields_text(r.fields, values_view(*values), 0, l0);
        assert(t1 =~= t0 + head);
        assert(state.text() =~= t2 + tail);
        assert(state.text() =~= t0 + (head + body + tail));
    }
}

/// Writes the fields of a record in order.
pub fn spew_fields<B: FSOBuilder>(
    fields: &Vec<FieldDescriptor>,
    values: &Vec<FSOValue>,
    state: &mut B,
)
    ensures
        final(state).text() == old(state).text() + fields_text(
            *fields,
            values_view(*values),
            0,
            old(state).lists(),
        ),
        final(state).lists() == old(state).lists(),
    decreases fields, 0nat,
{
    let ghost t0 = state.text();
    let ghost l0 = state.lists();
    let ghost vals = values_view(*values);
    let mut i: usize = 0;
    while i < fields.len() && i < values.len()
        invariant
            i <= fields.len(),
            i <= values.len(),
            vals == values_view(*values),
            t0 == old(state).text(),
            l0 == old(state).lists(),
            state.lists() == l0,
            t0 + fields_text(*fields, vals, 0, l0) == state.text() + fields_text(
                *fields,
                vals,
                i as nat,
                l0,
            ),
        decreases fields.len() - i,
    {
        let ghost before = state.text();
        spew_field(&fields[i], &values[i], state);
        proof {
            let piece = field_text(fields@[i as int], vals[i as int], l0);
            let rest = fields_text(*fields, vals, (i + 1) as nat, l0);
            assert(before + (piece + rest) =~= before + piece + rest);
        }
        i += 1;
    }
    assert(state.text() + Seq::<char>::empty() =~= state.text());
}

/// Writes one field of a record.
pub fn spew_field<B: FSOBuilder>(field: &FieldDescriptor, value: &FSOValue, state: &mut B)
    ensures
        final(state).text() == old(state).text() + field_text(
            *field,
            value@,
            old(state).lists(),
        ),
        final(state).lists() == old(state).lists(),
    decreases field, 0nat,
{
    let ghost t0 = state.text();
    let ghost l0 = state.lists();
    proof {
        assert(t0 + Seq::<char>::empty() =~= t0);
    }
    match field {
        FieldDescriptor::Skipped { .. } => {},
        FieldDescriptor::ExistenceFlag { token, gobble } => {
            let set = match value {
                FSOValue::Bool(b) => *b,
                _ => false,
            };
            if set {
                state.append("\n");
                state.append(token.as_str());
                spew_gobble(gobble, state);
                assert(state.text() =~= t0 + ("\n"@ + token@ + gobble_text(*gobble)));
            }
        },
        FieldDescriptor::Named { token, shape, gobble } => match shape {
            ValueShape::Optional(inner) => match value {
                FSOValue::Present(x) => {
                    state.append("\n");
                    state.append(token.as_str());
                    state.append(" ");
                    spew_value(inner, x, state);
                    spew_gobble(gobble, state);
                    assert(state.text() =~= t0 + ("\n"@ + token@ + " "@ + spew_text(
                        **inner,
                        x@,
                        l0,
                    ) + gobble_text(*gobble)));
                },
                _ => {},
            },
            other => {
                state.append("\n");
                state.append(token.as_str());
                state.append(" ");
                spew_value(other, value, state);
                spew_gobble(gobble, state);
                assert(state.text() =~= t0 + ("\n"@ + token@ + " "@ + spew_text(
                    *other,
                    value@,
                    l0,
                ) + gobble_text(*gobble)));
            },
        },
        FieldDescriptor::Positional { shape, gobble } => match shape {
            ValueShape::Optional(inner) => match value {
                FSOValue::Present(x) => {
                    spew_value(inner, x, state);
                    spew_gobble(gobble, state);
                    assert(state.text() =~= t0 + (spew_text(**inner, x@, l0) + gobble_text(
                        *gobble,
                    )));
                },
                _ => {},
            },
            other => {
                spew_value(other, value, state);
                spew_gobble(gobble, state);
                assert(state.text() =~= t0 + (spew_text(*other, value@, l0) + gobble_text(
                    *gobble,
                )));
            },
        },
    }
}

/// Writes a variant of a tagged union.
pub fn spew_union<B: FSOBuilder>(u: &UnionSchema, k: usize, items: &Vec<FSOValue>, state: &mut B)
    ensures
        final(state).text() == old(state).text() + union_text(
            *u,
            k as nat,
            values_view(*items),
            old(state).lists(),
        ),
        final(state).lists() == old(state).lists(),
    decreases u, 0nat,
{
    let ghost t0 = state.text();
    let ghost l0 = state.lists();
    if k >= u.variants.len() {
        assert(t0 + Seq::<char>::empty() =~= t0);
        return ;
    }
    let variant = &u.variants[k];
    let ghost t1 = state.text();
    if variant.default_capture {
        if items.len() > 0 {
            match &items[0] {
                FSOValue::Text(t) => state.append(t.as_str()),
                _ => {},
            }
        }
        assert(state.text() =~= t1 + captured_text(values_view(*items)));
    } else {
        state.append(variant.token.as_str());
        proof {
            assert(decreases_to!(u.variants@ => u.variants@[k as int]));
        }
        spew_variant_fields(&variant.fields, items, u.field_spacing.as_str(), state);
        assert(state.text() =~= t1 + (variant.token@ + variant_text(
            variant.fields,
            values_view(*items),
            0,
            u.field_spacing@,
            l0,
        )));
    }
    let ghost t2 = state.text();
    state.append(" ");
    proof {
        assert(state.text() =~= t2 + " "@);
        assert(state.text() =~= t0 + union_text(*u, k as nat, values_view(*items), l0));
    }
}

/// Writes the fields of a variant.
pub fn spew_variant_fields<B: FSOBuilder>(
    shapes: &Vec<ValueShape>,
    items: &Vec<FSOValue>,
    spacing: &str,
    state: &mut B,
)
    ensures
        final(state).text() == old(state).text() + variant_text(
            *shapes,
            values_view(*items),
            0,
            spacing@,
            old(state).lists(),
        ),
        final(state).lists() == old(state).lists(),
    decreases shapes, 0nat,
{
    let ghost t0 = state.text();
    let ghost l0 = state.lists();
    let ghost vals = values_view(*items);
    let mut i: usize = 0;
    while i < shapes.len() && i < items.len()
        invariant
            i <= shapes.len(),
            i <= items.len(),
            vals == values_view(*items),
            t0 == old(state).text(),
            l0 == old(state).lists(),
            state.lists() == l0,
            t0 + variant_text(*shapes, vals, 0, spacing@, l0) == state.text() + variant_text(
                *shapes,
                vals,
                i as nat,
                spacing@,
                l0,
            ),
        decreases shapes.len() - i,
    {
        let ghost before = state.text();
        let ghost rest = variant_text(*shapes, vals, (i + 1) as nat, spacing@, l0);
        match &shapes[i] {
            ValueShape::Optional(inner) => match &items[i] {
                FSOValue::Present(x) => {
                    state.append(
                        if i == 0 {
                            spacing
                        } else {
                            ", "
                        },
                    );
                    spew_value(inner, x, state);
                    proof {
                        let piece = field_separator(i as nat, spacing@) + spew_text(
                            **inner,
                            x@,
                            l0,
                        );
                        assert(state.text() =~= before + piece);
                        assert(before + (piece + rest) =~= before + piece + rest);
                    }
                },
                _ => {
                    assert(before + (Seq::<char>::empty() + rest) =~= before + rest);
                },
            },
            other => {
                state.append(
                    if i == 0 {
                        spacing
                    } else {
                        ", "
                    },
                );
                spew_value(other, &items[i], state);
                proof {
                    let piece = field_separator(i as nat, spacing@) + spew_text(
                        *other,
                        vals[i as int],
                        l0,
                    );
                    assert(state.text() =~= before + piece);
                    assert(before + (piece + rest) =~= before + piece + rest);
                }
            },
        }
        i += 1;
    }
    assert(state.text() + Seq::<char>::empty() =~= state.text());
}

} // verus!
