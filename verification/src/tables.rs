use vstd::prelude::*;
use crate::builder::{FSOBuilder, FSOTableBuilder};
use crate::engine::parse_value;
use crate::error::FSOParsingError;
use crate::grammar::{parse_spec, plain_error};
use crate::parser::{FSOParser, FSOTableFileParser};
use crate::schema::{one_field, shapes_well_formed, well_formed, ValueShape};
use crate::value::{values_view, FSORecord, FSOValue, Val};
use crate::writer::{spew_text, spew_value};

verus! {

/// A value without the comment and version text that its records hold.
pub open spec fn plain(v: Val) -> Val
    decreases v,
{
    match v {
        Val::Present(x) => Val::Present(Box::new(plain(*x))),
        Val::Wrapper(x) => Val::Wrapper(Box::new(plain(*x))),
        Val::List(items) => Val::List(plain_all(items)),
        Val::Tuple(items) => Val::Tuple(plain_all(items)),
        Val::Record(values, _, _) => Val::Record(
            plain_all(values),
            Seq::<Option<Seq<char>>>::empty(),
            Seq::<Option<Seq<char>>>::empty(),
        ),
        Val::Variant(k, items) => Val::Variant(k, plain_all(items)),
        other => other,
    }
}

/// The values of a list without comment and version text.
pub open spec fn plain_all(items: Seq<Val>) -> Seq<Val>
    decreases items,
{
    Seq::new(
        items.len(),
        |i: int|
            if 0 <= i < items.len() {
                plain(items[i])
            } else {
                Val::Absent
            },
    )
}

/// A type whose values are read and written as values of one shape.
pub trait FSOTable: Sized {
    /// The value as plain data, with no comment or version text.
    spec fn as_val(&self) -> Val;

    /// The shape by which values of this type are read and written.
    fn shape() -> (s: ValueShape)
        ensures
            well_formed(s),
    ;

    /// The value in the form that is written.
    fn to_value(&self) -> (v: FSOValue)
        ensures
            v@ == self.as_val(),
    ;

    /// The value of this type that `v` holds, comment and version text
    /// aside; `None` where `v` holds none.
    fn from_value(v: &FSOValue) -> (r: Option<Self>)
        ensures
            match r {
                Some(x) => plain(v@) == x.as_val(),
                None => forall|x: Self| plain(v@) != #[trigger] x.as_val(),
            },
    ;
}

/// The report for a value that was read but is not of the type asked for.
pub open spec fn form_reason() -> Seq<char> {
    "Value does not have the expected form."@
}

/// Reads a value of type `T` by `shape`.
pub fn parse_as<T: FSOTable, P: FSOParser>(shape: &ValueShape, state: &mut P) -> (r: Result<
    T,
    FSOParsingError,
>)
    ensures
        final(state).position() == parse_spec(*shape, old(state).position(), None).pos,
        match parse_spec(*shape, old(state).position(), None).result {
            Err(e) => r matches Err(got) && got@ == e,
            Ok((v, _)) => match r {
                Ok(x) => plain(v) == x.as_val(),
                Err(e) => {
                    &&& forall|x: T| plain(v) != #[trigger] x.as_val()
                    &&& e@ == plain_error(final(state).position().line, form_reason())
                },
            },
        },
{
    match parse_value(shape, state, None) {
        Ok((v, _)) => match T::from_value(&v) {
            Some(x) => Ok(x),
            None => Err(
                FSOParsingError::new(
                    state.line(),
                    "Value does not have the expected form.".to_owned(),
                ),
            ),
        },
        Err(e) => Err(e),
    }
}

/// Writes a value of type `T` by `shape`.
pub fn spew_as<T: FSOTable, B: FSOBuilder>(shape: &ValueShape, value: &T, state: &mut B)
    ensures
        final(state).text() == old(state).text() + spew_text(
            *shape,
            value.as_val(),
            old(state).lists(),
        ),
        final(state).lists() == old(state).lists(),
{
    let v = value.to_value();
    spew_value(shape, &v, state);
}

/// Reads all of `text` as one value of `shape`.
pub fn parse_text(shape: &ValueShape, text: &str) -> (r: Result<FSOValue, FSOParsingError>)
    ensures
        match parse_spec(
            *shape,
            crate::lexer::Position { rest: text@, line: 0 },
            None,
        ).result {
            Ok((v, _)) => r matches Ok(got) && got@ == v,
            Err(e) => r matches Err(got) && got@ == e,
        },
{
    let mut state = FSOTableFileParser::from_text(text);
    match parse_value(shape, &mut state, None) {
        Ok((v, _)) => Ok(v),
        Err(e) => Err(e),
    }
}

/// The text of `value` written by `shape`.
pub fn spew_to_text(shape: &ValueShape, value: &FSOValue) -> (text: String)
    ensures
        text@ == spew_text(*shape, value@, Seq::empty()),
{
    let mut state = FSOTableBuilder::default();
    spew_value(shape, value, &mut state);
    state.spew()
}

/// A record value with the given fields and no comment or version text.
pub fn record_value(fields: Vec<FSOValue>) -> (v: FSOValue)
    ensures
        v@ == Val::Record(
            values_view(fields),
            Seq::<Option<Seq<char>>>::empty(),
            Seq::<Option<Seq<char>>>::empty(),
        ),
{
    let record = FSORecord { fields, comments: Vec::new(), version_strings: Vec::new() };
    assert(crate::value::opt_texts(record.comments@) =~= Seq::<Option<Seq<char>>>::empty());
    FSOValue::Record(record)
}

/// An optional value of type `T` as plain data.
pub open spec fn optional_val<T: FSOTable>(o: Option<T>) -> Val {
    match o {
        Some(x) => Val::Present(Box::new(x.as_val())),
        None => Val::Absent,
    }
}

/// An optional value of type `T` in the form that is written.
pub fn optional_to_value<T: FSOTable>(o: &Option<T>) -> (v: FSOValue)
    ensures
        v@ == optional_val(*o),
{
    match o {
        Some(x) => FSOValue::Present(Box::new(x.to_value())),
        None => FSOValue::Absent,
    }
}

/// The optional value of type `T` that `v` holds.
pub fn optional_from_value<T: FSOTable>(v: &FSOValue) -> (r: Option<Option<T>>)
    ensures
        match r {
            Some(o) => plain(v@) == optional_val(o),
            None => forall|o: Option<T>| plain(v@) != #[trigger] optional_val(o),
        },
{
    match v {
        FSOValue::Absent => Some(None),
        FSOValue::Present(x) => match T::from_value(x) {
            Some(inner) => Some(Some(inner)),
            None => {
                assert forall|o: Option<T>| plain(v@) != #[trigger] optional_val(o) by {
                    match o {
                        Some(y) => {
                        },
                        None => {},
                    }
                }
                None
            },
        },
        _ => None,
    }
}

/// The fields of a variant whose one field is an optional value of type `T`.
pub fn one_optional_field<T: FSOTable>() -> (fields: Vec<ValueShape>)
    ensures
        fields@.len() == 1,
        shapes_well_formed(fields, 0, true),
{
    let inner = T::shape();
    match inner {
        ValueShape::Optional(_) => one_field(inner),
        ValueShape::Wrapper(_) => one_field(inner),
        other => one_field(ValueShape::Optional(Box::new(other))),
    }
}

} // verus!
