use vstd::prelude::*;
use crate::basic_types::FSOFloat;
use crate::error::{clone_opt, opt_text};

verus! {

/// A parsed value.
#[derive(Debug)]
pub enum FSOValue {
    Bool(bool),
    Int(i64),
    UInt(u64),
    Float(FSOFloat),
    Text(String),
    /// An optional value that is not there.
    Absent,
    /// An optional value that is there.
    Present(Box<FSOValue>),
    List(Vec<FSOValue>),
    Tuple(Vec<FSOValue>),
    Wrapper(Box<FSOValue>),
    Record(FSORecord),
    /// A tagged union: the index of the variant and the variant's fields.
    Variant(usize, Vec<FSOValue>),
}

/// A parsed record: one value per field, and for every slot the comment and
/// version text that was read just before it. Slot 0 belongs to the opening
/// token of a table, slot `i + 1` to field `i`, and the last slot to the
/// closing token.
#[derive(Debug)]
pub struct FSORecord {
    pub fields: Vec<FSOValue>,
    pub comments: Vec<Option<String>>,
    pub version_strings: Vec<Option<String>>,
}

/// A parsed value as plain data.
pub enum Val {
    Bool(bool),
    Int(int),
    UInt(nat),
    Float(Seq<char>),
    Text(Seq<char>),
    Absent,
    Present(Box<Val>),
    List(Seq<Val>),
    Tuple(Seq<Val>),
    Wrapper(Box<Val>),
    Record(Seq<Val>, Seq<Option<Seq<char>>>, Seq<Option<Seq<char>>>),
    Variant(nat, Seq<Val>),
}

/// The texts that a list of optional strings holds.
pub open spec fn opt_texts(v: Seq<Option<String>>) -> Seq<Option<Seq<char>>> {
    Seq::new(v.len(), |i: int| opt_text(v[i]))
}

impl View for FSOValue {
    type V = Val;

    open spec fn view(&self) -> Val {
        value_view(*self)
    }
}

/// A value as plain data.
pub open spec fn value_view(v: FSOValue) -> Val
    decreases v,
{
    match v {
        FSOValue::Bool(b) => Val::Bool(b),
        FSOValue::Int(n) => Val::Int(n as int),
        FSOValue::UInt(n) => Val::UInt(n as nat),
        FSOValue::Float(f) => Val::Float(f@),
        FSOValue::Text(t) => Val::Text(t@),
        FSOValue::Absent => Val::Absent,
        FSOValue::Present(inner) => Val::Present(Box::new(value_view(*inner))),
        FSOValue::List(items) => Val::List(values_view(items)),
        FSOValue::Tuple(items) => Val::Tuple(values_view(items)),
        FSOValue::Wrapper(inner) => Val::Wrapper(Box::new(value_view(*inner))),
        FSOValue::Record(r) => Val::Record(
            values_view(r.fields),
            opt_texts(r.comments@),
            opt_texts(r.version_strings@),
        ),
        FSOValue::Variant(k, fields) => Val::Variant(k as nat, values_view(fields)),
    }
}

/// The values of a list as plain data.
pub open spec fn values_view(items: Vec<FSOValue>) -> Seq<Val>
    decreases items,
{
    Seq::new(
        items.len() as nat,
        |i: int|
            if 0 <= i < items.len() {
                value_view(items[i])
            } else {
                Val::Absent
            },
    )
}

/// Adding a value to a list adds its plain form to the list's plain form.
pub proof fn lemma_values_view_push(before: Vec<FSOValue>, after: Vec<FSOValue>, v: FSOValue)
    requires
        after@ == before@.push(v),
    ensures
        values_view(after) == values_view(before).push(v@),
{
}

/// An empty list has no values.
pub proof fn lemma_values_view_empty(items: Vec<FSOValue>)
    requires
        items@.len() == 0,
    ensures
        values_view(items) == Seq::<Val>::empty(),
{
}

/// A copy of a list of optional strings.
pub fn copy_opt_texts(v: &Vec<Option<String>>) -> (r: Vec<Option<String>>)
    ensures
        opt_texts(r@) == opt_texts(v@),
{
    let mut r: Vec<Option<String>> = Vec::new();
    let mut i: usize = 0;
    while i < v.len()
        invariant
            i <= v.len(),
            r@.len() == i,
            forall|j: int| 0 <= j < i ==> opt_text(r@[j]) == opt_text(v@[j]),
        decreases v.len() - i,
    {
        r.push(clone_opt(&v[i]));
        i += 1;
    }
    r
}

/// A copy of a value.
pub fn copy_value(v: &FSOValue) -> (r: FSOValue)
    ensures
        r@ == v@,
    decreases v,
{
    match v {
        FSOValue::Bool(b) => FSOValue::Bool(*b),
        FSOValue::Int(n) => FSOValue::Int(*n),
        FSOValue::UInt(n) => FSOValue::UInt(*n),
        FSOValue::Float(f) => FSOValue::Float(f.duplicate()),
        FSOValue::Text(t) => FSOValue::Text(t.clone()),
        FSOValue::Absent => FSOValue::Absent,
        FSOValue::Present(inner) => FSOValue::Present(Box::new(copy_value(inner))),
        FSOValue::List(items) => FSOValue::List(copy_values(items)),
        FSOValue::Tuple(items) => FSOValue::Tuple(copy_values(items)),
        FSOValue::Wrapper(inner) => FSOValue::Wrapper(Box::new(copy_value(inner))),
        FSOValue::Record(r) => FSOValue::Record(
            FSORecord {
                fields: copy_values(&r.fields),
                comments: copy_opt_texts(&r.comments),
                version_strings: copy_opt_texts(&r.version_strings),
            },
        ),
        FSOValue::Variant(k, fields) => FSOValue::Variant(*k, copy_values(fields)),
    }
}

/// A copy of a list of values.
pub fn copy_values(items: &Vec<FSOValue>) -> (r: Vec<FSOValue>)
    ensures
        values_view(r) == values_view(*items),
    decreases items,
{
    let mut r: Vec<FSOValue> = Vec::new();
    let mut i: usize = 0;
    while i < items.len()
        invariant
            i <= items.len(),
            r@.len() == i,
            forall|j: int| 0 <= j < i ==> r@[j]@ == items@[j]@,
        decreases items.len() - i,
    {
        let item = copy_value(&items[i]);
        r.push(item);
        i += 1;
    }
    r
}

} // verus!
