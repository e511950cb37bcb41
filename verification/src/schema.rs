use vstd::prelude::*;
use crate::builder::FSOBuilderListState;
use crate::value::FSOValue;

verus! {

/// The kinds of primitive values.
#[derive(PartialEq, Eq, Structural, Clone, Copy, Debug)]
pub enum ScalarKind {
    Bool,
    I32,
    I64,
    U32,
    U64,
    F32,
    F64,
    Text,
}

/// The shape of a value: how it is read and written.
#[derive(Debug)]
pub enum ValueShape {
    Scalar(ScalarKind),
    /// A value that may be missing. What decides this is the field it is in.
    Optional(Box<ValueShape>),
    /// A sequence of values of one shape, and how it is laid out when written.
    List(Box<ValueShape>, FSOBuilderListState),
    /// A fixed number of values within one pair of parentheses.
    Tuple(Vec<ValueShape>),
    /// A value held behind a pointer; read and written as the value itself.
    Wrapper(Box<ValueShape>),
    Record(RecordSchema),
    TaggedUnion(UnionSchema),
}

/// One field of a record.
#[derive(Debug)]
pub enum FieldDescriptor {
    /// A value after a literal token.
    Named { token: String, shape: ValueShape, gobble: Option<String> },
    /// A value with no token before it.
    Positional { shape: ValueShape, gobble: Option<String> },
    /// A truth value: whether the literal token is there.
    ExistenceFlag { token: String, gobble: Option<String> },
    /// A field that is not in the text and always has the given value.
    Skipped { default: FSOValue },
}

/// A record: its fields in order, and the tokens around them if it is a
/// table. An inline record stands on one line: no white space or comment is
/// skipped before its fields.
#[derive(Debug)]
pub struct RecordSchema {
    pub fields: Vec<FieldDescriptor>,
    pub table_start: Option<String>,
    pub table_end: Option<String>,
    pub inline: bool,
}

/// One alternative of a tagged union: the token that selects it and the
/// shapes of its fields. A default capture has no token of its own: it takes
/// the next bare token of the input, whatever it is.
#[derive(Debug)]
pub struct VariantDescriptor {
    pub token: String,
    pub fields: Vec<ValueShape>,
    pub default_capture: bool,
}

/// A tagged union: its alternatives in the order in which they are tried.
/// `field_spacing` is written between a variant's token and its first field.
#[derive(Debug)]
pub struct UnionSchema {
    pub variants: Vec<VariantDescriptor>,
    pub field_spacing: String,
}

/// No two variants before `n` that are not default captures share a token.
pub open spec fn distinct_tokens(variants: Seq<VariantDescriptor>, n: int) -> bool {
    forall|i: int, j: int|
        0 <= i < j < n && !variants[i].default_capture && !variants[j].default_capture
            ==> variants[i].token@ != variants[j].token@
}

/// A default capture is the last variant and has one field, a string.
pub open spec fn default_is_last(variants: Seq<VariantDescriptor>) -> bool {
    forall|i: int|
        0 <= i < variants.len() && #[trigger] variants[i].default_capture ==> {
            &&& i == variants.len() - 1
            &&& variants[i].fields@.len() == 1
            &&& variants[i].fields@[0] == ValueShape::Scalar(ScalarKind::Text)
        }
}

/// The rules on how shapes may nest: no optional directly inside a list, a
/// tuple, a wrapper or another optional, and no wrapper directly inside an
/// optional; and the rules on the variants of every tagged union.
pub open spec fn well_formed(shape: ValueShape) -> bool
    decreases shape, 0nat,
{
    match shape {
        ValueShape::Scalar(_) => true,
        ValueShape::Optional(inner) => !(*inner is Optional) && !(*inner is Wrapper)
            && well_formed(*inner),
        ValueShape::List(inner, _) => !(*inner is Optional) && well_formed(*inner),
        ValueShape::Tuple(items) => shapes_well_formed(items, 0, false),
        ValueShape::Wrapper(inner) => !(*inner is Optional) && well_formed(*inner),
        ValueShape::Record(r) => fields_well_formed(r.fields, 0),
        ValueShape::TaggedUnion(u) => {
            &&& distinct_tokens(u.variants@, u.variants@.len() as int)
            &&& default_is_last(u.variants@)
            &&& variants_well_formed(u.variants, 0)
        },
    }
}

/// The shapes from `i` on are well formed; none is an optional unless
/// `allow_optional` is set.
pub open spec fn shapes_well_formed(items: Vec<ValueShape>, i: nat, allow_optional: bool) -> bool
    decreases items, items.len() - i,
{
    if i >= items.len() {
        true
    } else {
        &&& allow_optional || !(items[i as int] is Optional)
        &&& well_formed(items[i as int])
        &&& shapes_well_formed(items, i + 1, allow_optional)
    }
}

/// The shapes of the fields from `i` on are well formed.
pub open spec fn fields_well_formed(fields: Vec<FieldDescriptor>, i: nat) -> bool
    decreases fields, fields.len() - i,
{
    if i >= fields.len() {
        true
    } else {
        &&& match fields[i as int] {
            FieldDescriptor::Named { shape, .. } => well_formed(shape),
            FieldDescriptor::Positional { shape, .. } => well_formed(shape),
            _ => true,
        }
        &&& fields_well_formed(fields, i + 1)
    }
}

/// The field shapes of the variants from `i` on are well formed.
pub open spec fn variants_well_formed(variants: Vec<VariantDescriptor>, i: nat) -> bool
    decreases variants, variants.len() - i,
{
    if i >= variants.len() {
        true
    } else {
        &&& shapes_well_formed(variants[i as int].fields, 0, true)
        &&& variants_well_formed(variants, i + 1)
    }
}

/// Whether `shape` is an optional.
pub fn is_optional(shape: &ValueShape) -> (r: bool)
    ensures
        r == (*shape is Optional),
{
    match shape {
        ValueShape::Optional(_) => true,
        _ => false,
    }
}

/// Whether `shape` is a wrapper.
pub fn is_wrapper(shape: &ValueShape) -> (r: bool)
    ensures
        r == (*shape is Wrapper),
{
    match shape {
        ValueShape::Wrapper(_) => true,
        _ => false,
    }
}

/// Whether `shape` is a string.
pub fn is_text(shape: &ValueShape) -> (r: bool)
    ensures
        r == (*shape == ValueShape::Scalar(ScalarKind::Text)),
{
    match shape {
        ValueShape::Scalar(ScalarKind::Text) => true,
        _ => false,
    }
}

/// Checks the rules on how shapes may nest.
pub fn check_shape(shape: &ValueShape) -> (r: bool)
    ensures
        r == well_formed(*shape),
    decreases shape,
{
    match shape {
        ValueShape::Scalar(_) => true,
        ValueShape::Optional(inner) => !is_optional(inner) && !is_wrapper(inner) && check_shape(
            inner,
        ),
        ValueShape::List(inner, _) => !is_optional(inner) && check_shape(inner),
        ValueShape::Tuple(items) => check_shapes(items, false),
        ValueShape::Wrapper(inner) => !is_optional(inner) && check_shape(inner),
        ValueShape::Record(r) => check_fields(&r.fields),
        ValueShape::TaggedUnion(u) => check_tokens(&u.variants) && check_default(&u.variants)
            && check_variants(&u.variants),
    }
}

/// Checks a list of shapes.
pub fn check_shapes(items: &Vec<ValueShape>, allow_optional: bool) -> (r: bool)
    ensures
        r == shapes_well_formed(*items, 0, allow_optional),
    decreases items,
{
    let mut i: usize = 0;
    let mut good: bool = true;
    while i < items.len()
        invariant
            i <= items.len(),
            shapes_well_formed(*items, 0, allow_optional) == (good && shapes_well_formed(
                *items,
                i as nat,
                allow_optional,
            )),
        decreases items.len() - i,
    {
        let this = (allow_optional || !is_optional(&items[i])) && check_shape(&items[i]);
        good = good && this;
        i += 1;
    }
    good
}

/// Checks the shapes of the fields of a record.
pub fn check_fields(fields: &Vec<FieldDescriptor>) -> (r: bool)
    ensures
        r == fields_well_formed(*fields, 0),
    decreases fields,
{
    let mut i: usize = 0;
    let mut good: bool = true;
    while i < fields.len()
        invariant
            i <= fields.len(),
            fields_well_formed(*fields, 0) == (good && fields_well_formed(*fields, i as nat)),
        decreases fields.len() - i,
    {
        let this = match &fields[i] {
            FieldDescriptor::Named { shape, .. } => check_shape(shape),
            FieldDescriptor::Positional { shape, .. } => check_shape(shape),
            _ => true,
        };
        good = good && this;
        i += 1;
    }
    good
}

/// Checks the field shapes of the variants of a tagged union.
pub fn check_variants(variants: &Vec<VariantDescriptor>) -> (r: bool)
    ensures
        r == variants_well_formed(*variants, 0),
    decreases variants,
{
    let mut i: usize = 0;
    let mut good: bool = true;
    while i < variants.len()
        invariant
            i <= variants.len(),
            variants_well_formed(*variants, 0) == (good && variants_well_formed(
                *variants,
                i as nat,
            )),
        decreases variants.len() - i,
    {
        let this = check_shapes(&variants[i].fields, true);
        good = good && this;
        i += 1;
    }
    good
}

/// Checks that no two variants with a token of their own share it.
pub fn check_tokens(variants: &Vec<VariantDescriptor>) -> (r: bool)
    ensures
        r == distinct_tokens(variants@, variants@.len() as int),
{
    let mut j: usize = 0;
    while j < variants.len()
        invariant
            j <= variants.len(),
            distinct_tokens(variants@, j as int),
        decreases variants.len() - j,
    {
        let mut i: usize = 0;
        while i < j
            invariant
                i <= j < variants.len(),
                distinct_tokens(variants@, j as int),
                forall|k: int|
                    0 <= k < i && !variants@[k].default_capture && !variants@[j as int].default_capture
                        ==> variants@[k].token@ != variants@[j as int].token@,
            decreases j - i,
        {
            if !variants[i].default_capture && !variants[j].default_capture && variants[i].token
                == variants[j].token {
                return false;
            }
            i += 1;
        }
        j += 1;
    }
    true
}

/// Checks that a default capture is the last variant and has one field, a
/// string.
pub fn check_default(variants: &Vec<VariantDescriptor>) -> (r: bool)
    ensures
        r == default_is_last(variants@),
{
    let mut i: usize = 0;
    while i < variants.len()
        invariant
            i <= variants.len(),
            forall|k: int|
                0 <= k < i && #[trigger] variants@[k].default_capture ==> {
                    &&& k == variants@.len() - 1
                    &&& variants@[k].fields@.len() == 1
                    &&& variants@[k].fields@[0] == ValueShape::Scalar(ScalarKind::Text)
                },
        decreases variants.len() - i,
    {
        if variants[i].default_capture {
            if i + 1 != variants.len() || variants[i].fields.len() != 1 || !is_text(
                &variants[i].fields[0],
            ) {
                return false;
            }
        }
        i += 1;
    }
    true
}

/// The shape of a field is well formed, if it has one.
pub open spec fn field_well_formed(field: FieldDescriptor) -> bool {
    match field {
        FieldDescriptor::Named { shape, .. } => well_formed(shape),
        FieldDescriptor::Positional { shape, .. } => well_formed(shape),
        _ => true,
    }
}

/// The fields from `i` on keep being well formed when one is added.
pub proof fn lemma_fields_push(before: Vec<FieldDescriptor>, after: Vec<FieldDescriptor>, i: nat)
    requires
        i <= before@.len(),
        after@.len() == before@.len() + 1,
        after@.take(before@.len() as int) == before@,
        fields_well_formed(before, i),
        field_well_formed(after@.last()),
    ensures
        fields_well_formed(after, i),
    decreases before@.len() - i,
{
    if i < before@.len() {
        assert(after@[i as int] == before@[i as int]) by {
        }
        lemma_fields_push(before, after, i + 1);
    } else {
        assert(fields_well_formed(after, i + 1));
    }
}

/// Adds a field to the fields of a record.
pub fn add_field(fields: &mut Vec<FieldDescriptor>, field: FieldDescriptor)
    requires
        fields_well_formed(*old(fields), 0),
        field_well_formed(field),
    ensures
        fields_well_formed(*final(fields), 0),
        final(fields)@ == old(fields)@.push(field),
{
    let ghost before = *fields;
    fields.push(field);
    proof {
        assert(fields@.take(before@.len() as int) =~= before@);
        lemma_fields_push(before, *fields, 0);
    }
}

/// The record of the given fields.
pub fn record_of(fields: Vec<FieldDescriptor>) -> (r: ValueShape)
    requires
        fields_well_formed(fields, 0),
    ensures
        well_formed(r),
        r == ValueShape::Record(
            RecordSchema { fields, table_start: None, table_end: None, inline: false },
        ),
{
    ValueShape::Record(RecordSchema { fields, table_start: None, table_end: None, inline: false })
}

/// The table of the given fields between the tokens `start` and `end`.
pub fn table_of(start: &str, fields: Vec<FieldDescriptor>, end: &str) -> (r: ValueShape)
    requires
        fields_well_formed(fields, 0),
    ensures
        well_formed(r),
        match r {
            ValueShape::Record(record) => {
                &&& record.fields == fields
                &&& !record.inline
                &&& record.table_start matches Some(s) && s@ == start@
                &&& record.table_end matches Some(e) && e@ == end@
            },
            _ => false,
        },
{
    ValueShape::Record(
        RecordSchema {
            fields,
            table_start: Some(start.to_owned()),
            table_end: Some(end.to_owned()),
            inline: false,
        },
    )
}

/// The shape of a record of one named field.
pub fn single_named_record(token: &str, shape: ValueShape) -> (r: ValueShape)
    requires
        well_formed(shape),
    ensures
        well_formed(r),
{
    let mut fields: Vec<FieldDescriptor> = Vec::new();
    add_field(
        &mut fields,
        FieldDescriptor::Named { token: token.to_owned(), shape, gobble: None },
    );
    record_of(fields)
}

/// A variant with the token `token`.
pub fn variant(token: &str, fields: Vec<ValueShape>) -> (v: VariantDescriptor)
    ensures
        v.token@ == token@,
        v.fields == fields,
        !v.default_capture,
{
    VariantDescriptor { token: token.to_owned(), fields, default_capture: false }
}

/// The fields of a variant that has none.
pub fn no_fields() -> (fields: Vec<ValueShape>)
    ensures
        fields@.len() == 0,
        shapes_well_formed(fields, 0, true),
{
    Vec::new()
}

/// The fields of a variant with one field.
pub fn one_field(shape: ValueShape) -> (fields: Vec<ValueShape>)
    requires
        well_formed(shape),
    ensures
        fields@ == seq![shape],
        shapes_well_formed(fields, 0, true),
{
    let mut fields: Vec<ValueShape> = Vec::new();
    fields.push(shape);
    proof {
        assert(shapes_well_formed(fields, 1, true));
    }
    fields
}

/// The variants can stand in a well formed tagged union: their field shapes
/// are well formed, none is a default capture, and no two share a token.
pub open spec fn plain_variants(variants: Vec<VariantDescriptor>) -> bool {
    &&& variants_well_formed(variants, 0)
    &&& distinct_tokens(variants@, variants@.len() as int)
    &&& forall|i: int| 0 <= i < variants@.len() ==> !(#[trigger] variants@[i]).default_capture
}

/// The tagged union of the given variants, with a space between the token
/// of a variant and its first field.
pub fn union_of(variants: Vec<VariantDescriptor>) -> (r: ValueShape)
    requires
        plain_variants(variants),
    ensures
        well_formed(r),
        match r {
            ValueShape::TaggedUnion(u) => u.variants == variants,
            _ => false,
        },
{
    ValueShape::TaggedUnion(UnionSchema { variants, field_spacing: " ".to_owned() })
}

/// The tagged union of the given variants and, after them, a default
/// capture.
pub fn union_with_default(variants: Vec<VariantDescriptor>) -> (r: ValueShape)
    requires
        plain_variants(variants),
    ensures
        well_formed(r),
        match r {
            ValueShape::TaggedUnion(u) => {
                &&& u.variants@.len() == variants@.len() + 1
                &&& u.variants@.take(variants@.len() as int) == variants@
                &&& u.variants@.last().default_capture
            },
            _ => false,
        },
{
    let ghost before = variants;
    let mut variants = variants;
    let capture = VariantDescriptor {
        token: String::new(),
        fields: one_field(ValueShape::Scalar(ScalarKind::Text)),
        default_capture: true,
    };
    variants.push(capture);
    proof {
        assert(variants@.take(before@.len() as int) =~= before@);
        lemma_variants_push(before, variants, 0);
        assert forall|i: int, j: int|
            0 <= i < j < variants@.len() && !variants@[i].default_capture
                && !variants@[j].default_capture implies variants@[i].token@
            != variants@[j].token@ by {
        }
        assert forall|i: int|
            0 <= i < variants@.len() && #[trigger] variants@[i].default_capture implies i
            == variants@.len() - 1 && variants@[i].fields@.len() == 1 && variants@[i].fields@[0]
            == ValueShape::Scalar(ScalarKind::Text) by {
            if i < before@.len() {
            }
        }
    }
    ValueShape::TaggedUnion(UnionSchema { variants, field_spacing: " ".to_owned() })
}

/// The variants from `i` on keep being well formed when one is added.
pub proof fn lemma_variants_push(before: Vec<VariantDescriptor>, after: Vec<VariantDescriptor>, i: nat)
    requires
        i <= before@.len(),
        after@.len() == before@.len() + 1,
        after@.take(before@.len() as int) == before@,
        variants_well_formed(before, i),
        shapes_well_formed(after@.last().fields, 0, true),
    ensures
        variants_well_formed(after, i),
    decreases before@.len() - i,
{
    if i < before@.len() {
        assert(after@[i as int] == before@[i as int]) by {
        }
        lemma_variants_push(before, after, i + 1);
    } else {
        assert(variants_well_formed(after, i + 1));
    }
}

/// Some variant has the token `token`.
pub open spec fn has_token(variants: Seq<VariantDescriptor>, token: Seq<char>) -> bool {
    exists|i: int| 0 <= i < variants.len() && (#[trigger] variants[i]).token@ == token
}

/// Adds a variant with the token `token` and the fields `fields`, unless a
/// variant has that token already: then the variants stay as they are.
pub fn add_variant(variants: &mut Vec<VariantDescriptor>, token: &str, fields: Vec<ValueShape>)
    requires
        plain_variants(*old(variants)),
        shapes_well_formed(fields, 0, true),
    ensures
        plain_variants(*final(variants)),
        has_token(old(variants)@, token@) ==> final(variants)@ == old(variants)@,
        !has_token(old(variants)@, token@) ==> {
            &&& final(variants)@.len() == old(variants)@.len() + 1
            &&& final(variants)@.take(old(variants)@.len() as int) == old(variants)@
            &&& final(variants)@.last().token@ == token@
            &&& final(variants)@.last().fields == fields
            &&& !final(variants)@.last().default_capture
        },
{
    let wanted: String = token.to_owned();
    let mut i: usize = 0;
    while i < variants.len()
        invariant
            i <= variants.len(),
            *variants == *old(variants),
            plain_variants(*variants),
            wanted@ == token@,
            forall|k: int| 0 <= k < i ==> (#[trigger] variants@[k]).token@ != token@,
        decreases variants.len() - i,
    {
        if variants[i].token == wanted {
            return ;
        }
        i += 1;
    }
    let ghost before = *variants;
    variants.push(variant(token, fields));
    proof {
        assert(variants@.take(before@.len() as int) =~= before@);
        lemma_variants_push(before, *variants, 0);
    }
}

/// The shapes from `i` on keep being well formed when one is added.
pub proof fn lemma_shapes_push(
    before: Vec<ValueShape>,
    after: Vec<ValueShape>,
    i: nat,
    allow_optional: bool,
)
    requires
        i <= before@.len(),
        after@.len() == before@.len() + 1,
        after@.take(before@.len() as int) == before@,
        shapes_well_formed(before, i, allow_optional),
        well_formed(after@.last()),
        allow_optional || !(after@.last() is Optional),
    ensures
        shapes_well_formed(after, i, allow_optional),
    decreases before@.len() - i,
{
    if i < before@.len() {
        assert(after@[i as int] == before@[i as int]) by {
        }
        lemma_shapes_push(before, after, i + 1, allow_optional);
    } else {
        assert(shapes_well_formed(after, i + 1, allow_optional));
    }
}

/// Adds a shape to the elements of a tuple, or to the fields of a variant,
/// among which optionals are allowed.
pub fn add_shape(shapes: &mut Vec<ValueShape>, shape: ValueShape, allow_optional: bool)
    requires
        shapes_well_formed(*old(shapes), 0, allow_optional),
        well_formed(shape),
        allow_optional || !(shape is Optional),
    ensures
        shapes_well_formed(*final(shapes), 0, allow_optional),
        final(shapes)@ == old(shapes)@.push(shape),
{
    let ghost before = *shapes;
    shapes.push(shape);
    proof {
        assert(shapes@.take(before@.len() as int) =~= before@);
        lemma_shapes_push(before, *shapes, 0, allow_optional);
    }
}

/// The tuple of the given elements.
pub fn tuple_of(shapes: Vec<ValueShape>) -> (r: ValueShape)
    requires
        shapes_well_formed(shapes, 0, false),
    ensures
        well_formed(r),
        r == ValueShape::Tuple(shapes),
{
    ValueShape::Tuple(shapes)
}

/// The optional of the given shape.
pub fn optional_of(shape: ValueShape) -> (r: ValueShape)
    requires
        well_formed(shape),
        !(shape is Optional),
        !(shape is Wrapper),
    ensures
        well_formed(r),
        r == ValueShape::Optional(Box::new(shape)),
{
    ValueShape::Optional(Box::new(shape))
}

/// The list of elements of the given shape, laid out as `mode`.
pub fn list_of(shape: ValueShape, mode: FSOBuilderListState) -> (r: ValueShape)
    requires
        well_formed(shape),
        !(shape is Optional),
    ensures
        well_formed(r),
        r == ValueShape::List(Box::new(shape), mode),
{
    ValueShape::List(Box::new(shape), mode)
}

} // verus!
