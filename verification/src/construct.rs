use vstd::prelude::*;
use crate::builder::FSOBuilderListState;
use crate::naming::{
    field_token, field_token_of, field_word_pattern, joined_words, text_or, variant_case,
    variant_token, variant_token_of, variant_word_pattern,
};
use crate::pattern::regex_find_all;
use crate::schema::{
    is_optional, is_text, is_wrapper, FieldDescriptor, RecordSchema, ScalarKind, UnionSchema,
    ValueShape, VariantDescriptor,
};
use crate::value::FSOValue;

verus! {

/// Why a declaration describes no table.
#[derive(PartialEq, Eq, Structural, Clone, Copy, Debug)]
pub enum SchemaError {
    /// A list whose elements are optional.
    VectorOfOptions,
    /// An optional whose value is optional or held behind a pointer.
    OptionOfOptions,
    /// A value behind a pointer that is optional.
    BoxOfOptions,
    /// A tuple with an optional element.
    TupleOfOptions,
    /// An existence flag on a field that is no truth value.
    ExistenceNotBool,
    /// A default capture that is not the last variant.
    DefaultNotLast,
    /// A default capture that does not have exactly one field, a string.
    DefaultNotOneString,
    /// A declaration that is neither a record nor a tagged union.
    Unsupported,
    /// A name whose words could not be found.
    Naming,
}

/// What the report of a declaration's fault says.
pub open spec fn fault_text(e: SchemaError) -> Seq<char> {
    match e {
        SchemaError::VectorOfOptions =>
            "FSO Tables cannot contain a Vector of Options. Consider adding a subtable with optional unnamed elements."@,
        SchemaError::OptionOfOptions =>
            "FSO Tables cannot contain an Option of Options or Box-likes. Consider reversing the template order."@,
        SchemaError::BoxOfOptions =>
            "FSO Tables cannot contain a Box-like of Options. Consider reversing the template order."@,
        SchemaError::TupleOfOptions => "FSO Tables cannot yet contain Options."@,
        SchemaError::ExistenceNotBool => "Only variables of type bool can be existence-bool'd!"@,
        SchemaError::DefaultNotLast =>
            "Only the last variant of an enum can be used as a default case."@,
        SchemaError::DefaultNotOneString =>
            "An enum default case must have exactly one field of the type String."@,
        SchemaError::Unsupported => "Can only annotate structs and enums!"@,
        SchemaError::Naming => "The words of a name could not be found."@,
    }
}

impl SchemaError {
    /// The report of the fault.
    pub fn message(&self) -> (text: String)
        ensures
            text@ == fault_text(*self),
    {
        match self {
            SchemaError::VectorOfOptions =>
                "FSO Tables cannot contain a Vector of Options. Consider adding a subtable with optional unnamed elements.".to_owned(),
            SchemaError::OptionOfOptions =>
                "FSO Tables cannot contain an Option of Options or Box-likes. Consider reversing the template order.".to_owned(),
            SchemaError::BoxOfOptions =>
                "FSO Tables cannot contain a Box-like of Options. Consider reversing the template order.".to_owned(),
            SchemaError::TupleOfOptions => "FSO Tables cannot yet contain Options.".to_owned(),
            SchemaError::ExistenceNotBool =>
                "Only variables of type bool can be existence-bool'd!".to_owned(),
            SchemaError::DefaultNotLast =>
                "Only the last variant of an enum can be used as a default case.".to_owned(),
            SchemaError::DefaultNotOneString =>
                "An enum default case must have exactly one field of the type String.".to_owned(),
            SchemaError::Unsupported => "Can only annotate structs and enums!".to_owned(),
            SchemaError::Naming => "The words of a name could not be found.".to_owned(),
        }
    }
}

/// The first fault in how the shapes of a field nest, looking through
/// lists, optionals, wrappers and tuples and no further.
pub open spec fn nesting_fault(shape: ValueShape) -> Option<SchemaError>
    decreases shape, 0nat,
{
    match shape {
        ValueShape::List(inner, _) => if nesting_fault(*inner) is Some {
            nesting_fault(*inner)
        } else if *inner is Optional {
            Some(SchemaError::VectorOfOptions)
        } else {
            None
        },
        ValueShape::Optional(inner) => if nesting_fault(*inner) is Some {
            nesting_fault(*inner)
        } else if *inner is Optional || *inner is Wrapper {
            Some(SchemaError::OptionOfOptions)
        } else {
            None
        },
        ValueShape::Wrapper(inner) => if nesting_fault(*inner) is Some {
            nesting_fault(*inner)
        } else if *inner is Optional {
            Some(SchemaError::BoxOfOptions)
        } else {
            None
        },
        ValueShape::Tuple(items) => tuple_fault(items, 0, false),
        _ => None,
    }
}

/// The first fault among the shapes from the `i`-th on. An optional among
/// them is a fault unless `allow_optional` is set.
pub open spec fn tuple_fault(items: Vec<ValueShape>, i: nat, allow_optional: bool) -> Option<
    SchemaError,
>
    decreases items, items.len() - i,
{
    if i >= items.len() {
        None
    } else if nesting_fault(items[i as int]) is Some {
        nesting_fault(items[i as int])
    } else if !allow_optional && items[i as int] is Optional {
        Some(SchemaError::TupleOfOptions)
    } else {
        tuple_fault(items, i + 1, allow_optional)
    }
}

/// `after` is `before` with every list that is reached through lists,
/// optionals, wrappers and tuples laid out as `mode`.
pub open spec fn laid_out(before: ValueShape, after: ValueShape, mode: FSOBuilderListState) -> bool
    decreases before, 0nat,
{
    match before {
        ValueShape::List(inner, _) => after matches ValueShape::List(x, m) && m == mode && laid_out(
            *inner,
            *x,
            mode,
        ),
        ValueShape::Optional(inner) => after matches ValueShape::Optional(x) && laid_out(
            *inner,
            *x,
            mode,
        ),
        ValueShape::Wrapper(inner) => after matches ValueShape::Wrapper(x) && laid_out(
            *inner,
            *x,
            mode,
        ),
        ValueShape::Tuple(items) => after matches ValueShape::Tuple(others) && others@.len()
            == items@.len() && all_laid_out(items, others@, 0, mode),
        _ => after == before,
    }
}

/// The elements of a tuple from the `i`-th on are laid out as `mode`.
pub open spec fn all_laid_out(
    items: Vec<ValueShape>,
    others: Seq<ValueShape>,
    i: nat,
    mode: FSOBuilderListState,
) -> bool
    decreases items, items.len() - i,
{
    if i >= items.len() || i >= others.len() {
        true
    } else {
        laid_out(items[i as int], others[i as int], mode) && all_laid_out(items, others, i + 1, mode)
    }
}

/// Checks how the shapes of a field nest and lays its lists out as `mode`.
pub fn deduce_type(shape: ValueShape, mode: FSOBuilderListState) -> (r: Result<
    ValueShape,
    SchemaError,
>)
    ensures
        match r {
            Ok(after) => nesting_fault(shape) is None && laid_out(shape, after, mode) && (
            after is Optional <==> shape is Optional) && (after is Wrapper <==> shape is Wrapper),
            Err(e) => nesting_fault(shape) == Some(e),
        },
    decreases shape, 0nat,
{
    match shape {
        ValueShape::List(inner, _) => {
            let optional = is_optional(&inner);
            match deduce_type(*inner, mode) {
                Ok(x) => if optional {
                    Err(SchemaError::VectorOfOptions)
                } else {
                    Ok(ValueShape::List(Box::new(x), mode))
                },
                Err(e) => Err(e),
            }
        },
        ValueShape::Optional(inner) => {
            let nested = is_optional(&inner) || is_wrapper(&inner);
            match deduce_type(*inner, mode) {
                Ok(x) => if nested {
                    Err(SchemaError::OptionOfOptions)
                } else {
                    Ok(ValueShape::Optional(Box::new(x)))
                },
                Err(e) => Err(e),
            }
        },
        ValueShape::Wrapper(inner) => {
            let optional = is_optional(&inner);
            match deduce_type(*inner, mode) {
                Ok(x) => if optional {
                    Err(SchemaError::BoxOfOptions)
                } else {
                    Ok(ValueShape::Wrapper(Box::new(x)))
                },
                Err(e) => Err(e),
            }
        },
        ValueShape::Tuple(items) => match deduce_tuple(items, mode, false) {
            Ok(others) => Ok(ValueShape::Tuple(others)),
            Err(e) => Err(e),
        },
        other => Ok(other),
    }
}

/// The elements of `v` in the opposite order.
pub fn reversed<T>(v: Vec<T>) -> (r: Vec<T>)
    ensures
        r@ == v@.reverse(),
{
    let ghost forward = v@;
    let mut v = v;
    let mut r: Vec<T> = Vec::new();
    while v.len() > 0
        invariant
            v@.len() <= forward.len(),
            v@ == forward.take(v@.len() as int),
            r@.len() == forward.len() - v@.len(),
            forall|k: int| 0 <= k < r@.len() ==> #[trigger] r@[k] == forward[forward.len() - 1 - k],
        decreases v@.len(),
    {
        let ghost n = v@.len();
        let x = v.pop().unwrap();
        assert(x == forward[n - 1]);
        assert(v@ =~= forward.take(n - 1));
        r.push(x);
    }
    assert(r@ =~= forward.reverse());
    r
}

/// Checks and lays out a sequence of shapes: the elements of a tuple, or the
/// fields of a variant, among which optionals are allowed.
pub fn deduce_tuple(shapes: Vec<ValueShape>, mode: FSOBuilderListState, allow_optional: bool) -> (r:
    Result<Vec<ValueShape>, SchemaError>)
    ensures
        match r {
            Ok(others) => tuple_fault(shapes, 0, allow_optional) is None && others@.len()
                == shapes@.len() && all_laid_out(shapes, others@, 0, mode),
            Err(e) => tuple_fault(shapes, 0, allow_optional) == Some(e),
        },
    decreases shapes, 1nat,
{
    let mut pending = reversed(shapes);
    let mut others: Vec<ValueShape> = Vec::new();
    while pending.len() > 0
        invariant
            pending@.len() + others@.len() == shapes@.len(),
            pending@ == shapes@.reverse().take(pending@.len() as int),
            tuple_fault(shapes, 0, allow_optional) == tuple_fault(
                shapes,
                others@.len() as nat,
                allow_optional,
            ),
            forall|k: int| 0 <= k < others@.len() ==> laid_out(shapes@[k], #[trigger] others@[k], mode),
        decreases pending@.len(),
    {
        let ghost n = pending@.len();
        let ghost i = others@.len() as int;
        let next = pending.pop().unwrap();
        proof {
            assert(next == shapes@.reverse()[n - 1]);
            assert(next == shapes@[i]);
            assert(pending@ =~= shapes@.reverse().take(n - 1));
            assert(decreases_to!(shapes => shapes@));
            assert(decreases_to!(shapes@ => shapes@[i]));
        }
        let optional = is_optional(&next);
        match deduce_type(next, mode) {
            Ok(x) => {
                if optional && !allow_optional {
                    return Err(SchemaError::TupleOfOptions);
                }
                others.push(x);
            },
            Err(e) => {
                return Err(e);
            },
        }
    }
    proof {
        lemma_all_laid_out(shapes, others@, 0, mode);
    }
    Ok(others)
}

/// Elements that are laid out one by one are all laid out.
pub proof fn lemma_all_laid_out(
    items: Vec<ValueShape>,
    others: Seq<ValueShape>,
    i: nat,
    mode: FSOBuilderListState,
)
    requires
        others.len() == items@.len(),
        forall|k: int| 0 <= k < others.len() ==> laid_out(items@[k], #[trigger] others[k], mode),
    ensures
        all_laid_out(items, others, i, mode),
    decreases items@.len() - i,
{
    if i < items@.len() {
        lemma_all_laid_out(items, others, i + 1, mode);
    }
}

/// What is declared for a whole table.
#[derive(Debug)]
pub struct TableOptions {
    /// What begins the token of every field or variant; `$` by default for
    /// fields, nothing for variants.
    pub prefix: Option<String>,
    /// What ends the token of every field or variant; a colon by default
    /// for fields, nothing for flags and variants.
    pub suffix: Option<String>,
    /// The opening token of a table.
    pub table_start: Option<String>,
    /// The closing token of a table.
    pub table_end: Option<String>,
    /// What is written between the token of a variant and its first field; a
    /// space by default.
    pub field_spacing: Option<String>,
    /// The variants are flags: their tokens are in small letters within
    /// double quotes.
    pub flagset: bool,
    /// The record stands on one line.
    pub inline: bool,
}

impl Default for TableOptions {
    fn default() -> (options: Self)
        ensures
            options.prefix is None,
            options.suffix is None,
            options.table_start is None,
            options.table_end is None,
            options.field_spacing is None,
            !options.flagset,
            !options.inline,
    {
        TableOptions {
            prefix: None,
            suffix: None,
            table_start: None,
            table_end: None,
            field_spacing: None,
            flagset: false,
            inline: false,
        }
    }
}

/// What is declared for one field of a record.
#[derive(Debug)]
pub struct FieldDeclaration {
    /// The name of the field, words joined by underscores.
    pub name: String,
    pub shape: ValueShape,
    /// The token of the field, where it is not to be made from the name.
    pub fso_name: Option<String>,
    /// The literal that must follow the field.
    pub gobble: Option<String>,
    /// The value of the field, where it is not in the text.
    pub skip: Option<FSOValue>,
    /// The field has no token.
    pub unnamed: bool,
    /// The field is true where its token is there.
    pub existence: bool,
    /// The lists of the field have one element per line.
    pub multiline: bool,
}

/// What is declared for one variant of a tagged union.
#[derive(Debug)]
pub struct VariantDeclaration {
    /// The name of the variant, each word beginning with a capital letter.
    pub name: String,
    pub fields: Vec<ValueShape>,
    /// The name to write in place of the words of `name`.
    pub fso_name: Option<String>,
    /// The variant takes the next bare token where no other variant matches.
    pub use_as_default_string: bool,
}

/// What can be declared a table.
#[derive(Debug)]
pub enum TableDeclaration {
    Struct(Vec<FieldDeclaration>),
    Enum(Vec<VariantDeclaration>),
    /// Anything else.
    Other,
}

/// The token of a declared field; `None` where the words of its name cannot
/// be found.
pub open spec fn declared_field_token(decl: FieldDeclaration, options: TableOptions) -> Option<
    Seq<char>,
> {
    match decl.fso_name {
        Some(t) => Some(t@),
        None => match regex_find_all(field_word_pattern(), decl.name@) {
            Some(words) => Some(
                field_token_of(words, options.prefix, options.suffix, decl.existence),
            ),
            None => None,
        },
    }
}

/// How the lists of a declared field are laid out: one element per line in
/// a field without a token and where the field says so, on one line
/// elsewhere.
pub open spec fn field_mode(decl: FieldDeclaration) -> FSOBuilderListState {
    if decl.unnamed || decl.multiline {
        FSOBuilderListState::MutlilineList
    } else {
        FSOBuilderListState::InlineList
    }
}

/// The fault of a declared field, if it has one.
pub open spec fn field_fault(decl: FieldDeclaration, options: TableOptions) -> Option<SchemaError> {
    if decl.skip is Some {
        None
    } else if !decl.unnamed && declared_field_token(decl, options) is None {
        Some(SchemaError::Naming)
    } else if nesting_fault(decl.shape) is Some {
        nesting_fault(decl.shape)
    } else if !decl.unnamed && decl.existence && decl.shape != ValueShape::Scalar(
        ScalarKind::Bool,
    ) {
        Some(SchemaError::ExistenceNotBool)
    } else {
        None
    }
}

/// `field` is the field that `decl` declares.
pub open spec fn field_described(
    decl: FieldDeclaration,
    options: TableOptions,
    field: FieldDescriptor,
) -> bool {
    match decl.skip {
        Some(default) => field == (FieldDescriptor::Skipped { default }),
        None => if decl.unnamed {
            field matches FieldDescriptor::Positional { shape, gobble } && gobble == decl.gobble
                && laid_out(decl.shape, shape, FSOBuilderListState::MutlilineList)
        } else if decl.existence {
            field matches FieldDescriptor::ExistenceFlag { token, gobble } && gobble == decl.gobble
                && Some(token@) == declared_field_token(decl, options)
        } else {
            field matches FieldDescriptor::Named { token, shape, gobble } && gobble == decl.gobble
                && Some(token@) == declared_field_token(decl, options) && laid_out(
                decl.shape,
                shape,
                field_mode(decl),
            )
        },
    }
}

/// Whether `shape` is a truth value.
pub fn is_bool(shape: &ValueShape) -> (r: bool)
    ensures
        r == (*shape == ValueShape::Scalar(ScalarKind::Bool)),
{
    match shape {
        ValueShape::Scalar(ScalarKind::Bool) => true,
        _ => false,
    }
}

/// The field that `decl` declares, or its fault.
pub fn describe_field(decl: FieldDeclaration, options: &TableOptions) -> (r: Result<
    FieldDescriptor,
    SchemaError,
>)
    ensures
        match r {
            Ok(field) => field_fault(decl, *options) is None && field_described(
                decl,
                *options,
                field,
            ),
            Err(e) => field_fault(decl, *options) == Some(e),
        },
{
    let FieldDeclaration { name, shape, fso_name, gobble, skip, unnamed, existence, multiline } =
        decl;
    match skip {
        Some(default) => Ok(FieldDescriptor::Skipped { default }),
        None => {
            if unnamed {
                match deduce_type(shape, FSOBuilderListState::MutlilineList) {
                    Ok(laid) => Ok(FieldDescriptor::Positional { shape: laid, gobble }),
                    Err(e) => Err(e),
                }
            } else {
                let token = match fso_name {
                    Some(t) => t,
                    None => match field_token(
                        name.as_str(),
                        &options.prefix,
                        &options.suffix,
                        existence,
                    ) {
                        Some(t) => t,
                        None => {
                            return Err(SchemaError::Naming);
                        },
                    },
                };
                let truth = is_bool(&shape);
                let mode = if multiline {
                    FSOBuilderListState::MutlilineList
                } else {
                    FSOBuilderListState::InlineList
                };
                match deduce_type(shape, mode) {
                    Ok(laid) => {
                        if existence {
                            if truth {
                                Ok(FieldDescriptor::ExistenceFlag { token, gobble })
                            } else {
                                Err(SchemaError::ExistenceNotBool)
                            }
                        } else {
                            Ok(FieldDescriptor::Named { token, shape: laid, gobble })
                        }
                    },
                    Err(e) => Err(e),
                }
            }
        },
    }
}

/// `field` is the field that `decl` declares, and `decl` has no fault.
#[verifier::opaque]
pub open spec fn field_done(
    decl: FieldDeclaration,
    options: TableOptions,
    field: FieldDescriptor,
) -> bool {
    field_fault(decl, options) is None && field_described(decl, options, field)
}

/// `r` is what the fields `fields` declare: the record of the fields they
/// describe, between the table tokens of `options`; or the fault of the
/// first field that has one.
pub open spec fn record_declared(
    fields: Seq<FieldDeclaration>,
    options: TableOptions,
    r: Result<ValueShape, SchemaError>,
) -> bool {
    match r {
        Ok(shape) => {
            &&& shape matches ValueShape::Record(record)
            &&& record.table_start == options.table_start
            &&& record.table_end == options.table_end
            &&& record.inline == options.inline
            &&& record.fields@.len() == fields.len()
            &&& forall|i: int|
                0 <= i < fields.len() ==> field_fault(#[trigger] fields[i], options) is None
            &&& forall|i: int|
                0 <= i < fields.len() ==> field_described(
                    fields[i],
                    options,
                    #[trigger] record.fields@[i],
                )
        },
        Err(e) => exists|i: int|
            0 <= i < fields.len() && field_fault(#[trigger] fields[i], options) == Some(e)
                && forall|j: int| 0 <= j < i ==> field_fault(#[trigger] fields[j], options) is None,
    }
}

/// The record that the fields `fields` declare, or the fault of the first
/// field that has one.
pub fn fso_table_struct(fields: Vec<FieldDeclaration>, options: TableOptions) -> (r: Result<
    ValueShape,
    SchemaError,
>)
    ensures
        record_declared(fields@, options, r),
{
    let mut pending = reversed(fields);
    let mut described: Vec<FieldDescriptor> = Vec::new();
    while pending.len() > 0
        invariant
            pending@.len() + described@.len() == fields@.len(),
            pending@ == fields@.reverse().take(pending@.len() as int),
            forall|i: int|
                0 <= i < described@.len() ==> field_done(fields@[i], options, #[trigger] described@[i]),
        decreases pending@.len(),
    {
        let ghost n = pending@.len();
        let ghost i = described@.len() as int;
        let decl = pending.pop().unwrap();
        proof {
            assert(decl == fields@.reverse()[n - 1]);
            assert(decl == fields@[i]);
            assert(pending@ =~= fields@.reverse().take(n - 1));
        }
        match describe_field(decl, &options) {
            Ok(field) => {
                proof {
                    reveal(field_done);
                    assert(field_done(decl, options, field));
                }
                described.push(field);
            },
            Err(e) => {
                proof {
                    assert forall|j: int| 0 <= j < i implies field_fault(
                        #[trigger] fields@[j],
                        options,
                    ) is None by {
                        reveal(field_done);
                        assert(field_done(fields@[j], options, described@[j]));
                    }
                    assert(field_fault(fields@[i], options) == Some(e));
                }
                return Err(e);
            },
        }
    }
    proof {
        assert forall|i: int| 0 <= i < fields@.len() implies field_fault(
            #[trigger] fields@[i],
            options,
        ) is None by {
            reveal(field_done);
            assert(field_done(fields@[i], options, described@[i]));
        }
        assert forall|i: int| 0 <= i < fields@.len() implies field_described(
            fields@[i],
            options,
            #[trigger] described@[i],
        ) by {
            reveal(field_done);
            assert(field_done(fields@[i], options, described@[i]));
        }
    }
    Ok(
        ValueShape::Record(
            RecordSchema {
                fields: described,
                table_start: options.table_start,
                table_end: options.table_end,
                inline: options.inline,
            },
        ),
    )
}

/// The token of a declared variant; `None` where the words of its name
/// cannot be found.
pub open spec fn declared_variant_token(decl: VariantDeclaration, options: TableOptions) -> Option<
    Seq<char>,
> {
    let prefix = text_or(options.prefix, Seq::<char>::empty());
    let suffix = text_or(options.suffix, Seq::<char>::empty());
    match decl.fso_name {
        Some(t) => Some(variant_token_of(t@, options.flagset, prefix, suffix)),
        None => match regex_find_all(variant_word_pattern(), decl.name@) {
            Some(words) => Some(
                variant_token_of(
                    joined_words(words, 0, variant_case(options.flagset)),
                    options.flagset,
                    prefix,
                    suffix,
                ),
            ),
            None => None,
        },
    }
}

/// The fault of a declared variant, if it has one; `last` says whether it
/// is the last variant.
pub open spec fn variant_fault(decl: VariantDeclaration, options: TableOptions, last: bool) -> Option<
    SchemaError,
> {
    if decl.use_as_default_string && !last {
        Some(SchemaError::DefaultNotLast)
    } else if decl.use_as_default_string && !(decl.fields@.len() == 1 && decl.fields@[0]
        == ValueShape::Scalar(ScalarKind::Text)) {
        Some(SchemaError::DefaultNotOneString)
    } else if declared_variant_token(decl, options) is None {
        Some(SchemaError::Naming)
    } else {
        tuple_fault(decl.fields, 0, true)
    }
}

/// `variant` is the variant that `decl` declares.
pub open spec fn variant_described(
    decl: VariantDeclaration,
    options: TableOptions,
    variant: VariantDescriptor,
) -> bool {
    &&& variant.default_capture == decl.use_as_default_string
    &&& Some(variant.token@) == declared_variant_token(decl, options)
    &&& variant.fields@.len() == decl.fields@.len()
    &&& all_laid_out(decl.fields, variant.fields@, 0, FSOBuilderListState::MutlilineList)
}

/// The text of an optional string, or nothing.
pub fn text_or_empty(o: &Option<String>) -> (r: &str)
    ensures
        r@ == text_or(*o, Seq::<char>::empty()),
{
    match o {
        Some(t) => t.as_str(),
        None => {
            proof {
                reveal_strlit("");
                assert(""@ =~= Seq::<char>::empty());
            }
            ""
        },
    }
}

/// The variant that `decl` declares, or its fault.
pub fn describe_variant(decl: VariantDeclaration, options: &TableOptions, last: bool) -> (r: Result<
    VariantDescriptor,
    SchemaError,
>)
    ensures
        match r {
            Ok(variant) => variant_fault(decl, *options, last) is None && variant_described(
                decl,
                *options,
                variant,
            ),
            Err(e) => variant_fault(decl, *options, last) == Some(e),
        },
{
    let VariantDeclaration { name, fields, fso_name, use_as_default_string } = decl;
    if use_as_default_string {
        if !last {
            return Err(SchemaError::DefaultNotLast);
        }
        if fields.len() != 1 || !is_text(&fields[0]) {
            return Err(SchemaError::DefaultNotOneString);
        }
    }
    let token = match variant_token(
        name.as_str(),
        &fso_name,
        options.flagset,
        text_or_empty(&options.prefix),
        text_or_empty(&options.suffix),
    ) {
        Some(t) => t,
        None => {
            return Err(SchemaError::Naming);
        },
    };
    match deduce_tuple(fields, FSOBuilderListState::MutlilineList, true) {
        Ok(laid) => Ok(
            VariantDescriptor { token, fields: laid, default_capture: use_as_default_string },
        ),
        Err(e) => Err(e),
    }
}

/// The spacing between the token of a variant and its first field that
/// `options` declares: a space by default.
pub open spec fn declared_spacing(options: TableOptions) -> Seq<char> {
    text_or(options.field_spacing, " "@)
}

/// `variant` is the variant that `decl` declares, and `decl` has no fault.
#[verifier::opaque]
pub open spec fn variant_done(
    decl: VariantDeclaration,
    options: TableOptions,
    last: bool,
    variant: VariantDescriptor,
) -> bool {
    variant_fault(decl, options, last) is None && variant_described(decl, options, variant)
}

/// `r` is what the variants `variants` declare: the tagged union of the
/// variants they describe, with the field spacing of `options`; or the fault
/// of the first variant that has one.
pub open spec fn union_declared(
    variants: Seq<VariantDeclaration>,
    options: TableOptions,
    r: Result<ValueShape, SchemaError>,
) -> bool {
    match r {
        Ok(shape) => {
            &&& shape matches ValueShape::TaggedUnion(u)
            &&& u.field_spacing@ == declared_spacing(options)
            &&& u.variants@.len() == variants.len()
            &&& forall|i: int|
                0 <= i < variants.len() ==> variant_fault(
                    #[trigger] variants[i],
                    options,
                    i == variants.len() - 1,
                ) is None
            &&& forall|i: int|
                0 <= i < variants.len() ==> variant_described(
                    variants[i],
                    options,
                    #[trigger] u.variants@[i],
                )
        },
        Err(e) => exists|i: int|
            0 <= i < variants.len() && variant_fault(
                #[trigger] variants[i],
                options,
                i == variants.len() - 1,
            ) == Some(e) && forall|j: int|
                0 <= j < i ==> variant_fault(
                    #[trigger] variants[j],
                    options,
                    j == variants.len() - 1,
                ) is None,
    }
}

/// The tagged union that the variants `variants` declare, or the fault of
/// the first variant that has one.
pub fn fso_table_enum(variants: Vec<VariantDeclaration>, options: TableOptions) -> (r: Result<
    ValueShape,
    SchemaError,
>)
    ensures
        union_declared(variants@, options, r),
{
    let mut pending = reversed(variants);
    let mut described: Vec<VariantDescriptor> = Vec::new();
    while pending.len() > 0
        invariant
            pending@.len() + described@.len() == variants@.len(),
            pending@ == variants@.reverse().take(pending@.len() as int),
            forall|i: int|
                0 <= i < described@.len() ==> variant_done(
                    variants@[i],
                    options,
                    i == variants@.len() - 1,
                    #[trigger] described@[i],
                ),
        decreases pending@.len(),
    {
        let ghost n = pending@.len();
        let ghost i = described@.len() as int;
        let decl = pending.pop().unwrap();
        proof {
            assert(decl == variants@.reverse()[n - 1]);
            assert(decl == variants@[i]);
            assert(pending@ =~= variants@.reverse().take(n - 1));
        }
        let last = pending.len() == 0;
        assert(last == (i == variants@.len() - 1));
        match describe_variant(decl, &options, last) {
            Ok(variant) => {
                proof {
                    reveal(variant_done);
                    assert(variant_done(decl, options, last, variant));
                }
                described.push(variant);
            },
            Err(e) => {
                proof {
                    assert forall|j: int| 0 <= j < i implies variant_fault(
                        #[trigger] variants@[j],
                        options,
                        j == variants@.len() - 1,
                    ) is None by {
                        reveal(variant_done);
                        assert(variant_done(
                            variants@[j],
                            options,
                            j == variants@.len() - 1,
                            described@[j],
                        ));
                    }
                    assert(variant_fault(variants@[i], options, i == variants@.len() - 1) == Some(
                        e,
                    ));
                }
                return Err(e);
            },
        }
    }
    proof {
        assert forall|i: int| 0 <= i < variants@.len() implies variant_fault(
            #[trigger] variants@[i],
            options,
            i == variants@.len() - 1,
        ) is None by {
            reveal(variant_done);
            assert(variant_done(variants@[i], options, i == variants@.len() - 1, described@[i]));
        }
        assert forall|i: int| 0 <= i < variants@.len() implies variant_described(
            variants@[i],
            options,
            #[trigger] described@[i],
        ) by {
            reveal(variant_done);
            assert(variant_done(variants@[i], options, i == variants@.len() - 1, described@[i]));
        }
    }
    let field_spacing = match options.field_spacing {
        Some(t) => t,
        None => " ".to_owned(),
    };
    Ok(ValueShape::TaggedUnion(UnionSchema { variants: described, field_spacing }))
}

/// The shape that a declaration describes: a record for the fields of a
/// struct, a tagged union for the variants of an enum. Nothing else can be
/// declared a table.
pub fn fso_table(decl: TableDeclaration, options: TableOptions) -> (r: Result<
    ValueShape,
    SchemaError,
>)
    ensures
        match decl {
            TableDeclaration::Struct(fields) => record_declared(fields@, options, r),
            TableDeclaration::Enum(variants) => union_declared(variants@, options, r),
            TableDeclaration::Other => r == Err::<ValueShape, SchemaError>(
                SchemaError::Unsupported,
            ),
        },
{
    match decl {
        TableDeclaration::Struct(fields) => fso_table_struct(fields, options),
        TableDeclaration::Enum(variants) => fso_table_enum(variants, options),
        TableDeclaration::Other => Err(SchemaError::Unsupported),
    }
}

} // verus!
