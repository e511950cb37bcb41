use vstd::prelude::*;
use crate::builder::FSOBuilderListState;
use crate::schema::{
    add_field, add_shape, add_variant, list_of, no_fields, optional_of, record_of, table_of,
    tuple_of, union_with_default, well_formed, FieldDescriptor, ScalarKind, ValueShape,
    VariantDescriptor,
};

verus! {

/// The shape of a curve segment: `Constant`, `Linear`, `Polynomial` with a
/// degree and whether it eases in, `Circular` with whether it eases in; any
/// other token is the name of another curve.
pub fn curve_segment_shape() -> (s: ValueShape)
    ensures
        well_formed(s),
        s is TaggedUnion,
{
    let mut variants: Vec<VariantDescriptor> = Vec::new();
    add_variant(&mut variants, "Constant", no_fields());
    add_variant(&mut variants, "Linear", no_fields());
    let mut polynomial: Vec<ValueShape> = Vec::new();
    add_shape(&mut polynomial, ValueShape::Scalar(ScalarKind::F32), true);
    add_shape(&mut polynomial, optional_of(ValueShape::Scalar(ScalarKind::Bool)), true);
    add_variant(&mut variants, "Polynomial", polynomial);
    let mut circular: Vec<ValueShape> = Vec::new();
    add_shape(&mut circular, optional_of(ValueShape::Scalar(ScalarKind::Bool)), true);
    add_variant(&mut variants, "Circular", circular);
    union_with_default(variants)
}

/// The shape of a keyframe: a position as a pair of numbers, a colon, and
/// the segment that begins there.
pub fn curve_keyframe_shape() -> (s: ValueShape)
    ensures
        well_formed(s),
        s is Record,
{
    let mut position: Vec<ValueShape> = Vec::new();
    add_shape(&mut position, ValueShape::Scalar(ScalarKind::F32), false);
    add_shape(&mut position, ValueShape::Scalar(ScalarKind::F32), false);
    let mut fields: Vec<FieldDescriptor> = Vec::new();
    add_field(
        &mut fields,
        FieldDescriptor::Positional { shape: tuple_of(position), gobble: Some(":".to_owned()) },
    );
    add_field(
        &mut fields,
        FieldDescriptor::Positional { shape: curve_segment_shape(), gobble: None },
    );
    record_of(fields)
}

/// The shape of a curve: its name and its keyframes.
pub fn curve_shape() -> (s: ValueShape)
    ensures
        well_formed(s),
        s is Record,
{
    let mut fields: Vec<FieldDescriptor> = Vec::new();
    add_field(
        &mut fields,
        FieldDescriptor::Named {
            token: "$Name:".to_owned(),
            shape: ValueShape::Scalar(ScalarKind::Text),
            gobble: None,
        },
    );
    add_field(
        &mut fields,
        FieldDescriptor::Named {
            token: "$KeyFrames:".to_owned(),
            shape: list_of(curve_keyframe_shape(), FSOBuilderListState::InlineList),
            gobble: None,
        },
    );
    record_of(fields)
}

/// The shape of the table of curves: `#Curves`, the curves, `#End`.
pub fn curve_table_shape() -> (s: ValueShape)
    ensures
        well_formed(s),
        s is Record,
{
    let mut fields: Vec<FieldDescriptor> = Vec::new();
    add_field(
        &mut fields,
        FieldDescriptor::Positional {
            shape: list_of(curve_shape(), FSOBuilderListState::MutlilineList),
            gobble: None,
        },
    );
    table_of("#Curves", fields, "#End")
}

} // verus!
