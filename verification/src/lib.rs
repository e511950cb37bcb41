use vstd::prelude::*;

pub mod animations;
pub mod basic_types;
pub mod builder;
pub mod chars;
pub mod construct;
pub mod curves;
pub mod engine;
pub mod error;
pub mod grammar;
pub mod laws;
pub mod lexer;
pub mod naming;
pub mod number;
pub mod parser;
pub mod pattern;
pub mod round_trip;
pub mod schema;
pub mod tables;
pub mod text;
pub mod value;
pub mod writer;

pub use crate::animations::{
    AnimationTarget, AnimationTranslationCoordinateSystem, AnimationTrigger,
    AnimationTriggerDocking, AnimationTriggerFighterbay, AnimationTriggerScripted,
    AnimationTriggerTurret, AnimationTriggerWeaponBank, Moveable, MoveablesSubtable,
};
pub use crate::basic_types::FSOFloat;
pub use crate::builder::{FSOBuilder, FSOBuilderListState, FSOBuilderState, FSOTableBuilder};
pub use crate::engine::parse_value;
pub use crate::error::{FSOParsingError, FSOParsingHangingGobble};
pub use crate::parser::{FSOParser, FSOTableFileParser};
pub use crate::schema::{
    FieldDescriptor, RecordSchema, ScalarKind, UnionSchema, ValueShape, VariantDescriptor,
};
pub use crate::tables::{parse_as, parse_text, spew_as, spew_to_text, FSOTable};
pub use crate::value::{FSORecord, FSOValue};
pub use crate::writer::spew_value;

verus! {

} // verus!
