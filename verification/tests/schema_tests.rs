use fso_tables::animations::{
    AnimationTarget, AnimationTranslationCoordinateSystem, AnimationTrigger,
    AnimationTriggerDocking, AnimationTriggerWeaponBank, Moveable, MoveablesSubtable,
};
use fso_tables::construct::{
    deduce_type, fso_table, fso_table_enum, fso_table_struct, FieldDeclaration, SchemaError,
    TableDeclaration, TableOptions, VariantDeclaration,
};
use fso_tables::naming::{field_token, variant_token};
use fso_tables::schema::check_shape;
use fso_tables::{
    parse_as, parse_text, spew_as, spew_to_text, FSOBuilder, FSOBuilderListState, FSOTable,
    FSOTableBuilder, FSOTableFileParser, FSOParser, FSOValue, FieldDescriptor, ScalarKind,
    ValueShape,
};

fn field(name: &str, shape: ValueShape) -> FieldDeclaration {
    FieldDeclaration {
        name: name.to_string(),
        shape,
        fso_name: None,
        gobble: None,
        skip: None,
        unnamed: false,
        existence: false,
        multiline: false,
    }
}

fn variant(name: &str, fields: Vec<ValueShape>) -> VariantDeclaration {
    VariantDeclaration { name: name.to_string(), fields, fso_name: None, use_as_default_string: false }
}

#[test]
fn field_tokens_follow_the_naming_convention() {
    assert_eq!(field_token("name", &None, &None, false), Some("$Name:".to_string()));
    assert_eq!(field_token("triggered_by", &Some("+".to_string()), &None, false), Some("+Triggered By:".to_string()));
    assert_eq!(field_token("flip_when_reversed", &Some("+".to_string()), &None, true), Some("+Flip When Reversed".to_string()));
    assert_eq!(field_token("a__b_", &None, &Some("=".to_string()), false), Some("$A B=".to_string()));
    assert_eq!(field_token("", &None, &None, false), Some("$:".to_string()));
}

#[test]
fn variant_tokens_follow_the_naming_convention() {
    assert_eq!(variant_token("TurretBase", &None, false, "+", ":"), Some("+Turret Base:".to_string()));
    assert_eq!(variant_token("Parent", &None, false, "", ""), Some("Parent".to_string()));
    assert_eq!(variant_token("AutoReverse", &None, true, "", ""), Some("\"auto reverse\"".to_string()));
    assert_eq!(variant_token("Looping", &Some("loop".to_string()), true, "", ""), Some("\"loop\"".to_string()));
    assert_eq!(variant_token("SetOrientation", &None, false, "$", ":"), Some("$Set Orientation:".to_string()));
    assert_eq!(variant_token("lowercase", &None, false, "", ""), Some("".to_string()));
}

#[test]
fn struct_declaration_builds_a_record() {
    let mut flag = field("absolute", ValueShape::Scalar(ScalarKind::Bool));
    flag.existence = true;
    let mut target = field("submodel", ValueShape::Optional(Box::new(ValueShape::Scalar(ScalarKind::Text))));
    target.unnamed = true;
    let mut forced = field("loop_sound", ValueShape::Optional(Box::new(ValueShape::Scalar(ScalarKind::Text))));
    forced.fso_name = Some("+Loop:".to_string());
    let mut skipped = field("cache", ValueShape::Scalar(ScalarKind::I32));
    skipped.skip = Some(FSOValue::Int(0));
    let options = TableOptions { prefix: Some("+".to_string()), ..TableOptions::default() };
    let shape = fso_table_struct(
        vec![field("time", ValueShape::Scalar(ScalarKind::F32)), flag, forced, skipped, target],
        options,
    )
    .unwrap();
    assert!(check_shape(&shape));
    let record = match &shape {
        ValueShape::Record(r) => r,
        other => panic!("unexpected {:?}", other),
    };
    assert!(matches!(&record.fields[0], FieldDescriptor::Named { token, .. } if token == "+Time:"));
    assert!(matches!(&record.fields[1], FieldDescriptor::ExistenceFlag { token, .. } if token == "+Absolute"));
    assert!(matches!(&record.fields[2], FieldDescriptor::Named { token, .. } if token == "+Loop:"));
    assert!(matches!(&record.fields[3], FieldDescriptor::Skipped { default: FSOValue::Int(0) }));
    assert!(matches!(&record.fields[4], FieldDescriptor::Positional { .. }));
    let value = parse_text(&shape, "+Time: 2.5\n+Absolute\nwing").unwrap();
    assert_eq!(spew_to_text(&shape, &value), "\n+Time: 2.5 \n+Absolute wing ");
}

#[test]
fn list_layout_follows_the_field() {
    let list = || ValueShape::List(Box::new(ValueShape::Scalar(ScalarKind::I32)), FSOBuilderListState::MutlilineList);
    let named = deduce_type(list(), FSOBuilderListState::InlineList).unwrap();
    assert!(matches!(named, ValueShape::List(_, FSOBuilderListState::InlineList)));
    let shape = fso_table_struct(vec![field("values", list())], TableOptions::default()).unwrap();
    match &shape {
        ValueShape::Record(r) => assert!(matches!(
            &r.fields[0],
            FieldDescriptor::Named { shape: ValueShape::List(_, FSOBuilderListState::InlineList), .. }
        )),
        other => panic!("unexpected {:?}", other),
    }
    let mut unnamed = field("values", list());
    unnamed.unnamed = true;
    let shape = fso_table_struct(vec![unnamed], TableOptions::default()).unwrap();
    match &shape {
        ValueShape::Record(r) => assert!(matches!(
            &r.fields[0],
            FieldDescriptor::Positional { shape: ValueShape::List(_, FSOBuilderListState::MutlilineList), .. }
        )),
        other => panic!("unexpected {:?}", other),
    }
}

#[test]
fn declaration_faults() {
    let optional = |s| ValueShape::Optional(Box::new(s));
    let int = || ValueShape::Scalar(ScalarKind::I32);
    let list_of_options = ValueShape::List(Box::new(optional(int())), FSOBuilderListState::InlineList);
    assert_eq!(deduce_type(list_of_options, FSOBuilderListState::InlineList).unwrap_err(), SchemaError::VectorOfOptions);
    assert_eq!(deduce_type(optional(optional(int())), FSOBuilderListState::InlineList).unwrap_err(), SchemaError::OptionOfOptions);
    assert_eq!(
        deduce_type(optional(ValueShape::Wrapper(Box::new(int()))), FSOBuilderListState::InlineList).unwrap_err(),
        SchemaError::OptionOfOptions
    );
    assert_eq!(
        deduce_type(ValueShape::Wrapper(Box::new(optional(int()))), FSOBuilderListState::InlineList).unwrap_err(),
        SchemaError::BoxOfOptions
    );
    assert_eq!(
        deduce_type(ValueShape::Tuple(vec![int(), optional(int())]), FSOBuilderListState::InlineList).unwrap_err(),
        SchemaError::TupleOfOptions
    );
    let mut flag = field("count", int());
    flag.existence = true;
    assert_eq!(fso_table_struct(vec![flag], TableOptions::default()).unwrap_err(), SchemaError::ExistenceNotBool);
    let mut early = variant("Any", vec![ValueShape::Scalar(ScalarKind::Text)]);
    early.use_as_default_string = true;
    assert_eq!(
        fso_table_enum(vec![early, variant("Other", vec![])], TableOptions::default()).unwrap_err(),
        SchemaError::DefaultNotLast
    );
    let mut wide = variant("Any", vec![]);
    wide.use_as_default_string = true;
    assert_eq!(fso_table_enum(vec![wide], TableOptions::default()).unwrap_err(), SchemaError::DefaultNotOneString);
    assert_eq!(fso_table(TableDeclaration::Other, TableOptions::default()).unwrap_err(), SchemaError::Unsupported);
    assert_eq!(SchemaError::Unsupported.message(), "Can only annotate structs and enums!");
    assert_eq!(SchemaError::ExistenceNotBool.message(), "Only variables of type bool can be existence-bool'd!");
    assert_eq!(SchemaError::TupleOfOptions.message(), "FSO Tables cannot yet contain Options.");
}

#[test]
fn enum_declaration_builds_a_union() {
    let mut subcurve = variant("Subcurve", vec![ValueShape::Scalar(ScalarKind::Text)]);
    subcurve.use_as_default_string = true;
    let shape = fso_table(
        TableDeclaration::Enum(vec![
            variant("Constant", vec![]),
            variant("Linear", vec![]),
            variant(
                "Polynomial",
                vec![ValueShape::Scalar(ScalarKind::F32), ValueShape::Optional(Box::new(ValueShape::Scalar(ScalarKind::Bool)))],
            ),
            subcurve,
        ]),
        TableOptions::default(),
    )
    .unwrap();
    assert!(check_shape(&shape));
    let value = parse_text(&shape, "Polynomial 2 yes").unwrap();
    assert_eq!(spew_to_text(&shape, &value), "Polynomial 2, YES ");
    let value = parse_text(&shape, "EaseInQuad").unwrap();
    assert!(matches!(value, FSOValue::Variant(3, _)));
    assert_eq!(spew_to_text(&shape, &value), "EaseInQuad ");
}

#[test]
fn flagset_round_trip() {
    let options = TableOptions { flagset: true, ..TableOptions::default() };
    let mut looping = variant("Looping", vec![]);
    looping.fso_name = Some("loop".to_string());
    let flags = fso_table_enum(vec![variant("AutoReverse", vec![]), looping], options).unwrap();
    let list = ValueShape::List(Box::new(flags), FSOBuilderListState::InlineList);
    let value = parse_text(&list, "( \"loop\" \"auto reverse\" )").unwrap();
    match &value {
        FSOValue::List(items) => {
            assert_eq!(items.len(), 2);
            assert!(matches!(items[0], FSOValue::Variant(1, _)));
            assert!(matches!(items[1], FSOValue::Variant(0, _)));
        },
        other => panic!("unexpected {:?}", other),
    }
    let text = spew_to_text(&list, &value);
    assert_eq!(text, "(\"loop\" \"auto reverse\" )");
    let again = parse_text(&list, &text).unwrap();
    assert_eq!(spew_to_text(&list, &again), text);
}

#[test]
fn animation_trigger_tables() {
    let shape = AnimationTrigger::shape();
    assert!(check_shape(&shape));
    let mut state = FSOTableFileParser::from_text("docking-stage-2\n+Triggered By: port one\n$Next:");
    let trigger: AnimationTrigger = parse_as(&shape, &mut state).unwrap();
    match &trigger {
        AnimationTrigger::DockingStage2 { trigger: Some(AnimationTriggerDocking { triggered_by }) } => {
            assert_eq!(triggered_by, "port one")
        },
        other => panic!("unexpected {:?}", other),
    }
    assert_eq!(state.get(), "\n$Next:");
    let mut builder = FSOTableBuilder::default();
    spew_as(&shape, &trigger, &mut builder);
    assert_eq!(builder.spew(), "docking-stage-2 \n+Triggered By: port one  ");

    let mut state = FSOTableFileParser::from_text("  primary-bank +Triggered By: 2");
    let trigger: AnimationTrigger = parse_as(&shape, &mut state).unwrap();
    assert!(matches!(
        trigger,
        AnimationTrigger::PrimaryBank { trigger: Some(AnimationTriggerWeaponBank { triggered_by: 2 }) }
    ));

    let mut state = FSOTableFileParser::from_text("afterburner");
    let trigger: AnimationTrigger = parse_as(&shape, &mut state).unwrap();
    assert!(matches!(trigger, AnimationTrigger::Afterburner));

    let mut state = FSOTableFileParser::from_text("scripted");
    let trigger: AnimationTrigger = parse_as(&shape, &mut state).unwrap();
    assert!(matches!(trigger, AnimationTrigger::Scripted { trigger: None }));

    let mut state = FSOTableFileParser::from_text("unknown");
    let e = parse_as::<AnimationTrigger, _>(&shape, &mut state).unwrap_err();
    assert!(e.reason.starts_with("Expected one of initial, on-spawn, docking-stage-1, "));
    assert!(e.reason.ends_with("scripted, got unknown."));
}

#[test]
fn typed_values_convert_both_ways() {
    let target = AnimationTarget::TurretArm { subsystem_name: "turret01".to_string() };
    let value = target.to_value();
    assert!(matches!(&value, FSOValue::Variant(2, f) if matches!(&f[0], FSOValue::Text(t) if t == "turret01")));
    assert!(matches!(
        AnimationTarget::from_value(&value),
        Some(AnimationTarget::TurretArm { subsystem_name }) if subsystem_name == "turret01"
    ));
    assert!(AnimationTarget::from_value(&FSOValue::Bool(true)).is_none());
    assert!(AnimationTarget::from_value(&FSOValue::Variant(3, vec![FSOValue::Text("x".to_string())])).is_none());
    assert_eq!(spew_to_text(&AnimationTarget::shape(), &value), "+Turret Arm: turret01 ");
    let parsed = parse_text(&AnimationTarget::shape(), "+Submodel: wing").unwrap();
    assert!(matches!(
        AnimationTarget::from_value(&parsed),
        Some(AnimationTarget::Submodel { submodel_name }) if submodel_name == "wing"
    ));

    let system = AnimationTranslationCoordinateSystem::LocalAtStart;
    assert_eq!(spew_to_text(&AnimationTranslationCoordinateSystem::shape(), &system.to_value()), "Local at start ");
    let parsed = parse_text(&AnimationTranslationCoordinateSystem::shape(), "Local current").unwrap();
    assert_eq!(
        AnimationTranslationCoordinateSystem::from_value(&parsed),
        Some(AnimationTranslationCoordinateSystem::LocalCurrent)
    );
    let bank = AnimationTriggerWeaponBank { triggered_by: 7 };
    assert!(matches!(
        AnimationTriggerWeaponBank::from_value(&bank.to_value()),
        Some(AnimationTriggerWeaponBank { triggered_by: 7 })
    ));
    let too_big = fso_tables::animations::single_record(FSOValue::UInt(1 << 40));
    assert!(AnimationTriggerWeaponBank::from_value(&too_big).is_none());
}

#[test]
fn moveables_are_not_read() {
    let state = FSOTableFileParser::from_text("\nanything");
    let e = Moveable::parse(&state).unwrap_err();
    assert_eq!(e.reason, "Unimplemented!");
    assert_eq!(e.line, 0);
    let shape = MoveablesSubtable::shape();
    assert!(check_shape(&shape));
    let mut state = FSOTableFileParser::from_text("#Moveables\n\n#End\n");
    let table: MoveablesSubtable = parse_as(&shape, &mut state).unwrap();
    assert!(table.moveables.is_empty());
    assert_eq!(state.get(), "\n");
    let mut builder = FSOTableBuilder::default();
    spew_as(&shape, &MoveablesSubtable { moveables: vec![Moveable, Moveable] }, &mut builder);
    assert_eq!(builder.spew(), "#Moveables\n\n\n\n \n\n#End");
    let mut state = FSOTableFileParser::from_text("#Moveables\nsomething\n#End\n");
    assert!(parse_as::<MoveablesSubtable, _>(&shape, &mut state).is_err());
}
