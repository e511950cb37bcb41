use fso_tables::{
    parse_text, parse_value, spew_to_text, FSOBuilderListState, FSOParser, FSOTableFileParser,
    FSOValue, FieldDescriptor, RecordSchema, ScalarKind, UnionSchema, ValueShape,
    VariantDescriptor,
};

fn variant(token: &str, fields: Vec<ValueShape>) -> VariantDescriptor {
    VariantDescriptor { token: token.to_string(), fields, default_capture: false }
}

fn default_capture() -> VariantDescriptor {
    VariantDescriptor {
        token: String::new(),
        fields: vec![ValueShape::Scalar(ScalarKind::Text)],
        default_capture: true,
    }
}

fn union_of(variants: Vec<VariantDescriptor>) -> ValueShape {
    ValueShape::TaggedUnion(UnionSchema { variants, field_spacing: " ".to_string() })
}

fn record_of(fields: Vec<FieldDescriptor>) -> ValueShape {
    ValueShape::Record(RecordSchema { fields, table_start: None, table_end: None, inline: false })
}

fn named(token: &str, shape: ValueShape) -> FieldDescriptor {
    FieldDescriptor::Named { token: token.to_string(), shape, gobble: None }
}

fn positional(shape: ValueShape) -> FieldDescriptor {
    FieldDescriptor::Positional { shape, gobble: None }
}

fn optional(shape: ValueShape) -> ValueShape {
    ValueShape::Optional(Box::new(shape))
}

fn scalar(kind: ScalarKind) -> ValueShape {
    ValueShape::Scalar(kind)
}

fn curve_segment() -> ValueShape {
    union_of(vec![
        variant("Constant", vec![]),
        variant("Linear", vec![]),
        variant("Polynomial", vec![scalar(ScalarKind::F32), optional(scalar(ScalarKind::Bool))]),
        variant("Circular", vec![optional(scalar(ScalarKind::Bool))]),
        default_capture(),
    ])
}

fn curve_keyframe() -> ValueShape {
    record_of(vec![
        FieldDescriptor::Positional {
            shape: ValueShape::Tuple(vec![scalar(ScalarKind::F32), scalar(ScalarKind::F32)]),
            gobble: Some(":".to_string()),
        },
        positional(curve_segment()),
    ])
}

fn fields_of(v: &FSOValue) -> &Vec<FSOValue> {
    match v {
        FSOValue::Record(r) => &r.fields,
        other => panic!("not a record: {:?}", other),
    }
}

fn float_text(v: &FSOValue) -> String {
    match v {
        FSOValue::Float(f) => f.as_text(),
        other => panic!("not a float: {:?}", other),
    }
}

#[test]
fn token_precedence_goes_by_order() {
    let shape = union_of(vec![variant("A", vec![]), variant("AB", vec![])]);
    let mut state = FSOTableFileParser::from_text("AB foo");
    let (value, carry) = parse_value(&shape, &mut state, None).unwrap();
    assert!(matches!(value, FSOValue::Variant(0, ref fields) if fields.is_empty()));
    assert!(carry.is_none());
    assert_eq!(state.get(), "B foo");
}

#[test]
fn longer_token_first_wins_when_declared_first() {
    let shape = union_of(vec![variant("AB", vec![]), variant("A", vec![])]);
    let mut state = FSOTableFileParser::from_text("AB foo");
    let (value, _) = parse_value(&shape, &mut state, None).unwrap();
    assert!(matches!(value, FSOValue::Variant(0, _)));
    assert_eq!(state.get(), " foo");
}

#[test]
fn default_capture_takes_any_token() {
    let shape = union_of(vec![variant("x", vec![]), default_capture()]);
    let value = parse_text(&shape, "hello").unwrap();
    match value {
        FSOValue::Variant(1, fields) => {
            assert_eq!(fields.len(), 1);
            assert!(matches!(&fields[0], FSOValue::Text(t) if t == "hello"));
        },
        other => panic!("unexpected {:?}", other),
    }
}

#[test]
fn default_capture_never_fails_even_on_empty_input() {
    let shape = union_of(vec![variant("x", vec![]), default_capture()]);
    let value = parse_text(&shape, "").unwrap();
    assert!(matches!(value, FSOValue::Variant(1, ref f) if matches!(&f[0], FSOValue::Text(t) if t.is_empty())));
}

#[test]
fn union_without_match_lists_expected_tokens() {
    let shape = union_of(vec![variant("Alpha", vec![]), variant("Beta", vec![])]);
    let mut state = FSOTableFileParser::from_text("\n\n  Gamma and more text that is long");
    let e = parse_value(&shape, &mut state, None).unwrap_err();
    assert_eq!(e.line, 2);
    assert_eq!(e.reason, "Expected one of Alpha, Beta, got Gamma and more text .");
    assert_eq!(state.get(), "Gamma and more text that is long");
}

#[test]
fn union_failure_carries_comments() {
    let shape = union_of(vec![variant("Alpha", vec![])]);
    let mut state = FSOTableFileParser::from_text("; note\n;;FSO 1.2;;\nOther");
    let e = parse_value(&shape, &mut state, None).unwrap_err();
    assert_eq!(e.comments, Some("; note".to_string()));
    assert_eq!(e.version_string, Some(";;FSO 1.2;;".to_string()));
}

#[test]
fn optional_named_field_absent_on_empty_input() {
    let shape = record_of(vec![named("$Foo:", optional(scalar(ScalarKind::I32)))]);
    let mut state = FSOTableFileParser::from_text("");
    let (value, _) = parse_value(&shape, &mut state, None).unwrap();
    let fields = fields_of(&value);
    assert_eq!(fields.len(), 1);
    assert!(matches!(fields[0], FSOValue::Absent));
    assert_eq!(state.get(), "");
}

#[test]
fn optional_named_field_present() {
    let shape = record_of(vec![named("$Foo:", optional(scalar(ScalarKind::I32)))]);
    let value = parse_text(&shape, "  $Foo: 12").unwrap();
    let fields = fields_of(&value);
    assert!(matches!(&fields[0], FSOValue::Present(inner) if matches!(**inner, FSOValue::Int(12))));
}

#[test]
fn optional_named_field_with_bad_value_fails() {
    let shape = record_of(vec![named("$Foo:", optional(scalar(ScalarKind::I32)))]);
    let e = parse_text(&shape, "$Foo: x").unwrap_err();
    assert_eq!(e.reason, "Expected int, got x!");
}

#[test]
fn required_named_field_missing_fails_with_context() {
    let shape = record_of(vec![named("$Foo:", scalar(ScalarKind::I32))]);
    let e = parse_text(&shape, "// c\n$Bar: 1").unwrap_err();
    assert_eq!(e.reason, "Expected \"$Foo:\", got $Bar:");
    assert_eq!(e.line, 1);
    assert_eq!(e.comments, Some("// c".to_string()));
}

#[test]
fn existence_flag() {
    let shape = record_of(vec![
        FieldDescriptor::ExistenceFlag { token: "+Absolute".to_string(), gobble: None },
        named("$N:", scalar(ScalarKind::U32)),
    ]);
    let with = parse_text(&shape, "+Absolute\n$N: 3").unwrap();
    assert!(matches!(fields_of(&with)[0], FSOValue::Bool(true)));
    assert!(matches!(fields_of(&with)[1], FSOValue::UInt(3)));
    let without = parse_text(&shape, "$N: 3").unwrap();
    assert!(matches!(fields_of(&without)[0], FSOValue::Bool(false)));
    assert!(matches!(fields_of(&without)[1], FSOValue::UInt(3)));
}

#[test]
fn skipped_field_takes_default() {
    let shape = record_of(vec![
        FieldDescriptor::Skipped { default: FSOValue::Int(9) },
        named("$N:", scalar(ScalarKind::U32)),
    ]);
    let value = parse_text(&shape, "$N: 3").unwrap();
    assert!(matches!(fields_of(&value)[0], FSOValue::Int(9)));
    assert!(matches!(fields_of(&value)[1], FSOValue::UInt(3)));
}

#[test]
fn list_of_keyframes_stops_before_end_marker() {
    let shape = ValueShape::List(Box::new(curve_keyframe()), FSOBuilderListState::MutlilineList);
    let mut state = FSOTableFileParser::from_text("(0,0):Linear (1,1):Constant #End");
    let (value, carry) = parse_value(&shape, &mut state, None).unwrap();
    let items = match value {
        FSOValue::List(items) => items,
        other => panic!("unexpected {:?}", other),
    };
    assert_eq!(items.len(), 2);
    assert_eq!(state.get(), "#End");
    assert!(carry.is_some());
    let first = fields_of(&items[0]);
    match &first[0] {
        FSOValue::Tuple(pos) => {
            assert_eq!(float_text(&pos[0]), "0");
            assert_eq!(float_text(&pos[1]), "0");
        },
        other => panic!("unexpected {:?}", other),
    }
    assert!(matches!(&first[1], FSOValue::Variant(1, f) if f.is_empty()));
    let second = fields_of(&items[1]);
    match &second[0] {
        FSOValue::Tuple(pos) => {
            assert_eq!(float_text(&pos[0]), "1");
            assert_eq!(float_text(&pos[1]), "1");
        },
        other => panic!("unexpected {:?}", other),
    }
    assert!(matches!(&second[1], FSOValue::Variant(0, f) if f.is_empty()));
}

#[test]
fn empty_list_is_a_value() {
    let shape = ValueShape::List(Box::new(scalar(ScalarKind::I32)), FSOBuilderListState::InlineList);
    let mut state = FSOTableFileParser::from_text("() rest");
    let (value, _) = parse_value(&shape, &mut state, None).unwrap();
    assert!(matches!(value, FSOValue::List(ref items) if items.is_empty()));
    assert_eq!(state.get(), "rest");
}

#[test]
fn inline_list_of_numbers() {
    let shape = ValueShape::List(Box::new(scalar(ScalarKind::I32)), FSOBuilderListState::InlineList);
    let mut state = FSOTableFileParser::from_text("( 1, 2 3 ) rest");
    let (value, _) = parse_value(&shape, &mut state, None).unwrap();
    match value {
        FSOValue::List(items) => {
            assert_eq!(items.len(), 3);
            assert!(matches!(items[0], FSOValue::Int(1)));
            assert!(matches!(items[1], FSOValue::Int(2)));
            assert!(matches!(items[2], FSOValue::Int(3)));
        },
        other => panic!("unexpected {:?}", other),
    }
    assert_eq!(state.get(), "rest");
}

#[test]
fn list_ends_when_an_element_reads_nothing() {
    let element = record_of(vec![named("$Opt:", optional(scalar(ScalarKind::I32)))]);
    let shape = ValueShape::List(Box::new(element), FSOBuilderListState::MutlilineList);
    let mut state = FSOTableFileParser::from_text("#End");
    let (value, _) = parse_value(&shape, &mut state, None).unwrap();
    assert!(matches!(value, FSOValue::List(ref items) if items.len() == 1));
    assert_eq!(state.get(), "#End");
}

#[test]
fn tuple_failure_fails_the_tuple() {
    let shape = ValueShape::Tuple(vec![scalar(ScalarKind::I32), scalar(ScalarKind::I32)]);
    let e = parse_text(&shape, "(1, x)").unwrap_err();
    assert_eq!(e.reason, "Expected int, got x)!");
}

#[test]
fn wrapper_is_transparent() {
    let shape = ValueShape::Wrapper(Box::new(scalar(ScalarKind::Bool)));
    let value = parse_text(&shape, "yes").unwrap();
    assert!(matches!(value, FSOValue::Wrapper(ref inner) if matches!(**inner, FSOValue::Bool(true))));
    assert_eq!(spew_to_text(&shape, &value), "YES");
}

#[test]
fn table_tokens_and_comment_slots() {
    let shape = ValueShape::Record(RecordSchema {
        fields: vec![named("$Name:", scalar(ScalarKind::Text)), named("$Count:", scalar(ScalarKind::U32))],
        table_start: Some("#Things".to_string()),
        table_end: Some("#End".to_string()),
        inline: false,
    });
    let text = "; head\n#Things\n; name is next\n$Name: Widget\n$Count: 4\n; tail\n#End";
    let mut state = FSOTableFileParser::from_text(text);
    let (value, carry) = parse_value(&shape, &mut state, None).unwrap();
    let record = match value {
        FSOValue::Record(r) => r,
        other => panic!("unexpected {:?}", other),
    };
    assert!(matches!(&record.fields[0], FSOValue::Text(t) if t == "Widget"));
    assert!(matches!(record.fields[1], FSOValue::UInt(4)));
    assert_eq!(
        record.comments,
        vec![
            Some("; head".to_string()),
            Some("; name is next".to_string()),
            None,
            Some("; tail".to_string())
        ]
    );
    assert_eq!(record.version_strings, vec![None, None, None, None]);
    let carry = carry.unwrap();
    assert_eq!(carry.comments, Some("; tail".to_string()));
    assert_eq!(state.get(), "");
    assert_eq!(state.line(), 6);
}

#[test]
fn missing_table_end_fails_without_context() {
    let shape = ValueShape::Record(RecordSchema {
        fields: vec![],
        table_start: Some("#T".to_string()),
        table_end: Some("#End".to_string()),
        inline: false,
    });
    let e = parse_text(&shape, "#T\n; c\n#Nope").unwrap_err();
    assert_eq!(e.reason, "Expected \"#End\", got #Nop");
    assert_eq!(e.comments, None);
    assert_eq!(e.line, 2);
}

#[test]
fn gobble_literal_is_required() {
    let shape = record_of(vec![FieldDescriptor::Positional {
        shape: scalar(ScalarKind::I32),
        gobble: Some(":".to_string()),
    }]);
    assert!(parse_text(&shape, "5 :").is_ok());
    let e = parse_text(&shape, "5 ;").unwrap_err();
    assert_eq!(e.reason, "Expected \":\", got ;");
}

#[test]
fn positional_optional_is_absent_on_failure() {
    let shape = record_of(vec![
        positional(optional(scalar(ScalarKind::I32))),
        named("$N:", scalar(ScalarKind::I32)),
    ]);
    let value = parse_text(&shape, "$N: 2").unwrap();
    assert!(matches!(fields_of(&value)[0], FSOValue::Absent));
    assert!(matches!(fields_of(&value)[1], FSOValue::Int(2)));
}

#[test]
fn spew_record_and_reparse() {
    let shape = record_of(vec![
        named("$Name:", scalar(ScalarKind::Text)),
        named("$Count:", optional(scalar(ScalarKind::I64))),
        FieldDescriptor::ExistenceFlag { token: "+Flag".to_string(), gobble: None },
        named("$Mode:", union_of(vec![variant("Fast", vec![]), variant("Slow", vec![scalar(ScalarKind::U32)])])),
    ]);
    let value = parse_text(&shape, "$Name: Thing\n$Count: -3\n+Flag\n$Mode: Slow 7").unwrap();
    let text = spew_to_text(&shape, &value);
    assert_eq!(text, "\n$Name: Thing \n$Count: -3 \n+Flag \n$Mode: Slow 7  ");
    let again = parse_text(&shape, &text).unwrap();
    assert_eq!(spew_to_text(&shape, &again), text);
    let fields = fields_of(&again);
    assert!(matches!(&fields[0], FSOValue::Text(t) if t == "Thing"));
    assert!(matches!(&fields[1], FSOValue::Present(n) if matches!(**n, FSOValue::Int(-3))));
    assert!(matches!(fields[2], FSOValue::Bool(true)));
    assert!(matches!(&fields[3], FSOValue::Variant(1, f) if matches!(f[0], FSOValue::UInt(7))));
}

#[test]
fn spew_lists_and_tuples() {
    let tuple = ValueShape::Tuple(vec![scalar(ScalarKind::F32), scalar(ScalarKind::F32)]);
    let value = parse_text(&tuple, "(1.5, -.5)").unwrap();
    assert_eq!(spew_to_text(&tuple, &value), "(1.5, -.5)");
    let flags = union_of(vec![variant("\"a b\"", vec![]), variant("\"c\"", vec![])]);
    let inline = ValueShape::List(Box::new(flags), FSOBuilderListState::InlineList);
    let value = parse_text(&inline, "(\"a b\" \"c\")").unwrap();
    assert!(matches!(value, FSOValue::List(ref items) if items.len() == 2));
    assert_eq!(spew_to_text(&inline, &value), "(\"a b\" \"c\" )");
    let entry = record_of(vec![named("$N:", scalar(ScalarKind::I32))]);
    let multi = ValueShape::List(Box::new(entry), FSOBuilderListState::MutlilineList);
    let value = parse_text(&multi, "$N: 1\n$N: 2\n#End").unwrap();
    assert!(matches!(value, FSOValue::List(ref items) if items.len() == 2));
    assert_eq!(spew_to_text(&multi, &value), "\n\n$N: 1 \n\n$N: 2 ");
}

#[test]
fn string_inside_inline_list_is_quoted() {
    let pair = ValueShape::Tuple(vec![scalar(ScalarKind::Text), scalar(ScalarKind::I32)]);
    let inline = ValueShape::List(Box::new(pair), FSOBuilderListState::InlineList);
    let value = parse_text(&inline, "((\"a b\", 1) (\"c\", 2))").unwrap();
    assert!(matches!(value, FSOValue::List(ref items) if items.len() == 2));
    assert_eq!(spew_to_text(&inline, &value), "((\"a b\", 1)(\"c\", 2))");
}

#[test]
fn spew_table_tokens() {
    let shape = ValueShape::Record(RecordSchema {
        fields: vec![named("$N:", scalar(ScalarKind::I32))],
        table_start: Some("#T".to_string()),
        table_end: Some("#End".to_string()),
        inline: false,
    });
    let value = parse_text(&shape, "#T $N: 1 #End").unwrap();
    assert_eq!(spew_to_text(&shape, &value), "#T\n\n\n$N: 1 \n\n#End");
}

#[test]
fn spew_skips_mismatched_value() {
    let shape = ValueShape::Tuple(vec![scalar(ScalarKind::I32)]);
    assert_eq!(spew_to_text(&shape, &FSOValue::Bool(true)), "");
}
