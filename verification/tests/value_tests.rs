use fso_tables::builder::{FSOBuilder, FSOBuilderListState, FSOTableBuilder};
use fso_tables::basic_types::{spew_bool, spew_float, spew_signed, spew_string, spew_unsigned};
use fso_tables::number::{read_signed, read_unsigned, render_signed, render_unsigned};
use fso_tables::schema::check_shape;
use fso_tables::value::copy_value;
use fso_tables::{
    parse_value, spew_to_text, spew_value, FSOFloat, FSOParser, FSOParsingError, FSORecord,
    FSOTableFileParser, FSOValue, FieldDescriptor, RecordSchema, ScalarKind, UnionSchema,
    ValueShape, VariantDescriptor,
};

fn chars(text: &str) -> Vec<char> {
    text.chars().collect()
}

#[test]
fn decimal_rendering() {
    assert_eq!(render_unsigned(0), "0");
    assert_eq!(render_unsigned(7), "7");
    assert_eq!(render_unsigned(10), "10");
    assert_eq!(render_unsigned(1234567890), "1234567890");
    assert_eq!(render_unsigned(u64::MAX), "18446744073709551615");
    assert_eq!(render_signed(0), "0");
    assert_eq!(render_signed(-1), "-1");
    assert_eq!(render_signed(i64::MIN), "-9223372036854775808");
    assert_eq!(render_signed(i64::MAX), "9223372036854775807");
}

#[test]
fn decimal_reading() {
    assert_eq!(read_signed(&chars("0012"), -100, 100), Some(12));
    assert_eq!(read_signed(&chars("-0"), -100, 100), Some(0));
    assert_eq!(read_signed(&chars("+100"), -100, 100), Some(100));
    assert_eq!(read_signed(&chars("101"), -100, 100), None);
    assert_eq!(read_signed(&chars("-101"), -100, 100), None);
    assert_eq!(read_signed(&chars("-100"), -100, 100), Some(-100));
    assert_eq!(read_signed(&chars(""), -100, 100), None);
    assert_eq!(read_signed(&chars("+"), -100, 100), None);
    assert_eq!(read_signed(&chars("1a"), -100, 100), None);
    assert_eq!(read_signed(&chars("99999999999999999999999999"), i64::MIN, i64::MAX), None);
    assert_eq!(read_unsigned(&chars("42"), 50), Some(42));
    assert_eq!(read_unsigned(&chars("+42"), 50), Some(42));
    assert_eq!(read_unsigned(&chars("-1"), 50), None);
    assert_eq!(read_unsigned(&chars("51"), 50), None);
    assert_eq!(read_unsigned(&chars("00000000000000000000000000000050"), 50), Some(50));
}

#[test]
fn numbers_read_back_what_was_written() {
    for n in [0i64, 1, -1, 42, -9000, i64::MIN, i64::MAX] {
        assert_eq!(read_signed(&chars(&render_signed(n)), i64::MIN, i64::MAX), Some(n));
    }
    for n in [0u64, 9, 10, 99, 100, u64::MAX] {
        assert_eq!(read_unsigned(&chars(&render_unsigned(n)), u64::MAX), Some(n));
    }
}

#[test]
fn float_text_forms() {
    for good in ["0", "1.5", "-.5", "+3.", ".25", "-0.0", "007"] {
        let f = FSOFloat::from_text(good).unwrap();
        assert_eq!(f.as_text(), good);
        assert_eq!(f.duplicate().as_text(), good);
        assert!(good.parse::<f64>().is_ok());
    }
    for bad in ["", ".", "-", "+.", "1.2.3", "1e5", "1-", " 1", "abc", "--1"] {
        assert!(FSOFloat::from_text(bad).is_none(), "{}", bad);
    }
}

#[test]
fn builder_gathers_text_and_tracks_lists() {
    let mut builder = FSOTableBuilder::default();
    builder.append("ab");
    builder.append("");
    builder.append("c");
    assert_eq!(builder.current_list(), None);
    builder.push_list(FSOBuilderListState::InlineList);
    builder.get_state().list_state.push(FSOBuilderListState::MutlilineList);
    assert_eq!(builder.current_list(), Some(FSOBuilderListState::MutlilineList));
    builder.pop_list();
    assert_eq!(builder.current_list(), Some(FSOBuilderListState::InlineList));
    assert_eq!(builder.get_state().list_state.len(), 1);
    builder.pop_list();
    builder.pop_list();
    assert_eq!(builder.current_list(), None);
    assert_eq!(builder.spew(), "abc");
}

#[test]
fn scalars_are_written() {
    let mut builder = FSOTableBuilder::default();
    spew_bool(true, &mut builder);
    spew_bool(false, &mut builder);
    spew_signed(-12, &mut builder);
    spew_unsigned(34, &mut builder);
    spew_float(&FSOFloat::from_text("5.5").unwrap(), &mut builder);
    spew_string("plain", &mut builder);
    builder.push_list(FSOBuilderListState::MutlilineList);
    spew_string("more", &mut builder);
    builder.push_list(FSOBuilderListState::InlineList);
    spew_string("quoted text", &mut builder);
    assert_eq!(builder.spew(), "YESNO-12345.5plainmore\"quoted text\"");
}

#[test]
fn copies_are_equal() {
    let value = FSOValue::Record(FSORecord {
        fields: vec![
            FSOValue::Present(Box::new(FSOValue::Text("a".to_string()))),
            FSOValue::List(vec![FSOValue::Int(-3), FSOValue::UInt(4)]),
            FSOValue::Tuple(vec![FSOValue::Float(FSOFloat::from_text("1.5").unwrap()), FSOValue::Bool(true)]),
            FSOValue::Wrapper(Box::new(FSOValue::Variant(2, vec![FSOValue::Absent]))),
        ],
        comments: vec![None, Some("; c".to_string())],
        version_strings: vec![Some(";;FSO 1.0;;".to_string()), None],
    });
    let copy = copy_value(&value);
    assert_eq!(format!("{:?}", copy), format!("{:?}", value));
}

#[test]
fn ill_formed_shapes_are_found() {
    let int = || ValueShape::Scalar(ScalarKind::I32);
    let optional = |s| ValueShape::Optional(Box::new(s));
    assert!(check_shape(&optional(int())));
    assert!(!check_shape(&optional(optional(int()))));
    assert!(!check_shape(&optional(ValueShape::Wrapper(Box::new(int())))));
    assert!(!check_shape(&ValueShape::Wrapper(Box::new(optional(int())))));
    assert!(!check_shape(&ValueShape::List(Box::new(optional(int())), fso_tables::FSOBuilderListState::InlineList)));
    assert!(!check_shape(&ValueShape::Tuple(vec![int(), optional(int())])));
    let variant = |token: &str, default_capture: bool, fields: Vec<ValueShape>| VariantDescriptor {
        token: token.to_string(),
        fields,
        default_capture,
    };
    let union = |variants: Vec<VariantDescriptor>| {
        ValueShape::TaggedUnion(UnionSchema { variants, field_spacing: " ".to_string() })
    };
    let text = || ValueShape::Scalar(ScalarKind::Text);
    assert!(check_shape(&union(vec![variant("a", false, vec![]), variant("b", false, vec![optional(int())])])));
    assert!(!check_shape(&union(vec![variant("a", false, vec![]), variant("a", false, vec![])])));
    assert!(check_shape(&union(vec![variant("a", false, vec![]), variant("a", true, vec![text()])])));
    assert!(!check_shape(&union(vec![variant("", true, vec![text()]), variant("a", false, vec![])])));
    assert!(!check_shape(&union(vec![variant("", true, vec![int()])])));
    assert!(!check_shape(&union(vec![variant("", true, vec![text(), text()])])));
    let nested = ValueShape::Record(RecordSchema {
        fields: vec![FieldDescriptor::Positional { shape: optional(optional(int())), gobble: None }],
        table_start: None,
        table_end: None,
        inline: false,
    });
    assert!(!check_shape(&nested));
}

#[test]
fn flat_record_is_read_back_before_any_text() {
    let shape = ValueShape::Record(RecordSchema {
        fields: vec![
            FieldDescriptor::Named { token: "$A:".to_string(), shape: ValueShape::Scalar(ScalarKind::I32), gobble: None },
            FieldDescriptor::Named { token: "$B:".to_string(), shape: ValueShape::Scalar(ScalarKind::Bool), gobble: None },
            FieldDescriptor::Named { token: "+C".to_string(), shape: ValueShape::Scalar(ScalarKind::F64), gobble: None },
            FieldDescriptor::Named {
                token: "$D:".to_string(),
                shape: ValueShape::Wrapper(Box::new(ValueShape::Scalar(ScalarKind::U64))),
                gobble: None,
            },
        ],
        table_start: None,
        table_end: None,
        inline: false,
    });
    let value = FSOValue::Record(FSORecord {
        fields: vec![
            FSOValue::Int(-17),
            FSOValue::Bool(false),
            FSOValue::Float(FSOFloat::from_text("-.5").unwrap()),
            FSOValue::Wrapper(Box::new(FSOValue::UInt(u64::MAX))),
        ],
        comments: vec![],
        version_strings: vec![],
    });
    let text = spew_to_text(&shape, &value);
    assert_eq!(text, "\n$A: -17 \n$B: NO \n+C -.5 \n$D: 18446744073709551615 ");
    for rest in ["", "123", ".5 more", "YES", "\n$A: 1"] {
        let mut state = FSOTableFileParser::from_text(&format!("{}{}", text, rest));
        let (read, carry) = parse_value(&shape, &mut state, None).unwrap();
        assert!(carry.is_none());
        assert_eq!(state.get(), format!(" {}", rest));
        match (&read, &value) {
            (FSOValue::Record(a), FSOValue::Record(b)) => {
                assert_eq!(format!("{:?}", a.fields), format!("{:?}", b.fields))
            },
            _ => panic!("not records"),
        }
    }
}

#[test]
fn inline_list_of_numbers_is_not_read_back() {
    let shape = ValueShape::List(Box::new(ValueShape::Scalar(ScalarKind::I32)), fso_tables::FSOBuilderListState::InlineList);
    let value = FSOValue::List(vec![FSOValue::Int(1), FSOValue::Int(2)]);
    let text = spew_to_text(&shape, &value);
    assert_eq!(text, "(12)");
    let mut state = FSOTableFileParser::from_text(&text);
    let (read, _) = parse_value(&shape, &mut state, None).unwrap();
    assert!(matches!(read, FSOValue::List(ref items) if items.len() == 1 && matches!(items[0], FSOValue::Int(12))));
}

#[test]
fn scan_after_version_marker_goes_on() {
    let mut state = FSOTableFileParser::from_text(";;FSO 1.0;; // more\nx");
    let first = state.consume_whitespace(false);
    assert_eq!(first, (None, Some(";;FSO 1.0;;".to_string())));
    let second = state.consume_whitespace(false);
    assert_eq!(second, (Some("// more".to_string()), None));
}

#[test]
fn error_report_and_context() {
    let e = FSOParsingError::new(12, "why".to_string());
    assert_eq!(e.message(), "Error at line 12: why");
    let e = e.with_context(&Some("; c".to_string()), &None);
    assert_eq!(e.comments, Some("; c".to_string()));
    assert_eq!(e.version_string, None);
    assert_eq!(e.line, 12);
    assert_eq!(e.reason, "why");
}

#[test]
fn values_are_written_through_a_builder() {
    let shape = ValueShape::Tuple(vec![ValueShape::Scalar(ScalarKind::Text), ValueShape::Scalar(ScalarKind::Bool)]);
    let value = FSOValue::Tuple(vec![FSOValue::Text("a".to_string()), FSOValue::Bool(true)]);
    let mut builder = FSOTableBuilder::default();
    builder.append("x = ");
    spew_value(&shape, &value, &mut builder);
    assert_eq!(builder.spew(), "x = (a, YES)");
}
