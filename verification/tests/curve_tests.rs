use fso_tables::curves::{curve_keyframe_shape, curve_segment_shape, curve_table_shape};
use fso_tables::schema::check_shape;
use fso_tables::{parse_text, spew_to_text, FSOValue};

fn record_fields(v: &FSOValue) -> &Vec<FSOValue> {
    match v {
        FSOValue::Record(r) => &r.fields,
        other => panic!("not a record: {:?}", other),
    }
}

fn list_items(v: &FSOValue) -> &Vec<FSOValue> {
    match v {
        FSOValue::List(items) => items,
        other => panic!("not a list: {:?}", other),
    }
}

#[test]
fn curve_shapes_are_well_formed() {
    assert!(check_shape(&curve_segment_shape()));
    assert!(check_shape(&curve_keyframe_shape()));
    assert!(check_shape(&curve_table_shape()));
}

#[test]
fn curve_table_is_read() {
    let text = "#Curves\n\n; the first curve\n$Name: Bump\n$KeyFrames: (0, 0): Polynomial 2 yes (0.5, 1): EaseOutQuad (1, 0): Constant\n\n$Name: Flat\n$KeyFrames:\n(0, 0.5): Linear\n(1, 0.5): Constant\n\n#End\n";
    let table = parse_text(&curve_table_shape(), text).unwrap();
    let curves = list_items(&record_fields(&table)[0]);
    assert_eq!(curves.len(), 2);
    let bump = record_fields(&curves[0]);
    assert!(matches!(&bump[0], FSOValue::Text(name) if name == "Bump"));
    let frames = list_items(&bump[1]);
    assert_eq!(frames.len(), 3);
    let first = record_fields(&frames[0]);
    match &first[1] {
        FSOValue::Variant(2, fields) => {
            assert!(matches!(&fields[0], FSOValue::Float(d) if d.as_text() == "2"));
            assert!(matches!(&fields[1], FSOValue::Present(b) if matches!(**b, FSOValue::Bool(true))));
        },
        other => panic!("unexpected {:?}", other),
    }
    let second = record_fields(&frames[1]);
    match &second[0] {
        FSOValue::Tuple(pos) => {
            assert!(matches!(&pos[0], FSOValue::Float(x) if x.as_text() == "0.5"));
            assert!(matches!(&pos[1], FSOValue::Float(y) if y.as_text() == "1"));
        },
        other => panic!("unexpected {:?}", other),
    }
    assert!(matches!(&second[1], FSOValue::Variant(4, f) if matches!(&f[0], FSOValue::Text(t) if t == "EaseOutQuad")));
    let flat = record_fields(&curves[1]);
    assert!(matches!(&flat[0], FSOValue::Text(name) if name == "Flat"));
    assert_eq!(list_items(&flat[1]).len(), 2);
    assert!(matches!(&curves[1], FSOValue::Record(r) if r.comments[1].is_none()));
    match &table {
        FSOValue::Record(r) => assert_eq!(
            r.comments,
            vec![None, Some("; the first curve".to_string()), None]
        ),
        other => panic!("unexpected {:?}", other),
    }
}

#[test]
fn keyframe_is_written() {
    let frame = parse_text(&curve_keyframe_shape(), "(0.25, 1):Circular no").unwrap();
    assert_eq!(spew_to_text(&curve_keyframe_shape(), &frame), "(0.25, 1): Circular NO  ");
}

#[test]
fn text_after_a_closing_parenthesis_is_not_scanned_again() {
    let text = "#Curves\n$Name: One\n$KeyFrames: ( (0, 0): Linear (1, 1): Constant )\n$Name: Two\n$KeyFrames: (0, 0): Constant\n#End";
    let e = parse_text(&curve_table_shape(), text).unwrap_err();
    assert_eq!(e.reason, "Expected \"#End\", got \n$Na");
    assert_eq!(e.line, 2);
}
