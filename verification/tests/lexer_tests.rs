use fso_tables::basic_types::{parse_bool, parse_float, parse_signed, parse_string, parse_unsigned};
use fso_tables::{FSOParser, FSOTableFileParser};

#[test]
fn scan_skips_spaces_and_commas() {
    let mut p = FSOTableFileParser::from_text("  , \t x");
    let (comments, version) = p.consume_whitespace(false);
    assert_eq!(comments, None);
    assert_eq!(version, None);
    assert_eq!(p.get(), "x");
    assert_eq!(p.line(), 0);
}

#[test]
fn scan_counts_lines() {
    let mut p = FSOTableFileParser::from_text("\n\n  \nx");
    let (comments, version) = p.consume_whitespace(false);
    assert_eq!(comments, None);
    assert_eq!(version, None);
    assert_eq!(p.get(), "x");
    assert_eq!(p.line(), 3);
}

#[test]
fn scan_stops_on_newline_when_asked() {
    let mut p = FSOTableFileParser::from_text("  \nx");
    let (comments, version) = p.consume_whitespace(true);
    assert_eq!(comments, None);
    assert_eq!(version, None);
    assert_eq!(p.get(), "\nx");
    assert_eq!(p.line(), 0);
}

#[test]
fn scan_gathers_line_comment() {
    let mut p = FSOTableFileParser::from_text("; hello\nx");
    let (comments, version) = p.consume_whitespace(false);
    assert_eq!(comments, Some("; hello".to_string()));
    assert_eq!(version, None);
    assert_eq!(p.get(), "x");
    assert_eq!(p.line(), 1);
}

#[test]
fn scan_gathers_slash_comment_and_block() {
    let mut p = FSOTableFileParser::from_text("//a\n/*b*/ !*c*! x");
    let (comments, version) = p.consume_whitespace(false);
    assert_eq!(comments, Some("//a\n/*b*/\n!*c*!".to_string()));
    assert_eq!(version, None);
    assert_eq!(p.get(), "x");
}

#[test]
fn scan_block_needs_matching_closer() {
    let mut p = FSOTableFileParser::from_text("/* a *! b */x");
    let (comments, _) = p.consume_whitespace(false);
    assert_eq!(comments, Some("/* a *! b */".to_string()));
    assert_eq!(p.get(), "x");
}

#[test]
fn scan_unterminated_comment_reads_to_end() {
    let mut p = FSOTableFileParser::from_text("// no newline");
    let (comments, version) = p.consume_whitespace(false);
    assert_eq!(comments, Some("// no newline".to_string()));
    assert_eq!(version, None);
    assert_eq!(p.get(), "");
}

#[test]
fn scan_version_marker_ends_scan() {
    let mut p = FSOTableFileParser::from_text(";;FSO 3.6.14;; // rest\nx");
    let (comments, version) = p.consume_whitespace(false);
    assert_eq!(comments, None);
    assert_eq!(version, Some(";;FSO 3.6.14;;".to_string()));
    assert_eq!(p.get(), " // rest\nx");
}

#[test]
fn scan_semicolons_without_version_are_comment() {
    let mut p = FSOTableFileParser::from_text(";;FSO 3;;\nx");
    let (comments, version) = p.consume_whitespace(false);
    assert_eq!(comments, Some(";;FSO 3;;".to_string()));
    assert_eq!(version, None);
    assert_eq!(p.get(), "x");
}

#[test]
fn scan_twice_finds_nothing() {
    let mut p = FSOTableFileParser::from_text("  // one\n /* two */ value");
    let first = p.consume_whitespace(false);
    assert!(first.0.is_some());
    let second = p.consume_whitespace(false);
    assert_eq!(second, (None, None));
    assert_eq!(p.get(), "value");
}

#[test]
fn consume_string_matches_prefix() {
    let mut p = FSOTableFileParser::from_text("$Name: x");
    assert!(p.consume_string("$Name:").is_ok());
    assert_eq!(p.get(), " x");
}

#[test]
fn consume_string_reports_mismatch() {
    let mut p = FSOTableFileParser::from_text("\n$Typo: x");
    p.consume_whitespace(false);
    let e = p.consume_string("$Name:").unwrap_err();
    assert_eq!(e.line, 1);
    assert_eq!(e.reason, "Expected \"$Name:\", got $Typo:");
    assert_eq!(e.message(), "Error at line 1: Expected \"$Name:\", got $Typo:");
    assert_eq!(p.get(), "$Typo: x");
}

#[test]
fn read_until_target_variants() {
    let mut p = FSOTableFileParser::from_text("abc--def");
    assert_eq!(p.read_until_target("--", false), "abc");
    assert_eq!(p.get(), "--def");
    let mut q = FSOTableFileParser::from_text("abc--def");
    assert_eq!(q.read_until_target("--", true), "abc");
    assert_eq!(q.get(), "def");
    let mut r = FSOTableFileParser::from_text("abc");
    assert_eq!(r.read_until_target("--", true), "abc");
    assert_eq!(r.get(), "");
}

#[test]
fn boolean_codec() {
    for text in ["YES", "yes", "On", "true"] {
        let mut p = FSOTableFileParser::from_text(text);
        assert_eq!(parse_bool(&mut p).unwrap(), true);
    }
    for text in ["NO", "off", "False"] {
        let mut p = FSOTableFileParser::from_text(text);
        assert_eq!(parse_bool(&mut p).unwrap(), false);
    }
    let mut p = FSOTableFileParser::from_text("maybe so");
    let e = parse_bool(&mut p).unwrap_err();
    assert_eq!(e.reason, "Expected boolean value, got maybe.");
    assert_eq!(p.get(), " so");
}

#[test]
fn integers() {
    let mut p = FSOTableFileParser::from_text("  -42 rest");
    assert_eq!(parse_signed(&mut p, i32::MIN as i64, i32::MAX as i64).unwrap(), -42);
    assert_eq!(p.get(), " rest");
    let mut p = FSOTableFileParser::from_text("+7");
    assert_eq!(parse_signed(&mut p, i64::MIN, i64::MAX).unwrap(), 7);
    let mut p = FSOTableFileParser::from_text("-9223372036854775808");
    assert_eq!(parse_signed(&mut p, i64::MIN, i64::MAX).unwrap(), i64::MIN);
    let mut p = FSOTableFileParser::from_text("9223372036854775808");
    assert!(parse_signed(&mut p, i64::MIN, i64::MAX).is_err());
    let mut p = FSOTableFileParser::from_text("2147483648");
    let e = parse_signed(&mut p, i32::MIN as i64, i32::MAX as i64).unwrap_err();
    assert_eq!(e.reason, "Expected int, got 2147483648!");
    let mut p = FSOTableFileParser::from_text("1.5");
    assert_eq!(parse_signed(&mut p, i64::MIN, i64::MAX).unwrap(), 1);
    assert_eq!(p.get(), ".5");
    let mut p = FSOTableFileParser::from_text("-5");
    let e = parse_unsigned(&mut p, u32::MAX as u64).unwrap_err();
    assert_eq!(e.reason, "Expected int, got -5!");
    assert_eq!(p.get(), "-5");
    let mut p = FSOTableFileParser::from_text("18446744073709551615");
    assert_eq!(parse_unsigned(&mut p, u64::MAX).unwrap(), u64::MAX);
    let mut p = FSOTableFileParser::from_text("abcdef");
    let e = parse_signed(&mut p, i64::MIN, i64::MAX).unwrap_err();
    assert_eq!(e.reason, "Expected int, got abcd!");
    let mut p = FSOTableFileParser::from_text("-");
    let e = parse_signed(&mut p, i64::MIN, i64::MAX).unwrap_err();
    assert_eq!(e.reason, "Expected int, got -!");
}

#[test]
fn float_with_sign_and_leading_dot() {
    let mut p = FSOTableFileParser::from_text("-.5");
    let f = parse_float(&mut p).unwrap();
    assert_eq!(f.as_text(), "-.5");
    assert_eq!(f.as_text().parse::<f32>().unwrap(), -0.5f32);
    assert_eq!(p.get(), "");
}

#[test]
fn float_boundaries() {
    let mut p = FSOTableFileParser::from_text("1.5.2");
    assert_eq!(parse_float(&mut p).unwrap().as_text(), "1.5");
    assert_eq!(p.get(), ".2");
    let mut p = FSOTableFileParser::from_text("1-2");
    assert_eq!(parse_float(&mut p).unwrap().as_text(), "1");
    assert_eq!(p.get(), "-2");
    let mut p = FSOTableFileParser::from_text("-.x");
    let e = parse_float(&mut p).unwrap_err();
    assert_eq!(e.reason, "Expected float, got -.!");
    assert_eq!(p.get(), "x");
    let mut p = FSOTableFileParser::from_text(".-5");
    assert!(parse_float(&mut p).is_err());
    assert_eq!(p.get(), "-5");
    let mut p = FSOTableFileParser::from_text("x");
    let e = parse_float(&mut p).unwrap_err();
    assert_eq!(e.reason, "Expected float, got x!");
}

#[test]
fn strings() {
    let mut p = FSOTableFileParser::from_text("  Hello World   ; comment\nnext");
    assert_eq!(parse_string(&mut p), "Hello World");
    assert_eq!(p.get(), "   ; comment\nnext");
    let mut p = FSOTableFileParser::from_text("\"quoted text\" tail");
    assert_eq!(parse_string(&mut p), "quoted text");
    assert_eq!(p.get(), " tail");
    let mut p = FSOTableFileParser::from_text("line\nnext");
    assert_eq!(parse_string(&mut p), "line");
    assert_eq!(p.get(), "\nnext");
}

#[test]
fn string_after_one_opening_quote() {
    let mut p = FSOTableFileParser::from_text("  \"\" rest");
    assert_eq!(parse_string(&mut p), "");
    assert_eq!(p.get(), " rest");
    let mut p = FSOTableFileParser::from_text("\" padded \"x");
    assert_eq!(parse_string(&mut p), " padded");
    assert_eq!(p.get(), "x");
    let mut p = FSOTableFileParser::from_text(",  bare ; c");
    assert_eq!(parse_string(&mut p), "bare");
    assert_eq!(p.get(), " ; c");
    let mut p = FSOTableFileParser::from_text("");
    assert_eq!(parse_string(&mut p), "");
}
