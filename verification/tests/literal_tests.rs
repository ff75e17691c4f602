use mblf::error::CompileError;
use mblf::literal::parse_constant;

#[test]
fn quoted_char_is_code_point() {
    assert_eq!(parse_constant("\"A\"").unwrap(), 65);
}

#[test]
fn quoted_char_without_closing_quote() {
    assert_eq!(parse_constant("\"A").unwrap(), 65);
}

#[test]
fn quoted_non_ascii_char() {
    assert_eq!(parse_constant("\"\u{20AC}\"").unwrap(), 0x20AC);
}

#[test]
fn hex_literal() {
    assert_eq!(parse_constant("0x1F").unwrap(), 31);
}

#[test]
fn hex_literal_lower_case() {
    assert_eq!(parse_constant("0x1f").unwrap(), 31);
}

#[test]
fn decimal_literal() {
    assert_eq!(parse_constant("42").unwrap(), 42);
}

#[test]
fn decimal_zero() {
    assert_eq!(parse_constant("0").unwrap(), 0);
}

#[test]
fn largest_value_fits() {
    assert_eq!(parse_constant("4294967295").unwrap(), u32::MAX);
    assert_eq!(parse_constant("0xFFFFFFFF").unwrap(), u32::MAX);
}

#[test]
fn bad_hex_digits_fail() {
    let e = parse_constant("0xZZ").unwrap_err();
    assert!(matches!(e, CompileError::MalformedLiteral(t) if t == "0xZZ"));
}

#[test]
fn empty_text_fails() {
    assert!(matches!(
        parse_constant(""),
        Err(CompileError::MalformedLiteral(_))
    ));
}

#[test]
fn lone_quote_fails() {
    assert!(matches!(
        parse_constant("\""),
        Err(CompileError::MalformedLiteral(_))
    ));
}

#[test]
fn bare_hex_prefix_fails() {
    assert!(matches!(
        parse_constant("0x"),
        Err(CompileError::MalformedLiteral(_))
    ));
}

#[test]
fn negative_literal_fails() {
    assert!(matches!(
        parse_constant("-3"),
        Err(CompileError::MalformedLiteral(_))
    ));
}

#[test]
fn value_too_large_fails() {
    assert!(matches!(
        parse_constant("4294967296"),
        Err(CompileError::MalformedLiteral(_))
    ));
    assert!(matches!(
        parse_constant("0x100000000"),
        Err(CompileError::MalformedLiteral(_))
    ));
}
