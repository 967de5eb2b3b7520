//! Literal parsing and emission of property values.

use enum_props::value::PropertyValue;

#[test]
fn parse_bare_true_is_bool() {
    assert_eq!(PropertyValue::parse("true"), PropertyValue::Bool(true));
}

#[test]
fn parse_bare_false_is_bool() {
    assert_eq!(PropertyValue::parse("false"), PropertyValue::Bool(false));
}

#[test]
fn parse_digits_is_int() {
    assert_eq!(PropertyValue::parse("42"), PropertyValue::Num(42));
    assert_eq!(PropertyValue::parse("0"), PropertyValue::Num(0));
    assert_eq!(PropertyValue::parse("007"), PropertyValue::Num(7));
}

#[test]
fn parse_largest_int() {
    assert_eq!(
        PropertyValue::parse("18446744073709551615"),
        PropertyValue::Num(u64::MAX)
    );
}

#[test]
fn parse_overflowing_digits_falls_back_to_string() {
    assert_eq!(
        PropertyValue::parse("18446744073709551616"),
        PropertyValue::Str("18446744073709551616".to_string())
    );
}

#[test]
fn parse_quoted_token_strips_quotes() {
    assert_eq!(
        PropertyValue::parse("\"on\""),
        PropertyValue::Str("on".to_string())
    );
    assert_eq!(
        PropertyValue::parse("\"42\""),
        PropertyValue::Str("42".to_string())
    );
    assert_eq!(
        PropertyValue::parse("\"true\""),
        PropertyValue::Str("true".to_string())
    );
    assert_eq!(PropertyValue::parse("\"\""), PropertyValue::Str(String::new()));
}

#[test]
fn parse_bare_word_is_string() {
    assert_eq!(
        PropertyValue::parse("hello"),
        PropertyValue::Str("hello".to_string())
    );
    assert_eq!(PropertyValue::parse(""), PropertyValue::Str(String::new()));
    assert_eq!(
        PropertyValue::parse("12a"),
        PropertyValue::Str("12a".to_string())
    );
}

#[test]
fn emit_renders_each_kind() {
    assert_eq!(PropertyValue::Str("on".to_string()).emit(), "\"on\"");
    assert_eq!(PropertyValue::Num(42).emit(), "42");
    assert_eq!(PropertyValue::Num(0).emit(), "0");
    assert_eq!(PropertyValue::Num(u64::MAX).emit(), "18446744073709551615");
    assert_eq!(PropertyValue::Bool(true).emit(), "true");
    assert_eq!(PropertyValue::Bool(false).emit(), "false");
}

#[test]
fn emit_then_parse_round_trips() {
    let values = vec![
        PropertyValue::Str("on".to_string()),
        PropertyValue::Str(String::new()),
        PropertyValue::Str("true".to_string()),
        PropertyValue::Str("99".to_string()),
        PropertyValue::Num(0),
        PropertyValue::Num(12345),
        PropertyValue::Num(u64::MAX),
        PropertyValue::Bool(true),
        PropertyValue::Bool(false),
    ];
    for v in values {
        assert_eq!(PropertyValue::parse(v.emit().as_str()), v);
    }
}
