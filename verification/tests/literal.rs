use enotation::ENotationParser;
use enotation::ENotationBody;
use enotation::literal::{Boolean, Char, Identifier, Integer, Literal, Rational, String_};

fn boolean(input: &str) -> Boolean {
    Boolean { value: enotation::literal::parse_bool(input) }
}

fn integer(input: &str) -> Integer {
    Integer { value: enotation::literal::parse_int(input).unwrap() }
}

fn rational(input: &str) -> Rational {
    let (numerator, denominator) = enotation::literal::parse_rational(input).unwrap();
    Rational { numerator, denominator }
}

fn float_text(input: &str) -> String {
    match ENotationParser::parse_notation(input).unwrap().body {
        ENotationBody::Literal(Literal::Float(f)) => f.to_text(),
        _ => panic!("not a float literal"),
    }
}

fn chr(input: &str) -> Char {
    Char { value: enotation::literal::parse_char(input).unwrap() }
}

fn identifier(input: &str) -> Identifier {
    Identifier { name: enotation::literal::parse_identifier(input) }
}

fn string(input: &str) -> String_ {
    String_ { value: enotation::literal::parse_string(input) }
}

fn literal(input: &str) -> String {
    let n = ENotationParser::parse_notation(input).unwrap();
    match n.body {
        ENotationBody::Literal(_) => n.to_text(),
        _ => panic!("not a literal"),
    }
}

#[test]
fn parse_boolean() {
    assert_eq!(boolean("#t").to_text(), "#t");
    assert_eq!(boolean("#f").to_text(), "#f");
}

#[test]
fn parse_integer() {
    assert_eq!(integer("123").to_text(), "123");
    assert_eq!(integer("-1").to_text(), "-1");
    assert_eq!(integer("-10").to_text(), "-10");
    assert_eq!(integer("0").to_text(), "0");
    assert_eq!(integer("+0").to_text(), "0");
    assert_eq!(integer("-0").to_text(), "0");
}

#[test]
fn parse_rational() {
    assert_eq!(rational("1/2").to_text(), "1/2");
    assert_eq!(rational("-1/10").to_text(), "-1/10");
}

#[test]
fn parse_float() {
    assert_eq!(float_text("1.23"), "1.23");
}

#[test]
fn parse_char() {
    assert_eq!(chr("#\\c").to_text(), "#\\c");
    assert_eq!(chr("#\\tab").to_text(), "#\\tab");
    assert_eq!(chr("#\\/").to_text(), "#\\/");
}

#[test]
fn parse_identifier() {
    assert_eq!(identifier("abc").to_text(), "abc");
    assert_eq!(
        identifier("obscure-name-!$%^&*-_=+<.>/?").to_text(),
        "obscure-name-!$%^&*-_=+<.>/?"
    );
    assert_eq!(identifier("\u{4e16}\u{754c}").to_text(), "\u{4e16}\u{754c}");
    assert_eq!(
        identifier("\u{672c}\u{597d}\u{304d}\u{306e}\u{4e0b}\u{524b}\u{4e0a}").to_text(),
        "\u{672c}\u{597d}\u{304d}\u{306e}\u{4e0b}\u{524b}\u{4e0a}"
    );

    assert_eq!(identifier("a123").to_text(), "a123");
    assert_eq!(identifier("a-123").to_text(), "a-123");
    assert_eq!(identifier("syntax-parse").to_text(), "syntax-parse");
    assert_eq!(identifier("\u{3bb}").to_text(), "\u{3bb}");
    assert_eq!(identifier("require").to_text(), "require");
    assert_eq!(identifier("\u{1f607}").to_text(), "\u{1f607}");

    assert_eq!(identifier("#%hello").to_text(), "#%hello");
    assert_eq!(identifier("ok#").to_text(), "ok#");
    assert_eq!(identifier("|6|").to_text(), "|6|");
}

#[test]
fn parse_string() {
    assert_eq!(string("\"abc\"").to_text(), "\"abc\"");
}

#[test]
fn parse_literal() {
    assert_eq!(literal("#t"), "#t");
    assert_eq!(literal("123"), "123");
    assert_eq!(literal("1/2"), "1/2");
    assert_eq!(literal("1.23"), "1.23");
    assert_eq!(literal("#\\c"), "#\\c");
    assert_eq!(literal("\"abc\""), "\"abc\"");
}
