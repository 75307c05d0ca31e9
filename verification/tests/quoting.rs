use enotation::ENotationParser;
use enotation::ENotationBody;
use enotation::quoting::{QuasiQuote, Quote, Quoting};

fn quote(input: &str) -> Quote {
    match ENotationParser::parse_notation(input).unwrap().body {
        ENotationBody::Quoting(Quoting::Quote(q)) => q,
        _ => panic!("not a quote"),
    }
}

fn quasi_quote(input: &str) -> QuasiQuote {
    match ENotationParser::parse_notation(input).unwrap().body {
        ENotationBody::Quoting(Quoting::QuasiQuote(q)) => q,
        _ => panic!("not a quasiquote"),
    }
}

#[test]
fn parse_quote() {
    assert_eq!(quote("'(1 2 3)").to_text(), "'(1 2 3)");
    assert_eq!(quote("'1").to_text(), "'1");
    assert_eq!(quote("''1").to_text(), "''1");
}

#[test]
fn parse_quasi_quote_and_unquoting() {
    assert_eq!(quasi_quote("`(1 2 3)").to_text(), "`(1 2 3)");
    assert_eq!(quasi_quote("`(1 2 ,a)").to_text(), "`(1 2 ,a)");
    assert_eq!(quasi_quote("`(1 ,@b)").to_text(), "`(1 ,@b)");
}
