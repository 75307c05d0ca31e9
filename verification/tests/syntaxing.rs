use enotation::ENotationParser;
use enotation::ENotationBody;
use enotation::syntaxing::{QuasiSyntax, Syntax, Syntaxing};

fn syntax(input: &str) -> Syntax {
    match ENotationParser::parse_notation(input).unwrap().body {
        ENotationBody::Syntaxing(Syntaxing::Syntax(s)) => s,
        _ => panic!("not a syntax form"),
    }
}

fn quasi_syntax(input: &str) -> QuasiSyntax {
    match ENotationParser::parse_notation(input).unwrap().body {
        ENotationBody::Syntaxing(Syntaxing::QuasiSyntax(s)) => s,
        _ => panic!("not a quasisyntax form"),
    }
}

#[test]
fn parse_syntax() {
    assert_eq!(syntax("#'(1 2 3)").to_text(), "#'(1 2 3)");
    assert_eq!(syntax("#'1").to_text(), "#'1");
    assert_eq!(syntax("#'#'1").to_text(), "#'#'1");
}

#[test]
fn parse_quasisyntax() {
    assert_eq!(quasi_syntax("#`(1 2 3)").to_text(), "#`(1 2 3)");
    assert_eq!(quasi_syntax("#`1").to_text(), "#`1");
    assert_eq!(quasi_syntax("#`(1 2 #,a)").to_text(), "#`(1 2 #,a)");
    assert_eq!(quasi_syntax("#`(1 2 #,@l 3)").to_text(), "#`(1 2 #,@l 3)");
}
