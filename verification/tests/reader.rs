use enotation::{EFile, ENotation, ENotationParser};

fn notation(input: &str) -> ENotation {
    ENotationParser::parse_notation(input).unwrap()
}

fn all(input: &str) -> EFile {
    match ENotationParser::parse_file(input) {
        Ok(f) => f,
        Err(err) => panic!("{:?}", err),
    }
}

#[test]
fn parse_random_notation_should_work() {
    assert_eq!(notation("1").to_text(), "1");
    assert_eq!(notation("#f").to_text(), "#f");
    assert_eq!(notation("#\\c").to_text(), "#\\c");
    assert_eq!(notation("(1 (2 3))").to_text(), "(1 (2 3))");
    assert_eq!(notation("({})").to_text(), "({})");
}

#[test]
fn parse_all() {
    assert_eq!(
        all("
    ; a list
    (1 2 3)
    ")
        .to_text(),
        "(1 2 3)\n"
    );
}

#[test]
fn parse_comment() {
    // A line comment and a datum comment hold no significant tokens: a
    // file of nothing else parses to zero notations.
    let output = all("; this is a comment");
    assert_eq!(output.notations.len(), 0);

    let output = all("#;1");
    assert_eq!(output.notations.len(), 0);
}
