use enotation::{DiagnosticSpan, ENotation, ENotationBody, ENotationParser, SetDebugFileName};
use enotation::container::Container;
use enotation::container::list::{List, PList};
use enotation::container::object::Object;
use enotation::literal::{
    parse_char, parse_int, parse_rational, parse_string, remove_quotes, DecodeErrorKind, Integer,
    Literal, String_,
};
use enotation::parser::NotationError;
use enotation::syntaxing::Syntaxing;

fn notation(input: &str) -> ENotation {
    ENotationParser::parse_notation(input).unwrap()
}

fn reparse_render(input: &str) -> String {
    notation(input).to_text()
}

fn int_node(v: i64) -> ENotation {
    ENotation {
        span: DiagnosticSpan::default(),
        body: ENotationBody::Literal(Literal::Int(Integer { value: v })),
    }
}

fn plist_node(elems: Vec<ENotation>) -> ENotation {
    ENotation {
        span: DiagnosticSpan::default(),
        body: ENotationBody::Container(Container::List(List::PL(PList { elems }))),
    }
}

// Round-trip: literal-only inputs render back to their canonical form.
#[test]
fn literal_round_trip_canonical_forms() {
    assert_eq!(reparse_render("+0"), "0");
    assert_eq!(reparse_render("-0"), "0");
    assert_eq!(reparse_render("007"), "7");
    assert_eq!(reparse_render("1_000"), "1000");
    assert_eq!(reparse_render("#t"), "#t");
    assert_eq!(reparse_render("#\\tab"), "#\\tab");
    assert_eq!(reparse_render("2/4"), "2/4");
    assert_eq!(reparse_render("-1/10"), "-1/10");
    assert_eq!(reparse_render("hello"), "hello");
}

// A string written with single quotes is re-emitted with double quotes.
#[test]
fn string_requoted_with_double_quotes() {
    let s = String_ { value: parse_string("'abc'") };
    assert_eq!(s.to_text(), "\"abc\"");
    assert_eq!(remove_quotes("'abc'"), "abc");
    assert_eq!(remove_quotes("\"abc\""), "abc");
}

// Render idempotence: re-parsing an already-canonical text reproduces it.
#[test]
fn render_idempotence() {
    let inputs = [
        "(1 (2 3))",
        "[1 [2 3]]",
        "#(1 #[2 3])",
        "#{1 2 3}",
        "{a: 1, b: {c: 2}}",
        "{0: 1, 1: 2}",
        "'(1 2 3)",
        "`(1 ,a ,@b)",
        "#'(1 2 3)",
        "#`(#,x #,@y)",
        "#\\newline",
        "\"abc\"",
        "-17",
        "3/4",
        "1.25",
    ];
    for input in inputs {
        let canonical = reparse_render(input);
        assert_eq!(reparse_render(&canonical), canonical);
    }
}

// Span-independent equality: same text at different offsets gives
// body-equal trees with different spans.
#[test]
fn span_independent_equality() {
    let f = ENotationParser::parse_file("(1 2)\n(1 2)").unwrap();
    assert_eq!(f.notations.len(), 2);
    let a = &f.notations[0];
    let b = &f.notations[1];
    assert!(a.body_eq(b));
    assert_ne!(a.span.start_offset, b.span.start_offset);
    assert_eq!(a.span.start_line, 1);
    assert_eq!(b.span.start_line, 2);
}

// Nesting: the tree of "(1 (2 3))" and its rendering.
#[test]
fn nesting_builds_nested_lists() {
    let n = notation("(1 (2 3))");
    let expected = plist_node(vec![
        int_node(1),
        plist_node(vec![int_node(2), int_node(3)]),
    ]);
    assert!(n.body_eq(&expected));
    assert_eq!(n.to_text(), "(1 (2 3))");
}

// Positional object defaulting: bare elements get "0", "1", … as keys.
#[test]
fn positional_object_defaulting() {
    let n = notation("{1, 2, 3}");
    let o = match &n.body {
        ENotationBody::Container(Container::Object(o)) => o,
        _ => panic!("not an object"),
    };
    assert_eq!(o.pairs.len(), 3);
    for (i, pair) in o.pairs.iter().enumerate() {
        assert_eq!(pair.key.name, i.to_string());
    }
    assert_eq!(n.to_text(), "{0: 1, 1: 2, 2: 3}");

    let empty = notation("{}");
    match &empty.body {
        ENotationBody::Container(Container::Object(o)) => assert_eq!(o.pairs.len(), 0),
        _ => panic!("not an object"),
    }
    assert_eq!(empty.to_text(), "{}");
}

// A keyed element stays keyed even beside positional ones.
#[test]
fn mixed_object_keys_decided_per_element() {
    let n = notation("{a: 1, 2}");
    let o = match &n.body {
        ENotationBody::Container(Container::Object(o)) => o,
        _ => panic!("not an object"),
    };
    assert_eq!(o.pairs[0].key.name, "a");
    assert_eq!(o.pairs[1].key.name, "1");
}

// Quoting/syntaxing nesting: #'(1 2 3) wraps a list in a Syntax node.
#[test]
fn syntaxing_wraps_one_child() {
    let n = notation("#'(1 2 3)");
    let inner = match &n.body {
        ENotationBody::Syntaxing(Syntaxing::Syntax(s)) => &s.value,
        _ => panic!("not a syntax form"),
    };
    let expected = plist_node(vec![int_node(1), int_node(2), int_node(3)]);
    assert!(inner.body_eq(&expected));
    assert_eq!(n.to_text(), "#'(1 2 3)");
}

fn assert_all_files(n: &ENotation, name: &str) {
    assert_eq!(n.span.file.as_deref(), Some(name));
    match &n.body {
        ENotationBody::Container(Container::List(l)) => {
            for e in l.elems() {
                assert_all_files(e, name);
            }
        }
        ENotationBody::Container(Container::Vector(v)) => {
            for e in v.elems() {
                assert_all_files(e, name);
            }
        }
        ENotationBody::Container(Container::Set_(s)) => {
            for e in &s.elems {
                assert_all_files(e, name);
            }
        }
        ENotationBody::Container(Container::Object(o)) => {
            for p in &o.pairs {
                assert_all_files(&p.value, name);
            }
        }
        ENotationBody::Quoting(_) | ENotationBody::Syntaxing(_) | ENotationBody::Literal(_) => {}
    }
}

// File tagging: every node's span reports the file, object keys carry no
// span at all, and tagging twice changes nothing further.
#[test]
fn file_tagging_reaches_every_node() {
    let mut n = notation("(1 (2 3))");
    assert_eq!(n.span.file, None);
    let before_start = n.span.start_offset;
    let before_text = n.span.span.clone();

    n.set_debug_file_name("a.scm");
    assert_all_files(&n, "a.scm");

    // the nested integers, explicitly
    match &n.body {
        ENotationBody::Container(Container::List(List::PL(pl))) => {
            let inner = match &pl.elems[1].body {
                ENotationBody::Container(Container::List(List::PL(inner))) => inner,
                _ => panic!("not a nested list"),
            };
            assert_eq!(inner.elems[0].span.file.as_deref(), Some("a.scm"));
            assert_eq!(inner.elems[1].span.file.as_deref(), Some("a.scm"));
        }
        _ => panic!("not a list"),
    }

    // everything else in the span is untouched
    assert_eq!(n.span.start_offset, before_start);
    assert_eq!(n.span.span, before_text);
    // and the rendering is unchanged
    assert_eq!(n.to_text(), "(1 (2 3))");

    // idempotent under repeated application
    let after_once = n.to_text();
    n.set_debug_file_name("a.scm");
    assert_all_files(&n, "a.scm");
    assert_eq!(n.to_text(), after_once);
}

#[test]
fn file_tagging_whole_file() {
    let mut f = ENotationParser::parse_file("1 (2 3)").unwrap();
    f.set_debug_file_name("lib.scm");
    for n in &f.notations {
        assert_all_files(n, "lib.scm");
    }
}

// Object keys carry no span: the key is a bare identifier, and tagging
// concerns spans only.
#[test]
fn object_keys_unaffected_by_tagging() {
    let mut n = notation("{a: 1}");
    n.set_debug_file_name("a.scm");
    match &n.body {
        ENotationBody::Container(Container::Object(o)) => {
            assert_eq!(o.pairs[0].key.name, "a");
            assert_eq!(o.pairs[0].value.span.file.as_deref(), Some("a.scm"));
        }
        _ => panic!("not an object"),
    }
}

// Overflow: a literal beyond the 64-bit signed range is a decode error,
// never a wrapped or truncated value.
#[test]
fn integer_overflow_is_fatal() {
    assert_eq!(parse_int("9223372036854775807"), Ok(9223372036854775807));
    assert_eq!(parse_int("-9223372036854775808"), Ok(i64::MIN));
    assert_eq!(
        parse_int("9223372036854775808"),
        Err(DecodeErrorKind::IntegerOverflow)
    );
    assert_eq!(
        parse_int("-9223372036854775809"),
        Err(DecodeErrorKind::IntegerOverflow)
    );
    assert_eq!(
        parse_int("99999999999999999999"),
        Err(DecodeErrorKind::IntegerOverflow)
    );

    match ENotationParser::parse_notation("9223372036854775808") {
        Err(NotationError::Decode(d)) => {
            assert_eq!(d.kind, DecodeErrorKind::IntegerOverflow);
            assert_eq!(d.offset, 0);
        }
        other => panic!("expected an overflow decode error, got {:?}", other),
    }
}

#[test]
fn decode_error_kinds() {
    assert_eq!(parse_int("abc"), Err(DecodeErrorKind::MalformedInteger));
    assert_eq!(parse_int(""), Err(DecodeErrorKind::MalformedInteger));
    assert_eq!(parse_char("#\\"), Err(DecodeErrorKind::MalformedChar));
    assert_eq!(parse_char("x"), Err(DecodeErrorKind::MalformedChar));
    assert_eq!(
        parse_rational("1/"),
        Err(DecodeErrorKind::MalformedRational)
    );
    assert_eq!(
        parse_rational("x/2"),
        Err(DecodeErrorKind::MalformedRational)
    );
    assert_eq!(
        parse_rational("9223372036854775808/2"),
        Err(DecodeErrorKind::IntegerOverflow)
    );
}

#[test]
fn syntax_errors_carry_location() {
    match ENotationParser::parse_notation("(1 2") {
        Err(NotationError::Syntax(_)) => {}
        other => panic!("expected a syntax error, got {:?}", other),
    }
    match ENotationParser::parse_notation("") {
        Err(NotationError::Syntax(s)) => assert_eq!(s.offset, 0),
        other => panic!("expected a syntax error, got {:?}", other),
    }
    match ENotationParser::parse_notation("\"unterminated") {
        Err(NotationError::Syntax(_)) => {}
        other => panic!("expected a syntax error, got {:?}", other),
    }
    match ENotationParser::parse_notation("1 2") {
        Err(NotationError::Syntax(s)) => assert_eq!(s.offset, 2),
        other => panic!("expected a syntax error, got {:?}", other),
    }
}

// Spans: offsets are 0-based, lines and columns 1-based, and the raw text
// of each node is captured verbatim.
#[test]
fn spans_cover_the_source() {
    let n = notation("(1 2)");
    assert_eq!(n.span.start_offset, 0);
    assert_eq!(n.span.end_offset, 5);
    assert_eq!(n.span.start_line, 1);
    assert_eq!(n.span.start_col, 1);
    assert_eq!(n.span.end_line, 1);
    assert_eq!(n.span.end_col, 6);
    assert_eq!(n.span.span, "(1 2)");
    assert_eq!(n.span.file, None);

    match &n.body {
        ENotationBody::Container(Container::List(List::PL(pl))) => {
            assert_eq!(pl.elems[0].span.start_offset, 1);
            assert_eq!(pl.elems[0].span.end_offset, 2);
            assert_eq!(pl.elems[0].span.span, "1");
            assert_eq!(pl.elems[1].span.start_offset, 3);
            assert_eq!(pl.elems[1].span.span, "2");
        }
        _ => panic!("not a list"),
    }
}

#[test]
fn spans_across_lines() {
    let f = ENotationParser::parse_file("1\nabc").unwrap();
    assert_eq!(f.notations[1].span.start_line, 2);
    assert_eq!(f.notations[1].span.start_col, 1);
    assert_eq!(f.notations[1].span.start_offset, 2);
}

// Offsets are byte offsets into the UTF-8 source; lines and columns count
// characters. A two-byte character shifts offsets by two, columns by one.
#[test]
fn spans_use_byte_offsets() {
    let f = ENotationParser::parse_file("\u{3bb} 1").unwrap();
    assert_eq!(f.notations.len(), 2);
    assert_eq!(f.notations[0].span.start_offset, 0);
    assert_eq!(f.notations[0].span.end_offset, 2);
    assert_eq!(f.notations[0].span.span, "\u{3bb}");
    assert_eq!(f.notations[1].span.start_offset, 3);
    assert_eq!(f.notations[1].span.end_offset, 4);
    assert_eq!(f.notations[1].span.start_col, 3);
}

#[test]
fn default_span_is_empty() {
    let s = DiagnosticSpan::default();
    assert_eq!(s.start_line, 0);
    assert_eq!(s.start_col, 0);
    assert_eq!(s.start_offset, 0);
    assert_eq!(s.end_line, 0);
    assert_eq!(s.end_col, 0);
    assert_eq!(s.end_offset, 0);
    assert_eq!(s.span, "");
    assert_eq!(s.file, None);
}

#[test]
fn comments_are_skipped() {
    assert_eq!(reparse_render("(1 ; comment\n 2)"), "(1 2)");
    assert_eq!(reparse_render("(1 #;2 3)"), "(1 3)");
    let f = ENotationParser::parse_file("; nothing\n#;(1 2 3)\n7").unwrap();
    assert_eq!(f.to_text(), "7\n");
}

#[test]
fn empty_containers() {
    assert_eq!(reparse_render("()"), "()");
    assert_eq!(reparse_render("[]"), "[]");
    assert_eq!(reparse_render("#()"), "#()");
    assert_eq!(reparse_render("#{}"), "#{}");
    assert_eq!(reparse_render("{}"), "{}");
}

#[test]
fn char_escape_table() {
    assert_eq!(parse_char("#\\newline"), Ok('\n'));
    assert_eq!(parse_char("#\\return"), Ok('\r'));
    assert_eq!(parse_char("#\\space"), Ok(' '));
    assert_eq!(parse_char("#\\tab"), Ok('\t'));
    assert_eq!(parse_char("#\\n"), Ok('n'));
    assert_eq!(reparse_render("#\\newline"), "#\\newline");
    assert_eq!(reparse_render("#\\n"), "#\\n");
}

#[test]
fn rational_kept_unreduced() {
    assert_eq!(parse_rational("2/4"), Ok((2, 4)));
    assert_eq!(reparse_render("2/4"), "2/4");
}

#[test]
fn file_render_joins_with_newlines() {
    let f = ENotationParser::parse_file("1 2 3").unwrap();
    assert_eq!(f.to_text(), "1\n2\n3\n");
    let empty = ENotationParser::parse_file("").unwrap();
    assert_eq!(empty.to_text(), "");
    assert_eq!(empty.notations.len(), 0);
}

// A pair parses with or without space around the colon; the key is the
// atom before it, verbatim.
#[test]
fn object_pair_key_taken_verbatim() {
    let p = ENotationParser::parse_object_pair("a:1").unwrap();
    assert_eq!(p.key.name, "a");
    assert_eq!(p.to_text(), "a: 1");
    let q = ENotationParser::parse_object_pair("  key-name :  #t  ").unwrap();
    assert_eq!(q.key.name, "key-name");
    assert_eq!(q.to_text(), "key-name: #t");
}

// The notations of a file tile the input in order: spans do not overlap
// and every gap starts with whitespace or a comment.
#[test]
fn file_notations_tile_the_input() {
    let f = ENotationParser::parse_file("  1 (2 3) ; end
").unwrap();
    assert_eq!(f.notations.len(), 2);
    assert!(f.notations[0].span.end_offset <= f.notations[1].span.start_offset);
    assert_eq!(f.notations[0].span.span, "1");
    assert_eq!(f.notations[1].span.span, "(2 3)");
}

// A clone is a deep copy: body-equal, same spans, independent of the
// original.
#[test]
fn clone_copies_the_tree() {
    let n = notation("(1 {a: 2} #'x)");
    let c = n.clone();
    assert!(n.body_eq(&c));
    assert_eq!(n.to_text(), c.to_text());
    assert_eq!(n.span.start_offset, c.span.start_offset);
    assert_eq!(n.span.span, c.span.span);
}

// No deduplication or key-uniqueness validation happens at this layer.
#[test]
fn duplicates_are_kept_as_written() {
    assert_eq!(reparse_render("#{1 1 2}"), "#{1 1 2}");
    assert_eq!(reparse_render("{a: 1, a: 2}"), "{a: 1, a: 2}");
}

#[test]
fn body_eq_distinguishes_delimiter_styles() {
    let a = notation("(1 2)");
    let b = notation("[1 2]");
    assert!(!a.body_eq(&b));
    let c = notation("( 1   2 )");
    assert!(a.body_eq(&c));
}
