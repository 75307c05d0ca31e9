use enotation::ENotationParser;
use enotation::ENotationBody;
use enotation::container::Container;
use enotation::container::list::{BList, List, PList};
use enotation::container::object::{Object, ObjectPair};
use enotation::container::set::Set_;
use enotation::container::unamed_object::UnamedObject;
use enotation::container::vector::Vector;

fn container(input: &str) -> Container {
    match ENotationParser::parse_notation(input).unwrap().body {
        ENotationBody::Container(c) => c,
        _ => panic!("not a container"),
    }
}

fn plist(input: &str) -> PList {
    match container(input) {
        Container::List(List::PL(pl)) => pl,
        _ => panic!("not a paren list"),
    }
}

fn blist(input: &str) -> BList {
    match container(input) {
        Container::List(List::BL(bl)) => bl,
        _ => panic!("not a bracket list"),
    }
}

fn list(input: &str) -> List {
    match container(input) {
        Container::List(l) => l,
        _ => panic!("not a list"),
    }
}

fn vector(input: &str) -> Vector {
    match container(input) {
        Container::Vector(v) => v,
        _ => panic!("not a vector"),
    }
}

fn set(input: &str) -> Set_ {
    match container(input) {
        Container::Set_(s) => s,
        _ => panic!("not a set"),
    }
}

fn object(input: &str) -> Object {
    match container(input) {
        Container::Object(o) => o,
        _ => panic!("not an object"),
    }
}

fn object_pair(input: &str) -> ObjectPair {
    ENotationParser::parse_object_pair(input).unwrap()
}

fn unamed_object(input: &str) -> UnamedObject {
    ENotationParser::parse_unamed_object(input).unwrap()
}

#[test]
fn parse_plist() {
    assert_eq!(plist("(1 2 3)").to_text(), "(1 2 3)");
    // test nested case
    assert_eq!(plist("(1 (2 3))").to_text(), "(1 (2 3))");
}

#[test]
fn parse_blist() {
    assert_eq!(blist("[1 2 3]").to_text(), "[1 2 3]");
    // test nested case
    assert_eq!(blist("[1 [2 3]]").to_text(), "[1 [2 3]]");
}

#[test]
fn parse_list() {
    assert_eq!(list("(1 2 3)").to_text(), "(1 2 3)");
    assert_eq!(list("[1 2 3]").to_text(), "[1 2 3]");
    // test nested case
    assert_eq!(list("(1 [2 3])").to_text(), "(1 [2 3])");
}

#[test]
fn parse_vector() {
    assert_eq!(vector("#(1 2 3)").to_text(), "#(1 2 3)");
    assert_eq!(vector("#[1 2 3]").to_text(), "#[1 2 3]");
    // test nested case
    assert_eq!(vector("#(1 #(2 3))").to_text(), "#(1 #(2 3))");
}

#[test]
fn parse_set() {
    assert_eq!(set("#{1 2 3}").to_text(), "#{1 2 3}");
    // test nested case
    assert_eq!(set("#{1 #{2 3}}").to_text(), "#{1 #{2 3}}");
}

#[test]
fn parse_object_pair() {
    assert_eq!(object_pair("a: 1").to_text(), "a: 1");
}

#[test]
fn parse_object() {
    assert_eq!(object("{a: 1, b: 2, c: 3}").to_text(), "{a: 1, b: 2, c: 3}");
    // test nested case
    assert_eq!(
        object("{a: 1, b: {c: 2, d: 3}}").to_text(),
        "{a: 1, b: {c: 2, d: 3}}"
    );
}

#[test]
fn parse_unamed_object() {
    // The canonical renderer always writes an object's keys out, so the
    // bare elements re-emit under their positional keys.
    assert_eq!(unamed_object("{1, 2, 3}").to_text(), "{0: 1, 1: 2, 2: 3}");
    // a nested brace form is an object with positional keys as well
    assert_eq!(unamed_object("{1, {2, 3}}").to_text(), "{0: 1, 1: {0: 2, 1: 3}}");
}
