//! Body equality: the equality used to compare trees for testing purposes.
//! It compares bodies only — spans are excluded everywhere, so trees built
//! from identical text at different source offsets compare equal. String
//! contents are compared by their characters.

use vstd::prelude::*;

use crate::{EFile, ENotation, ENotationBody};
use crate::container::Container;
use crate::container::list::List;
use crate::container::object::{Object, ObjectPair};
use crate::container::set::Set_;
use crate::container::unamed_object::UnamedObject;
use crate::container::vector::Vector;
use crate::literal::Literal;
use crate::quoting::Quoting;
use crate::syntaxing::Syntaxing;

verus! {

/// Two notations are equal when their bodies are; spans play no part.
pub open spec fn notation_equal(a: ENotation, b: ENotation) -> bool
    decreases a, 4int,
{
    body_equal(a.body, b.body)
}

/// Same variant, equal content, recursively span-blind.
pub open spec fn body_equal(a: ENotationBody, b: ENotationBody) -> bool
    decreases a, 4int,
{
    match (a, b) {
        (ENotationBody::Literal(x), ENotationBody::Literal(y)) => literal_equal(x, y),
        (ENotationBody::Container(x), ENotationBody::Container(y)) => container_equal(x, y),
        (ENotationBody::Quoting(x), ENotationBody::Quoting(y)) => quoting_equal(x, y),
        (ENotationBody::Syntaxing(x), ENotationBody::Syntaxing(y)) => syntaxing_equal(x, y),
        _ => false,
    }
}

/// Leaf equality: same kind, same value; texts by their characters.
pub open spec fn literal_equal(a: Literal, b: Literal) -> bool {
    match (a, b) {
        (Literal::Boolean(x), Literal::Boolean(y)) => x.value == y.value,
        (Literal::Char(x), Literal::Char(y)) => x.value == y.value,
        (Literal::Float(x), Literal::Float(y)) => x.value@ == y.value@,
        (Literal::Rational(x), Literal::Rational(y)) => x.numerator == y.numerator
            && x.denominator == y.denominator,
        (Literal::Int(x), Literal::Int(y)) => x.value == y.value,
        (Literal::String_(x), Literal::String_(y)) => x.value@ == y.value@,
        (Literal::Identifier(x), Literal::Identifier(y)) => x.name@ == y.name@,
        _ => false,
    }
}

/// Same container kind — for lists and vectors also the same delimiter
/// style, which rendering preserves — and pointwise equal contents.
pub open spec fn container_equal(a: Container, b: Container) -> bool
    decreases a, 4int,
{
    match (a, b) {
        (Container::List(x), Container::List(y)) => list_equal(x, y),
        (Container::Vector(x), Container::Vector(y)) => vector_equal(x, y),
        (Container::Set_(x), Container::Set_(y)) => elems_equal(x.elems@, y.elems@),
        (Container::Object(x), Container::Object(y)) => pairs_equal(x.pairs@, y.pairs@),
        _ => false,
    }
}

pub open spec fn list_equal(a: List, b: List) -> bool
    decreases a, 4int,
{
    match (a, b) {
        (List::PL(x), List::PL(y)) => elems_equal(x.elems@, y.elems@),
        (List::BL(x), List::BL(y)) => elems_equal(x.elems@, y.elems@),
        _ => false,
    }
}

pub open spec fn vector_equal(a: Vector, b: Vector) -> bool
    decreases a, 4int,
{
    match (a, b) {
        (Vector::PV(x), Vector::PV(y)) => elems_equal(x.elems@, y.elems@),
        (Vector::BV(x), Vector::BV(y)) => elems_equal(x.elems@, y.elems@),
        _ => false,
    }
}

/// Pointwise equality of two element sequences.
pub open spec fn elems_equal(a: Seq<ENotation>, b: Seq<ENotation>) -> bool
    decreases a, 5int,
{
    a.len() == b.len() && forall|i: int|
        0 <= i < a.len() ==> notation_equal(#[trigger] a[i], b[i])
}

/// Pointwise equality of two pair sequences: keys by their characters,
/// values span-blind.
pub open spec fn pairs_equal(a: Seq<ObjectPair>, b: Seq<ObjectPair>) -> bool
    decreases a, 5int,
{
    a.len() == b.len() && forall|i: int|
        0 <= i < a.len() ==> pair_equal(#[trigger] a[i], b[i])
}

pub open spec fn pair_equal(a: ObjectPair, b: ObjectPair) -> bool
    decreases a, 4int,
{
    a.key.name@ == b.key.name@ && notation_equal(a.value, b.value)
}

pub open spec fn quoting_equal(a: Quoting, b: Quoting) -> bool
    decreases a, 4int,
{
    match (a, b) {
        (Quoting::Quote(x), Quoting::Quote(y)) => notation_equal(*x.value, *y.value),
        (Quoting::QuasiQuote(x), Quoting::QuasiQuote(y)) => notation_equal(*x.value, *y.value),
        (Quoting::Unquote(x), Quoting::Unquote(y)) => notation_equal(*x.value, *y.value),
        (Quoting::UnquoteSplicing(x), Quoting::UnquoteSplicing(y)) => notation_equal(
            *x.value,
            *y.value,
        ),
        _ => false,
    }
}

pub open spec fn syntaxing_equal(a: Syntaxing, b: Syntaxing) -> bool
    decreases a, 4int,
{
    match (a, b) {
        (Syntaxing::Syntax(x), Syntaxing::Syntax(y)) => notation_equal(*x.value, *y.value),
        (Syntaxing::QuasiSyntax(x), Syntaxing::QuasiSyntax(y)) => notation_equal(
            *x.value,
            *y.value,
        ),
        (Syntaxing::Unsyntax(x), Syntaxing::Unsyntax(y)) => notation_equal(*x.value, *y.value),
        (Syntaxing::UnsyntaxSplicing(x), Syntaxing::UnsyntaxSplicing(y)) => notation_equal(
            *x.value,
            *y.value,
        ),
        _ => false,
    }
}

/// Two files are equal when their notations are pointwise body-equal.
pub open spec fn file_equal(a: EFile, b: EFile) -> bool {
    elems_equal(a.notations@, b.notations@)
}

/// Pointwise executable equality over element vectors.
fn elems_eq(a: &Vec<ENotation>, b: &Vec<ENotation>) -> (r: bool)
    ensures
        r == elems_equal(a@, b@),
    decreases a@, 6int,
{
    if a.len() != b.len() {
        return false;
    }
    let n = a.len();
    let mut i: usize = 0;
    while i < n
        invariant
            n == a@.len(),
            a@.len() == b@.len(),
            i <= n,
            forall|j: int| 0 <= j < i ==> notation_equal(#[trigger] a@[j], b@[j]),
        decreases n - i,
    {
        if !a[i].body_eq(&b[i]) {
            return false;
        }
        i = i + 1;
    }
    true
}

/// Pointwise executable equality over pair vectors.
fn pairs_eq(a: &Vec<ObjectPair>, b: &Vec<ObjectPair>) -> (r: bool)
    ensures
        r == pairs_equal(a@, b@),
    decreases a@, 6int,
{
    if a.len() != b.len() {
        return false;
    }
    let n = a.len();
    let mut i: usize = 0;
    while i < n
        invariant
            n == a@.len(),
            a@.len() == b@.len(),
            i <= n,
            forall|j: int| 0 <= j < i ==> pair_equal(#[trigger] a@[j], b@[j]),
        decreases n - i,
    {
        let ka = &a[i].key.name;
        let kb = &b[i].key.name;
        if !ka.eq(kb) {
            return false;
        }
        if !a[i].value.body_eq(&b[i].value) {
            return false;
        }
        i = i + 1;
    }
    true
}

impl ENotation {
    /// Equality for testing purposes: compares the bodies only, so two
    /// trees built from the same text at different source offsets are
    /// equal though their spans differ.
    pub fn body_eq(&self, other: &ENotation) -> (r: bool)
        ensures
            r == notation_equal(*self, *other),
        decreases *self, 7int,
    {
        self.body.body_eq(&other.body)
    }
}

impl ENotationBody {
    /// Span-blind equality of two bodies.
    pub fn body_eq(&self, other: &ENotationBody) -> (r: bool)
        ensures
            r == body_equal(*self, *other),
        decreases *self, 7int,
    {
        match (self, other) {
            (ENotationBody::Literal(x), ENotationBody::Literal(y)) => x.body_eq(y),
            (ENotationBody::Container(x), ENotationBody::Container(y)) => x.body_eq(y),
            (ENotationBody::Quoting(x), ENotationBody::Quoting(y)) => x.body_eq(y),
            (ENotationBody::Syntaxing(x), ENotationBody::Syntaxing(y)) => x.body_eq(y),
            _ => false,
        }
    }
}

impl Literal {
    /// Equality of two leaves; texts compare by their characters.
    pub fn body_eq(&self, other: &Literal) -> (r: bool)
        ensures
            r == literal_equal(*self, *other),
    {
        match (self, other) {
            (Literal::Boolean(x), Literal::Boolean(y)) => x.value == y.value,
            (Literal::Char(x), Literal::Char(y)) => x.value == y.value,
            (Literal::Float(x), Literal::Float(y)) => x.value.eq(&y.value),
            (Literal::Rational(x), Literal::Rational(y)) => x.numerator == y.numerator
                && x.denominator == y.denominator,
            (Literal::Int(x), Literal::Int(y)) => x.value == y.value,
            (Literal::String_(x), Literal::String_(y)) => x.value.eq(&y.value),
            (Literal::Identifier(x), Literal::Identifier(y)) => x.name.eq(&y.name),
            _ => false,
        }
    }
}

impl Container {
    /// Span-blind equality of two containers.
    pub fn body_eq(&self, other: &Container) -> (r: bool)
        ensures
            r == container_equal(*self, *other),
        decreases *self, 7int,
    {
        match (self, other) {
            (Container::List(x), Container::List(y)) => x.body_eq(y),
            (Container::Vector(x), Container::Vector(y)) => x.body_eq(y),
            (Container::Set_(x), Container::Set_(y)) => elems_eq(&x.elems, &y.elems),
            (Container::Object(x), Container::Object(y)) => pairs_eq(&x.pairs, &y.pairs),
            _ => false,
        }
    }
}

impl List {
    /// Span-blind equality; the delimiter style must match.
    pub fn body_eq(&self, other: &List) -> (r: bool)
        ensures
            r == list_equal(*self, *other),
        decreases *self, 7int,
    {
        match (self, other) {
            (List::PL(x), List::PL(y)) => elems_eq(&x.elems, &y.elems),
            (List::BL(x), List::BL(y)) => elems_eq(&x.elems, &y.elems),
            _ => false,
        }
    }
}

impl Vector {
    /// Span-blind equality; the delimiter style must match.
    pub fn body_eq(&self, other: &Vector) -> (r: bool)
        ensures
            r == vector_equal(*self, *other),
        decreases *self, 7int,
    {
        match (self, other) {
            (Vector::PV(x), Vector::PV(y)) => elems_eq(&x.elems, &y.elems),
            (Vector::BV(x), Vector::BV(y)) => elems_eq(&x.elems, &y.elems),
            _ => false,
        }
    }
}

impl Set_ {
    /// Span-blind, order-sensitive equality of two set notations.
    pub fn body_eq(&self, other: &Set_) -> (r: bool)
        ensures
            r == elems_equal(self.elems@, other.elems@),
        decreases *self, 7int,
    {
        elems_eq(&self.elems, &other.elems)
    }
}

impl Object {
    /// Span-blind equality of two objects: keys and values in order.
    pub fn body_eq(&self, other: &Object) -> (r: bool)
        ensures
            r == pairs_equal(self.pairs@, other.pairs@),
        decreases *self, 7int,
    {
        pairs_eq(&self.pairs, &other.pairs)
    }
}

impl UnamedObject {
    /// Span-blind equality of two bare unnamed-object forms.
    pub fn body_eq(&self, other: &UnamedObject) -> (r: bool)
        ensures
            r == elems_equal(self.elems@, other.elems@),
        decreases *self, 7int,
    {
        elems_eq(&self.elems, &other.elems)
    }
}

impl Quoting {
    /// Span-blind equality; the quoting variant must match.
    pub fn body_eq(&self, other: &Quoting) -> (r: bool)
        ensures
            r == quoting_equal(*self, *other),
        decreases *self, 7int,
    {
        match (self, other) {
            (Quoting::Quote(x), Quoting::Quote(y)) => x.value.body_eq(&y.value),
            (Quoting::QuasiQuote(x), Quoting::QuasiQuote(y)) => x.value.body_eq(&y.value),
            (Quoting::Unquote(x), Quoting::Unquote(y)) => x.value.body_eq(&y.value),
            (Quoting::UnquoteSplicing(x), Quoting::UnquoteSplicing(y)) => x.value.body_eq(
                &y.value,
            ),
            _ => false,
        }
    }
}

impl Syntaxing {
    /// Span-blind equality; the syntaxing variant must match.
    pub fn body_eq(&self, other: &Syntaxing) -> (r: bool)
        ensures
            r == syntaxing_equal(*self, *other),
        decreases *self, 7int,
    {
        match (self, other) {
            (Syntaxing::Syntax(x), Syntaxing::Syntax(y)) => x.value.body_eq(&y.value),
            (Syntaxing::QuasiSyntax(x), Syntaxing::QuasiSyntax(y)) => x.value.body_eq(&y.value),
            (Syntaxing::Unsyntax(x), Syntaxing::Unsyntax(y)) => x.value.body_eq(&y.value),
            (Syntaxing::UnsyntaxSplicing(x), Syntaxing::UnsyntaxSplicing(y)) => x.value.body_eq(
                &y.value,
            ),
            _ => false,
        }
    }
}

impl EFile {
    /// Pointwise body equality of the files' notations.
    pub fn body_eq(&self, other: &EFile) -> (r: bool)
        ensures
            r == file_equal(*self, *other),
    {
        elems_eq(&self.notations, &other.notations)
    }
}

} // verus!
