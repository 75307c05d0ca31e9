//! `Clone` for the notation tree. The derive cannot be used on this
//! mutually recursive family, so the impls are written out by hand: a deep
//! copy, element by element. As with a derived `Clone` on types like
//! these, nothing is specified of the copy.

use vstd::prelude::*;

use crate::{ENotation, ENotationBody};
use crate::container::Container;
use crate::container::list::{BList, List, PList};
use crate::container::object::{Object, ObjectPair};
use crate::container::set::Set_;
use crate::container::unamed_object::UnamedObject;
use crate::container::vector::{BVector, PVector, Vector};
use crate::quoting::{QuasiQuote, Quote, Quoting, Unquote, UnquoteSplicing};
use crate::syntaxing::{QuasiSyntax, Syntax, Syntaxing, Unsyntax, UnsyntaxSplicing};

verus! {

/// A deep copy of a notation vector, element by element.
fn clone_elems(elems: &Vec<ENotation>) -> Vec<ENotation>
    decreases elems@, 1int, 0int,
{
    let mut out: Vec<ENotation> = Vec::new();
    let n = elems.len();
    let mut i: usize = 0;
    while i < n
        invariant
            n == elems@.len(),
            i <= n,
        decreases n - i,
    {
        out.push(elems[i].clone());
        i = i + 1;
    }
    out
}

/// A deep copy of an object's pairs, element by element.
fn clone_pairs(pairs: &Vec<ObjectPair>) -> Vec<ObjectPair>
    decreases pairs@, 1int, 0int,
{
    let mut out: Vec<ObjectPair> = Vec::new();
    let n = pairs.len();
    let mut i: usize = 0;
    while i < n
        invariant
            n == pairs@.len(),
            i <= n,
        decreases n - i,
    {
        out.push(pairs[i].clone());
        i = i + 1;
    }
    out
}

impl Clone for ENotation {
    fn clone(&self) -> ENotation
        decreases *self, 5int, 0int,
    {
        ENotation { span: self.span.clone(), body: self.body.clone() }
    }
}

impl Clone for ENotationBody {
    fn clone(&self) -> ENotationBody
        decreases *self, 5int, 0int,
    {
        match self {
            ENotationBody::Literal(l) => ENotationBody::Literal(l.clone()),
            ENotationBody::Container(c) => ENotationBody::Container(c.clone()),
            ENotationBody::Quoting(q) => ENotationBody::Quoting(q.clone()),
            ENotationBody::Syntaxing(s) => ENotationBody::Syntaxing(s.clone()),
        }
    }
}

impl Clone for Container {
    fn clone(&self) -> Container
        decreases *self, 5int, 0int,
    {
        match self {
            Container::List(l) => Container::List(l.clone()),
            Container::Vector(v) => Container::Vector(v.clone()),
            Container::Set_(s) => Container::Set_(s.clone()),
            Container::Object(o) => Container::Object(o.clone()),
        }
    }
}

impl Clone for List {
    fn clone(&self) -> List
        decreases *self, 5int, 0int,
    {
        match self {
            List::PL(pl) => List::PL(pl.clone()),
            List::BL(bl) => List::BL(bl.clone()),
        }
    }
}

impl Clone for PList {
    fn clone(&self) -> PList
        decreases *self, 2int, 0int,
    {
        PList { elems: clone_elems(&self.elems) }
    }
}

impl Clone for BList {
    fn clone(&self) -> BList
        decreases *self, 2int, 0int,
    {
        BList { elems: clone_elems(&self.elems) }
    }
}

impl Clone for Vector {
    fn clone(&self) -> Vector
        decreases *self, 5int, 0int,
    {
        match self {
            Vector::PV(pv) => Vector::PV(pv.clone()),
            Vector::BV(bv) => Vector::BV(bv.clone()),
        }
    }
}

impl Clone for PVector {
    fn clone(&self) -> PVector
        decreases *self, 2int, 0int,
    {
        PVector { elems: clone_elems(&self.elems) }
    }
}

impl Clone for BVector {
    fn clone(&self) -> BVector
        decreases *self, 2int, 0int,
    {
        BVector { elems: clone_elems(&self.elems) }
    }
}

impl Clone for Set_ {
    fn clone(&self) -> Set_
        decreases *self, 2int, 0int,
    {
        Set_ { elems: clone_elems(&self.elems) }
    }
}

impl Clone for Object {
    fn clone(&self) -> Object
        decreases *self, 2int, 0int,
    {
        Object { pairs: clone_pairs(&self.pairs) }
    }
}

impl Clone for ObjectPair {
    fn clone(&self) -> ObjectPair
        decreases *self, 5int, 0int,
    {
        ObjectPair { key: self.key.clone(), value: self.value.clone() }
    }
}

impl Clone for UnamedObject {
    fn clone(&self) -> UnamedObject
        decreases *self, 2int, 0int,
    {
        UnamedObject { elems: clone_elems(&self.elems) }
    }
}

impl Clone for Quoting {
    fn clone(&self) -> Quoting
        decreases *self, 5int, 0int,
    {
        match self {
            Quoting::Quote(q) => Quoting::Quote(q.clone()),
            Quoting::QuasiQuote(q) => Quoting::QuasiQuote(q.clone()),
            Quoting::Unquote(q) => Quoting::Unquote(q.clone()),
            Quoting::UnquoteSplicing(q) => Quoting::UnquoteSplicing(q.clone()),
        }
    }
}

impl Clone for Quote {
    fn clone(&self) -> Quote
        decreases *self, 5int, 0int,
    {
        Quote { value: Box::new((*self.value).clone()) }
    }
}

impl Clone for QuasiQuote {
    fn clone(&self) -> QuasiQuote
        decreases *self, 5int, 0int,
    {
        QuasiQuote { value: Box::new((*self.value).clone()) }
    }
}

impl Clone for Unquote {
    fn clone(&self) -> Unquote
        decreases *self, 5int, 0int,
    {
        Unquote { value: Box::new((*self.value).clone()) }
    }
}

impl Clone for UnquoteSplicing {
    fn clone(&self) -> UnquoteSplicing
        decreases *self, 5int, 0int,
    {
        UnquoteSplicing { value: Box::new((*self.value).clone()) }
    }
}

impl Clone for Syntaxing {
    fn clone(&self) -> Syntaxing
        decreases *self, 5int, 0int,
    {
        match self {
            Syntaxing::Syntax(s) => Syntaxing::Syntax(s.clone()),
            Syntaxing::QuasiSyntax(s) => Syntaxing::QuasiSyntax(s.clone()),
            Syntaxing::Unsyntax(s) => Syntaxing::Unsyntax(s.clone()),
            Syntaxing::UnsyntaxSplicing(s) => Syntaxing::UnsyntaxSplicing(s.clone()),
        }
    }
}

impl Clone for Syntax {
    fn clone(&self) -> Syntax
        decreases *self, 5int, 0int,
    {
        Syntax { value: Box::new((*self.value).clone()) }
    }
}

impl Clone for QuasiSyntax {
    fn clone(&self) -> QuasiSyntax
        decreases *self, 5int, 0int,
    {
        QuasiSyntax { value: Box::new((*self.value).clone()) }
    }
}

impl Clone for Unsyntax {
    fn clone(&self) -> Unsyntax
        decreases *self, 5int, 0int,
    {
        Unsyntax { value: Box::new((*self.value).clone()) }
    }
}

impl Clone for UnsyntaxSplicing {
    fn clone(&self) -> UnsyntaxSplicing
        decreases *self, 5int, 0int,
    {
        UnsyntaxSplicing { value: Box::new((*self.value).clone()) }
    }
}

} // verus!
