//! Container notations: lists, vectors, sets and objects. Each container
//! keeps its elements in source encounter order; lists and vectors remember
//! which delimiter style they were written with.

use vstd::prelude::*;

pub mod list;
pub mod object;
pub mod set;
pub mod unamed_object;
pub mod vector;

use crate::ENotation;
use list::List;
use object::Object;
use set::Set_;
use vector::Vector;

verus! {

/// A container notation.
#[derive(Debug)]
pub enum Container {
    List(List),
    Vector(Vector),
    Set_(Set_),
    Object(Object),
}

impl Vector {
    /// The elements, whichever delimiter style the vector was written with.
    pub fn elems(&self) -> (r: &Vec<ENotation>)
        ensures
            r@ == self.elems_spec(),
    {
        match self {
            Vector::PV(pvector) => &pvector.elems,
            Vector::BV(bvector) => &bvector.elems,
        }
    }
}

impl List {
    /// The elements, whichever delimiter style the list was written with.
    pub fn elems(&self) -> (r: &Vec<ENotation>)
        ensures
            r@ == self.elems_spec(),
    {
        match self {
            List::PL(plist) => &plist.elems,
            List::BL(blist) => &blist.elems,
        }
    }
}

} // verus!
