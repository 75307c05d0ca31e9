//! Vectors, written `#( … )` or `#[ … ]`; as with lists the delimiter style
//! is remembered for faithful rendering.

use vstd::prelude::*;

use crate::ENotation;

verus! {

/// A vector written with parentheses.
#[derive(Debug)]
pub struct PVector {
    pub elems: Vec<ENotation>,
}

/// A vector written with brackets.
#[derive(Debug)]
pub struct BVector {
    pub elems: Vec<ENotation>,
}

/// A vector of either delimiter style.
#[derive(Debug)]
pub enum Vector {
    PV(PVector),
    BV(BVector),
}

impl Vector {
    /// The elements of the vector, ignoring the delimiter style.
    pub open spec fn elems_spec(self) -> Seq<ENotation> {
        match self {
            Vector::PV(pv) => pv.elems@,
            Vector::BV(bv) => bv.elems@,
        }
    }
}

} // verus!
