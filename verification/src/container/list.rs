//! Lists, written `( … )` or `[ … ]`; the two styles are one semantic kind
//! but the source delimiter is remembered for faithful rendering.

use vstd::prelude::*;

use crate::ENotation;

verus! {

/// A list written with parentheses.
#[derive(Debug)]
pub struct PList {
    pub elems: Vec<ENotation>,
}

/// A list written with brackets.
#[derive(Debug)]
pub struct BList {
    pub elems: Vec<ENotation>,
}

/// A list of either delimiter style.
#[derive(Debug)]
pub enum List {
    PL(PList),
    BL(BList),
}

impl List {
    /// The elements of the list, ignoring the delimiter style.
    pub open spec fn elems_spec(self) -> Seq<ENotation> {
        match self {
            List::PL(pl) => pl.elems@,
            List::BL(bl) => bl.elems@,
        }
    }
}

} // verus!
