//! Sets, written `#{ … }`. The order of the elements is preserved exactly as
//! written; "set" is a semantic label only, duplicates are not removed here.

use vstd::prelude::*;

use crate::ENotation;

verus! {

/// A set notation `#{ … }`.
#[derive(Debug)]
pub struct Set_ {
    pub elems: Vec<ENotation>,
}

} // verus!
