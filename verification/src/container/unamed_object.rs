//! The concrete form of an object written without keys, `{ v1, v2, … }`.
//!
//! This type never appears inside a notation tree: there, a brace form
//! always becomes an [`Object`], positional keys materialized per element.
//! `UnamedObject` keeps the bare element list for callers that parse the
//! production on its own; rendering it writes the positional keys out, as
//! the canonical renderer does for every object.
//!
//! [`Object`]: crate::container::object::Object

use vstd::prelude::*;

use crate::ENotation;

verus! {

/// An object literal written without keys.
#[derive(Debug)]
pub struct UnamedObject {
    pub elems: Vec<ENotation>,
}

} // verus!
