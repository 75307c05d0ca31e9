//! Objects, written `{ k: v, … }`: an ordered sequence of key/value pairs.
//! An element written without a key receives its position as an implicit
//! key, `"0"`, `"1"`, … in encounter order; this is decided per element.

use vstd::prelude::*;

use crate::ENotation;
use crate::literal::Identifier;

verus! {

/// One `key: value` pair of an object. Keys carry no span.
#[derive(Debug)]
pub struct ObjectPair {
    pub key: Identifier,
    pub value: ENotation,
}

/// An object `{ k: v, … }`, its pairs in source encounter order.
#[derive(Debug)]
pub struct Object {
    pub pairs: Vec<ObjectPair>,
}

} // verus!
