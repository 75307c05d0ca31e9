//! Quoting forms: `'x`, `` `x ``, `,x` and `,@x`. Each wraps exactly one
//! child notation.

use vstd::prelude::*;

use crate::ENotation;

verus! {

/// A quoting form.
#[derive(Debug)]
pub enum Quoting {
    Quote(Quote),
    QuasiQuote(QuasiQuote),
    Unquote(Unquote),
    UnquoteSplicing(UnquoteSplicing),
}

/// `'x`
#[derive(Debug)]
pub struct Quote {
    pub value: Box<ENotation>,
}

/// `` `x ``
#[derive(Debug)]
pub struct QuasiQuote {
    pub value: Box<ENotation>,
}

/// `,x`
#[derive(Debug)]
pub struct Unquote {
    pub value: Box<ENotation>,
}

/// `,@x`
#[derive(Debug)]
pub struct UnquoteSplicing {
    pub value: Box<ENotation>,
}

} // verus!
