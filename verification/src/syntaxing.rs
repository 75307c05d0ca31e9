//! Syntaxing forms: `#'x`, `` #`x ``, `#,x` and `#,@x` — the syntax-object
//! analogue of the quoting forms, kept as a distinct tag family.

use vstd::prelude::*;

use crate::ENotation;

verus! {

/// A syntaxing form.
#[derive(Debug)]
pub enum Syntaxing {
    Syntax(Syntax),
    QuasiSyntax(QuasiSyntax),
    Unsyntax(Unsyntax),
    UnsyntaxSplicing(UnsyntaxSplicing),
}

/// `#'x`
#[derive(Debug)]
pub struct Syntax {
    pub value: Box<ENotation>,
}

/// `` #`x ``
#[derive(Debug)]
pub struct QuasiSyntax {
    pub value: Box<ENotation>,
}

/// `#,x`
#[derive(Debug)]
pub struct Unsyntax {
    pub value: Box<ENotation>,
}

/// `#,@x`
#[derive(Debug)]
pub struct UnsyntaxSplicing {
    pub value: Box<ENotation>,
}

} // verus!
