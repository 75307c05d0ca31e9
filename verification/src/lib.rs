//! A reader for a Lisp/Scheme-flavored textual data notation.
//!
//! Source text is parsed into a typed, span-annotated tree of [`ENotation`]
//! values covering atoms (booleans, integers, rationals, floats, chars,
//! strings, identifiers), containers (lists, vectors, sets, objects) and the
//! quoting / syntaxing prefix forms. The tree can be rendered back to a
//! canonical text, every node carries the source span it was built from, and
//! a single post-construction mutation is offered: attaching a file name to
//! every span of a tree.

use vstd::prelude::*;

pub mod clone;
pub mod container;
pub mod eq;
pub mod laws;
pub mod literal;
pub mod parser;
pub mod quoting;
pub mod render;
pub mod syntaxing;
pub mod tag;
pub mod text;

use container::Container;
use literal::Literal;
use quoting::Quoting;
use syntaxing::Syntaxing;

verus! {

/// The body of a notation node: one of the four closed families.
#[derive(Debug)]
pub enum ENotationBody {
    Literal(Literal),
    Container(Container),
    Quoting(Quoting),
    Syntaxing(Syntaxing),
}

/// One parsed unit of the notation: a body plus the source span it was
/// built from. Equality for testing purposes compares the body only; see
/// [`ENotation::body_eq`].
#[derive(Debug)]
pub struct ENotation {
    pub span: DiagnosticSpan,
    pub body: ENotationBody,
}

/// A whole source file: the sequence of its top-level notations.
#[derive(Debug)]
pub struct EFile {
    pub notations: Vec<ENotation>,
}

/// The reader: associated functions that parse source text into notation
/// values. Each entry point consumes its whole input (surrounding
/// whitespace and comments allowed) or fails; see [`parser`] for the
/// grammar front-end itself.
pub struct ENotationParser;

/// The file-tagging pass: the one mutation permitted on a tree after
/// construction. `set_debug_file_name` sets the file identifier of every
/// span reachable from the receiver; everything else is left as it was.
/// The exact relation between the new tree and the old one is the
/// implementor's `tagged_by`.
pub trait SetDebugFileName: Sized {
    /// How a tree that has just been tagged with `file` relates to the
    /// tree before the pass.
    spec fn tagged_by(self, old_self: Self, file: Seq<char>) -> bool;

    /// Sets `file_name` as the file identifier of every span of the tree.
    fn set_debug_file_name(&mut self, file_name: &str)
        ensures
            final(self).tagged_by(*old(self), file_name@),
    ;
}

/// Location metadata attached to every notation node: 1-based line and
/// column of both ends, 0-based byte offsets into the UTF-8 encoding of
/// the source, the raw source text of the node, and an optional file
/// identifier set by the file-tagging pass.
#[derive(Debug, Clone, PartialEq)]
pub struct DiagnosticSpan {
    pub start_line: usize,
    pub start_col: usize,
    pub start_offset: usize,

    pub end_line: usize,
    pub end_col: usize,
    pub end_offset: usize,

    pub span: String,
    pub file: Option<String>,
}

/// The default span, used for synthetic nodes built without a parse:
/// all positions zero, empty text, no file.
pub open spec fn is_empty_span(s: DiagnosticSpan) -> bool {
    &&& s.start_line == 0
    &&& s.start_col == 0
    &&& s.start_offset == 0
    &&& s.end_line == 0
    &&& s.end_col == 0
    &&& s.end_offset == 0
    &&& s.span@ == Seq::<char>::empty()
    &&& s.file is None
}

impl Default for DiagnosticSpan {
    /// The empty span of a synthetic node.
    fn default() -> (r: DiagnosticSpan)
        ensures
            is_empty_span(r),
    {
        DiagnosticSpan {
            start_line: 0,
            start_col: 0,
            start_offset: 0,
            end_line: 0,
            end_col: 0,
            end_offset: 0,
            span: String::new(),
            file: None,
        }
    }
}

} // verus!
