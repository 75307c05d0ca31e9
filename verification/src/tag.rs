//! The file-tagging pass. The spec predicates here say exactly how a tagged
//! tree relates to the tree before the pass: every span keeps all its fields
//! but `file`, which becomes the given name, and nothing else changes. The
//! executable pass is the [`SetDebugFileName`] impls.

use vstd::prelude::*;

use crate::{DiagnosticSpan, EFile, ENotation, ENotationBody, SetDebugFileName};
use crate::container::Container;
use crate::container::list::{BList, List, PList};
use crate::container::object::{Object, ObjectPair};
use crate::container::set::Set_;
use crate::container::unamed_object::UnamedObject;
use crate::container::vector::{BVector, PVector, Vector};
use crate::quoting::{QuasiQuote, Quote, Quoting, Unquote, UnquoteSplicing};
use crate::syntaxing::{QuasiSyntax, Syntax, Syntaxing, Unsyntax, UnsyntaxSplicing};

verus! {

/// The span after tagging with `f`: all fields as before, except that the
/// file identifier is now `f`.
pub open spec fn span_tagged(s: DiagnosticSpan, o: DiagnosticSpan, f: Seq<char>) -> bool {
    &&& s.start_line == o.start_line
    &&& s.start_col == o.start_col
    &&& s.start_offset == o.start_offset
    &&& s.end_line == o.end_line
    &&& s.end_col == o.end_col
    &&& s.end_offset == o.end_offset
    &&& s.span == o.span
    &&& match s.file {
        Some(g) => g@ == f,
        None => false,
    }
}

/// The notation after tagging with `f`: its span tagged, its body tagged.
pub open spec fn notation_tagged(n: ENotation, o: ENotation, f: Seq<char>) -> bool
    decreases o, 4int,
{
    span_tagged(n.span, o.span, f) && body_tagged(n.body, o.body, f)
}

/// The body after tagging: same variant, leaves untouched (a literal holds
/// no span), containers and wrapper forms tagged throughout.
pub open spec fn body_tagged(b: ENotationBody, ob: ENotationBody, f: Seq<char>) -> bool
    decreases ob, 4int,
{
    match (b, ob) {
        (ENotationBody::Literal(l), ENotationBody::Literal(ol)) => l == ol,
        (ENotationBody::Container(c), ENotationBody::Container(oc)) => container_tagged(c, oc, f),
        (ENotationBody::Quoting(q), ENotationBody::Quoting(oq)) => quoting_tagged(q, oq, f),
        (ENotationBody::Syntaxing(s), ENotationBody::Syntaxing(os)) => syntaxing_tagged(s, os, f),
        _ => false,
    }
}

/// The container after tagging: same kind and delimiter style, elements
/// tagged pointwise.
pub open spec fn container_tagged(c: Container, oc: Container, f: Seq<char>) -> bool
    decreases oc, 4int,
{
    match (c, oc) {
        (Container::List(l), Container::List(ol)) => list_tagged(l, ol, f),
        (Container::Vector(v), Container::Vector(ov)) => vector_tagged(v, ov, f),
        (Container::Set_(s), Container::Set_(os)) => elems_tagged(s.elems@, os.elems@, f),
        (Container::Object(o), Container::Object(oo)) => pairs_tagged(o.pairs@, oo.pairs@, f),
        _ => false,
    }
}

/// The list after tagging: same delimiter style, elements tagged pointwise.
pub open spec fn list_tagged(l: List, ol: List, f: Seq<char>) -> bool
    decreases ol, 4int,
{
    match (l, ol) {
        (List::PL(pl), List::PL(opl)) => elems_tagged(pl.elems@, opl.elems@, f),
        (List::BL(bl), List::BL(obl)) => elems_tagged(bl.elems@, obl.elems@, f),
        _ => false,
    }
}

/// The vector after tagging: same delimiter style, elements tagged pointwise.
pub open spec fn vector_tagged(v: Vector, ov: Vector, f: Seq<char>) -> bool
    decreases ov, 4int,
{
    match (v, ov) {
        (Vector::PV(pv), Vector::PV(opv)) => elems_tagged(pv.elems@, opv.elems@, f),
        (Vector::BV(bv), Vector::BV(obv)) => elems_tagged(bv.elems@, obv.elems@, f),
        _ => false,
    }
}

/// A sequence of notations tagged pointwise.
pub open spec fn elems_tagged(s: Seq<ENotation>, os: Seq<ENotation>, f: Seq<char>) -> bool
    decreases os, 5int,
{
    s.len() == os.len() && forall|i: int|
        0 <= i < os.len() ==> notation_tagged(s[i], #[trigger] os[i], f)
}

/// A sequence of object pairs tagged pointwise: keys untouched (they carry
/// no span), values tagged.
pub open spec fn pairs_tagged(s: Seq<ObjectPair>, os: Seq<ObjectPair>, f: Seq<char>) -> bool
    decreases os, 5int,
{
    s.len() == os.len() && forall|i: int|
        0 <= i < os.len() ==> pair_tagged(s[i], #[trigger] os[i], f)
}

/// One object pair tagged: the key as it was, the value tagged.
pub open spec fn pair_tagged(p: ObjectPair, op: ObjectPair, f: Seq<char>) -> bool
    decreases op, 4int,
{
    p.key == op.key && notation_tagged(p.value, op.value, f)
}

/// The quoting form after tagging: same variant, the one child tagged.
pub open spec fn quoting_tagged(q: Quoting, oq: Quoting, f: Seq<char>) -> bool
    decreases oq, 4int,
{
    match (q, oq) {
        (Quoting::Quote(x), Quoting::Quote(ox)) => notation_tagged(*x.value, *ox.value, f),
        (Quoting::QuasiQuote(x), Quoting::QuasiQuote(ox)) => notation_tagged(
            *x.value,
            *ox.value,
            f,
        ),
        (Quoting::Unquote(x), Quoting::Unquote(ox)) => notation_tagged(*x.value, *ox.value, f),
        (Quoting::UnquoteSplicing(x), Quoting::UnquoteSplicing(ox)) => notation_tagged(
            *x.value,
            *ox.value,
            f,
        ),
        _ => false,
    }
}

/// The syntaxing form after tagging: same variant, the one child tagged.
pub open spec fn syntaxing_tagged(s: Syntaxing, os: Syntaxing, f: Seq<char>) -> bool
    decreases os, 4int,
{
    match (s, os) {
        (Syntaxing::Syntax(x), Syntaxing::Syntax(ox)) => notation_tagged(*x.value, *ox.value, f),
        (Syntaxing::QuasiSyntax(x), Syntaxing::QuasiSyntax(ox)) => notation_tagged(
            *x.value,
            *ox.value,
            f,
        ),
        (Syntaxing::Unsyntax(x), Syntaxing::Unsyntax(ox)) => notation_tagged(
            *x.value,
            *ox.value,
            f,
        ),
        (Syntaxing::UnsyntaxSplicing(x), Syntaxing::UnsyntaxSplicing(ox)) => notation_tagged(
            *x.value,
            *ox.value,
            f,
        ),
        _ => false,
    }
}

/// The file after tagging: every top-level notation tagged.
pub open spec fn file_tagged(nf: EFile, of: EFile, f: Seq<char>) -> bool {
    elems_tagged(nf.notations@, of.notations@, f)
}


/// Every span in the tree reports `f` as its file.
pub open spec fn notation_files_set(n: ENotation, f: Seq<char>) -> bool
    decreases n, 4int,
{
    &&& match n.span.file {
        Some(g) => g@ == f,
        None => false,
    }
    &&& body_files_set(n.body, f)
}

/// Every span under the body reports `f` as its file. A literal holds no
/// span, so it is trivially covered.
pub open spec fn body_files_set(b: ENotationBody, f: Seq<char>) -> bool
    decreases b, 4int,
{
    match b {
        ENotationBody::Literal(_) => true,
        ENotationBody::Container(c) => container_files_set(c, f),
        ENotationBody::Quoting(q) => quoting_files_set(q, f),
        ENotationBody::Syntaxing(s) => syntaxing_files_set(s, f),
    }
}

pub open spec fn container_files_set(c: Container, f: Seq<char>) -> bool
    decreases c, 4int,
{
    match c {
        Container::List(l) => match l {
            List::PL(pl) => elems_files_set(pl.elems@, f),
            List::BL(bl) => elems_files_set(bl.elems@, f),
        },
        Container::Vector(v) => match v {
            Vector::PV(pv) => elems_files_set(pv.elems@, f),
            Vector::BV(bv) => elems_files_set(bv.elems@, f),
        },
        Container::Set_(s) => elems_files_set(s.elems@, f),
        Container::Object(o) => pairs_files_set(o.pairs@, f),
    }
}

pub open spec fn elems_files_set(s: Seq<ENotation>, f: Seq<char>) -> bool
    decreases s, 5int,
{
    forall|i: int| 0 <= i < s.len() ==> notation_files_set(#[trigger] s[i], f)
}

/// Keys carry no span; only the values are covered.
pub open spec fn pairs_files_set(s: Seq<ObjectPair>, f: Seq<char>) -> bool
    decreases s, 5int,
{
    forall|i: int| 0 <= i < s.len() ==> notation_files_set((#[trigger] s[i]).value, f)
}

pub open spec fn quoting_files_set(q: Quoting, f: Seq<char>) -> bool
    decreases q, 4int,
{
    match q {
        Quoting::Quote(x) => notation_files_set(*x.value, f),
        Quoting::QuasiQuote(x) => notation_files_set(*x.value, f),
        Quoting::Unquote(x) => notation_files_set(*x.value, f),
        Quoting::UnquoteSplicing(x) => notation_files_set(*x.value, f),
    }
}

pub open spec fn syntaxing_files_set(s: Syntaxing, f: Seq<char>) -> bool
    decreases s, 4int,
{
    match s {
        Syntaxing::Syntax(x) => notation_files_set(*x.value, f),
        Syntaxing::QuasiSyntax(x) => notation_files_set(*x.value, f),
        Syntaxing::Unsyntax(x) => notation_files_set(*x.value, f),
        Syntaxing::UnsyntaxSplicing(x) => notation_files_set(*x.value, f),
    }
}

/// Every span of every notation of the file reports `f`.
pub open spec fn file_files_set(ef: EFile, f: Seq<char>) -> bool {
    elems_files_set(ef.notations@, f)
}

/// Tags every element of `elems` in place.
fn tag_elems(elems: &mut Vec<ENotation>, file_name: &str)
    ensures
        elems_tagged(final(elems)@, old(elems)@, file_name@),
    decreases old(elems)@, 3int,
{
    let n = elems.len();
    let mut i: usize = 0;
    while i < n
        invariant
            n == elems@.len(),
            elems@.len() == old(elems)@.len(),
            i <= n,
            forall|j: int| i <= j < n ==> elems@[j] == old(elems)@[j],
            forall|j: int|
                0 <= j < i ==> notation_tagged(elems@[j], #[trigger] old(elems)@[j], file_name@),
        decreases n - i,
    {
        assert(elems@[i as int] == old(elems)@[i as int]);
        elems[i].set_debug_file_name(file_name);
        i = i + 1;
    }
}

/// Tags the value of every pair of `pairs` in place; keys carry no span and
/// stay as they are.
fn tag_pairs(pairs: &mut Vec<ObjectPair>, file_name: &str)
    ensures
        pairs_tagged(final(pairs)@, old(pairs)@, file_name@),
    decreases old(pairs)@, 3int,
{
    let n = pairs.len();
    let mut i: usize = 0;
    while i < n
        invariant
            n == pairs@.len(),
            pairs@.len() == old(pairs)@.len(),
            i <= n,
            forall|j: int| i <= j < n ==> pairs@[j] == old(pairs)@[j],
            forall|j: int|
                0 <= j < i ==> pair_tagged(pairs@[j], #[trigger] old(pairs)@[j], file_name@),
        decreases n - i,
    {
        assert(pairs@[i as int] == old(pairs)@[i as int]);
        pairs[i].value.set_debug_file_name(file_name);
        i = i + 1;
    }
}

impl SetDebugFileName for ENotation {
    open spec fn tagged_by(self, old_self: Self, file: Seq<char>) -> bool {
        notation_tagged(self, old_self, file)
    }

    fn set_debug_file_name(&mut self, file_name: &str)
        decreases *old(self), 5int,
    {
        self.span.file = Some(file_name.to_owned());
        self.body.set_debug_file_name(file_name);
    }
}

impl SetDebugFileName for ENotationBody {
    open spec fn tagged_by(self, old_self: Self, file: Seq<char>) -> bool {
        body_tagged(self, old_self, file)
    }

    fn set_debug_file_name(&mut self, file_name: &str)
        decreases *old(self), 5int,
    {
        match self {
            ENotationBody::Container(c) => c.set_debug_file_name(file_name),
            ENotationBody::Quoting(q) => q.set_debug_file_name(file_name),
            ENotationBody::Syntaxing(s) => s.set_debug_file_name(file_name),
            ENotationBody::Literal(_) => {},
        }
    }
}

impl SetDebugFileName for Container {
    open spec fn tagged_by(self, old_self: Self, file: Seq<char>) -> bool {
        container_tagged(self, old_self, file)
    }

    fn set_debug_file_name(&mut self, file_name: &str)
        decreases *old(self), 5int,
    {
        match self {
            Container::List(l) => l.set_debug_file_name(file_name),
            Container::Vector(v) => v.set_debug_file_name(file_name),
            Container::Set_(s) => s.set_debug_file_name(file_name),
            Container::Object(o) => o.set_debug_file_name(file_name),
        }
    }
}

impl SetDebugFileName for List {
    open spec fn tagged_by(self, old_self: Self, file: Seq<char>) -> bool {
        list_tagged(self, old_self, file)
    }

    fn set_debug_file_name(&mut self, file_name: &str)
        decreases *old(self), 5int,
    {
        match self {
            List::PL(pl) => pl.set_debug_file_name(file_name),
            List::BL(bl) => bl.set_debug_file_name(file_name),
        }
    }
}

impl SetDebugFileName for PList {
    open spec fn tagged_by(self, old_self: Self, file: Seq<char>) -> bool {
        elems_tagged(self.elems@, old_self.elems@, file)
    }

    fn set_debug_file_name(&mut self, file_name: &str)
        decreases *old(self), 4int,
    {
        tag_elems(&mut self.elems, file_name);
    }
}

impl SetDebugFileName for BList {
    open spec fn tagged_by(self, old_self: Self, file: Seq<char>) -> bool {
        elems_tagged(self.elems@, old_self.elems@, file)
    }

    fn set_debug_file_name(&mut self, file_name: &str)
        decreases *old(self), 4int,
    {
        tag_elems(&mut self.elems, file_name);
    }
}

impl SetDebugFileName for Vector {
    open spec fn tagged_by(self, old_self: Self, file: Seq<char>) -> bool {
        vector_tagged(self, old_self, file)
    }

    fn set_debug_file_name(&mut self, file_name: &str)
        decreases *old(self), 5int,
    {
        match self {
            Vector::PV(pv) => pv.set_debug_file_name(file_name),
            Vector::BV(bv) => bv.set_debug_file_name(file_name),
        }
    }
}

impl SetDebugFileName for PVector {
    open spec fn tagged_by(self, old_self: Self, file: Seq<char>) -> bool {
        elems_tagged(self.elems@, old_self.elems@, file)
    }

    fn set_debug_file_name(&mut self, file_name: &str)
        decreases *old(self), 4int,
    {
        tag_elems(&mut self.elems, file_name);
    }
}

impl SetDebugFileName for BVector {
    open spec fn tagged_by(self, old_self: Self, file: Seq<char>) -> bool {
        elems_tagged(self.elems@, old_self.elems@, file)
    }

    fn set_debug_file_name(&mut self, file_name: &str)
        decreases *old(self), 4int,
    {
        tag_elems(&mut self.elems, file_name);
    }
}

impl SetDebugFileName for Set_ {
    open spec fn tagged_by(self, old_self: Self, file: Seq<char>) -> bool {
        elems_tagged(self.elems@, old_self.elems@, file)
    }

    fn set_debug_file_name(&mut self, file_name: &str)
        decreases *old(self), 4int,
    {
        tag_elems(&mut self.elems, file_name);
    }
}

impl SetDebugFileName for UnamedObject {
    open spec fn tagged_by(self, old_self: Self, file: Seq<char>) -> bool {
        elems_tagged(self.elems@, old_self.elems@, file)
    }

    fn set_debug_file_name(&mut self, file_name: &str)
        decreases *old(self), 4int,
    {
        tag_elems(&mut self.elems, file_name);
    }
}

impl SetDebugFileName for Object {
    open spec fn tagged_by(self, old_self: Self, file: Seq<char>) -> bool {
        pairs_tagged(self.pairs@, old_self.pairs@, file)
    }

    fn set_debug_file_name(&mut self, file_name: &str)
        decreases *old(self), 4int,
    {
        tag_pairs(&mut self.pairs, file_name);
    }
}

impl SetDebugFileName for ObjectPair {
    open spec fn tagged_by(self, old_self: Self, file: Seq<char>) -> bool {
        pair_tagged(self, old_self, file)
    }

    fn set_debug_file_name(&mut self, file_name: &str)
        decreases *old(self), 5int,
    {
        self.value.set_debug_file_name(file_name);
    }
}

impl SetDebugFileName for Quoting {
    open spec fn tagged_by(self, old_self: Self, file: Seq<char>) -> bool {
        quoting_tagged(self, old_self, file)
    }

    fn set_debug_file_name(&mut self, file_name: &str)
        decreases *old(self), 5int,
    {
        match self {
            Quoting::Quote(q) => q.set_debug_file_name(file_name),
            Quoting::QuasiQuote(q) => q.set_debug_file_name(file_name),
            Quoting::Unquote(q) => q.set_debug_file_name(file_name),
            Quoting::UnquoteSplicing(q) => q.set_debug_file_name(file_name),
        }
    }
}

impl SetDebugFileName for Quote {
    open spec fn tagged_by(self, old_self: Self, file: Seq<char>) -> bool {
        notation_tagged(*self.value, *old_self.value, file)
    }

    fn set_debug_file_name(&mut self, file_name: &str)
        decreases *old(self), 5int,
    {
        self.value.set_debug_file_name(file_name);
    }
}

impl SetDebugFileName for QuasiQuote {
    open spec fn tagged_by(self, old_self: Self, file: Seq<char>) -> bool {
        notation_tagged(*self.value, *old_self.value, file)
    }

    fn set_debug_file_name(&mut self, file_name: &str)
        decreases *old(self), 5int,
    {
        self.value.set_debug_file_name(file_name);
    }
}

impl SetDebugFileName for Unquote {
    open spec fn tagged_by(self, old_self: Self, file: Seq<char>) -> bool {
        notation_tagged(*self.value, *old_self.value, file)
    }

    fn set_debug_file_name(&mut self, file_name: &str)
        decreases *old(self), 5int,
    {
        self.value.set_debug_file_name(file_name);
    }
}

impl SetDebugFileName for UnquoteSplicing {
    open spec fn tagged_by(self, old_self: Self, file: Seq<char>) -> bool {
        notation_tagged(*self.value, *old_self.value, file)
    }

    fn set_debug_file_name(&mut self, file_name: &str)
        decreases *old(self), 5int,
    {
        self.value.set_debug_file_name(file_name);
    }
}

impl SetDebugFileName for Syntaxing {
    open spec fn tagged_by(self, old_self: Self, file: Seq<char>) -> bool {
        syntaxing_tagged(self, old_self, file)
    }

    fn set_debug_file_name(&mut self, file_name: &str)
        decreases *old(self), 5int,
    {
        match self {
            Syntaxing::Syntax(s) => s.set_debug_file_name(file_name),
            Syntaxing::QuasiSyntax(s) => s.set_debug_file_name(file_name),
            Syntaxing::Unsyntax(s) => s.set_debug_file_name(file_name),
            Syntaxing::UnsyntaxSplicing(s) => s.set_debug_file_name(file_name),
        }
    }
}

impl SetDebugFileName for Syntax {
    open spec fn tagged_by(self, old_self: Self, file: Seq<char>) -> bool {
        notation_tagged(*self.value, *old_self.value, file)
    }

    fn set_debug_file_name(&mut self, file_name: &str)
        decreases *old(self), 5int,
    {
        self.value.set_debug_file_name(file_name);
    }
}

impl SetDebugFileName for QuasiSyntax {
    open spec fn tagged_by(self, old_self: Self, file: Seq<char>) -> bool {
        notation_tagged(*self.value, *old_self.value, file)
    }

    fn set_debug_file_name(&mut self, file_name: &str)
        decreases *old(self), 5int,
    {
        self.value.set_debug_file_name(file_name);
    }
}

impl SetDebugFileName for Unsyntax {
    open spec fn tagged_by(self, old_self: Self, file: Seq<char>) -> bool {
        notation_tagged(*self.value, *old_self.value, file)
    }

    fn set_debug_file_name(&mut self, file_name: &str)
        decreases *old(self), 5int,
    {
        self.value.set_debug_file_name(file_name);
    }
}

impl SetDebugFileName for UnsyntaxSplicing {
    open spec fn tagged_by(self, old_self: Self, file: Seq<char>) -> bool {
        notation_tagged(*self.value, *old_self.value, file)
    }

    fn set_debug_file_name(&mut self, file_name: &str)
        decreases *old(self), 5int,
    {
        self.value.set_debug_file_name(file_name);
    }
}

impl SetDebugFileName for EFile {
    open spec fn tagged_by(self, old_self: Self, file: Seq<char>) -> bool {
        file_tagged(self, old_self, file)
    }

    fn set_debug_file_name(&mut self, file_name: &str)
        decreases *old(self), 5int,
    {
        tag_elems(&mut self.notations, file_name);
    }
}

} // verus!
