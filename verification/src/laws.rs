//! The general laws of the library, each stated over the spec functions the
//! executable contracts use and proved for every tree.

use vstd::prelude::*;

use crate::{EFile, ENotation};
use crate::container::Container;
use crate::container::list::List;
use crate::container::object::ObjectPair;
use crate::container::vector::Vector;
use crate::eq::{
    body_equal, container_equal, elems_equal, file_equal, notation_equal, pair_equal,
    pairs_equal, quoting_equal, syntaxing_equal,
};
use crate::literal::{
    boolean_decode, char_decode, int_text_val, int_text_wf, rational_den_val, rational_num_val,
    rational_text_wf, strip_quotes,
};
use crate::literal::Boolean;
use crate::quoting::Quoting;
use crate::render::{
    char_canon, render_boolean, render_container, render_elems, render_elems_tail, render_file,
    render_file_from, render_notation, render_pair, render_pairs, render_quoting,
    render_syntaxing,
};
use crate::text::{dec_digits, int_to_dec, is_digit_char, lemma_dec_digits_are_digits,
    lemma_int_to_dec_round_trip};
use crate::syntaxing::Syntaxing;
use crate::tag::{
    container_files_set, container_tagged, elems_files_set, elems_tagged, file_files_set,
    file_tagged, notation_files_set, notation_tagged, pair_tagged, pairs_files_set, pairs_tagged,
    quoting_files_set, quoting_tagged, syntaxing_files_set, syntaxing_tagged,
};

verus! {

// ---------------------------------------------------------------------------
// Body equality is reflexive. Together with its definition — bodies only,
// spans ignored — this gives span-independent equality: two trees whose
// bodies coincide are equal whatever their spans.
// ---------------------------------------------------------------------------
/// Law: every notation is body-equal to itself.
pub proof fn lemma_notation_equal_refl(n: ENotation)
    ensures
        notation_equal(n, n),
    decreases n,
{
    lemma_body_equal_refl(n.body);
}

pub proof fn lemma_body_equal_refl(b: crate::ENotationBody)
    ensures
        body_equal(b, b),
    decreases b,
{
    match b {
        crate::ENotationBody::Literal(_) => {},
        crate::ENotationBody::Container(c) => lemma_container_equal_refl(c),
        crate::ENotationBody::Quoting(q) => lemma_quoting_equal_refl(q),
        crate::ENotationBody::Syntaxing(s) => lemma_syntaxing_equal_refl(s),
    }
}

pub proof fn lemma_container_equal_refl(c: Container)
    ensures
        container_equal(c, c),
    decreases c,
{
    match c {
        Container::List(l) => match l {
            List::PL(x) => lemma_elems_equal_refl(x.elems@),
            List::BL(x) => lemma_elems_equal_refl(x.elems@),
        },
        Container::Vector(v) => match v {
            Vector::PV(x) => lemma_elems_equal_refl(x.elems@),
            Vector::BV(x) => lemma_elems_equal_refl(x.elems@),
        },
        Container::Set_(s) => lemma_elems_equal_refl(s.elems@),
        Container::Object(o) => lemma_pairs_equal_refl(o.pairs@),
    }
}

pub proof fn lemma_elems_equal_refl(s: Seq<ENotation>)
    ensures
        elems_equal(s, s),
    decreases s,
{
    assert forall|i: int| 0 <= i < s.len() implies notation_equal(#[trigger] s[i], s[i]) by {
        lemma_notation_equal_refl(s[i]);
    }
}

pub proof fn lemma_pairs_equal_refl(s: Seq<ObjectPair>)
    ensures
        pairs_equal(s, s),
    decreases s,
{
    assert forall|i: int| 0 <= i < s.len() implies pair_equal(#[trigger] s[i], s[i]) by {
        lemma_notation_equal_refl(s[i].value);
    }
}

pub proof fn lemma_quoting_equal_refl(q: Quoting)
    ensures
        quoting_equal(q, q),
    decreases q,
{
    match q {
        Quoting::Quote(x) => lemma_notation_equal_refl(*x.value),
        Quoting::QuasiQuote(x) => lemma_notation_equal_refl(*x.value),
        Quoting::Unquote(x) => lemma_notation_equal_refl(*x.value),
        Quoting::UnquoteSplicing(x) => lemma_notation_equal_refl(*x.value),
    }
}

pub proof fn lemma_syntaxing_equal_refl(s: Syntaxing)
    ensures
        syntaxing_equal(s, s),
    decreases s,
{
    match s {
        Syntaxing::Syntax(x) => lemma_notation_equal_refl(*x.value),
        Syntaxing::QuasiSyntax(x) => lemma_notation_equal_refl(*x.value),
        Syntaxing::Unsyntax(x) => lemma_notation_equal_refl(*x.value),
        Syntaxing::UnsyntaxSplicing(x) => lemma_notation_equal_refl(*x.value),
    }
}

/// Law: equality is span-independent. Two notations whose bodies are the
/// same value are body-equal, whatever their spans — so trees built from
/// the same text at different source offsets compare equal.
pub proof fn lemma_span_independent_equality(a: ENotation, b: ENotation)
    requires
        a.body == b.body,
    ensures
        notation_equal(a, b),
{
    lemma_body_equal_refl(a.body);
}

// ---------------------------------------------------------------------------
// Rendering reads bodies only: body-equal trees render to the same text.
// Re-rendering after any span-only change (different source offsets, the
// file-tagging pass) therefore reproduces the text exactly.
// ---------------------------------------------------------------------------
/// Law: body-equal notations have the same canonical text.
pub proof fn lemma_render_by_body(a: ENotation, b: ENotation)
    requires
        notation_equal(a, b),
    ensures
        render_notation(a) == render_notation(b),
    decreases a,
{
    match (a.body, b.body) {
        (crate::ENotationBody::Literal(_), crate::ENotationBody::Literal(_)) => {},
        (crate::ENotationBody::Container(x), crate::ENotationBody::Container(y)) => {
            lemma_render_container_by_body(x, y);
        },
        (crate::ENotationBody::Quoting(x), crate::ENotationBody::Quoting(y)) => {
            lemma_render_quoting_by_body(x, y);
        },
        (crate::ENotationBody::Syntaxing(x), crate::ENotationBody::Syntaxing(y)) => {
            lemma_render_syntaxing_by_body(x, y);
        },
        _ => {},
    }
}

pub proof fn lemma_render_container_by_body(a: Container, b: Container)
    requires
        container_equal(a, b),
    ensures
        render_container(a) == render_container(b),
    decreases a,
{
    match (a, b) {
        (Container::List(x), Container::List(y)) => match (x, y) {
            (List::PL(p), List::PL(q)) => lemma_render_elems_by_body(p.elems@, q.elems@),
            (List::BL(p), List::BL(q)) => lemma_render_elems_by_body(p.elems@, q.elems@),
            _ => {},
        },
        (Container::Vector(x), Container::Vector(y)) => match (x, y) {
            (Vector::PV(p), Vector::PV(q)) => lemma_render_elems_by_body(p.elems@, q.elems@),
            (Vector::BV(p), Vector::BV(q)) => lemma_render_elems_by_body(p.elems@, q.elems@),
            _ => {},
        },
        (Container::Set_(x), Container::Set_(y)) => lemma_render_elems_by_body(
            x.elems@,
            y.elems@,
        ),
        (Container::Object(x), Container::Object(y)) => lemma_render_pairs_by_body(
            x.pairs@,
            y.pairs@,
            0,
        ),
        _ => {},
    }
}

pub proof fn lemma_render_elems_by_body(a: Seq<ENotation>, b: Seq<ENotation>)
    requires
        elems_equal(a, b),
    ensures
        render_elems(a) == render_elems(b),
    decreases a, 1int, 0int,
{
    if a.len() > 0 {
        lemma_render_by_body(a[0], b[0]);
        lemma_render_elems_tail_by_body(a, b, 1);
    }
}

pub proof fn lemma_render_elems_tail_by_body(a: Seq<ENotation>, b: Seq<ENotation>, i: int)
    requires
        elems_equal(a, b),
    ensures
        render_elems_tail(a, i) == render_elems_tail(b, i),
    decreases a, 0int, a.len() - i,
{
    if 0 <= i < a.len() {
        lemma_render_by_body(a[i], b[i]);
        lemma_render_elems_tail_by_body(a, b, i + 1);
    }
}

pub proof fn lemma_render_pairs_by_body(a: Seq<ObjectPair>, b: Seq<ObjectPair>, i: int)
    requires
        pairs_equal(a, b),
    ensures
        render_pairs(a, i) == render_pairs(b, i),
    decreases a, 0int, a.len() - i,
{
    if 0 <= i < a.len() {
        lemma_render_by_body(a[i].value, b[i].value);
        assert(render_pair(a[i]) == render_pair(b[i]));
        lemma_render_pairs_by_body(a, b, i + 1);
    }
}

pub proof fn lemma_render_quoting_by_body(a: Quoting, b: Quoting)
    requires
        quoting_equal(a, b),
    ensures
        render_quoting(a) == render_quoting(b),
    decreases a,
{
    match (a, b) {
        (Quoting::Quote(x), Quoting::Quote(y)) => lemma_render_by_body(*x.value, *y.value),
        (Quoting::QuasiQuote(x), Quoting::QuasiQuote(y)) => lemma_render_by_body(
            *x.value,
            *y.value,
        ),
        (Quoting::Unquote(x), Quoting::Unquote(y)) => lemma_render_by_body(*x.value, *y.value),
        (Quoting::UnquoteSplicing(x), Quoting::UnquoteSplicing(y)) => lemma_render_by_body(
            *x.value,
            *y.value,
        ),
        _ => {},
    }
}

pub proof fn lemma_render_syntaxing_by_body(a: Syntaxing, b: Syntaxing)
    requires
        syntaxing_equal(a, b),
    ensures
        render_syntaxing(a) == render_syntaxing(b),
    decreases a,
{
    match (a, b) {
        (Syntaxing::Syntax(x), Syntaxing::Syntax(y)) => lemma_render_by_body(*x.value, *y.value),
        (Syntaxing::QuasiSyntax(x), Syntaxing::QuasiSyntax(y)) => lemma_render_by_body(
            *x.value,
            *y.value,
        ),
        (Syntaxing::Unsyntax(x), Syntaxing::Unsyntax(y)) => lemma_render_by_body(
            *x.value,
            *y.value,
        ),
        (Syntaxing::UnsyntaxSplicing(x), Syntaxing::UnsyntaxSplicing(y)) => lemma_render_by_body(
            *x.value,
            *y.value,
        ),
        _ => {},
    }
}

/// Law: body-equal files have the same canonical text.
pub proof fn lemma_render_file_by_body(a: EFile, b: EFile)
    requires
        file_equal(a, b),
    ensures
        render_file(a) == render_file(b),
{
    lemma_render_file_from_by_body(a.notations@, b.notations@, 0);
}

pub proof fn lemma_render_file_from_by_body(a: Seq<ENotation>, b: Seq<ENotation>, i: int)
    requires
        elems_equal(a, b),
    ensures
        render_file_from(a, i) == render_file_from(b, i),
    decreases a, 0int, a.len() - i,
{
    if 0 <= i < a.len() {
        lemma_render_by_body(a[i], b[i]);
        lemma_render_file_from_by_body(a, b, i + 1);
    }
}

// ---------------------------------------------------------------------------
// The file-tagging pass sets the file identifier of every span in the tree
// — containers' elements and wrapped children included — and changes
// nothing else: bodies (and so renderings) are preserved, and tagging an
// already-tagged tree with the same name is a fixed point.
// ---------------------------------------------------------------------------
/// Law: after the tagging pass, every span of the tree reports the file.
pub proof fn lemma_tagged_files_set(n: ENotation, o: ENotation, f: Seq<char>)
    requires
        notation_tagged(n, o, f),
    ensures
        notation_files_set(n, f),
    decreases o,
{
    match (n.body, o.body) {
        (crate::ENotationBody::Container(c), crate::ENotationBody::Container(oc)) => {
            lemma_container_tagged_files_set(c, oc, f);
        },
        (crate::ENotationBody::Quoting(q), crate::ENotationBody::Quoting(oq)) => {
            lemma_quoting_tagged_files_set(q, oq, f);
        },
        (crate::ENotationBody::Syntaxing(s), crate::ENotationBody::Syntaxing(os)) => {
            lemma_syntaxing_tagged_files_set(s, os, f);
        },
        _ => {},
    }
}

pub proof fn lemma_container_tagged_files_set(c: Container, oc: Container, f: Seq<char>)
    requires
        container_tagged(c, oc, f),
    ensures
        container_files_set(c, f),
    decreases oc,
{
    match (c, oc) {
        (Container::List(l), Container::List(ol)) => match (l, ol) {
            (List::PL(x), List::PL(y)) => lemma_elems_tagged_files_set(x.elems@, y.elems@, f),
            (List::BL(x), List::BL(y)) => lemma_elems_tagged_files_set(x.elems@, y.elems@, f),
            _ => {},
        },
        (Container::Vector(v), Container::Vector(ov)) => match (v, ov) {
            (Vector::PV(x), Vector::PV(y)) => lemma_elems_tagged_files_set(x.elems@, y.elems@, f),
            (Vector::BV(x), Vector::BV(y)) => lemma_elems_tagged_files_set(x.elems@, y.elems@, f),
            _ => {},
        },
        (Container::Set_(s), Container::Set_(os)) => lemma_elems_tagged_files_set(
            s.elems@,
            os.elems@,
            f,
        ),
        (Container::Object(o), Container::Object(oo)) => lemma_pairs_tagged_files_set(
            o.pairs@,
            oo.pairs@,
            f,
        ),
        _ => {},
    }
}

pub proof fn lemma_elems_tagged_files_set(s: Seq<ENotation>, os: Seq<ENotation>, f: Seq<char>)
    requires
        elems_tagged(s, os, f),
    ensures
        elems_files_set(s, f),
    decreases os,
{
    assert forall|i: int| 0 <= i < s.len() implies notation_files_set(#[trigger] s[i], f) by {
        assert(notation_tagged(s[i], os[i], f));
        lemma_tagged_files_set(s[i], os[i], f);
    }
}

pub proof fn lemma_pairs_tagged_files_set(s: Seq<ObjectPair>, os: Seq<ObjectPair>, f: Seq<char>)
    requires
        pairs_tagged(s, os, f),
    ensures
        pairs_files_set(s, f),
    decreases os,
{
    assert forall|i: int| 0 <= i < s.len() implies notation_files_set(
        (#[trigger] s[i]).value,
        f,
    ) by {
        assert(pair_tagged(s[i], os[i], f));
        lemma_tagged_files_set(s[i].value, os[i].value, f);
    }
}

pub proof fn lemma_quoting_tagged_files_set(q: Quoting, oq: Quoting, f: Seq<char>)
    requires
        quoting_tagged(q, oq, f),
    ensures
        quoting_files_set(q, f),
    decreases oq,
{
    match (q, oq) {
        (Quoting::Quote(x), Quoting::Quote(y)) => lemma_tagged_files_set(*x.value, *y.value, f),
        (Quoting::QuasiQuote(x), Quoting::QuasiQuote(y)) => lemma_tagged_files_set(
            *x.value,
            *y.value,
            f,
        ),
        (Quoting::Unquote(x), Quoting::Unquote(y)) => lemma_tagged_files_set(
            *x.value,
            *y.value,
            f,
        ),
        (Quoting::UnquoteSplicing(x), Quoting::UnquoteSplicing(y)) => lemma_tagged_files_set(
            *x.value,
            *y.value,
            f,
        ),
        _ => {},
    }
}

pub proof fn lemma_syntaxing_tagged_files_set(s: Syntaxing, os: Syntaxing, f: Seq<char>)
    requires
        syntaxing_tagged(s, os, f),
    ensures
        syntaxing_files_set(s, f),
    decreases os,
{
    match (s, os) {
        (Syntaxing::Syntax(x), Syntaxing::Syntax(y)) => lemma_tagged_files_set(
            *x.value,
            *y.value,
            f,
        ),
        (Syntaxing::QuasiSyntax(x), Syntaxing::QuasiSyntax(y)) => lemma_tagged_files_set(
            *x.value,
            *y.value,
            f,
        ),
        (Syntaxing::Unsyntax(x), Syntaxing::Unsyntax(y)) => lemma_tagged_files_set(
            *x.value,
            *y.value,
            f,
        ),
        (Syntaxing::UnsyntaxSplicing(x), Syntaxing::UnsyntaxSplicing(y)) => lemma_tagged_files_set(
            *x.value,
            *y.value,
            f,
        ),
        _ => {},
    }
}

/// Law: after tagging a file, every span of every notation reports the file.
pub proof fn lemma_file_tagged_files_set(nf: EFile, of: EFile, f: Seq<char>)
    requires
        file_tagged(nf, of, f),
    ensures
        file_files_set(nf, f),
{
    lemma_elems_tagged_files_set(nf.notations@, of.notations@, f);
}

/// Law: the tagging pass is idempotent — a tree that has just been tagged
/// with `f` is a fixed point of tagging with `f` again.
pub proof fn lemma_tagged_idempotent(n: ENotation, o: ENotation, f: Seq<char>)
    requires
        notation_tagged(n, o, f),
    ensures
        notation_tagged(n, n, f),
    decreases o,
{
    match (n.body, o.body) {
        (crate::ENotationBody::Container(c), crate::ENotationBody::Container(oc)) => {
            lemma_container_tagged_idempotent(c, oc, f);
        },
        (crate::ENotationBody::Quoting(q), crate::ENotationBody::Quoting(oq)) => {
            lemma_quoting_tagged_idempotent(q, oq, f);
        },
        (crate::ENotationBody::Syntaxing(s), crate::ENotationBody::Syntaxing(os)) => {
            lemma_syntaxing_tagged_idempotent(s, os, f);
        },
        _ => {},
    }
}

pub proof fn lemma_container_tagged_idempotent(c: Container, oc: Container, f: Seq<char>)
    requires
        container_tagged(c, oc, f),
    ensures
        container_tagged(c, c, f),
    decreases oc,
{
    match (c, oc) {
        (Container::List(l), Container::List(ol)) => match (l, ol) {
            (List::PL(x), List::PL(y)) => lemma_elems_tagged_idempotent(x.elems@, y.elems@, f),
            (List::BL(x), List::BL(y)) => lemma_elems_tagged_idempotent(x.elems@, y.elems@, f),
            _ => {},
        },
        (Container::Vector(v), Container::Vector(ov)) => match (v, ov) {
            (Vector::PV(x), Vector::PV(y)) => lemma_elems_tagged_idempotent(x.elems@, y.elems@, f),
            (Vector::BV(x), Vector::BV(y)) => lemma_elems_tagged_idempotent(x.elems@, y.elems@, f),
            _ => {},
        },
        (Container::Set_(s), Container::Set_(os)) => lemma_elems_tagged_idempotent(
            s.elems@,
            os.elems@,
            f,
        ),
        (Container::Object(o), Container::Object(oo)) => lemma_pairs_tagged_idempotent(
            o.pairs@,
            oo.pairs@,
            f,
        ),
        _ => {},
    }
}

pub proof fn lemma_elems_tagged_idempotent(s: Seq<ENotation>, os: Seq<ENotation>, f: Seq<char>)
    requires
        elems_tagged(s, os, f),
    ensures
        elems_tagged(s, s, f),
    decreases os,
{
    assert forall|i: int| 0 <= i < s.len() implies notation_tagged(s[i], #[trigger] s[i], f) by {
        assert(notation_tagged(s[i], os[i], f));
        lemma_tagged_idempotent(s[i], os[i], f);
    }
}

pub proof fn lemma_pairs_tagged_idempotent(s: Seq<ObjectPair>, os: Seq<ObjectPair>, f: Seq<char>)
    requires
        pairs_tagged(s, os, f),
    ensures
        pairs_tagged(s, s, f),
    decreases os,
{
    assert forall|i: int| 0 <= i < s.len() implies pair_tagged(s[i], #[trigger] s[i], f) by {
        assert(pair_tagged(s[i], os[i], f));
        lemma_tagged_idempotent(s[i].value, os[i].value, f);
    }
}

pub proof fn lemma_quoting_tagged_idempotent(q: Quoting, oq: Quoting, f: Seq<char>)
    requires
        quoting_tagged(q, oq, f),
    ensures
        quoting_tagged(q, q, f),
    decreases oq,
{
    match (q, oq) {
        (Quoting::Quote(x), Quoting::Quote(y)) => lemma_tagged_idempotent(*x.value, *y.value, f),
        (Quoting::QuasiQuote(x), Quoting::QuasiQuote(y)) => lemma_tagged_idempotent(
            *x.value,
            *y.value,
            f,
        ),
        (Quoting::Unquote(x), Quoting::Unquote(y)) => lemma_tagged_idempotent(
            *x.value,
            *y.value,
            f,
        ),
        (Quoting::UnquoteSplicing(x), Quoting::UnquoteSplicing(y)) => lemma_tagged_idempotent(
            *x.value,
            *y.value,
            f,
        ),
        _ => {},
    }
}

pub proof fn lemma_syntaxing_tagged_idempotent(s: Syntaxing, os: Syntaxing, f: Seq<char>)
    requires
        syntaxing_tagged(s, os, f),
    ensures
        syntaxing_tagged(s, s, f),
    decreases os,
{
    match (s, os) {
        (Syntaxing::Syntax(x), Syntaxing::Syntax(y)) => lemma_tagged_idempotent(
            *x.value,
            *y.value,
            f,
        ),
        (Syntaxing::QuasiSyntax(x), Syntaxing::QuasiSyntax(y)) => lemma_tagged_idempotent(
            *x.value,
            *y.value,
            f,
        ),
        (Syntaxing::Unsyntax(x), Syntaxing::Unsyntax(y)) => lemma_tagged_idempotent(
            *x.value,
            *y.value,
            f,
        ),
        (Syntaxing::UnsyntaxSplicing(x), Syntaxing::UnsyntaxSplicing(y)) => lemma_tagged_idempotent(
            *x.value,
            *y.value,
            f,
        ),
        _ => {},
    }
}

/// Law: tagging a file twice with the same name is the same as tagging once.
pub proof fn lemma_file_tagged_idempotent(nf: EFile, of: EFile, f: Seq<char>)
    requires
        file_tagged(nf, of, f),
    ensures
        file_tagged(nf, nf, f),
{
    lemma_elems_tagged_idempotent(nf.notations@, of.notations@, f);
}

/// Law: the tagging pass changes spans only — the tagged tree is body-equal
/// to the tree before the pass.
pub proof fn lemma_tagged_preserves_body(n: ENotation, o: ENotation, f: Seq<char>)
    requires
        notation_tagged(n, o, f),
    ensures
        notation_equal(n, o),
    decreases o,
{
    match (n.body, o.body) {
        (crate::ENotationBody::Literal(l), crate::ENotationBody::Literal(ol)) => {
            lemma_body_equal_refl(n.body);
        },
        (crate::ENotationBody::Container(c), crate::ENotationBody::Container(oc)) => {
            lemma_container_tagged_preserves_body(c, oc, f);
        },
        (crate::ENotationBody::Quoting(q), crate::ENotationBody::Quoting(oq)) => {
            lemma_quoting_tagged_preserves_body(q, oq, f);
        },
        (crate::ENotationBody::Syntaxing(s), crate::ENotationBody::Syntaxing(os)) => {
            lemma_syntaxing_tagged_preserves_body(s, os, f);
        },
        _ => {},
    }
}

pub proof fn lemma_container_tagged_preserves_body(c: Container, oc: Container, f: Seq<char>)
    requires
        container_tagged(c, oc, f),
    ensures
        container_equal(c, oc),
    decreases oc,
{
    match (c, oc) {
        (Container::List(l), Container::List(ol)) => match (l, ol) {
            (List::PL(x), List::PL(y)) => lemma_elems_tagged_preserves_body(x.elems@, y.elems@, f),
            (List::BL(x), List::BL(y)) => lemma_elems_tagged_preserves_body(x.elems@, y.elems@, f),
            _ => {},
        },
        (Container::Vector(v), Container::Vector(ov)) => match (v, ov) {
            (Vector::PV(x), Vector::PV(y)) => lemma_elems_tagged_preserves_body(
                x.elems@,
                y.elems@,
                f,
            ),
            (Vector::BV(x), Vector::BV(y)) => lemma_elems_tagged_preserves_body(
                x.elems@,
                y.elems@,
                f,
            ),
            _ => {},
        },
        (Container::Set_(s), Container::Set_(os)) => lemma_elems_tagged_preserves_body(
            s.elems@,
            os.elems@,
            f,
        ),
        (Container::Object(o), Container::Object(oo)) => lemma_pairs_tagged_preserves_body(
            o.pairs@,
            oo.pairs@,
            f,
        ),
        _ => {},
    }
}

pub proof fn lemma_elems_tagged_preserves_body(
    s: Seq<ENotation>,
    os: Seq<ENotation>,
    f: Seq<char>,
)
    requires
        elems_tagged(s, os, f),
    ensures
        elems_equal(s, os),
    decreases os,
{
    assert forall|i: int| 0 <= i < s.len() implies notation_equal(#[trigger] s[i], os[i]) by {
        assert(notation_tagged(s[i], os[i], f));
        lemma_tagged_preserves_body(s[i], os[i], f);
    }
}

pub proof fn lemma_pairs_tagged_preserves_body(
    s: Seq<ObjectPair>,
    os: Seq<ObjectPair>,
    f: Seq<char>,
)
    requires
        pairs_tagged(s, os, f),
    ensures
        pairs_equal(s, os),
    decreases os,
{
    assert forall|i: int| 0 <= i < s.len() implies pair_equal(#[trigger] s[i], os[i]) by {
        assert(pair_tagged(s[i], os[i], f));
        lemma_tagged_preserves_body(s[i].value, os[i].value, f);
    }
}

pub proof fn lemma_quoting_tagged_preserves_body(q: Quoting, oq: Quoting, f: Seq<char>)
    requires
        quoting_tagged(q, oq, f),
    ensures
        quoting_equal(q, oq),
    decreases oq,
{
    match (q, oq) {
        (Quoting::Quote(x), Quoting::Quote(y)) => lemma_tagged_preserves_body(
            *x.value,
            *y.value,
            f,
        ),
        (Quoting::QuasiQuote(x), Quoting::QuasiQuote(y)) => lemma_tagged_preserves_body(
            *x.value,
            *y.value,
            f,
        ),
        (Quoting::Unquote(x), Quoting::Unquote(y)) => lemma_tagged_preserves_body(
            *x.value,
            *y.value,
            f,
        ),
        (Quoting::UnquoteSplicing(x), Quoting::UnquoteSplicing(y)) => lemma_tagged_preserves_body(
            *x.value,
            *y.value,
            f,
        ),
        _ => {},
    }
}

pub proof fn lemma_syntaxing_tagged_preserves_body(s: Syntaxing, os: Syntaxing, f: Seq<char>)
    requires
        syntaxing_tagged(s, os, f),
    ensures
        syntaxing_equal(s, os),
    decreases os,
{
    match (s, os) {
        (Syntaxing::Syntax(x), Syntaxing::Syntax(y)) => lemma_tagged_preserves_body(
            *x.value,
            *y.value,
            f,
        ),
        (Syntaxing::QuasiSyntax(x), Syntaxing::QuasiSyntax(y)) => lemma_tagged_preserves_body(
            *x.value,
            *y.value,
            f,
        ),
        (Syntaxing::Unsyntax(x), Syntaxing::Unsyntax(y)) => lemma_tagged_preserves_body(
            *x.value,
            *y.value,
            f,
        ),
        (Syntaxing::UnsyntaxSplicing(x), Syntaxing::UnsyntaxSplicing(y)) => lemma_tagged_preserves_body(
            *x.value,
            *y.value,
            f,
        ),
        _ => {},
    }
}

/// Law: the tagging pass does not change the canonical text of a tree.
pub proof fn lemma_tagged_preserves_render(n: ENotation, o: ENotation, f: Seq<char>)
    requires
        notation_tagged(n, o, f),
    ensures
        render_notation(n) == render_notation(o),
{
    lemma_tagged_preserves_body(n, o, f);
    lemma_render_by_body(n, o);
}


// ---------------------------------------------------------------------------
// Round trips of the literal decoders: the canonical text of every literal
// value decodes back to exactly that value. Together with the decoders'
// contracts this pins the canonical normal form of each literal kind.
// ---------------------------------------------------------------------------
/// Law: the canonical text of a boolean decodes back to its value.
pub proof fn lemma_boolean_round_trip(b: Boolean)
    ensures
        boolean_decode(render_boolean(b)) == Some(b.value),
{
    if b.value {
        assert(render_boolean(b) == seq!['#', 't']);
    } else {
        assert(render_boolean(b) =~= seq!['#', 'f']);
        assert(render_boolean(b) != seq!['#', 't']);
    }
}

/// Law: the canonical text of a character literal decodes back to exactly
/// that character, named escapes included.
pub proof fn lemma_char_round_trip(c: char)
    ensures
        char_decode(char_canon(c)) == Some(c),
{
    if c != '\n' && c != '\r' && c != ' ' && c != '\t' {
        let s = char_canon(c);
        assert(s.len() == 3);
        assert(s != seq!['#', '\\', 'n', 'e', 'w', 'l', 'i', 'n', 'e']);
        assert(s != seq!['#', '\\', 'r', 'e', 't', 'u', 'r', 'n']);
        assert(s != seq!['#', '\\', 's', 'p', 'a', 'c', 'e']);
        assert(s != seq!['#', '\\', 't', 'a', 'b']);
    }
}

/// Law: the canonical decimal text of every 64-bit integer is well-formed
/// integer literal text, decodes back to exactly that integer, and so is in
/// range — decode after render can never fail or overflow.
pub proof fn lemma_integer_round_trip(v: i64)
    ensures
        int_text_wf(int_to_dec(v as int)),
        int_text_val(int_to_dec(v as int)) == v,
{
    lemma_int_to_dec_round_trip(v as int);
}

/// Law: the canonical decimal text of any 64-bit integer is literal input
/// the reader owes success on — by the reader's own contract, parsing it
/// back yields exactly that integer node, so rendering then re-parsing an
/// integer literal is a fixed point.
pub proof fn lemma_integer_canonical_accepted(v: i64)
    ensures
        crate::parser::literal_input(int_to_dec(v as int)),
        !crate::parser::literal_input_fails(int_to_dec(v as int)),
        crate::parser::literal_for(
            int_to_dec(v as int),
            crate::literal::Literal::Int(crate::literal::Integer { value: v }),
        ),
{
    let t = int_to_dec(v as int);
    lemma_int_to_dec_round_trip(v as int);
    assert(t.subrange(0, t.len() as int) =~= t);
    crate::parser::lemma_int_text_not_delimiters(t, 0);
    assert(t[0] == '+' || t[0] == '-' || is_digit_char(t[0]));
    assert(t[0] != '#');
}

/// Law: the canonical text of a rational literal is well-formed rational
/// text whose numerator and denominator decode back unchanged — rendering
/// never reduces the fraction.
pub proof fn lemma_rational_round_trip(p: i64, q: i64)
    ensures
        rational_text_wf(int_to_dec(p as int) + seq!['/'] + int_to_dec(q as int)),
        rational_num_val(int_to_dec(p as int) + seq!['/'] + int_to_dec(q as int)) == p,
        rational_den_val(int_to_dec(p as int) + seq!['/'] + int_to_dec(q as int)) == q,
{
    let np = int_to_dec(p as int);
    let nq = int_to_dec(q as int);
    let s = np + seq!['/'] + nq;
    lemma_int_to_dec_round_trip(p as int);
    lemma_int_to_dec_round_trip(q as int);
    let k = np.len() as int;
    assert forall|i: int| 0 <= i < k implies s[i] != '/' by {
        assert(s[i] == np[i]);
        lemma_int_no_slash(p as int, i);
    }
    assert(s[k] == '/');
    crate::literal::lemma_find_slash_at(s, 0, k);
    assert(s.subrange(0, k) =~= np);
    assert(s.subrange(k + 1, s.len() as int) =~= nq);
}

/// The canonical decimal text of an integer never contains a `/`.
proof fn lemma_int_no_slash(v: int, i: int)
    requires
        0 <= i < int_to_dec(v).len(),
    ensures
        int_to_dec(v)[i] != '/',
{
    if v < 0 {
        lemma_dec_digits_are_digits((-v) as nat);
        if i > 0 {
            assert(int_to_dec(v)[i] == dec_digits((-v) as nat)[i - 1]);
            assert(is_digit_char(dec_digits((-v) as nat)[i - 1]));
        }
    } else {
        lemma_dec_digits_are_digits(v as nat);
        assert(int_to_dec(v) == dec_digits(v as nat));
        assert(is_digit_char(dec_digits(v as nat)[i]));
    }
}

/// Law: wrapping text in double quotes and stripping one quote layer gives
/// the text back unchanged — string contents round-trip exactly.
pub proof fn lemma_string_round_trip(content: Seq<char>)
    ensures
        strip_quotes(seq!['"'] + content + seq!['"']) == content,
{
    let s = seq!['"'] + content + seq!['"'];
    assert(s.len() == content.len() + 2);
    assert(s[0] == '"');
    let t = s.subrange(1, s.len() as int);
    assert(t =~= content + seq!['"']);
    assert(t.last() == '"');
    assert(t.drop_last() =~= content);
}

} // verus!
