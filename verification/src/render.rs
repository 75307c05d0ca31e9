//! The canonical renderer. The spec functions here define, node kind by node
//! kind, the canonical text of a tree; the executable methods produce exactly
//! that text. Rendering reads bodies only — spans never influence the output.

use vstd::prelude::*;

use crate::{EFile, ENotation, ENotationBody};
use crate::container::Container;
use crate::container::list::{BList, List, PList};
use crate::container::object::{Object, ObjectPair};
use crate::container::set::Set_;
use crate::container::unamed_object::UnamedObject;
use crate::container::vector::Vector;
use crate::literal::{Boolean, Char, Float, Identifier, Integer, Literal, Rational, String_};
use crate::quoting::{QuasiQuote, Quote, Quoting, Unquote, UnquoteSplicing};
use crate::syntaxing::{QuasiSyntax, Syntax, Syntaxing, Unsyntax, UnsyntaxSplicing};
use crate::text::{chars_to_string, int_to_dec, write_i64};

verus! {

/// The canonical text of a boolean: `#t` or `#f`.
pub open spec fn render_boolean(b: Boolean) -> Seq<char> {
    if b.value {
        seq!['#', 't']
    } else {
        seq!['#', 'f']
    }
}

/// The canonical text of a character literal: the named escapes for
/// newline, return, space and tab, else `#\` followed by the character.
pub open spec fn char_canon(c: char) -> Seq<char> {
    if c == '\n' {
        seq!['#', '\\', 'n', 'e', 'w', 'l', 'i', 'n', 'e']
    } else if c == '\r' {
        seq!['#', '\\', 'r', 'e', 't', 'u', 'r', 'n']
    } else if c == ' ' {
        seq!['#', '\\', 's', 'p', 'a', 'c', 'e']
    } else if c == '\t' {
        seq!['#', '\\', 't', 'a', 'b']
    } else {
        seq!['#', '\\', c]
    }
}

/// The canonical text of a leaf notation.
pub open spec fn render_literal(l: Literal) -> Seq<char> {
    match l {
        Literal::Boolean(b) => render_boolean(b),
        Literal::Char(c) => char_canon(c.value),
        Literal::Float(f) => f.value@,
        Literal::Rational(r) => int_to_dec(r.numerator as int) + seq!['/'] + int_to_dec(
            r.denominator as int,
        ),
        Literal::Int(i) => int_to_dec(i.value as int),
        Literal::String_(s) => seq!['"'] + s.value@ + seq!['"'],
        Literal::Identifier(i) => i.name@,
    }
}

/// The canonical text of a notation node; spans play no part.
pub open spec fn render_notation(n: ENotation) -> Seq<char>
    decreases n, 1int,
{
    render_body(n.body)
}

/// The canonical text of a notation body.
pub open spec fn render_body(b: ENotationBody) -> Seq<char>
    decreases b, 1int,
{
    match b {
        ENotationBody::Literal(l) => render_literal(l),
        ENotationBody::Container(c) => render_container(c),
        ENotationBody::Quoting(q) => render_quoting(q),
        ENotationBody::Syntaxing(s) => render_syntaxing(s),
    }
}

/// The canonical text of a container.
pub open spec fn render_container(c: Container) -> Seq<char>
    decreases c, 1int,
{
    match c {
        Container::List(l) => render_list(l),
        Container::Vector(v) => render_vector(v),
        Container::Set_(s) => seq!['#', '{'] + render_elems(s.elems@) + seq!['}'],
        Container::Object(o) => seq!['{'] + render_pairs(o.pairs@, 0) + seq!['}'],
    }
}

/// The canonical text of a list, in its original delimiter style.
pub open spec fn render_list(l: List) -> Seq<char>
    decreases l, 1int,
{
    match l {
        List::PL(pl) => seq!['('] + render_elems(pl.elems@) + seq![')'],
        List::BL(bl) => seq!['['] + render_elems(bl.elems@) + seq![']'],
    }
}

/// The canonical text of a vector, in its original delimiter style.
pub open spec fn render_vector(v: Vector) -> Seq<char>
    decreases v, 1int,
{
    match v {
        Vector::PV(pv) => seq!['#', '('] + render_elems(pv.elems@) + seq![')'],
        Vector::BV(bv) => seq!['#', '['] + render_elems(bv.elems@) + seq![']'],
    }
}

/// Space-joined canonical texts of a sequence of elements.
pub open spec fn render_elems(s: Seq<ENotation>) -> Seq<char>
    decreases s, 1int,
{
    if s.len() == 0 {
        Seq::<char>::empty()
    } else {
        render_notation(s[0]) + render_elems_tail(s, 1)
    }
}

/// The elements of `s` from index `i` on, each preceded by one space.
pub open spec fn render_elems_tail(s: Seq<ENotation>, i: int) -> Seq<char>
    decreases s, 0int, s.len() - i,
{
    if i < 0 || i >= s.len() {
        Seq::<char>::empty()
    } else {
        seq![' '] + render_notation(s[i]) + render_elems_tail(s, i + 1)
    }
}

/// The pairs of an object from index `i` on: `key: value`, comma-space
/// separated.
pub open spec fn render_pairs(s: Seq<ObjectPair>, i: int) -> Seq<char>
    decreases s, 1int, s.len() - i,
{
    if i < 0 || i >= s.len() {
        Seq::<char>::empty()
    } else if i == s.len() - 1 {
        render_pair(s[i])
    } else {
        render_pair(s[i]) + seq![',', ' '] + render_pairs(s, i + 1)
    }
}

/// One object pair: the key, a colon and a space, the value.
pub open spec fn render_pair(p: ObjectPair) -> Seq<char>
    decreases p, 1int,
{
    p.key.name@ + seq![':', ' '] + render_notation(p.value)
}

/// The canonical text of a quoting form: its one-character prefix
/// (two for `,@`) immediately before the child, no space.
pub open spec fn render_quoting(q: Quoting) -> Seq<char>
    decreases q, 1int,
{
    match q {
        Quoting::Quote(x) => seq!['\''] + render_notation(*x.value),
        Quoting::QuasiQuote(x) => seq!['`'] + render_notation(*x.value),
        Quoting::Unquote(x) => seq![','] + render_notation(*x.value),
        Quoting::UnquoteSplicing(x) => seq![',', '@'] + render_notation(*x.value),
    }
}

/// The canonical text of a syntaxing form: as quoting, under a `#`.
pub open spec fn render_syntaxing(s: Syntaxing) -> Seq<char>
    decreases s, 1int,
{
    match s {
        Syntaxing::Syntax(x) => seq!['#', '\''] + render_notation(*x.value),
        Syntaxing::QuasiSyntax(x) => seq!['#', '`'] + render_notation(*x.value),
        Syntaxing::Unsyntax(x) => seq!['#', ','] + render_notation(*x.value),
        Syntaxing::UnsyntaxSplicing(x) => seq!['#', ',', '@'] + render_notation(*x.value),
    }
}

/// The canonical text of a whole file: each notation on a line of its
/// own, a newline after every one; the empty file is the empty text.
pub open spec fn render_file(f: EFile) -> Seq<char> {
    render_file_from(f.notations@, 0)
}

/// The notations of `s` from index `i` on, each followed by one newline.
pub open spec fn render_file_from(s: Seq<ENotation>, i: int) -> Seq<char>
    decreases s, 1int, s.len() - i,
{
    if i < 0 || i >= s.len() {
        Seq::<char>::empty()
    } else {
        render_notation(s[i]) + seq!['\n'] + render_file_from(s, i + 1)
    }
}


/// Appends the characters of `s` to `out`.
fn write_str_chars(s: &String, out: &mut Vec<char>)
    ensures
        final(out)@ == old(out)@ + s@,
{
    let cs = crate::text::str_to_chars(s.as_str());
    out.extend_from_slice(cs.as_slice());
    assert(final(out)@ =~= old(out)@ + s@);
}

impl Boolean {
    pub fn write_text(&self, out: &mut Vec<char>)
        ensures
            final(out)@ == old(out)@ + render_boolean(*self),
    {
        out.push('#');
        if self.value {
            out.push('t');
        } else {
            out.push('f');
        }
        assert(final(out)@ =~= old(out)@ + render_boolean(*self));
    }

    /// The canonical text: `#t` or `#f`.
    pub fn to_text(&self) -> (r: String)
        ensures
            r@ == render_boolean(*self),
    {
        let mut v: Vec<char> = Vec::new();
        self.write_text(&mut v);
        chars_to_string(&v)
    }
}

impl Char {
    pub fn write_text(&self, out: &mut Vec<char>)
        ensures
            final(out)@ == old(out)@ + char_canon(self.value),
    {
        out.push('#');
        out.push('\\');
        if self.value == '\n' {
            out.push('n');
            out.push('e');
            out.push('w');
            out.push('l');
            out.push('i');
            out.push('n');
            out.push('e');
        } else if self.value == '\r' {
            out.push('r');
            out.push('e');
            out.push('t');
            out.push('u');
            out.push('r');
            out.push('n');
        } else if self.value == ' ' {
            out.push('s');
            out.push('p');
            out.push('a');
            out.push('c');
            out.push('e');
        } else if self.value == '\t' {
            out.push('t');
            out.push('a');
            out.push('b');
        } else {
            out.push(self.value);
        }
        assert(final(out)@ =~= old(out)@ + char_canon(self.value));
    }

    /// The canonical text: the inverse of the named-escape table, else
    /// `#\` followed by the character itself.
    pub fn to_text(&self) -> (r: String)
        ensures
            r@ == char_canon(self.value),
    {
        let mut v: Vec<char> = Vec::new();
        self.write_text(&mut v);
        chars_to_string(&v)
    }
}

impl Integer {
    pub fn write_text(&self, out: &mut Vec<char>)
        ensures
            final(out)@ == old(out)@ + int_to_dec(self.value as int),
    {
        write_i64(self.value, out);
    }

    /// The canonical text: decimal, a sign only if negative.
    pub fn to_text(&self) -> (r: String)
        ensures
            r@ == int_to_dec(self.value as int),
    {
        let mut v: Vec<char> = Vec::new();
        self.write_text(&mut v);
        chars_to_string(&v)
    }
}

impl Rational {
    pub fn write_text(&self, out: &mut Vec<char>)
        ensures
            final(out)@ == old(out)@ + int_to_dec(self.numerator as int) + seq!['/'] + int_to_dec(
                self.denominator as int,
            ),
    {
        write_i64(self.numerator, out);
        out.push('/');
        write_i64(self.denominator, out);
    }

    /// The canonical text `numerator/denominator`, exactly as stored.
    pub fn to_text(&self) -> (r: String)
        ensures
            r@ == int_to_dec(self.numerator as int) + seq!['/'] + int_to_dec(
                self.denominator as int,
            ),
    {
        let mut v: Vec<char> = Vec::new();
        self.write_text(&mut v);
        chars_to_string(&v)
    }
}

impl Float {
    pub fn write_text(&self, out: &mut Vec<char>)
        ensures
            final(out)@ == old(out)@ + self.value@,
    {
        write_str_chars(&self.value, out);
    }

    /// The text of the float literal, verbatim.
    pub fn to_text(&self) -> (r: String)
        ensures
            r@ == self.value@,
    {
        let mut v: Vec<char> = Vec::new();
        self.write_text(&mut v);
        chars_to_string(&v)
    }
}

impl String_ {
    pub fn write_text(&self, out: &mut Vec<char>)
        ensures
            final(out)@ == old(out)@ + seq!['"'] + self.value@ + seq!['"'],
    {
        out.push('"');
        write_str_chars(&self.value, out);
        out.push('"');
        assert(final(out)@ =~= old(out)@ + seq!['"'] + self.value@ + seq!['"']);
    }

    /// The canonical text: the stored text wrapped in double quotes,
    /// whatever quote character the source used.
    pub fn to_text(&self) -> (r: String)
        ensures
            r@ == seq!['"'] + self.value@ + seq!['"'],
    {
        let mut v: Vec<char> = Vec::new();
        self.write_text(&mut v);
        chars_to_string(&v)
    }
}

impl Identifier {
    pub fn write_text(&self, out: &mut Vec<char>)
        ensures
            final(out)@ == old(out)@ + self.name@,
    {
        write_str_chars(&self.name, out);
    }

    /// The identifier, verbatim.
    pub fn to_text(&self) -> (r: String)
        ensures
            r@ == self.name@,
    {
        let mut v: Vec<char> = Vec::new();
        self.write_text(&mut v);
        chars_to_string(&v)
    }
}

impl Literal {
    pub fn write_text(&self, out: &mut Vec<char>)
        ensures
            final(out)@ == old(out)@ + render_literal(*self),
    {
        match self {
            Literal::Boolean(b) => b.write_text(out),
            Literal::Char(c) => c.write_text(out),
            Literal::Float(f) => f.write_text(out),
            Literal::Rational(r) => r.write_text(out),
            Literal::Int(i) => i.write_text(out),
            Literal::String_(s) => s.write_text(out),
            Literal::Identifier(i) => i.write_text(out),
        }
    }

    /// The canonical text of the leaf.
    pub fn to_text(&self) -> (r: String)
        ensures
            r@ == render_literal(*self),
    {
        let mut v: Vec<char> = Vec::new();
        self.write_text(&mut v);
        chars_to_string(&v)
    }
}


/// The canonical text of a bare unnamed-object form: as every object, its
/// keys are written out — here the positional keys `0`, `1`, … that its
/// bare elements receive in encounter order.
pub open spec fn render_unamed(u: UnamedObject) -> Seq<char>
    decreases u, 1int,
{
    seq!['{'] + render_unamed_from(u.elems@, 0) + seq!['}']
}

/// The elements of `s` from index `i` on, comma-space-joined, each under
/// its decimal position as the key.
pub open spec fn render_unamed_from(s: Seq<ENotation>, i: int) -> Seq<char>
    decreases s, 0int, s.len() - i,
{
    if i < 0 || i >= s.len() {
        Seq::<char>::empty()
    } else if i == s.len() - 1 {
        crate::text::dec_digits(i as nat) + seq![':', ' '] + render_notation(s[i])
    } else {
        crate::text::dec_digits(i as nat) + seq![':', ' '] + render_notation(s[i]) + seq![
            ',',
            ' ',
        ] + render_unamed_from(s, i + 1)
    }
}

/// Appends the space-joined elements to `out`.
fn write_elems(elems: &Vec<ENotation>, out: &mut Vec<char>)
    ensures
        final(out)@ == old(out)@ + render_elems(elems@),
    decreases elems@, 1int, 0int,
{
    if elems.len() > 0 {
        elems[0].write_text(out);
        write_elems_tail(elems, 1, out);
        assert(final(out)@ =~= old(out)@ + render_elems(elems@));
    } else {
        assert(final(out)@ =~= old(out)@ + render_elems(elems@));
    }
}

/// Appends the elements from index `i` on, each preceded by one space.
fn write_elems_tail(elems: &Vec<ENotation>, i: usize, out: &mut Vec<char>)
    ensures
        final(out)@ == old(out)@ + render_elems_tail(elems@, i as int),
    decreases elems@, 0int, elems@.len() - i,
{
    if i < elems.len() {
        out.push(' ');
        elems[i].write_text(out);
        write_elems_tail(elems, i + 1, out);
        assert(final(out)@ =~= old(out)@ + render_elems_tail(elems@, i as int));
    } else {
        assert(final(out)@ =~= old(out)@ + render_elems_tail(elems@, i as int));
    }
}

/// Appends the pairs from index `i` on, comma-space-joined.
fn write_pairs_from(pairs: &Vec<ObjectPair>, i: usize, out: &mut Vec<char>)
    ensures
        final(out)@ == old(out)@ + render_pairs(pairs@, i as int),
    decreases pairs@, 0int, pairs@.len() - i,
{
    if i < pairs.len() {
        pairs[i].write_text(out);
        if i + 1 < pairs.len() {
            out.push(',');
            out.push(' ');
            write_pairs_from(pairs, i + 1, out);
        }
        assert(final(out)@ =~= old(out)@ + render_pairs(pairs@, i as int));
    } else {
        assert(final(out)@ =~= old(out)@ + render_pairs(pairs@, i as int));
    }
}

/// Appends the elements from index `i` on, comma-space-joined, each under
/// its positional key.
fn write_unamed_from(elems: &Vec<ENotation>, i: usize, out: &mut Vec<char>)
    ensures
        final(out)@ == old(out)@ + render_unamed_from(elems@, i as int),
    decreases elems@, 0int, elems@.len() - i,
{
    if i < elems.len() {
        crate::text::write_u64_digits(i as u64, out);
        out.push(':');
        out.push(' ');
        elems[i].write_text(out);
        if i + 1 < elems.len() {
            out.push(',');
            out.push(' ');
            write_unamed_from(elems, i + 1, out);
        }
        assert(final(out)@ =~= old(out)@ + render_unamed_from(elems@, i as int));
    } else {
        assert(final(out)@ =~= old(out)@ + render_unamed_from(elems@, i as int));
    }
}

impl PList {
    pub fn write_text(&self, out: &mut Vec<char>)
        ensures
            final(out)@ == old(out)@ + render_list(List::PL((*self))),
        decreases *self, 1int, 0int,
    {
        out.push('(');
        write_elems(&self.elems, out);
        out.push(')');
        assert(final(out)@ =~= old(out)@ + render_list(List::PL((*self))));
    }

    /// The canonical text `( … )`.
    pub fn to_text(&self) -> (r: String)
        ensures
            r@ == render_list(List::PL((*self))),
    {
        let mut v: Vec<char> = Vec::new();
        self.write_text(&mut v);
        chars_to_string(&v)
    }
}

impl BList {
    pub fn write_text(&self, out: &mut Vec<char>)
        ensures
            final(out)@ == old(out)@ + render_list(List::BL((*self))),
        decreases *self, 1int, 0int,
    {
        out.push('[');
        write_elems(&self.elems, out);
        out.push(']');
        assert(final(out)@ =~= old(out)@ + render_list(List::BL((*self))));
    }

    /// The canonical text `[ … ]`.
    pub fn to_text(&self) -> (r: String)
        ensures
            r@ == render_list(List::BL((*self))),
    {
        let mut v: Vec<char> = Vec::new();
        self.write_text(&mut v);
        chars_to_string(&v)
    }
}

impl List {
    pub fn write_text(&self, out: &mut Vec<char>)
        ensures
            final(out)@ == old(out)@ + render_list(*self),
        decreases *self, 2int, 0int,
    {
        match self {
            List::PL(pl) => pl.write_text(out),
            List::BL(bl) => bl.write_text(out),
        }
    }

    /// The canonical text, in the list's own delimiter style.
    pub fn to_text(&self) -> (r: String)
        ensures
            r@ == render_list(*self),
    {
        let mut v: Vec<char> = Vec::new();
        self.write_text(&mut v);
        chars_to_string(&v)
    }
}

impl Vector {
    pub fn write_text(&self, out: &mut Vec<char>)
        ensures
            final(out)@ == old(out)@ + render_vector(*self),
        decreases *self, 1int, 0int,
    {
        out.push('#');
        match self {
            Vector::PV(pv) => {
                out.push('(');
                write_elems(&pv.elems, out);
                out.push(')');
            },
            Vector::BV(bv) => {
                out.push('[');
                write_elems(&bv.elems, out);
                out.push(']');
            },
        }
        assert(final(out)@ =~= old(out)@ + render_vector(*self));
    }

    /// The canonical text `#( … )` or `#[ … ]`.
    pub fn to_text(&self) -> (r: String)
        ensures
            r@ == render_vector(*self),
    {
        let mut v: Vec<char> = Vec::new();
        self.write_text(&mut v);
        chars_to_string(&v)
    }
}

impl Set_ {
    pub fn write_text(&self, out: &mut Vec<char>)
        ensures
            final(out)@ == old(out)@ + seq!['#', '{'] + render_elems(self.elems@) + seq!['}'],
        decreases *self, 1int, 0int,
    {
        out.push('#');
        out.push('{');
        write_elems(&self.elems, out);
        out.push('}');
        assert(final(out)@ =~= old(out)@ + seq!['#', '{'] + render_elems(self.elems@)
            + seq!['}']);
    }

    /// The canonical text `#{ … }`.
    pub fn to_text(&self) -> (r: String)
        ensures
            r@ == seq!['#', '{'] + render_elems(self.elems@) + seq!['}'],
    {
        let mut v: Vec<char> = Vec::new();
        self.write_text(&mut v);
        chars_to_string(&v)
    }
}

impl ObjectPair {
    pub fn write_text(&self, out: &mut Vec<char>)
        ensures
            final(out)@ == old(out)@ + render_pair(*self),
        decreases *self, 1int, 0int,
    {
        write_str_chars(&self.key.name, out);
        out.push(':');
        out.push(' ');
        self.value.write_text(out);
        assert(final(out)@ =~= old(out)@ + render_pair(*self));
    }

    /// The canonical text `key: value`.
    pub fn to_text(&self) -> (r: String)
        ensures
            r@ == render_pair(*self),
    {
        let mut v: Vec<char> = Vec::new();
        self.write_text(&mut v);
        chars_to_string(&v)
    }
}

impl Object {
    pub fn write_text(&self, out: &mut Vec<char>)
        ensures
            final(out)@ == old(out)@ + seq!['{'] + render_pairs(self.pairs@, 0) + seq!['}'],
        decreases *self, 1int, 0int,
    {
        out.push('{');
        write_pairs_from(&self.pairs, 0, out);
        out.push('}');
        assert(final(out)@ =~= old(out)@ + seq!['{'] + render_pairs(self.pairs@, 0)
            + seq!['}']);
    }

    /// The canonical text `{k: v, …}`.
    pub fn to_text(&self) -> (r: String)
        ensures
            r@ == seq!['{'] + render_pairs(self.pairs@, 0) + seq!['}'],
    {
        let mut v: Vec<char> = Vec::new();
        self.write_text(&mut v);
        chars_to_string(&v)
    }
}

impl UnamedObject {
    pub fn write_text(&self, out: &mut Vec<char>)
        ensures
            final(out)@ == old(out)@ + render_unamed(*self),
        decreases *self, 1int, 0int,
    {
        out.push('{');
        write_unamed_from(&self.elems, 0, out);
        out.push('}');
        assert(final(out)@ =~= old(out)@ + render_unamed(*self));
    }

    /// The canonical text `{0: v1, 1: v2, …}`: the positional keys the
    /// bare elements receive are always written out.
    pub fn to_text(&self) -> (r: String)
        ensures
            r@ == render_unamed(*self),
    {
        let mut v: Vec<char> = Vec::new();
        self.write_text(&mut v);
        chars_to_string(&v)
    }
}

impl Container {
    pub fn write_text(&self, out: &mut Vec<char>)
        ensures
            final(out)@ == old(out)@ + render_container(*self),
        decreases *self, 2int, 0int,
    {
        match self {
            Container::List(l) => l.write_text(out),
            Container::Vector(v) => v.write_text(out),
            Container::Set_(s) => s.write_text(out),
            Container::Object(o) => o.write_text(out),
        }
    }

    /// The canonical text of the container.
    pub fn to_text(&self) -> (r: String)
        ensures
            r@ == render_container(*self),
    {
        let mut v: Vec<char> = Vec::new();
        self.write_text(&mut v);
        chars_to_string(&v)
    }
}

impl Quote {
    pub fn write_text(&self, out: &mut Vec<char>)
        ensures
            final(out)@ == old(out)@ + seq!['\''] + render_notation(*self.value),
        decreases *self, 1int, 0int,
    {
        out.push('\'');
        self.value.write_text(out);
        assert(final(out)@ =~= old(out)@ + seq!['\''] + render_notation(*self.value));
    }

    /// The canonical text `'x`.
    pub fn to_text(&self) -> (r: String)
        ensures
            r@ == seq!['\''] + render_notation(*self.value),
    {
        let mut v: Vec<char> = Vec::new();
        self.write_text(&mut v);
        chars_to_string(&v)
    }
}

impl QuasiQuote {
    pub fn write_text(&self, out: &mut Vec<char>)
        ensures
            final(out)@ == old(out)@ + seq!['`'] + render_notation(*self.value),
        decreases *self, 1int, 0int,
    {
        out.push('`');
        self.value.write_text(out);
        assert(final(out)@ =~= old(out)@ + seq!['`'] + render_notation(*self.value));
    }

    /// The canonical text `` `x ``.
    pub fn to_text(&self) -> (r: String)
        ensures
            r@ == seq!['`'] + render_notation(*self.value),
    {
        let mut v: Vec<char> = Vec::new();
        self.write_text(&mut v);
        chars_to_string(&v)
    }
}

impl Unquote {
    pub fn write_text(&self, out: &mut Vec<char>)
        ensures
            final(out)@ == old(out)@ + seq![','] + render_notation(*self.value),
        decreases *self, 1int, 0int,
    {
        out.push(',');
        self.value.write_text(out);
        assert(final(out)@ =~= old(out)@ + seq![','] + render_notation(*self.value));
    }

    /// The canonical text `,x`.
    pub fn to_text(&self) -> (r: String)
        ensures
            r@ == seq![','] + render_notation(*self.value),
    {
        let mut v: Vec<char> = Vec::new();
        self.write_text(&mut v);
        chars_to_string(&v)
    }
}

impl UnquoteSplicing {
    pub fn write_text(&self, out: &mut Vec<char>)
        ensures
            final(out)@ == old(out)@ + seq![',', '@'] + render_notation(*self.value),
        decreases *self, 1int, 0int,
    {
        out.push(',');
        out.push('@');
        self.value.write_text(out);
        assert(final(out)@ =~= old(out)@ + seq![',', '@'] + render_notation(*self.value));
    }

    /// The canonical text `,@x`.
    pub fn to_text(&self) -> (r: String)
        ensures
            r@ == seq![',', '@'] + render_notation(*self.value),
    {
        let mut v: Vec<char> = Vec::new();
        self.write_text(&mut v);
        chars_to_string(&v)
    }
}

impl Quoting {
    pub fn write_text(&self, out: &mut Vec<char>)
        ensures
            final(out)@ == old(out)@ + render_quoting(*self),
        decreases *self, 2int, 0int,
    {
        match self {
            Quoting::Quote(q) => q.write_text(out),
            Quoting::QuasiQuote(q) => q.write_text(out),
            Quoting::Unquote(q) => q.write_text(out),
            Quoting::UnquoteSplicing(q) => q.write_text(out),
        }
    }

    /// The canonical text of the quoting form.
    pub fn to_text(&self) -> (r: String)
        ensures
            r@ == render_quoting(*self),
    {
        let mut v: Vec<char> = Vec::new();
        self.write_text(&mut v);
        chars_to_string(&v)
    }
}

impl Syntax {
    pub fn write_text(&self, out: &mut Vec<char>)
        ensures
            final(out)@ == old(out)@ + seq!['#', '\''] + render_notation(*self.value),
        decreases *self, 1int, 0int,
    {
        out.push('#');
        out.push('\'');
        self.value.write_text(out);
        assert(final(out)@ =~= old(out)@ + seq!['#', '\''] + render_notation(*self.value));
    }

    /// The canonical text `#'x`.
    pub fn to_text(&self) -> (r: String)
        ensures
            r@ == seq!['#', '\''] + render_notation(*self.value),
    {
        let mut v: Vec<char> = Vec::new();
        self.write_text(&mut v);
        chars_to_string(&v)
    }
}

impl QuasiSyntax {
    pub fn write_text(&self, out: &mut Vec<char>)
        ensures
            final(out)@ == old(out)@ + seq!['#', '`'] + render_notation(*self.value),
        decreases *self, 1int, 0int,
    {
        out.push('#');
        out.push('`');
        self.value.write_text(out);
        assert(final(out)@ =~= old(out)@ + seq!['#', '`'] + render_notation(*self.value));
    }

    /// The canonical text `` #`x ``.
    pub fn to_text(&self) -> (r: String)
        ensures
            r@ == seq!['#', '`'] + render_notation(*self.value),
    {
        let mut v: Vec<char> = Vec::new();
        self.write_text(&mut v);
        chars_to_string(&v)
    }
}

impl Unsyntax {
    pub fn write_text(&self, out: &mut Vec<char>)
        ensures
            final(out)@ == old(out)@ + seq!['#', ','] + render_notation(*self.value),
        decreases *self, 1int, 0int,
    {
        out.push('#');
        out.push(',');
        self.value.write_text(out);
        assert(final(out)@ =~= old(out)@ + seq!['#', ','] + render_notation(*self.value));
    }

    /// The canonical text `#,x`.
    pub fn to_text(&self) -> (r: String)
        ensures
            r@ == seq!['#', ','] + render_notation(*self.value),
    {
        let mut v: Vec<char> = Vec::new();
        self.write_text(&mut v);
        chars_to_string(&v)
    }
}

impl UnsyntaxSplicing {
    pub fn write_text(&self, out: &mut Vec<char>)
        ensures
            final(out)@ == old(out)@ + seq!['#', ',', '@'] + render_notation(*self.value),
        decreases *self, 1int, 0int,
    {
        out.push('#');
        out.push(',');
        out.push('@');
        self.value.write_text(out);
        assert(final(out)@ =~= old(out)@ + seq!['#', ',', '@'] + render_notation(
            *self.value,
        ));
    }

    /// The canonical text `#,@x`.
    pub fn to_text(&self) -> (r: String)
        ensures
            r@ == seq!['#', ',', '@'] + render_notation(*self.value),
    {
        let mut v: Vec<char> = Vec::new();
        self.write_text(&mut v);
        chars_to_string(&v)
    }
}

impl Syntaxing {
    pub fn write_text(&self, out: &mut Vec<char>)
        ensures
            final(out)@ == old(out)@ + render_syntaxing(*self),
        decreases *self, 2int, 0int,
    {
        match self {
            Syntaxing::Syntax(x) => x.write_text(out),
            Syntaxing::QuasiSyntax(x) => x.write_text(out),
            Syntaxing::Unsyntax(x) => x.write_text(out),
            Syntaxing::UnsyntaxSplicing(x) => x.write_text(out),
        }
    }

    /// The canonical text of the syntaxing form.
    pub fn to_text(&self) -> (r: String)
        ensures
            r@ == render_syntaxing(*self),
    {
        let mut v: Vec<char> = Vec::new();
        self.write_text(&mut v);
        chars_to_string(&v)
    }
}

impl ENotationBody {
    pub fn write_text(&self, out: &mut Vec<char>)
        ensures
            final(out)@ == old(out)@ + render_body(*self),
        decreases *self, 3int, 0int,
    {
        match self {
            ENotationBody::Literal(l) => l.write_text(out),
            ENotationBody::Container(c) => c.write_text(out),
            ENotationBody::Quoting(q) => q.write_text(out),
            ENotationBody::Syntaxing(s) => s.write_text(out),
        }
    }

    /// The canonical text of the body.
    pub fn to_text(&self) -> (r: String)
        ensures
            r@ == render_body(*self),
    {
        let mut v: Vec<char> = Vec::new();
        self.write_text(&mut v);
        chars_to_string(&v)
    }
}

impl ENotation {
    pub fn write_text(&self, out: &mut Vec<char>)
        ensures
            final(out)@ == old(out)@ + render_notation(*self),
        decreases *self, 4int, 0int,
    {
        self.body.write_text(out);
    }

    /// The canonical text of the notation.
    pub fn to_text(&self) -> (r: String)
        ensures
            r@ == render_notation(*self),
    {
        let mut v: Vec<char> = Vec::new();
        self.write_text(&mut v);
        chars_to_string(&v)
    }
}

/// Appends the notations from index `i` on, a newline after each.
fn write_file_from(notations: &Vec<ENotation>, i: usize, out: &mut Vec<char>)
    ensures
        final(out)@ == old(out)@ + render_file_from(notations@, i as int),
    decreases notations@, 0int, notations@.len() - i,
{
    if i < notations.len() {
        notations[i].write_text(out);
        out.push('\n');
        write_file_from(notations, i + 1, out);
        assert(final(out)@ =~= old(out)@ + render_file_from(notations@, i as int));
    } else {
        assert(final(out)@ =~= old(out)@ + render_file_from(notations@, i as int));
    }
}

impl EFile {
    pub fn write_text(&self, out: &mut Vec<char>)
        ensures
            final(out)@ == old(out)@ + render_file(*self),
    {
        write_file_from(&self.notations, 0, out);
    }

    /// The canonical text of the file: one line per notation, each closed
    /// by a newline.
    pub fn to_text(&self) -> (r: String)
        ensures
            r@ == render_file(*self),
    {
        let mut v: Vec<char> = Vec::new();
        self.write_text(&mut v);
        chars_to_string(&v)
    }
}

} // verus!
