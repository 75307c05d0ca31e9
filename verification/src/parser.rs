//! The grammar front-end: a recursive-descent reader that turns source text
//! into span-annotated [`ENotation`] trees. Comments and whitespace are
//! skipped; every node's span is captured at construction, from the exact
//! character range it was read from, and a freshly parsed tree carries no
//! file identifier. A failed parse is fatal: no partial tree escapes.

use vstd::prelude::*;

use crate::{DiagnosticSpan, EFile, ENotation, ENotationBody};
use crate::container::Container;
use crate::container::list::{BList, List, PList};
use crate::container::object::{Object, ObjectPair};
use crate::container::set::Set_;
use crate::container::unamed_object::UnamedObject;
use crate::container::vector::{BVector, PVector, Vector};
use crate::literal::{DecodeErrorKind, Identifier};
use crate::ENotationParser;
use crate::text::{
    byte_offset_of, char_byte_len, char_pos_at, chars_to_string, lemma_byte_offset_mono,
    lemma_char_pos_of_byte, str_to_chars,
};

verus! {

/// The input does not match any production; carries the exact location.
#[derive(Debug, Clone, PartialEq, Eq, Structural)]
pub struct SyntaxError {
    pub line: usize,
    pub col: usize,
    pub offset: usize,
}

/// The input matched syntactically but a leaf decoder's semantic constraint
/// failed; carries the kind and the location of the offending literal.
#[derive(Debug, Clone, PartialEq, Eq, Structural)]
pub struct DecodeError {
    pub kind: DecodeErrorKind,
    pub line: usize,
    pub col: usize,
    pub offset: usize,
}

/// What a parse can report. Both kinds are fatal: the whole build of the
/// tree is abandoned.
#[derive(Debug, Clone, PartialEq, Eq, Structural)]
pub enum NotationError {
    Syntax(SyntaxError),
    Decode(DecodeError),
}

/// Whitespace between tokens.
pub open spec fn is_space_char(c: char) -> bool {
    c == ' ' || c == '\t' || c == '\r' || c == '\n'
}

/// The characters that end an atom token: whitespace, brackets and braces,
/// the quote-family prefixes, string quotes, the comment and pair marks.
pub open spec fn is_delimiter_char(c: char) -> bool {
    ||| is_space_char(c)
    ||| c == '('
    ||| c == ')'
    ||| c == '['
    ||| c == ']'
    ||| c == '{'
    ||| c == '}'
    ||| c == '"'
    ||| c == '\''
    ||| c == '`'
    ||| c == ','
    ||| c == ';'
    ||| c == ':'
}

/// Does trivia (whitespace or a comment) begin at `pos`?
pub open spec fn is_trivia_start(s: Seq<char>, pos: int) -> bool {
    pos < s.len() && (is_space_char(s[pos]) || s[pos] == ';' || (s[pos] == '#' && pos + 1
        < s.len() && s[pos + 1] == ';'))
}

/// The end of the run of space characters from `i` on.
pub open spec fn spaces_end(s: Seq<char>, i: int) -> int
    decreases s.len() - i,
{
    if i < 0 || i >= s.len() {
        i
    } else if is_space_char(s[i]) {
        spaces_end(s, i + 1)
    } else {
        i
    }
}

proof fn lemma_spaces_end(s: Seq<char>, i: int)
    requires
        0 <= i <= s.len(),
    ensures
        i <= spaces_end(s, i) <= s.len(),
        forall|j: int| i <= j < spaces_end(s, i) ==> is_space_char(#[trigger] s[j]),
        spaces_end(s, i) < s.len() ==> !is_space_char(s[spaces_end(s, i)]),
    decreases s.len() - i,
{
    if i < s.len() && is_space_char(s[i]) {
        lemma_spaces_end(s, i + 1);
    }
}

/// A whole input that is one atom token: non-empty and free of delimiter
/// characters throughout.
pub open spec fn atom_input(s: Seq<char>) -> bool {
    s.len() > 0 && forall|i: int| 0 <= i < s.len() ==> !is_delimiter_char(#[trigger] s[i])
}

/// A whole input that is one string literal: a double quote, an interior
/// free of double quotes, a double quote.
pub open spec fn string_input(s: Seq<char>) -> bool {
    s.len() >= 2 && s[0] == '"' && s[s.len() - 1] == '"' && forall|i: int|
        0 < i < s.len() - 1 ==> s[i] != '"'
}

/// A whole input that is exactly one literal token.
pub open spec fn literal_input(s: Seq<char>) -> bool {
    atom_input(s) || string_input(s)
}

/// The only ways a literal token can fail to decode: a `#\`-prefixed
/// token with no valid character escape, or an integer — alone or as a
/// rational's component — beyond the 64-bit signed range.
pub open spec fn literal_input_fails(s: Seq<char>) -> bool {
    atom_input(s) && (
    (s.len() >= 2 && s[0] == '#' && s[1] == '\\' && crate::literal::char_decode(s) is None) || (
    crate::literal::int_text_wf(s) && !(i64::MIN <= crate::literal::int_text_val(s)
        <= i64::MAX)) || (!crate::literal::int_text_wf(s) && crate::literal::rational_text_wf(s)
        && !(i64::MIN <= crate::literal::rational_num_val(s) <= i64::MAX && i64::MIN
        <= crate::literal::rational_den_val(s) <= i64::MAX)))
}

/// A plain `key: value` input: an atom key from the first character, a
/// colon right after it, optional spaces, then one literal token to the
/// end.
pub open spec fn pair_input_lit(s: Seq<char>) -> bool {
    let k = find_delim_from(s, 1);
    let v = spaces_end(s, k + 1);
    &&& s.len() > 0
    &&& !is_trivia_start(s, 0)
    &&& !is_delimiter_char(s[0])
    &&& k < s.len() && s[k] == ':'
    &&& v < s.len()
    &&& !is_trivia_start(s, v)
    &&& literal_input(s.subrange(v, s.len() as int))
    &&& !literal_input_fails(s.subrange(v, s.len() as int))
}

/// The body family the opening characters at `pos` dictate: which
/// delimiter or prefix opens which node kind. An atom token opening (any
/// other character) always builds a literal leaf.
pub open spec fn body_opens(s: Seq<char>, pos: int, b: ENotationBody) -> bool {
    if pos < 0 || pos >= s.len() {
        true
    } else {
        let c = s[pos];
        if c == '(' {
            b matches ENotationBody::Container(Container::List(List::PL(_)))
        } else if c == '[' {
            b matches ENotationBody::Container(Container::List(List::BL(_)))
        } else if c == '{' {
            b matches ENotationBody::Container(Container::Object(_))
        } else if c == '"' {
            b matches ENotationBody::Literal(crate::literal::Literal::String_(_))
        } else if c == '\'' {
            b matches ENotationBody::Quoting(crate::quoting::Quoting::Quote(_))
        } else if c == '`' {
            b matches ENotationBody::Quoting(crate::quoting::Quoting::QuasiQuote(_))
        } else if c == ',' {
            if pos + 1 < s.len() && s[pos + 1] == '@' {
                b matches ENotationBody::Quoting(crate::quoting::Quoting::UnquoteSplicing(_))
            } else {
                b matches ENotationBody::Quoting(crate::quoting::Quoting::Unquote(_))
            }
        } else if c == '#' && pos + 1 < s.len() && s[pos + 1] == '(' {
            b matches ENotationBody::Container(Container::Vector(Vector::PV(_)))
        } else if c == '#' && pos + 1 < s.len() && s[pos + 1] == '[' {
            b matches ENotationBody::Container(Container::Vector(Vector::BV(_)))
        } else if c == '#' && pos + 1 < s.len() && s[pos + 1] == '{' {
            b matches ENotationBody::Container(Container::Set_(_))
        } else if c == '#' && pos + 1 < s.len() && s[pos + 1] == '\'' {
            b matches ENotationBody::Syntaxing(crate::syntaxing::Syntaxing::Syntax(_))
        } else if c == '#' && pos + 1 < s.len() && s[pos + 1] == '`' {
            b matches ENotationBody::Syntaxing(crate::syntaxing::Syntaxing::QuasiSyntax(_))
        } else if c == '#' && pos + 1 < s.len() && s[pos + 1] == ',' {
            if pos + 2 < s.len() && s[pos + 2] == '@' {
                b matches ENotationBody::Syntaxing(
                    crate::syntaxing::Syntaxing::UnsyntaxSplicing(_),
                )
            } else {
                b matches ENotationBody::Syntaxing(crate::syntaxing::Syntaxing::Unsyntax(_))
            }
        } else {
            b matches ENotationBody::Literal(_)
        }
    }
}

/// Which literal a whole token text builds — the reader's classification
/// precedence written out: booleans, then character escapes, then integer,
/// rational and float in that order, strings from their quotes, and
/// identifiers as everything that remains.
pub open spec fn literal_for(t: Seq<char>, l: crate::literal::Literal) -> bool {
    match l {
        crate::literal::Literal::Boolean(b) => crate::literal::boolean_decode(t) == Some(
            b.value,
        ),
        crate::literal::Literal::Char(c) => crate::literal::char_decode(t) == Some(c.value),
        crate::literal::Literal::Int(i) => crate::literal::int_text_wf(t) && i64::MIN
            <= crate::literal::int_text_val(t) <= i64::MAX && crate::literal::int_text_val(t)
            == i.value,
        crate::literal::Literal::Rational(r) => !crate::literal::int_text_wf(t)
            && crate::literal::rational_text_wf(t) && i64::MIN
            <= crate::literal::rational_num_val(t) <= i64::MAX && i64::MIN
            <= crate::literal::rational_den_val(t) <= i64::MAX
            && crate::literal::rational_num_val(t) == r.numerator
            && crate::literal::rational_den_val(t) == r.denominator,
        crate::literal::Literal::Float(f) => !crate::literal::int_text_wf(t)
            && !crate::literal::rational_text_wf(t) && crate::literal::float_text_wf(t)
            && f.value@ == t,
        crate::literal::Literal::String_(st) => t.len() >= 2 && t[0] == '"' && t[t.len() - 1]
            == '"' && st.value@ == t.subrange(1, t.len() - 1),
        crate::literal::Literal::Identifier(id) => (t.len() == 0 || t[0] != '"')
            && crate::literal::boolean_decode(t) is None
            && !(t.len() >= 2 && t[0] == '#' && t[1] == '\\')
            && !crate::literal::int_text_wf(t) && !crate::literal::rational_text_wf(t)
            && !crate::literal::float_text_wf(t) && id.name@ == t,
    }
}

fn is_space(c: char) -> (r: bool)
    ensures
        r == is_space_char(c),
{
    c == ' ' || c == '\t' || c == '\r' || c == '\n'
}

fn is_delim(c: char) -> (r: bool)
    ensures
        r == is_delimiter_char(c),
{
    is_space(c) || c == '(' || c == ')' || c == '[' || c == ']' || c == '{' || c == '}'
        || c == '"' || c == '\'' || c == '`' || c == ',' || c == ';' || c == ':'
}

/// How many newline characters precede offset `off`.
pub open spec fn newline_count(s: Seq<char>, off: int) -> int
    decreases off,
{
    if off <= 0 {
        0
    } else {
        newline_count(s, off - 1) + if s[off - 1] == '\n' {
            1int
        } else {
            0int
        }
    }
}

/// The 1-based line number of offset `off`.
pub open spec fn line_of(s: Seq<char>, off: int) -> int {
    1 + newline_count(s, off)
}

/// The offset at which the line holding offset `off` begins.
pub open spec fn line_start(s: Seq<char>, off: int) -> int
    decreases off,
{
    if off <= 0 {
        0
    } else if s[off - 1] == '\n' {
        off
    } else {
        line_start(s, off - 1)
    }
}

/// The 1-based column number of offset `off`.
pub open spec fn col_of(s: Seq<char>, off: int) -> int {
    off - line_start(s, off) + 1
}

/// The span a node built from the characters `s[start .. end]` must carry:
/// 0-based byte offsets into the UTF-8 encoding of `s`, 1-based line and
/// column of both ends, the raw text of the range, and no file identifier
/// yet.
pub open spec fn span_for(sp: DiagnosticSpan, s: Seq<char>, start: int, end: int) -> bool {
    &&& sp.start_offset == byte_offset_of(s, start)
    &&& sp.end_offset == byte_offset_of(s, end)
    &&& sp.start_line == line_of(s, start)
    &&& sp.start_col == col_of(s, start)
    &&& sp.end_line == line_of(s, end)
    &&& sp.end_col == col_of(s, end)
    &&& sp.span@ == s.subrange(start, end)
    &&& sp.file is None
}

/// The 1-based line and column of character position `off`, and its
/// 0-based byte offset.
#[verifier::loop_isolation(false)]
fn line_col_at(cs: &Vec<char>, off: usize) -> (r: (usize, usize, usize))
    requires
        off <= cs@.len(),
        byte_offset_of(cs@, cs@.len() as int) < usize::MAX,
    ensures
        r.0 == line_of(cs@, off as int),
        r.1 == col_of(cs@, off as int),
        r.2 == byte_offset_of(cs@, off as int),
{
    proof {
        lemma_byte_offset_mono(cs@, cs@.len() as int, cs@.len() as int);
    }
    let mut cnt: usize = 0;
    let mut ls: usize = 0;
    let mut bytes: usize = 0;
    let mut j: usize = 0;
    while j < off
        invariant
            j <= off,
            cnt == newline_count(cs@, j as int),
            ls == line_start(cs@, j as int),
            bytes == byte_offset_of(cs@, j as int),
            cnt <= j,
            ls <= j,
        decreases off - j,
    {
        proof {
            lemma_byte_offset_mono(cs@, j as int + 1, cs@.len() as int);
        }
        if cs[j] == '\n' {
            cnt = cnt + 1;
            ls = j + 1;
        }
        bytes = bytes + char_byte_len(cs[j]);
        j = j + 1;
    }
    (cnt + 1, off - ls + 1, bytes)
}

/// Builds the diagnostic span of a node read from the characters
/// `cs[start .. end]`; the stored offsets are byte offsets.
#[verifier::loop_isolation(false)]
fn mk_span(cs: &Vec<char>, start: usize, end: usize) -> (r: DiagnosticSpan)
    requires
        start <= end <= cs@.len(),
        byte_offset_of(cs@, cs@.len() as int) < usize::MAX,
    ensures
        span_for(r, cs@, start as int, end as int),
{
    let (start_line, start_col, start_offset) = line_col_at(cs, start);
    let (end_line, end_col, end_offset) = line_col_at(cs, end);
    DiagnosticSpan {
        start_line,
        start_col,
        start_offset,
        end_line,
        end_col,
        end_offset,
        span: range_string(cs, start, end),
        file: None,
    }
}

/// A literal leaf agrees with the source text its span covers: the stored
/// value is exactly what that text decodes to.
pub open spec fn literal_matches_span(l: crate::literal::Literal, text: Seq<char>) -> bool {
    match l {
        crate::literal::Literal::Boolean(b) => crate::literal::boolean_decode(text) == Some(
            b.value,
        ),
        crate::literal::Literal::Char(c) => crate::literal::char_decode(text) == Some(c.value),
        crate::literal::Literal::Int(i) => crate::literal::int_text_wf(text)
            && crate::literal::int_text_val(text) == i.value,
        crate::literal::Literal::Rational(r) => crate::literal::rational_text_wf(text)
            && crate::literal::rational_num_val(text) == r.numerator
            && crate::literal::rational_den_val(text) == r.denominator,
        crate::literal::Literal::Float(f) => crate::literal::float_text_wf(text) && f.value@
            == text,
        crate::literal::Literal::String_(st) => text =~= seq!['"'] + st.value@ + seq!['"'],
        crate::literal::Literal::Identifier(id) => id.name@ == text,
    }
}

/// A notation read from `s` within `[lo, hi]`: its span lies in the range
/// and is exact for its own offsets — 1-based lines and columns, verbatim
/// text, no file yet (that is [`span_for`]); a literal leaf's value decodes
/// from that text; and every child in the body lies within its parent's
/// span — spans nest by construction.
pub open spec fn notation_wf_in(n: ENotation, s: Seq<char>, lo: int, hi: int) -> bool
    decreases n, 4int,
{
    let a = char_pos_at(s, n.span.start_offset as int);
    let b = char_pos_at(s, n.span.end_offset as int);
    &&& lo <= a <= b <= hi <= s.len()
    &&& span_for(n.span, s, a, b)
    &&& body_wf(n.body, s, a, b)
}

/// The body agrees with the source text: a literal decodes from its node's
/// text, and every contained notation lies within `[lo, hi]` and is itself
/// well formed there.
pub open spec fn body_wf(b: ENotationBody, s: Seq<char>, lo: int, hi: int) -> bool
    decreases b, 4int,
{
    match b {
        ENotationBody::Literal(l) => literal_matches_span(l, s.subrange(lo, hi)),
        ENotationBody::Container(c) => match c {
            Container::List(l) => match l {
                List::PL(pl) => elems_wf(pl.elems@, s, lo, hi),
                List::BL(bl) => elems_wf(bl.elems@, s, lo, hi),
            },
            Container::Vector(v) => match v {
                Vector::PV(pv) => elems_wf(pv.elems@, s, lo, hi),
                Vector::BV(bv) => elems_wf(bv.elems@, s, lo, hi),
            },
            Container::Set_(st) => elems_wf(st.elems@, s, lo, hi),
            Container::Object(o) => pairs_wf(o.pairs@, s, lo, hi),
        },
        ENotationBody::Quoting(q) => match q {
            crate::quoting::Quoting::Quote(x) => notation_wf_in(*x.value, s, lo, hi),
            crate::quoting::Quoting::QuasiQuote(x) => notation_wf_in(*x.value, s, lo, hi),
            crate::quoting::Quoting::Unquote(x) => notation_wf_in(*x.value, s, lo, hi),
            crate::quoting::Quoting::UnquoteSplicing(x) => notation_wf_in(*x.value, s, lo, hi),
        },
        ENotationBody::Syntaxing(sx) => match sx {
            crate::syntaxing::Syntaxing::Syntax(x) => notation_wf_in(*x.value, s, lo, hi),
            crate::syntaxing::Syntaxing::QuasiSyntax(x) => notation_wf_in(*x.value, s, lo, hi),
            crate::syntaxing::Syntaxing::Unsyntax(x) => notation_wf_in(*x.value, s, lo, hi),
            crate::syntaxing::Syntaxing::UnsyntaxSplicing(x) => notation_wf_in(
                *x.value,
                s,
                lo,
                hi,
            ),
        },
    }
}

pub open spec fn elems_wf(es: Seq<ENotation>, s: Seq<char>, lo: int, hi: int) -> bool
    decreases es, 5int,
{
    forall|i: int| 0 <= i < es.len() ==> notation_wf_in(#[trigger] es[i], s, lo, hi)
}

/// Keys carry no span; the values must lie within the range.
pub open spec fn pairs_wf(ps: Seq<ObjectPair>, s: Seq<char>, lo: int, hi: int) -> bool
    decreases ps, 5int,
{
    forall|i: int| 0 <= i < ps.len() ==> notation_wf_in((#[trigger] ps[i]).value, s, lo, hi)
}

/// A leaf node is well formed wherever its span fits: a literal holds no
/// children, so only its own span and decode need checking.
proof fn lemma_literal_wf(n: ENotation, s: Seq<char>, a: int, b: int, lo: int, hi: int)
    requires
        n.body matches ENotationBody::Literal(l) && literal_matches_span(l, s.subrange(a, b)),
        0 <= lo <= a <= b <= hi <= s.len(),
        span_for(n.span, s, a, b),
    ensures
        notation_wf_in(n, s, lo, hi),
{
    lemma_char_pos_of_byte(s, a);
    lemma_char_pos_of_byte(s, b);
}

/// Integer literal text contains no delimiter characters: a sign, digits
/// and `_` separators all continue an atom token.
pub proof fn lemma_int_text_not_delimiters(s: Seq<char>, pos: int)
    requires
        0 <= pos <= s.len(),
        crate::literal::int_text_wf(s.subrange(pos, s.len() as int)),
    ensures
        forall|i: int| pos <= i < s.len() ==> !is_delimiter_char(#[trigger] s[i]),
{
    let t = s.subrange(pos, s.len() as int);
    assert forall|i: int| pos <= i < s.len() implies !is_delimiter_char(#[trigger] s[i]) by {
        assert(t[i - pos] == s[i]);
        if i == pos {
            assert(t[0] == '+' || t[0] == '-' || crate::text::is_digit_char(t[0]));
        } else {
            assert(crate::text::is_digit_char(t[i - pos]) || t[i - pos] == '_' || t[i - pos]
                == '+' || t[i - pos] == '-');
        }
    }
}

/// A token that does not open with a sign or a digit is no number literal
/// of any kind.
proof fn lemma_not_number(t: Seq<char>)
    requires
        t.len() > 0,
        t[0] != '+',
        t[0] != '-',
        !crate::text::is_digit_char(t[0]),
    ensures
        !crate::literal::int_text_wf(t),
        !crate::literal::rational_text_wf(t),
        !crate::literal::float_text_wf(t),
{
    if crate::literal::rational_text_wf(t) {
        let k = crate::literal::find_slash(t, 0);
        assert(t.subrange(0, k)[0] == t[0]);
        assert(false);
    }
}

/// The index of the first delimiter character at or after `i`; the length
/// if none.
pub open spec fn find_delim_from(s: Seq<char>, i: int) -> int
    decreases s.len() - i,
{
    if i < 0 || i >= s.len() {
        s.len() as int
    } else if is_delimiter_char(s[i]) {
        i
    } else {
        find_delim_from(s, i + 1)
    }
}

proof fn lemma_find_delim_bounds(s: Seq<char>, i: int)
    requires
        0 <= i <= s.len(),
    ensures
        i <= find_delim_from(s, i) <= s.len(),
    decreases s.len() - i,
{
    if i < s.len() && !is_delimiter_char(s[i]) {
        lemma_find_delim_bounds(s, i + 1);
    }
}

proof fn lemma_find_delim_at(s: Seq<char>, j: int, k: int)
    requires
        0 <= j <= k <= s.len(),
        forall|i: int| j <= i < k ==> !is_delimiter_char(#[trigger] s[i]),
        k == s.len() || is_delimiter_char(s[k]),
    ensures
        find_delim_from(s, j) == k,
    decreases k - j,
{
    if j < k {
        lemma_find_delim_at(s, j + 1, k);
    }
}

/// The end of the maximal run of non-delimiter characters from `pos` on —
/// the first delimiter at or after `pos + 1`.
#[verifier::loop_isolation(false)]
fn read_atom_end(cs: &Vec<char>, pos: usize) -> (end: usize)
    requires
        pos < cs@.len(),
        !is_delimiter_char(cs@[pos as int]),
    ensures
        pos < end <= cs@.len(),
        forall|i: int| pos <= i < end ==> !is_delimiter_char(#[trigger] cs@[i]),
        end < cs@.len() ==> is_delimiter_char(cs@[end as int]),
        end == find_delim_from(cs@, pos as int + 1),
    decreases cs@.len() - pos,
{
    let n = cs.len();
    let mut end = pos + 1;
    while end < n && !is_delim(cs[end])
        invariant
            pos < end <= n,
            forall|i: int| pos <= i < end ==> !is_delimiter_char(#[trigger] cs@[i]),
        decreases n - end,
    {
        end = end + 1;
    }
    proof {
        lemma_find_delim_at(cs@, pos as int + 1, end as int);
    }
    end
}


/// The text of `cs[from .. to]` as a string.
#[verifier::loop_isolation(false)]
fn range_string(cs: &Vec<char>, from: usize, to: usize) -> (r: String)
    requires
        from <= to <= cs@.len(),
    ensures
        r@ == cs@.subrange(from as int, to as int),
{
    let mut text: Vec<char> = Vec::new();
    let mut i: usize = from;
    while i < to
        invariant
            from <= i <= to,
            text@ == cs@.subrange(from as int, i as int),
        decreases to - i,
    {
        let c = cs[i];
        text.push(c);
        i = i + 1;
        assert(text@ =~= cs@.subrange(from as int, i as int));
    }
    chars_to_string(&text)
}

/// A syntax error at character position `off`, carrying its 1-based line
/// and column and its byte offset.
fn syntax_error(cs: &Vec<char>, off: usize) -> (e: NotationError)
    requires
        off <= cs@.len(),
        byte_offset_of(cs@, cs@.len() as int) < usize::MAX,
    ensures
        e matches NotationError::Syntax(se) && se.offset == byte_offset_of(cs@, off as int),
{
    let (line, col, offset) = line_col_at(cs, off);
    NotationError::Syntax(SyntaxError { line, col, offset })
}

/// A decode error of `kind` for the literal starting at character position
/// `off`, carrying its 1-based line and column and its byte offset.
fn decode_error(cs: &Vec<char>, off: usize, kind: DecodeErrorKind) -> (e: NotationError)
    requires
        off <= cs@.len(),
        byte_offset_of(cs@, cs@.len() as int) < usize::MAX,
    ensures
        e matches NotationError::Decode(de) && de.offset == byte_offset_of(cs@, off as int)
            && de.kind == kind,
{
    let (line, col, offset) = line_col_at(cs, off);
    NotationError::Decode(DecodeError { kind, line, col, offset })
}

/// Skips whitespace, `;` line comments and `#;` datum comments (the datum
/// comment swallows one whole notation).
#[verifier::loop_isolation(false)]
fn skip_trivia(cs: &Vec<char>, pos: usize) -> (r: Result<usize, NotationError>)
    requires
        pos <= cs@.len(),
        byte_offset_of(cs@, cs@.len() as int) < usize::MAX,
    ensures
        r matches Ok(p) ==> pos <= p <= cs@.len(),
        r matches Ok(p) ==> p == cs@.len() || !is_trivia_start(cs@, p as int),
        !is_trivia_start(cs@, pos as int) ==> r == Ok::<usize, NotationError>(pos),
        !is_trivia_start(cs@, spaces_end(cs@, pos as int)) ==> (r matches Ok(p) && p
            == spaces_end(cs@, pos as int)),
    decreases cs@.len() - pos, 0int,
{
    proof {
        lemma_spaces_end(cs@, pos as int);
    }
    let n = cs.len();
    let mut cur = pos;
    loop
        invariant
            pos <= cur <= n,
            !is_trivia_start(cs@, pos as int) ==> cur == pos,
            !is_trivia_start(cs@, spaces_end(cs@, pos as int)) ==> cur <= spaces_end(
                cs@,
                pos as int,
            ),
        decreases n - cur,
    {
        if cur >= n {
            return Ok(cur);
        }
        let c = cs[cur];
        if is_space(c) {
            cur = cur + 1;
        } else if c == ';' {
            let mut q = cur + 1;
            while q < n && cs[q] != '\n'
                invariant
                    cur < q <= n,
                decreases n - q,
            {
                q = q + 1;
            }
            cur = q;
        } else if c == '#' && cur + 1 < n && cs[cur + 1] == ';' {
            let p2 = match skip_trivia(cs, cur + 2) {
                Ok(p) => p,
                Err(e) => {
                    return Err(e);
                },
            };
            let after = match parse_notation_at(cs, p2) {
                Ok(v) => v.1,
                Err(e) => {
                    return Err(e);
                },
            };
            cur = after;
        } else {
            return Ok(cur);
        }
    }
}

/// Parses space-separated elements up to the closing delimiter `close`,
/// which is consumed.
#[verifier::loop_isolation(false)]
fn parse_elems(cs: &Vec<char>, pos: usize, close: char) -> (r: Result<
    (Vec<ENotation>, usize),
    NotationError,
>)
    requires
        pos <= cs@.len(),
        byte_offset_of(cs@, cs@.len() as int) < usize::MAX,
    ensures
        r matches Ok(v) ==> pos < v.1 <= cs@.len() && elems_wf(v.0@, cs@, pos as int, v.1 as int),
    decreases cs@.len() - pos, 1int,
{
    let n = cs.len();
    let mut elems: Vec<ENotation> = Vec::new();
    let mut cur = pos;
    loop
        invariant
            pos <= cur <= n,
            elems_wf(elems@, cs@, pos as int, cur as int),
        decreases n - cur,
    {
        let cur2 = match skip_trivia(cs, cur) {
            Ok(p) => p,
            Err(e) => {
                return Err(e);
            },
        };
        assert forall|j: int| 0 <= j < elems@.len() implies notation_wf_in(
            #[trigger] elems@[j],
            cs@,
            pos as int,
            cur2 as int,
        ) by {
            assert(notation_wf_in(elems@[j], cs@, pos as int, cur as int));
        }
        cur = cur2;
        if cur >= n {
            return Err(syntax_error(cs, cur));
        }
        if cs[cur] == close {
            assert forall|j: int| 0 <= j < elems@.len() implies notation_wf_in(
            #[trigger] elems@[j],
            cs@,
            pos as int,
                cur as int + 1,
            ) by {
                assert(notation_wf_in(elems@[j], cs@, pos as int, cur as int));
            }
            return Ok((elems, cur + 1));
        }
        let (node, e2) = match parse_notation_at(cs, cur) {
            Ok(v) => v,
            Err(e) => {
                return Err(e);
            },
        };
        elems.push(node);
        assert forall|j: int| 0 <= j < elems@.len() implies notation_wf_in(
            #[trigger] elems@[j],
            cs@,
            pos as int,
            e2 as int,
        ) by {
            if j < elems@.len() - 1 {
                assert(notation_wf_in(elems@[j], cs@, pos as int, cur as int));
            } else {
                assert(notation_wf_in(elems@[j], cs@, cur as int, e2 as int));
            }
        }
        cur = e2;
    }
}

/// Parses the inside of an object after its `{`: `key: value` pairs and
/// bare values, comma-separated, up to the closing `}`. A bare element
/// receives its position in the object, written in decimal, as its key.
#[verifier::loop_isolation(false)]
fn parse_object_at(cs: &Vec<char>, pos: usize) -> (r: Result<(Object, usize), NotationError>)
    requires
        pos <= cs@.len(),
        byte_offset_of(cs@, cs@.len() as int) < usize::MAX,
    ensures
        r matches Ok(v) ==> pos < v.1 <= cs@.len() && pairs_wf(v.0.pairs@, cs@, pos as int, v.1 as int),
    decreases cs@.len() - pos, 1int,
{
    let n = cs.len();
    let mut pairs: Vec<ObjectPair> = Vec::new();
    let first = match skip_trivia(cs, pos) {
        Ok(p) => p,
        Err(e) => {
            return Err(e);
        },
    };
    let mut cur = first;
    if cur < n && cs[cur] == '}' {
        return Ok((Object { pairs }, cur + 1));
    }
    let mut idx: usize = 0;
    loop
        invariant
            pos <= cur <= n,
            idx <= cur,
            pairs_wf(pairs@, cs@, pos as int, cur as int),
        decreases n - cur,
    {
        let cur0 = match skip_trivia(cs, cur) {
            Ok(p) => p,
            Err(e) => {
                return Err(e);
            },
        };
        assert forall|j: int| 0 <= j < pairs@.len() implies notation_wf_in(
            (#[trigger] pairs@[j]).value,
            cs@,
            pos as int,
            cur0 as int,
        ) by {
            assert(notation_wf_in(pairs@[j].value, cs@, pos as int, cur as int));
        }
        cur = cur0;
        if cur >= n {
            return Err(syntax_error(cs, cur));
        }
        let eidx = idx;
        idx = idx + 1;
        let c = cs[cur];
        let mut keyed = false;
        let mut key_from: usize = cur;
        let mut key_to: usize = cur;
        let mut vstart: usize = cur;
        if !is_delim(c) {
            let ae = read_atom_end(cs, cur);
            let p = match skip_trivia(cs, ae) {
                Ok(p) => p,
                Err(e) => {
                    return Err(e);
                },
            };
            if p < n && cs[p] == ':' {
                keyed = true;
                key_from = cur;
                key_to = ae;
                vstart = match skip_trivia(cs, p + 1) {
                    Ok(q) => q,
                    Err(e) => {
                        return Err(e);
                    },
                };
            }
        }
        let (value, e2) = if keyed {
            match parse_notation_at(cs, vstart) {
                Ok(v) => v,
                Err(e) => {
                    return Err(e);
                },
            }
        } else {
            match parse_notation_at(cs, cur) {
                Ok(v) => v,
                Err(e) => {
                    return Err(e);
                },
            }
        };
        let key = if keyed {
            Identifier { name: range_string(cs, key_from, key_to) }
        } else {
            let mut kv: Vec<char> = Vec::new();
            crate::text::write_u64_digits(eidx as u64, &mut kv);
            Identifier { name: chars_to_string(&kv) }
        };
        pairs.push(ObjectPair { key, value });
        assert forall|j: int| 0 <= j < pairs@.len() implies notation_wf_in(
            (#[trigger] pairs@[j]).value,
            cs@,
            pos as int,
            e2 as int,
        ) by {
            if j < pairs@.len() - 1 {
                assert(notation_wf_in(pairs@[j].value, cs@, pos as int, cur as int));
            }
        }
        cur = e2;
        let cur3 = match skip_trivia(cs, cur) {
            Ok(p) => p,
            Err(e) => {
                return Err(e);
            },
        };
        assert forall|j: int| 0 <= j < pairs@.len() implies notation_wf_in(
            (#[trigger] pairs@[j]).value,
            cs@,
            pos as int,
            cur3 as int,
        ) by {
            assert(notation_wf_in(pairs@[j].value, cs@, pos as int, cur as int));
        }
        cur = cur3;
        if cur < n && cs[cur] == ',' {
            cur = cur + 1;
            assert forall|j: int| 0 <= j < pairs@.len() implies notation_wf_in(
                (#[trigger] pairs@[j]).value,
                cs@,
                pos as int,
                cur as int,
            ) by {
                assert(notation_wf_in(pairs@[j].value, cs@, pos as int, cur as int - 1));
            }
        } else if cur < n && cs[cur] == '}' {
            assert forall|j: int| 0 <= j < pairs@.len() implies notation_wf_in(
                (#[trigger] pairs@[j]).value,
                cs@,
                pos as int,
                cur as int + 1,
            ) by {
                assert(notation_wf_in(pairs@[j].value, cs@, pos as int, cur as int));
            }
            return Ok((Object { pairs }, cur + 1));
        } else {
            return Err(syntax_error(cs, cur));
        }
    }
}


/// Parses one notation starting exactly at `pos`, which must be the first
/// character of a token. Returns the node and the offset just past it; the
/// node's span covers exactly the consumed range, and every child's span
/// nests within it.
#[verifier::loop_isolation(false)]
#[verifier::rlimit(60)]
fn parse_notation_at(cs: &Vec<char>, pos: usize) -> (r: Result<
    (ENotation, usize),
    NotationError,
>)
    requires
        pos <= cs@.len(),
        byte_offset_of(cs@, cs@.len() as int) < usize::MAX,
    ensures
        r matches Ok(v) ==> pos < v.1 <= cs@.len() && span_for(
            v.0.span,
            cs@,
            pos as int,
            v.1 as int,
        ) && notation_wf_in(v.0, cs@, pos as int, v.1 as int) && body_opens(
            cs@,
            pos as int,
            v.0.body,
        ),
        literal_input(cs@.subrange(pos as int, cs@.len() as int)) ==> ({
            let t = cs@.subrange(pos as int, cs@.len() as int);
            &&& (r is Ok <==> !literal_input_fails(t))
            &&& (r matches Ok(v) ==> v.1 == cs@.len() && (v.0.body matches
            ENotationBody::Literal(l) && literal_for(t, l)))
        }),
    decreases cs@.len() - pos, 0int,
{
    let ghost whole = cs@.subrange(pos as int, cs@.len() as int);
    proof {
        assert forall|i: int| 0 <= i < whole.len() implies #[trigger] whole[i] == cs@[pos
            + i] by {}
    }
    let n = cs.len();
    if pos >= n {
        return Err(syntax_error(cs, pos));
    }
    let c = cs[pos];
    if c == '(' || c == '[' {
        let close = if c == '(' {
            ')'
        } else {
            ']'
        };
        let (elems, end) = match parse_elems(cs, pos + 1, close) {
            Ok(v) => v,
            Err(e) => {
                return Err(e);
            },
        };
        assert forall|j: int| 0 <= j < elems@.len() implies notation_wf_in(
            #[trigger] elems@[j],
            cs@,
            pos as int,
            end as int,
        ) by {
            assert(notation_wf_in(elems@[j], cs@, pos as int + 1, end as int));
        }
        let span = mk_span(cs, pos, end);
    proof {
        lemma_char_pos_of_byte(cs@, pos as int);
        lemma_char_pos_of_byte(cs@, end as int);
    }
        proof {
            lemma_char_pos_of_byte(cs@, pos as int);
            lemma_char_pos_of_byte(cs@, end as int);
        }
        let list = if c == '(' {
            List::PL(PList { elems })
        } else {
            List::BL(BList { elems })
        };
        assert(elems_wf(elems@, cs@, pos as int, end as int));
        let node = ENotation { span, body: ENotationBody::Container(Container::List(list)) };
        assert(span_for(node.span, cs@, pos as int, end as int));
        assert(notation_wf_in(node, cs@, pos as int, end as int));
        return Ok((node, end));
    }
    if c == '{' {
        let (object, end) = match parse_object_at(cs, pos + 1) {
            Ok(v) => v,
            Err(e) => {
                return Err(e);
            },
        };
        assert forall|j: int| 0 <= j < object.pairs@.len() implies notation_wf_in(
            (#[trigger] object.pairs@[j]).value,
            cs@,
            pos as int,
            end as int,
        ) by {
            assert(notation_wf_in(object.pairs@[j].value, cs@, pos as int + 1, end as int));
        }
        assert(pairs_wf(object.pairs@, cs@, pos as int, end as int));
        let span = mk_span(cs, pos, end);
    proof {
        lemma_char_pos_of_byte(cs@, pos as int);
        lemma_char_pos_of_byte(cs@, end as int);
    }
        proof {
            lemma_char_pos_of_byte(cs@, pos as int);
            lemma_char_pos_of_byte(cs@, end as int);
        }
        let node = ENotation { span, body: ENotationBody::Container(Container::Object(object)) };
        assert(span_for(node.span, cs@, pos as int, end as int));
        assert(notation_wf_in(node, cs@, pos as int, end as int));
        return Ok((node, end));
    }
    if c == '"' {
        let mut q = pos + 1;
        while q < n && cs[q] != '"'
            invariant
                pos < q <= n,
                forall|i: int| pos < i < q ==> cs@[i] != '"',
            decreases n - q,
        {
            q = q + 1;
        }
        proof {
            assert(is_delimiter_char(whole[0]));
            if string_input(whole) {
                assert(whole[whole.len() - 1] == cs@[cs@.len() - 1]);
                if q < cs@.len() {
                    assert(whole[q - pos] == cs@[q as int]);
                }
                assert(q == cs@.len() - 1);
                assert(cs@.subrange(pos as int + 1, q as int) =~= whole.subrange(
                    1,
                    whole.len() - 1,
                ));
            }
        }
        if q >= n {
            return Err(syntax_error(cs, pos));
        }
        let value = range_string(cs, pos + 1, q);
        let end = q + 1;
        let span = mk_span(cs, pos, end);
    proof {
        lemma_char_pos_of_byte(cs@, pos as int);
        lemma_char_pos_of_byte(cs@, end as int);
    }
        proof {
            lemma_char_pos_of_byte(cs@, pos as int);
            lemma_char_pos_of_byte(cs@, end as int);
        }
        let node = ENotation {
            span,
            body: ENotationBody::Literal(crate::literal::Literal::String_(
                crate::literal::String_ { value },
            )),
        };
        return Ok((node, end));
    }
    if c == '\'' || c == '`' {
        let (child, end) = match parse_notation_at(cs, pos + 1) {
            Ok(v) => v,
            Err(e) => {
                return Err(e);
            },
        };
        assert(notation_wf_in(child, cs@, pos as int, end as int));
        let span = mk_span(cs, pos, end);
    proof {
        lemma_char_pos_of_byte(cs@, pos as int);
        lemma_char_pos_of_byte(cs@, end as int);
    }
        proof {
            lemma_char_pos_of_byte(cs@, pos as int);
            lemma_char_pos_of_byte(cs@, end as int);
        }
        let q = if c == '\'' {
            crate::quoting::Quoting::Quote(crate::quoting::Quote { value: Box::new(child) })
        } else {
            crate::quoting::Quoting::QuasiQuote(
                crate::quoting::QuasiQuote { value: Box::new(child) },
            )
        };
        let node = ENotation { span, body: ENotationBody::Quoting(q) };
        return Ok((node, end));
    }
    if c == ',' {
        let splicing = pos + 1 < n && cs[pos + 1] == '@';
        let child_at = if splicing {
            pos + 2
        } else {
            pos + 1
        };
        let (child, end) = match parse_notation_at(cs, child_at) {
            Ok(v) => v,
            Err(e) => {
                return Err(e);
            },
        };
        assert(notation_wf_in(child, cs@, pos as int, end as int));
        let span = mk_span(cs, pos, end);
    proof {
        lemma_char_pos_of_byte(cs@, pos as int);
        lemma_char_pos_of_byte(cs@, end as int);
    }
        proof {
            lemma_char_pos_of_byte(cs@, pos as int);
            lemma_char_pos_of_byte(cs@, end as int);
        }
        let q = if splicing {
            crate::quoting::Quoting::UnquoteSplicing(
                crate::quoting::UnquoteSplicing { value: Box::new(child) },
            )
        } else {
            crate::quoting::Quoting::Unquote(crate::quoting::Unquote { value: Box::new(child) })
        };
        let node = ENotation { span, body: ENotationBody::Quoting(q) };
        return Ok((node, end));
    }
    if c == '#' && pos + 1 < n && (cs[pos + 1] == '(' || cs[pos + 1] == '[') {
        let close = if cs[pos + 1] == '(' {
            ')'
        } else {
            ']'
        };
        let (elems, end) = match parse_elems(cs, pos + 2, close) {
            Ok(v) => v,
            Err(e) => {
                return Err(e);
            },
        };
        assert forall|j: int| 0 <= j < elems@.len() implies notation_wf_in(
            #[trigger] elems@[j],
            cs@,
            pos as int,
            end as int,
        ) by {
            assert(notation_wf_in(elems@[j], cs@, pos as int + 2, end as int));
        }
        assert(elems_wf(elems@, cs@, pos as int, end as int));
        let span = mk_span(cs, pos, end);
    proof {
        lemma_char_pos_of_byte(cs@, pos as int);
        lemma_char_pos_of_byte(cs@, end as int);
    }
        proof {
            lemma_char_pos_of_byte(cs@, pos as int);
            lemma_char_pos_of_byte(cs@, end as int);
        }
        let vector = if cs[pos + 1] == '(' {
            Vector::PV(PVector { elems })
        } else {
            Vector::BV(BVector { elems })
        };
        let node = ENotation { span, body: ENotationBody::Container(Container::Vector(vector)) };
        return Ok((node, end));
    }
    if c == '#' && pos + 1 < n && cs[pos + 1] == '{' {
        let (elems, end) = match parse_elems(cs, pos + 2, '}') {
            Ok(v) => v,
            Err(e) => {
                return Err(e);
            },
        };
        assert forall|j: int| 0 <= j < elems@.len() implies notation_wf_in(
            #[trigger] elems@[j],
            cs@,
            pos as int,
            end as int,
        ) by {
            assert(notation_wf_in(elems@[j], cs@, pos as int + 2, end as int));
        }
        assert(elems_wf(elems@, cs@, pos as int, end as int));
        let span = mk_span(cs, pos, end);
    proof {
        lemma_char_pos_of_byte(cs@, pos as int);
        lemma_char_pos_of_byte(cs@, end as int);
    }
        proof {
            lemma_char_pos_of_byte(cs@, pos as int);
            lemma_char_pos_of_byte(cs@, end as int);
        }
        let node = ENotation {
            span,
            body: ENotationBody::Container(Container::Set_(Set_ { elems })),
        };
        return Ok((node, end));
    }
    if c == '#' && pos + 1 < n && (cs[pos + 1] == '\'' || cs[pos + 1] == '`') {
        let (child, end) = match parse_notation_at(cs, pos + 2) {
            Ok(v) => v,
            Err(e) => {
                return Err(e);
            },
        };
        assert(notation_wf_in(child, cs@, pos as int, end as int));
        let span = mk_span(cs, pos, end);
    proof {
        lemma_char_pos_of_byte(cs@, pos as int);
        lemma_char_pos_of_byte(cs@, end as int);
    }
        proof {
            lemma_char_pos_of_byte(cs@, pos as int);
            lemma_char_pos_of_byte(cs@, end as int);
        }
        let x = if cs[pos + 1] == '\'' {
            crate::syntaxing::Syntaxing::Syntax(
                crate::syntaxing::Syntax { value: Box::new(child) },
            )
        } else {
            crate::syntaxing::Syntaxing::QuasiSyntax(
                crate::syntaxing::QuasiSyntax { value: Box::new(child) },
            )
        };
        let node = ENotation { span, body: ENotationBody::Syntaxing(x) };
        return Ok((node, end));
    }
    if c == '#' && pos + 1 < n && cs[pos + 1] == ',' {
        let splicing = pos + 2 < n && cs[pos + 2] == '@';
        let child_at = if splicing {
            pos + 3
        } else {
            pos + 2
        };
        let (child, end) = match parse_notation_at(cs, child_at) {
            Ok(v) => v,
            Err(e) => {
                return Err(e);
            },
        };
        assert(notation_wf_in(child, cs@, pos as int, end as int));
        let span = mk_span(cs, pos, end);
    proof {
        lemma_char_pos_of_byte(cs@, pos as int);
        lemma_char_pos_of_byte(cs@, end as int);
    }
        proof {
            lemma_char_pos_of_byte(cs@, pos as int);
            lemma_char_pos_of_byte(cs@, end as int);
        }
        let x = if splicing {
            crate::syntaxing::Syntaxing::UnsyntaxSplicing(
                crate::syntaxing::UnsyntaxSplicing { value: Box::new(child) },
            )
        } else {
            crate::syntaxing::Syntaxing::Unsyntax(
                crate::syntaxing::Unsyntax { value: Box::new(child) },
            )
        };
        let node = ENotation { span, body: ENotationBody::Syntaxing(x) };
        return Ok((node, end));
    }
    if is_delim(c) {
        return Err(syntax_error(cs, pos));
    }
    parse_atom_at(cs, pos)
}


/// Parses the atom token starting at `pos`: reads to the next delimiter and
/// classifies the text as a boolean, character, integer, rational or float
/// literal — in that order — and otherwise as an identifier.
fn parse_atom_at(cs: &Vec<char>, pos: usize) -> (r: Result<(ENotation, usize), NotationError>)
    requires
        pos < cs@.len(),
        byte_offset_of(cs@, cs@.len() as int) < usize::MAX,
        !is_delimiter_char(cs@[pos as int]),
        !(cs@[pos as int] == '#' && pos + 1 < cs@.len() && (cs@[pos as int + 1] == '('
            || cs@[pos as int + 1] == '[' || cs@[pos as int + 1] == '{' || cs@[pos as int + 1]
            == '\'' || cs@[pos as int + 1] == '`' || cs@[pos as int + 1] == ',')),
    ensures
        r matches Ok(v) ==> pos < v.1 <= cs@.len() && span_for(
            v.0.span,
            cs@,
            pos as int,
            v.1 as int,
        ) && notation_wf_in(v.0, cs@, pos as int, v.1 as int) && body_opens(
            cs@,
            pos as int,
            v.0.body,
        ),
        literal_input(cs@.subrange(pos as int, cs@.len() as int)) ==> ({
            let t = cs@.subrange(pos as int, cs@.len() as int);
            &&& (r is Ok <==> !literal_input_fails(t))
            &&& (r matches Ok(v) ==> v.1 == cs@.len() && (v.0.body matches
            ENotationBody::Literal(l) && literal_for(t, l)))
        }),
{
    let ghost whole = cs@.subrange(pos as int, cs@.len() as int);
    proof {
        assert forall|i: int| 0 <= i < whole.len() implies #[trigger] whole[i] == cs@[pos
            + i] by {}
    }
    let c = cs[pos];
    // An atom token: read to the next delimiter, then classify.
    let end = read_atom_end(cs, pos);
    proof {
        if atom_input(whole) {
            if end < cs@.len() {
                assert(whole[end - pos] == cs@[end as int]);
            }
            assert(end == cs@.len());
            assert(cs@.subrange(pos as int, end as int) == whole);
            if whole[0] == '#' {
                lemma_not_number(whole);
            }
        }
    }
    let span = mk_span(cs, pos, end);
    proof {
        lemma_char_pos_of_byte(cs@, pos as int);
        lemma_char_pos_of_byte(cs@, end as int);
    }
    if end - pos == 2 && c == '#' && (cs[pos + 1] == 't' || cs[pos + 1] == 'f') {
        let node = ENotation {
            span,
            body: ENotationBody::Literal(crate::literal::Literal::Boolean(
                crate::literal::Boolean { value: cs[pos + 1] == 't' },
            )),
        };
        return Ok((node, end));
    }
    if end - pos >= 2 && c == '#' && cs[pos + 1] == '\\' {
        match crate::literal::parse_char_in(cs, pos, end) {
            Ok(ch) => {
                let node = ENotation {
                    span,
                    body: ENotationBody::Literal(crate::literal::Literal::Char(
                        crate::literal::Char { value: ch },
                    )),
                };
                proof {
                    lemma_literal_wf(node, cs@, pos as int, end as int, pos as int, end as int);
                }
                return Ok((node, end));
            },
            Err(k) => {
                return Err(decode_error(cs, pos, k));
            },
        }
    }
    match crate::literal::parse_int_in(cs, pos, end) {
        Ok(v) => {
            let node = ENotation {
                span,
                body: ENotationBody::Literal(crate::literal::Literal::Int(
                    crate::literal::Integer { value: v },
                )),
            };
            return Ok((node, end));
        },
        Err(DecodeErrorKind::IntegerOverflow) => {
            return Err(decode_error(cs, pos, DecodeErrorKind::IntegerOverflow));
        },
        Err(_) => {},
    }
    match crate::literal::parse_rational_in(cs, pos, end) {
        Ok(pq) => {
            let node = ENotation {
                span,
                body: ENotationBody::Literal(crate::literal::Literal::Rational(
                    crate::literal::Rational { numerator: pq.0, denominator: pq.1 },
                )),
            };
            return Ok((node, end));
        },
        Err(DecodeErrorKind::IntegerOverflow) => {
            return Err(decode_error(cs, pos, DecodeErrorKind::IntegerOverflow));
        },
        Err(_) => {},
    }
    if crate::literal::is_float_token(cs, pos, end) {
        let node = ENotation {
            span,
            body: ENotationBody::Literal(crate::literal::Literal::Float(
                crate::literal::Float { value: range_string(cs, pos, end) },
            )),
        };
        return Ok((node, end));
    }
    let node = ENotation {
        span,
        body: ENotationBody::Literal(crate::literal::Literal::Identifier(
            Identifier { name: range_string(cs, pos, end) },
        )),
    };
    Ok((node, end))
}



impl ENotationParser {
    /// Parses a single notation; surrounding whitespace and comments are
    /// allowed, anything else left over is a syntax error. The tree's
    /// spans nest, cover exactly the consumed range, and carry no file;
    /// the root span starts the input unless trivia precedes it and runs
    /// to its end unless trivia follows. An input that is one literal
    /// token is owed success — unless its escape or range fails to decode
    /// — and builds exactly the literal the classification gives it.
    pub fn parse_notation(input: &str) -> (r: Result<ENotation, NotationError>)
        requires
            byte_offset_of(input@, input@.len() as int) < usize::MAX,
        ensures
            r matches Ok(n) ==> notation_wf_in(n, input@, 0, input@.len() as int) && span_for(
                n.span,
                input@,
                char_pos_at(input@, n.span.start_offset as int),
                char_pos_at(input@, n.span.end_offset as int),
            ),
            r matches Ok(n) ==> (is_trivia_start(input@, 0) || (n.span.start_offset == 0
                && body_opens(input@, 0, n.body))),
            r matches Ok(n) ==> (n.span.end_offset == byte_offset_of(
                input@,
                input@.len() as int,
            ) || is_trivia_start(input@, char_pos_at(input@, n.span.end_offset as int))),
            literal_input(input@) ==> ({
                &&& (r is Ok <==> !literal_input_fails(input@))
                &&& (r matches Ok(n) ==> n.span.start_offset == 0 && n.span.end_offset
                    == byte_offset_of(input@, input@.len() as int) && (n.body matches
                ENotationBody::Literal(l) && literal_for(input@, l)))
            }),
    {
        let cs = str_to_chars(input);
        proof {
            assert(cs@.subrange(0, cs@.len() as int) =~= input@);
            if literal_input(input@) {
                if atom_input(input@) {
                    assert(!is_delimiter_char(input@[0]));
                    if input@.len() > 1 {
                        assert(!is_delimiter_char(input@[1]));
                    }
                }
                assert(!is_trivia_start(cs@, 0));
            }
        }
        let p = match skip_trivia(&cs, 0) {
            Ok(p) => p,
            Err(e) => {
                return Err(e);
            },
        };
        let (n, end) = match parse_notation_at(&cs, p) {
            Ok(v) => v,
            Err(e) => {
                return Err(e);
            },
        };
        proof {
            lemma_char_pos_of_byte(cs@, p as int);
            lemma_char_pos_of_byte(cs@, end as int);
        }
        let q = match skip_trivia(&cs, end) {
            Ok(q) => q,
            Err(e) => {
                return Err(e);
            },
        };
        if q < cs.len() {
            return Err(syntax_error(&cs, q));
        }
        assert(notation_wf_in(n, cs@, 0, cs@.len() as int));
        Ok(n)
    }

    /// Parses a whole file: a sequence of notations up to the end of the
    /// input. The returned notations tile the input in order: each is well
    /// formed over its exact span, consecutive spans do not overlap, and
    /// every gap — before the first, between two, after the last — begins
    /// with whitespace or a comment.
    #[verifier::loop_isolation(false)]
    #[verifier::rlimit(80)]
    pub fn parse_file(input: &str) -> (r: Result<EFile, NotationError>)
        requires
            byte_offset_of(input@, input@.len() as int) < usize::MAX,
        ensures
            r matches Ok(f) ==> forall|i: int|
                0 <= i < f.notations@.len() ==> notation_wf_in(
                    #[trigger] f.notations@[i],
                    input@,
                    0,
                    input@.len() as int,
                ),
            r matches Ok(f) ==> forall|i: int|
                0 <= i < f.notations@.len() - 1 ==> ((#[trigger] f.notations@[i]).span.end_offset
                    <= f.notations@[i + 1].span.start_offset && (f.notations@[i
                    + 1].span.start_offset == f.notations@[i].span.end_offset || is_trivia_start(
                    input@,
                    char_pos_at(input@, f.notations@[i].span.end_offset as int),
                ))),
            r matches Ok(f) ==> (f.notations@.len() > 0 ==> (is_trivia_start(input@, 0)
                || f.notations@[0].span.start_offset == 0)),
            r matches Ok(f) ==> (f.notations@.len() > 0 ==> ({
                let last = f.notations@[f.notations@.len() - 1];
                last.span.end_offset == byte_offset_of(input@, input@.len() as int)
                    || is_trivia_start(
                    input@,
                    char_pos_at(input@, last.span.end_offset as int),
                )
            })),
            r matches Ok(f) ==> (input@.len() > 0 && !is_trivia_start(input@, 0)
                ==> f.notations@.len() > 0),
            input@.len() == 0 ==> (r matches Ok(f) && f.notations@.len() == 0),
            literal_input(input@) ==> ({
                &&& (r is Ok <==> !literal_input_fails(input@))
                &&& (r matches Ok(f) ==> f.notations@.len() == 1
                    && f.notations@[0].span.start_offset == 0 && f.notations@[0].span.end_offset
                    == byte_offset_of(input@, input@.len() as int) && (f.notations@[0].body
                matches ENotationBody::Literal(l) && literal_for(input@, l)))
            }),
    {
        let cs = str_to_chars(input);
        proof {
            assert(cs@.subrange(0, cs@.len() as int) =~= input@);
            if literal_input(input@) {
                if atom_input(input@) {
                    assert(!is_delimiter_char(input@[0]));
                    if input@.len() > 1 {
                        assert(!is_delimiter_char(input@[1]));
                    }
                }
                assert(!is_trivia_start(cs@, 0));
            }
        }
        let n = cs.len();
        let mut notations: Vec<ENotation> = Vec::new();
        let mut cur: usize = 0;
        loop
            invariant
                cur <= n,
                forall|j: int|
                    0 <= j < notations@.len() ==> notation_wf_in(
                        #[trigger] notations@[j],
                        cs@,
                        0,
                        n as int,
                    ),
                forall|j: int|
                    0 <= j < notations@.len() - 1 ==> ((#[trigger] notations@[j]).span.end_offset
                        <= notations@[j + 1].span.start_offset && (notations@[j
                        + 1].span.start_offset == notations@[j].span.end_offset
                        || is_trivia_start(
                        cs@,
                        char_pos_at(cs@, notations@[j].span.end_offset as int),
                    ))),
                n == 0 ==> notations@.len() == 0,
                notations@.len() == 0 ==> cur == 0,
                notations@.len() > 0 ==> notations@[notations@.len() - 1].span.end_offset
                    == byte_offset_of(cs@, cur as int),
                notations@.len() > 0 ==> (is_trivia_start(cs@, 0)
                    || notations@[0].span.start_offset == 0),
                literal_input(cs@) && !literal_input_fails(cs@) ==> ((notations@.len() == 0
                    && cur == 0) || (cur == n && notations@.len() == 1
                    && notations@[0].span.start_offset == 0 && notations@[0].span.end_offset
                    == byte_offset_of(cs@, n as int) && (notations@[0].body matches
                ENotationBody::Literal(l) && literal_for(cs@, l)))),
                literal_input(cs@) && literal_input_fails(cs@) ==> (notations@.len() == 0
                    && cur == 0),
            decreases n - cur,
        {
            let p = match skip_trivia(&cs, cur) {
                Ok(p) => p,
                Err(e) => {
                    return Err(e);
                },
            };
            if p >= n {
                proof {
                    lemma_char_pos_of_byte(cs@, cur as int);
                }
                return Ok(EFile { notations });
            }
            let (node, e2) = match parse_notation_at(&cs, p) {
                Ok(v) => v,
                Err(e) => {
                    return Err(e);
                },
            };
            proof {
                lemma_char_pos_of_byte(cs@, cur as int);
                lemma_char_pos_of_byte(cs@, p as int);
                lemma_char_pos_of_byte(cs@, e2 as int);
                lemma_byte_offset_mono(cs@, cur as int, p as int);
            }
            let ghost before = notations@;
            notations.push(node);
            assert forall|j: int| 0 <= j < notations@.len() implies notation_wf_in(
                #[trigger] notations@[j],
                cs@,
                0,
                n as int,
            ) by {
                if j == notations@.len() - 1 {
                    assert(notation_wf_in(notations@[j], cs@, p as int, e2 as int));
                } else {
                    assert(notation_wf_in(before[j], cs@, 0, n as int));
                }
            }
            assert forall|j: int| 0 <= j < notations@.len() - 1 implies ((
            #[trigger] notations@[j]).span.end_offset <= notations@[j + 1].span.start_offset && (
            notations@[j + 1].span.start_offset == notations@[j].span.end_offset
                || is_trivia_start(
                cs@,
                char_pos_at(cs@, notations@[j].span.end_offset as int),
            ))) by {
                if j < notations@.len() - 2 {
                    assert(before[j].span.end_offset <= before[j + 1].span.start_offset && (
                    before[j + 1].span.start_offset == before[j].span.end_offset
                        || is_trivia_start(
                        cs@,
                        char_pos_at(cs@, before[j].span.end_offset as int),
                    )));
                }
            }
            cur = e2;
        }
    }

    /// Parses one `key: value` object pair on its own: the atom before the
    /// colon is the key, kept verbatim; the text after it is the value.
    pub fn parse_object_pair(input: &str) -> (r: Result<ObjectPair, NotationError>)
        requires
            byte_offset_of(input@, input@.len() as int) < usize::MAX,
        ensures
            r matches Ok(p) ==> notation_wf_in(p.value, input@, 0, input@.len() as int),
            r matches Ok(p) ==> (input@.len() > 0 && !is_trivia_start(input@, 0)
                && !is_delimiter_char(input@[0]) ==> p.key.name@ == input@.subrange(
                0,
                find_delim_from(input@, 1),
            )),
            pair_input_lit(input@) ==> (r matches Ok(p) && p.key.name@ == input@.subrange(
                0,
                find_delim_from(input@, 1),
            ) && (p.value.body matches ENotationBody::Literal(l) && literal_for(
                input@.subrange(
                    spaces_end(input@, find_delim_from(input@, 1) + 1),
                    input@.len() as int,
                ),
                l,
            ))),
    {
        let cs = str_to_chars(input);
        let ghost k = find_delim_from(input@, 1);
        let ghost v = spaces_end(input@, k + 1);
        proof {
            assert(cs@.subrange(0, cs@.len() as int) =~= input@);
            if pair_input_lit(input@) {
                lemma_find_delim_bounds(input@, 1);
                lemma_spaces_end(input@, k + 1);
                assert(input@.subrange(v, input@.len() as int) =~= cs@.subrange(
                    v,
                    cs@.len() as int,
                ));
            }
        }
        let n = cs.len();
        let p0 = match skip_trivia(&cs, 0) {
            Ok(p) => p,
            Err(e) => {
                return Err(e);
            },
        };
        if p0 >= n || is_delim(cs[p0]) {
            return Err(syntax_error(&cs, p0));
        }
        let ae = read_atom_end(&cs, p0);
        let q = match skip_trivia(&cs, ae) {
            Ok(q) => q,
            Err(e) => {
                return Err(e);
            },
        };
        if !(q < n && cs[q] == ':') {
            return Err(syntax_error(&cs, q));
        }
        let v0 = match skip_trivia(&cs, q + 1) {
            Ok(v) => v,
            Err(e) => {
                return Err(e);
            },
        };
        let (value, e2) = match parse_notation_at(&cs, v0) {
            Ok(v) => v,
            Err(e) => {
                return Err(e);
            },
        };
        let t = match skip_trivia(&cs, e2) {
            Ok(t) => t,
            Err(e) => {
                return Err(e);
            },
        };
        if t < n {
            return Err(syntax_error(&cs, t));
        }
        assert(notation_wf_in(value, cs@, 0, cs@.len() as int));
        Ok(ObjectPair { key: Identifier { name: range_string(&cs, p0, ae) }, value })
    }

    /// Parses a bare unnamed-object form `{v1, v2, …}` on its own: the
    /// returned elements are the comma-separated notations of the input,
    /// in source order, each well formed over its exact span.
    #[verifier::loop_isolation(false)]
    pub fn parse_unamed_object(input: &str) -> (r: Result<UnamedObject, NotationError>)
        requires
            byte_offset_of(input@, input@.len() as int) < usize::MAX,
        ensures
            r matches Ok(u) ==> forall|i: int|
                0 <= i < u.elems@.len() ==> notation_wf_in(
                    #[trigger] u.elems@[i],
                    input@,
                    0,
                    input@.len() as int,
                ),
            r matches Ok(u) ==> (!is_trivia_start(input@, 0) ==> input@.len() > 0 && input@[0]
                == '{'),
            r matches Ok(u) ==> (!is_trivia_start(input@, 0) && u.elems@.len() == 0 ==> 1
                < input@.len() && (is_trivia_start(input@, 1) || input@[1] == '}')),
            r matches Ok(u) ==> forall|i: int|
                0 <= i < u.elems@.len() - 1 ==> (#[trigger] u.elems@[i]).span.end_offset
                    < u.elems@[i + 1].span.start_offset,

            input@ == seq!['{', '}'] ==> (r matches Ok(u) && u.elems@.len() == 0),
    {
        let cs = str_to_chars(input);
        let n = cs.len();
        let p0 = match skip_trivia(&cs, 0) {
            Ok(p) => p,
            Err(e) => {
                return Err(e);
            },
        };
        if !(p0 < n && cs[p0] == '{') {
            return Err(syntax_error(&cs, p0));
        }
        let mut elems: Vec<ENotation> = Vec::new();
        let mut cur = match skip_trivia(&cs, p0 + 1) {
            Ok(p) => p,
            Err(e) => {
                return Err(e);
            },
        };
        if cur < n && cs[cur] == '}' {
            let t = match skip_trivia(&cs, cur + 1) {
                Ok(t) => t,
                Err(e) => {
                    return Err(e);
                },
            };
            if t < n {
                return Err(syntax_error(&cs, t));
            }
            return Ok(UnamedObject { elems });
        }
        loop
            invariant
                cur <= n,
                forall|j: int|
                    0 <= j < elems@.len() ==> notation_wf_in(
                        #[trigger] elems@[j],
                        cs@,
                        0,
                        n as int,
                    ),
                elems@.len() > 0 ==> elems@[elems@.len() - 1].span.end_offset < byte_offset_of(
                    cs@,
                    cur as int,
                ),
                forall|j: int|
                    0 <= j < elems@.len() - 1 ==> (#[trigger] elems@[j]).span.end_offset
                        < elems@[j + 1].span.start_offset,
            decreases n - cur,
        {
            if cur >= n {
                return Err(syntax_error(&cs, cur));
            }
            let (node, e2) = match parse_notation_at(&cs, cur) {
                Ok(v) => v,
                Err(e) => {
                    return Err(e);
                },
            };
            proof {
                lemma_byte_offset_mono(cs@, cur as int, e2 as int);
            }
            let ghost before = elems@;
            elems.push(node);
            assert forall|j: int| 0 <= j < elems@.len() implies notation_wf_in(
                #[trigger] elems@[j],
                cs@,
                0,
                n as int,
            ) by {
                if j == elems@.len() - 1 {
                    assert(notation_wf_in(elems@[j], cs@, cur as int, e2 as int));
                } else {
                    assert(notation_wf_in(before[j], cs@, 0, n as int));
                }
            }
            assert forall|j: int| 0 <= j < elems@.len() - 1 implies ((
            #[trigger] elems@[j]).span.end_offset < elems@[j + 1].span.start_offset) by {
                if j < elems@.len() - 2 {
                    assert(before[j].span.end_offset < before[j + 1].span.start_offset);
                }
            }
            let after = match skip_trivia(&cs, e2) {
                Ok(a) => a,
                Err(e) => {
                    return Err(e);
                },
            };
            if after < n && cs[after] == ',' {
                let nxt = match skip_trivia(&cs, after + 1) {
                    Ok(x) => x,
                    Err(e) => {
                        return Err(e);
                    },
                };
                proof {
                    lemma_byte_offset_mono(cs@, e2 as int, nxt as int);
                }
                cur = nxt;
            } else if after < n && cs[after] == '}' {
                let t = match skip_trivia(&cs, after + 1) {
                    Ok(t) => t,
                    Err(e) => {
                        return Err(e);
                    },
                };
                if t < n {
                    return Err(syntax_error(&cs, t));
                }
                return Ok(UnamedObject { elems });
            } else {
                return Err(syntax_error(&cs, after));
            }
        }
    }
}


} // verus!
