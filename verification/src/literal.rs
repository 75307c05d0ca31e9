//! Leaf notations: booleans, characters, numbers, strings and identifiers,
//! together with their decoders and their canonical text forms.

use vstd::prelude::*;

use crate::text::{chars_to_string, digit_val, is_digit_char, str_to_chars};

verus! {

/// `#t` or `#f`.
#[derive(Debug, Clone)]
pub struct Boolean {
    pub value: bool,
}

/// A character literal `#\x`, with the named escapes
/// `#\newline`, `#\return`, `#\space` and `#\tab`.
#[derive(Debug, Clone)]
pub struct Char {
    pub value: char,
}

/// A base-10 integer literal; `_` group separators are ignored and the
/// value must fit the 64-bit signed range.
#[derive(Debug, Clone)]
pub struct Integer {
    pub value: i64,
}

/// A rational literal `p/q`, stored unreduced exactly as written.
#[derive(Debug, Clone)]
pub struct Rational {
    pub numerator: i64,
    pub denominator: i64,
}

/// A floating-point literal, kept as its verbatim source text; turning the
/// text into a machine double is left to unverified callers.
#[derive(Debug, Clone)]
pub struct Float {
    pub value: String,
}

/// A string literal with the one layer of surrounding quote characters
/// stripped and no escape interpretation.
#[derive(Debug, Clone)]
pub struct String_ {
    pub value: String,
}

/// An identifier, kept verbatim.
#[derive(Debug, Clone)]
pub struct Identifier {
    pub name: String,
}

/// A leaf notation.
#[derive(Debug, Clone)]
pub enum Literal {
    Boolean(Boolean),
    Char(Char),
    Float(Float),
    Rational(Rational),
    Int(Integer),
    String_(String_),
    Identifier(Identifier),
}


/// What an integer decode can report.
#[derive(Debug, Clone, PartialEq, Eq, Structural)]
pub enum DecodeErrorKind {
    /// The literal exceeds the 64-bit signed range.
    IntegerOverflow,
    /// The text is not an integer literal.
    MalformedInteger,
    /// The text is not a character literal.
    MalformedChar,
    /// The text is not a rational literal.
    MalformedRational,
}

/// Well-formed integer literal text: an optional sign, then a digit, then
/// digits and `_` group separators.
pub open spec fn int_text_wf(s: Seq<char>) -> bool {
    let d: int = if s.len() > 0 && (s[0] == '+' || s[0] == '-') {
        1
    } else {
        0
    };
    &&& s.len() > d
    &&& is_digit_char(s[d])
    &&& forall|i: int| d < i < s.len() ==> is_digit_char(#[trigger] s[i]) || s[i] == '_'
}

/// The base-10 value of a digit run, `_` separators ignored.
pub open spec fn digits_val(s: Seq<char>) -> int
    decreases s.len(),
{
    if s.len() == 0 {
        0
    } else if s.last() == '_' {
        digits_val(s.drop_last())
    } else {
        digits_val(s.drop_last()) * 10 + digit_val(s.last())
    }
}

/// The signed value of integer literal text.
pub open spec fn int_text_val(s: Seq<char>) -> int {
    if s.len() > 0 && s[0] == '-' {
        -digits_val(s.subrange(1, s.len() as int))
    } else if s.len() > 0 && s[0] == '+' {
        digits_val(s.subrange(1, s.len() as int))
    } else {
        digits_val(s)
    }
}

/// What `#t` / `#f` mean; anything else is no boolean literal.
pub open spec fn boolean_decode(s: Seq<char>) -> Option<bool> {
    if s.len() == 2 && s[0] == '#' && s[1] == 't' {
        Some(true)
    } else if s.len() == 2 && s[0] == '#' && s[1] == 'f' {
        Some(false)
    } else {
        None
    }
}

/// What a character literal means: the four named escapes, else the one
/// character following the two-character `#\\` prefix.
pub open spec fn char_decode(s: Seq<char>) -> Option<char> {
    if s.len() < 3 || s[0] != '#' || s[1] != '\\' {
        None
    } else if s.len() == 9 && s[2] == 'n' && s[3] == 'e' && s[4] == 'w' && s[5] == 'l' && s[6]
        == 'i' && s[7] == 'n' && s[8] == 'e' {
        Some('\n')
    } else if s.len() == 8 && s[2] == 'r' && s[3] == 'e' && s[4] == 't' && s[5] == 'u' && s[6]
        == 'r' && s[7] == 'n' {
        Some('\r')
    } else if s.len() == 7 && s[2] == 's' && s[3] == 'p' && s[4] == 'a' && s[5] == 'c' && s[6]
        == 'e' {
        Some(' ')
    } else if s.len() == 5 && s[2] == 't' && s[3] == 'a' && s[4] == 'b' {
        Some('\t')
    } else {
        Some(s[2])
    }
}

/// The index of the first `/` in `s` at or after `i`; the length if none.
pub open spec fn find_slash(s: Seq<char>, i: int) -> int
    decreases s.len() - i,
{
    if i < 0 || i >= s.len() {
        s.len() as int
    } else if s[i] == '/' {
        i
    } else {
        find_slash(s, i + 1)
    }
}

/// Well-formed rational literal text: integer text, `/`, integer text.
pub open spec fn rational_text_wf(s: Seq<char>) -> bool {
    let k = find_slash(s, 0);
    &&& 0 < k < s.len()
    &&& int_text_wf(s.subrange(0, k))
    &&& int_text_wf(s.subrange(k + 1, s.len() as int))
}

/// The numerator value of well-formed rational text.
pub open spec fn rational_num_val(s: Seq<char>) -> int {
    int_text_val(s.subrange(0, find_slash(s, 0)))
}

/// The denominator value of well-formed rational text.
pub open spec fn rational_den_val(s: Seq<char>) -> int {
    int_text_val(s.subrange(find_slash(s, 0) + 1, s.len() as int))
}

/// String literal text with exactly one layer of leading and trailing
/// quote characters (`"` or `\'`) stripped.
pub open spec fn strip_quotes(s: Seq<char>) -> Seq<char> {
    let t = if s.len() > 0 && (s[0] == '"' || s[0] == '\'') {
        s.subrange(1, s.len() as int)
    } else {
        s
    };
    if t.len() > 0 && (t.last() == '"' || t.last() == '\'') {
        t.drop_last()
    } else {
        t
    }
}


proof fn lemma_digits_val_nonneg(s: Seq<char>)
    requires
        forall|i: int| 0 <= i < s.len() ==> is_digit_char(#[trigger] s[i]) || s[i] == '_',
    ensures
        digits_val(s) >= 0,
    decreases s.len(),
{
    if s.len() > 0 {
        assert forall|i: int| 0 <= i < s.drop_last().len() implies is_digit_char(
            #[trigger] s.drop_last()[i],
        ) || s.drop_last()[i] == '_' by {
            assert(s.drop_last()[i] == s[i]);
        }
        lemma_digits_val_nonneg(s.drop_last());
    }
}

proof fn lemma_digits_val_step(s: Seq<char>, a: int, j: int)
    requires
        0 <= a <= j < s.len(),
    ensures
        digits_val(s.subrange(a, j + 1)) == if s[j] == '_' {
            digits_val(s.subrange(a, j))
        } else {
            digits_val(s.subrange(a, j)) * 10 + digit_val(s[j])
        },
{
    assert(s.subrange(a, j + 1).drop_last() =~= s.subrange(a, j));
    assert(s.subrange(a, j + 1).last() == s[j]);
}

proof fn lemma_digits_val_sub_nonneg(s: Seq<char>, a: int, j: int)
    requires
        0 <= a <= j <= s.len(),
        forall|i: int| a <= i < j ==> is_digit_char(#[trigger] s[i]) || s[i] == '_',
    ensures
        digits_val(s.subrange(a, j)) >= 0,
{
    let t = s.subrange(a, j);
    assert forall|i: int| 0 <= i < t.len() implies is_digit_char(#[trigger] t[i]) || t[i]
        == '_' by {
        assert(t[i] == s[a + i]);
    }
    lemma_digits_val_nonneg(t);
}

proof fn lemma_digits_val_mono(s: Seq<char>, a: int, j: int, k: int)
    requires
        0 <= a <= j <= k <= s.len(),
        forall|i: int| a <= i < k ==> is_digit_char(#[trigger] s[i]) || s[i] == '_',
    ensures
        digits_val(s.subrange(a, j)) <= digits_val(s.subrange(a, k)),
    decreases k - j,
{
    if j < k {
        lemma_digits_val_mono(s, a, j, k - 1);
        lemma_digits_val_step(s, a, k - 1);
        lemma_digits_val_sub_nonneg(s, a, k - 1);
    }
}

/// Decodes the integer literal text in `cs[from .. to]`: an optional sign,
/// then base-10 digits with `_` group separators ignored. The value must
/// fit the 64-bit signed range; exceeding it is an overflow error, never a
/// wrapped or truncated value.
#[verifier::loop_isolation(false)]
pub fn parse_int_in(cs: &Vec<char>, from: usize, to: usize) -> (r: Result<i64, DecodeErrorKind>)
    requires
        from <= to <= cs@.len(),
    ensures
        ({
            let t = cs@.subrange(from as int, to as int);
            &&& (int_text_wf(t) && i64::MIN <= int_text_val(t) <= i64::MAX <==> r is Ok)
            &&& (r matches Ok(v) ==> v == int_text_val(t))
            &&& (int_text_wf(t) && !(i64::MIN <= int_text_val(t) <= i64::MAX) ==> r == Err::<
                i64,
                DecodeErrorKind,
            >(DecodeErrorKind::IntegerOverflow))
            &&& (!int_text_wf(t) ==> r == Err::<i64, DecodeErrorKind>(
                DecodeErrorKind::MalformedInteger,
            ))
        }),
{
    let ghost t = cs@.subrange(from as int, to as int);
    if from == to {
        return Err(DecodeErrorKind::MalformedInteger);
    }
    let c0 = cs[from];
    let neg = c0 == '-';
    let has_sign = c0 == '+' || c0 == '-';
    let start = if has_sign {
        from + 1
    } else {
        from
    };
    let ghost d: int = if has_sign { 1 } else { 0 };
    assert(t.len() == to - from);
    assert(t[0] == cs@[from as int]);
    if start == to {
        assert(!int_text_wf(t));
        return Err(DecodeErrorKind::MalformedInteger);
    }
    if !crate::text::is_digit(cs[start]) {
        assert(t[d] == cs@[start as int]);
        assert(!int_text_wf(t));
        return Err(DecodeErrorKind::MalformedInteger);
    }
    // First pass: the shape must be digits and separators throughout.
    let mut j = start + 1;
    while j < to
        invariant
            from <= start < j <= to <= cs@.len(),
            forall|i: int| start < i < j ==> is_digit_char(#[trigger] cs@[i]) || cs@[i] == '_',
        decreases to - j,
    {
        let c = cs[j];
        if !crate::text::is_digit(c) && c != '_' {
            assert(t[j - from] == cs@[j as int]);
            assert(!int_text_wf(t));
            return Err(DecodeErrorKind::MalformedInteger);
        }
        j = j + 1;
    }
    assert forall|i: int| d < i < t.len() implies is_digit_char(#[trigger] t[i]) || t[i]
        == '_' by {
        assert(t[i] == cs@[from + i]);
    }
    assert(t[d] == cs@[start as int]);
    assert(int_text_wf(t));
    // Second pass: accumulate the magnitude, watching the signed 64-bit
    // bound; the negative range reaches one further down.
    let limit: u64 = if neg {
        9223372036854775808u64
    } else {
        9223372036854775807u64
    };
    assert(forall|i: int|
        start <= i < to ==> is_digit_char(#[trigger] cs@[i]) || cs@[i] == '_');
    let mut mag: u64 = 0;
    let mut k = start;
    assert(cs@.subrange(start as int, start as int) =~= Seq::<char>::empty());
    while k < to
        invariant
            from <= start <= k <= to <= cs@.len(),
            forall|i: int| start <= i < to ==> is_digit_char(#[trigger] cs@[i]) || cs@[i] == '_',
            mag == digits_val(cs@.subrange(start as int, k as int)),
            mag <= limit,
            limit == if neg {
                9223372036854775808u64
            } else {
                9223372036854775807u64
            },
        decreases to - k,
    {
        let c = cs[k];
        if c != '_' {
            let cv: u32 = c as u32;
            assert(is_digit_char(c));
            assert(cv == c as int);
            let dv: u64 = (cv - 48) as u64;
            assert(dv == digit_val(c));
            let wide: u128 = mag as u128 * 10 + dv as u128;
            proof {
                lemma_digits_val_step(cs@, start as int, k as int);
            }
            if wide > limit as u128 {
                // The value only grows as further digits arrive, so the
                // whole literal is out of range.
                proof {
                    lemma_digits_val_mono(cs@, start as int, k as int + 1, to as int);
                    if has_sign {
                        assert(t.subrange(1, t.len() as int) =~= cs@.subrange(
                            start as int,
                            to as int,
                        ));
                    } else {
                        assert(t =~= cs@.subrange(start as int, to as int));
                    }
                }
                return Err(DecodeErrorKind::IntegerOverflow);
            }
            mag = wide as u64;
        } else {
            proof {
                lemma_digits_val_step(cs@, start as int, k as int);
            }
        }
        k = k + 1;
    }
    proof {
        if has_sign {
            assert(t.subrange(1, t.len() as int) =~= cs@.subrange(start as int, to as int));
        } else {
            assert(t =~= cs@.subrange(start as int, to as int));
        }
    }
    if neg {
        if mag == 9223372036854775808u64 {
            Ok(i64::MIN)
        } else {
            Ok(-(mag as i64))
        }
    } else {
        Ok(mag as i64)
    }
}

/// Decodes a whole string as an integer literal.
pub fn parse_int(s: &str) -> (r: Result<i64, DecodeErrorKind>)
    ensures
        (int_text_wf(s@) && i64::MIN <= int_text_val(s@) <= i64::MAX <==> r is Ok),
        r matches Ok(v) ==> v == int_text_val(s@),
        int_text_wf(s@) && !(i64::MIN <= int_text_val(s@) <= i64::MAX) ==> r == Err::<
            i64,
            DecodeErrorKind,
        >(DecodeErrorKind::IntegerOverflow),
        !int_text_wf(s@) ==> r == Err::<i64, DecodeErrorKind>(DecodeErrorKind::MalformedInteger),
{
    let cs = str_to_chars(s);
    let n = cs.len();
    assert(cs@.subrange(0, n as int) =~= s@);
    parse_int_in(&cs, 0, n)
}


/// Decodes `#t` or `#f`. Any other text breaks the grammar front-end's
/// contract, so it is ruled out rather than tolerated.
pub fn parse_bool(s: &str) -> (r: bool)
    requires
        boolean_decode(s@) is Some,
    ensures
        boolean_decode(s@) == Some(r),
{
    let cs = str_to_chars(s);
    assert(cs@.len() == 2);
    cs[1] == 't'
}

/// Decodes the character literal text in `cs[from .. to]`: the named
/// escapes `#\\newline`, `#\\return`, `#\\space` and `#\\tab`, else the
/// character following the `#\\` prefix.
pub fn parse_char_in(cs: &Vec<char>, from: usize, to: usize) -> (r: Result<
    char,
    DecodeErrorKind,
>)
    requires
        from <= to <= cs@.len(),
    ensures
        match char_decode(cs@.subrange(from as int, to as int)) {
            Some(c) => r == Ok::<char, DecodeErrorKind>(c),
            None => r == Err::<char, DecodeErrorKind>(DecodeErrorKind::MalformedChar),
        },
{
    let ghost t = cs@.subrange(from as int, to as int);
    proof {
        assert forall|i: int| 0 <= i < t.len() implies #[trigger] t[i] == cs@[from + i] by {}
    }
    let n = to - from;
    if n < 3 || !(cs[from] == '#') || !(cs[from + 1] == '\\') {
        return Err(DecodeErrorKind::MalformedChar);
    }
    if n == 9 && cs[from + 2] == 'n' && cs[from + 3] == 'e' && cs[from + 4] == 'w' && cs[from
        + 5] == 'l' && cs[from + 6] == 'i' && cs[from + 7] == 'n' && cs[from + 8] == 'e' {
        return Ok('\n');
    }
    if n == 8 && cs[from + 2] == 'r' && cs[from + 3] == 'e' && cs[from + 4] == 't' && cs[from
        + 5] == 'u' && cs[from + 6] == 'r' && cs[from + 7] == 'n' {
        return Ok('\r');
    }
    if n == 7 && cs[from + 2] == 's' && cs[from + 3] == 'p' && cs[from + 4] == 'a' && cs[from
        + 5] == 'c' && cs[from + 6] == 'e' {
        return Ok(' ');
    }
    if n == 5 && cs[from + 2] == 't' && cs[from + 3] == 'a' && cs[from + 4] == 'b' {
        return Ok('\t');
    }
    Ok(cs[from + 2])
}

/// Decodes a whole string as a character literal.
pub fn parse_char(s: &str) -> (r: Result<char, DecodeErrorKind>)
    ensures
        match char_decode(s@) {
            Some(c) => r == Ok::<char, DecodeErrorKind>(c),
            None => r == Err::<char, DecodeErrorKind>(DecodeErrorKind::MalformedChar),
        },
{
    let cs = str_to_chars(s);
    let n = cs.len();
    assert(cs@.subrange(0, n as int) =~= s@);
    parse_char_in(&cs, 0, n)
}

/// Decodes the rational literal text in `cs[from .. to]`: two integer
/// sub-parses split on the first `/`, stored unreduced exactly as written.
#[verifier::loop_isolation(false)]
pub fn parse_rational_in(cs: &Vec<char>, from: usize, to: usize) -> (r: Result<
    (i64, i64),
    DecodeErrorKind,
>)
    requires
        from <= to <= cs@.len(),
    ensures
        ({
            let t = cs@.subrange(from as int, to as int);
            let num = rational_num_val(t);
            let den = rational_den_val(t);
            &&& (rational_text_wf(t) && i64::MIN <= num <= i64::MAX && i64::MIN <= den
                <= i64::MAX <==> r is Ok)
            &&& (r matches Ok(v) ==> v.0 == num && v.1 == den)
            &&& (rational_text_wf(t) && !(i64::MIN <= num <= i64::MAX && i64::MIN <= den
                <= i64::MAX) ==> r == Err::<(i64, i64), DecodeErrorKind>(
                DecodeErrorKind::IntegerOverflow,
            ))
            &&& (!rational_text_wf(t) ==> r == Err::<(i64, i64), DecodeErrorKind>(
                DecodeErrorKind::MalformedRational,
            ))
        }),
{
    let ghost t = cs@.subrange(from as int, to as int);
    let mut k: usize = from;
    while k < to && cs[k] != '/'
        invariant
            from <= k <= to,
            forall|i: int| from <= i < k ==> cs@[i] != '/',
        decreases to - k,
    {
        k = k + 1;
    }
    proof {
        assert forall|i: int| 0 <= i < k - from implies t[i] != '/' by {
            assert(t[i] == cs@[from + i]);
        }
        if k < to {
            assert(t[k - from] == cs@[k as int]);
        }
        lemma_find_slash_at(t, 0, k as int - from);
    }
    if k == from || k == to {
        assert(!rational_text_wf(t));
        return Err(DecodeErrorKind::MalformedRational);
    }
    let num = parse_int_in(cs, from, k);
    let den = parse_int_in(cs, k + 1, to);
    assert(cs@.subrange(from as int, k as int) =~= t.subrange(0, find_slash(t, 0)));
    assert(cs@.subrange(k as int + 1, to as int) =~= t.subrange(
        find_slash(t, 0) + 1,
        t.len() as int,
    ));
    match (num, den) {
        (Ok(p), Ok(q)) => Ok((p, q)),
        (Err(DecodeErrorKind::IntegerOverflow), Ok(_)) => Err(DecodeErrorKind::IntegerOverflow),
        (Ok(_), Err(DecodeErrorKind::IntegerOverflow)) => Err(DecodeErrorKind::IntegerOverflow),
        (Err(DecodeErrorKind::IntegerOverflow), Err(DecodeErrorKind::IntegerOverflow)) => Err(
            DecodeErrorKind::IntegerOverflow,
        ),
        _ => Err(DecodeErrorKind::MalformedRational),
    }
}

/// Decodes a whole string as a rational literal.
pub fn parse_rational(s: &str) -> (r: Result<(i64, i64), DecodeErrorKind>)
    ensures
        ({
            let num = rational_num_val(s@);
            let den = rational_den_val(s@);
            &&& (rational_text_wf(s@) && i64::MIN <= num <= i64::MAX && i64::MIN <= den
                <= i64::MAX <==> r is Ok)
            &&& (r matches Ok(v) ==> v.0 == num && v.1 == den)
            &&& (rational_text_wf(s@) && !(i64::MIN <= num <= i64::MAX && i64::MIN <= den
                <= i64::MAX) ==> r == Err::<(i64, i64), DecodeErrorKind>(
                DecodeErrorKind::IntegerOverflow,
            ))
            &&& (!rational_text_wf(s@) ==> r == Err::<(i64, i64), DecodeErrorKind>(
                DecodeErrorKind::MalformedRational,
            ))
        }),
{
    let cs = str_to_chars(s);
    let n = cs.len();
    assert(cs@.subrange(0, n as int) =~= s@);
    parse_rational_in(&cs, 0, n)
}

pub proof fn lemma_find_slash_at(s: Seq<char>, j: int, k: int)
    requires
        0 <= j <= k <= s.len(),
        forall|i: int| j <= i < k ==> s[i] != '/',
        k == s.len() || s[k] == '/',
    ensures
        find_slash(s, j) == k,
    decreases k - j,
{
    if j < k {
        lemma_find_slash_at(s, j + 1, k);
    }
}

/// Strips exactly one layer of leading and trailing quote characters
/// (`"` or `'`) from the text; no escape interpretation takes place.
#[verifier::loop_isolation(false)]
pub fn remove_quotes(s: &str) -> (r: String)
    ensures
        r@ == strip_quotes(s@),
{
    let cs = str_to_chars(s);
    let n = cs.len();
    let lo: usize = if n > 0 && (cs[0] == '"' || cs[0] == '\'') {
        1
    } else {
        0
    };
    let hi: usize = if n > lo && (cs[n - 1] == '"' || cs[n - 1] == '\'') {
        n - 1
    } else {
        n
    };
    let mut out: Vec<char> = Vec::new();
    let mut i: usize = lo;
    while i < hi
        invariant
            lo <= i <= hi <= n == cs@.len(),
            out@ == cs@.subrange(lo as int, i as int),
        decreases hi - i,
    {
        let c = cs[i];
        out.push(c);
        i = i + 1;
        assert(out@ =~= cs@.subrange(lo as int, i as int));
    }
    assert(out@ =~= strip_quotes(s@));
    chars_to_string(&out)
}

/// Decodes a string literal: the one layer of surrounding quotes goes,
/// the content stays exactly as written.
pub fn parse_string(s: &str) -> (r: String)
    ensures
        r@ == strip_quotes(s@),
{
    remove_quotes(s)
}

/// Decodes an identifier: the text, verbatim.
pub fn parse_identifier(s: &str) -> (r: String)
    ensures
        r@ == s@,
{
    s.to_owned()
}


/// The index of the first `.` in `s` at or after `i`; the length if none.
pub open spec fn find_dot(s: Seq<char>, i: int) -> int
    decreases s.len() - i,
{
    if i < 0 || i >= s.len() {
        s.len() as int
    } else if s[i] == '.' {
        i
    } else {
        find_dot(s, i + 1)
    }
}

pub proof fn lemma_find_dot_at(s: Seq<char>, j: int, k: int)
    requires
        0 <= j <= k <= s.len(),
        forall|i: int| j <= i < k ==> s[i] != '.',
        k == s.len() || s[k] == '.',
    ensures
        find_dot(s, j) == k,
    decreases k - j,
{
    if j < k {
        lemma_find_dot_at(s, j + 1, k);
    }
}

/// Well-formed float literal text: an optional sign, digits, one `.`,
/// digits.
pub open spec fn float_text_wf(s: Seq<char>) -> bool {
    let d: int = if s.len() > 0 && (s[0] == '+' || s[0] == '-') {
        1
    } else {
        0
    };
    let k = find_dot(s, 0);
    &&& d < k
    &&& k + 1 < s.len()
    &&& forall|i: int| d <= i < k ==> is_digit_char(#[trigger] s[i])
    &&& forall|i: int| k < i < s.len() ==> is_digit_char(#[trigger] s[i])
}

/// Does `cs[from .. to]` have the shape of a float literal?
#[verifier::loop_isolation(false)]
pub fn is_float_token(cs: &Vec<char>, from: usize, to: usize) -> (r: bool)
    requires
        from <= to <= cs@.len(),
    ensures
        r == float_text_wf(cs@.subrange(from as int, to as int)),
{
    let ghost t = cs@.subrange(from as int, to as int);
    let mut k: usize = from;
    while k < to && cs[k] != '.'
        invariant
            from <= k <= to,
            forall|i: int| from <= i < k ==> cs@[i] != '.',
        decreases to - k,
    {
        k = k + 1;
    }
    proof {
        assert forall|i: int| 0 <= i < k - from implies t[i] != '.' by {
            assert(t[i] == cs@[from + i]);
        }
        if k < to {
            assert(t[k - from] == cs@[k as int]);
        }
        lemma_find_dot_at(t, 0, k as int - from);
    }
    if from == to {
        return false;
    }
    let c0 = cs[from];
    let has_sign = c0 == '+' || c0 == '-';
    let start = if has_sign {
        from + 1
    } else {
        from
    };
    if k <= start || to - k <= 1 {
        return false;
    }
    let mut j = start;
    while j < k
        invariant
            start <= j <= k,
            forall|i: int| start <= i < j ==> is_digit_char(#[trigger] cs@[i]),
        decreases k - j,
    {
        if !crate::text::is_digit(cs[j]) {
            assert(t[j - from] == cs@[j as int]);
            return false;
        }
        j = j + 1;
    }
    let mut m = k + 1;
    while m < to
        invariant
            k < m <= to,
            forall|i: int| k < i < m ==> is_digit_char(#[trigger] cs@[i]),
        decreases to - m,
    {
        if !crate::text::is_digit(cs[m]) {
            assert(t[m - from] == cs@[m as int]);
            return false;
        }
        m = m + 1;
    }
    assert forall|i: int|
        (if t.len() > 0 && (t[0] == '+' || t[0] == '-') {
            1int
        } else {
            0int
        }) <= i < find_dot(t, 0) implies is_digit_char(#[trigger] t[i]) by {
        assert(t[i] == cs@[from + i]);
    }
    assert forall|i: int| find_dot(t, 0) < i < t.len() implies is_digit_char(
        #[trigger] t[i],
    ) by {
        assert(t[i] == cs@[from + i]);
    }
    true
}


} // verus!
