//! Character-level utilities shared by the parser and the renderer:
//! decimal digits, decimal rendering of integers, and the conversions
//! between `String` and `Vec<char>`.

use vstd::prelude::*;
use vstd::string::StrSliceExecFns;

verus! {

/// Is `c` an ASCII decimal digit?
pub open spec fn is_digit_char(c: char) -> bool {
    '0' <= c && c <= '9'
}

/// The numeric value of an ASCII decimal digit.
pub open spec fn digit_val(c: char) -> int {
    c as int - '0' as int
}


/// Executable form of [`is_digit_char`].
pub fn is_digit(c: char) -> (r: bool)
    ensures
        r == is_digit_char(c),
{
    '0' <= c && c <= '9'
}

/// The digit character of a value in `0 .. 10`.
pub open spec fn dec_digit(d: int) -> char {
    if d == 0 {
        '0'
    } else if d == 1 {
        '1'
    } else if d == 2 {
        '2'
    } else if d == 3 {
        '3'
    } else if d == 4 {
        '4'
    } else if d == 5 {
        '5'
    } else if d == 6 {
        '6'
    } else if d == 7 {
        '7'
    } else if d == 8 {
        '8'
    } else {
        '9'
    }
}

/// The decimal digits of a natural number, most significant first,
/// without sign and without leading zeros (except for `0` itself).
pub open spec fn dec_digits(n: nat) -> Seq<char>
    decreases n,
{
    if n < 10 {
        seq![dec_digit(n as int)]
    } else {
        dec_digits(n / 10) + seq![dec_digit(n as int % 10)]
    }
}

/// The canonical decimal text of an integer: digits, preceded by `-`
/// exactly when the value is negative.
pub open spec fn int_to_dec(v: int) -> Seq<char> {
    if v < 0 {
        seq!['-'] + dec_digits((-v) as nat)
    } else {
        dec_digits(v as nat)
    }
}


/// The decimal digits of a natural number are ASCII digits — never a sign,
/// a separator or any other character.
pub proof fn lemma_dec_digits_are_digits(n: nat)
    ensures
        dec_digits(n).len() >= 1,
        forall|i: int| 0 <= i < dec_digits(n).len() ==> is_digit_char(#[trigger] dec_digits(n)[i]),
    decreases n,
{
    if n >= 10 {
        lemma_dec_digits_are_digits(n / 10);
    }
}

/// Reading the decimal digits of `n` back as a number yields `n`.
pub proof fn lemma_dec_digits_val(n: nat)
    ensures
        crate::literal::digits_val(dec_digits(n)) == n,
    decreases n,
{
    if n < 10 {
        let s = dec_digits(n);
        assert(s =~= seq![dec_digit(n as int)]);
        assert(s.last() == dec_digit(n as int));
        assert(s.drop_last() =~= Seq::<char>::empty());
        assert(crate::literal::digits_val(s.drop_last()) == 0);
        assert(digit_val(dec_digit(n as int)) == n);
    } else {
        lemma_dec_digits_val(n / 10);
        lemma_dec_digits_are_digits(n / 10);
        let s = dec_digits(n);
        assert(s.drop_last() =~= dec_digits(n / 10));
        assert(s.last() == dec_digit(n as int % 10));
        assert(digit_val(dec_digit(n as int % 10)) == n as int % 10);
        assert(n / 10 * 10 + n % 10 == n) by (nonlinear_arith);
    }
}

/// The canonical decimal text of an integer is well-formed integer literal
/// text and reads back as exactly that integer.
pub proof fn lemma_int_to_dec_round_trip(v: int)
    ensures
        crate::literal::int_text_wf(int_to_dec(v)),
        crate::literal::int_text_val(int_to_dec(v)) == v,
{
    if v < 0 {
        let m = (-v) as nat;
        lemma_dec_digits_are_digits(m);
        lemma_dec_digits_val(m);
        let s = int_to_dec(v);
        assert(s[0] == '-');
        assert forall|i: int| 0 < i < s.len() implies is_digit_char(#[trigger] s[i]) || s[i]
            == '_' by {
            assert(s[i] == dec_digits(m)[i - 1]);
        }
        assert(s[1] == dec_digits(m)[0]);
        assert(s.subrange(1, s.len() as int) =~= dec_digits(m));
    } else {
        let m = v as nat;
        lemma_dec_digits_are_digits(m);
        lemma_dec_digits_val(m);
        let s = int_to_dec(v);
        assert(s =~= dec_digits(m));
        assert(is_digit_char(s[0]));
        assert(s[0] != '-' && s[0] != '+');
    }
}

/// The digit character of `d < 10`, executable form of [`dec_digit`].
pub fn digit_char(d: u64) -> (c: char)
    requires
        d < 10,
    ensures
        c == dec_digit(d as int),
{
    if d == 0 {
        '0'
    } else if d == 1 {
        '1'
    } else if d == 2 {
        '2'
    } else if d == 3 {
        '3'
    } else if d == 4 {
        '4'
    } else if d == 5 {
        '5'
    } else if d == 6 {
        '6'
    } else if d == 7 {
        '7'
    } else if d == 8 {
        '8'
    } else {
        '9'
    }
}

/// Appends the decimal digits of `n` to `out`.
pub fn write_u64_digits(n: u64, out: &mut Vec<char>)
    ensures
        final(out)@ == old(out)@ + dec_digits(n as nat),
    decreases n,
{
    if n < 10 {
        let c = digit_char(n);
        out.push(c);
    } else {
        write_u64_digits(n / 10, out);
        let c = digit_char(n % 10);
        out.push(c);
    }
}

/// Appends the canonical decimal text of `v` to `out`.
pub fn write_i64(v: i64, out: &mut Vec<char>)
    ensures
        final(out)@ == old(out)@ + int_to_dec(v as int),
{
    if v >= 0 {
        write_u64_digits(v as u64, out);
    } else {
        out.push('-');
        let mag: u64 = if v == i64::MIN {
            9223372036854775808u64
        } else {
            (-v) as u64
        };
        assert(mag as nat == (-(v as int)) as nat);
        write_u64_digits(mag, out);
    }
}


/// The length, in bytes, of a character's UTF-8 encoding.
pub open spec fn byte_len(c: char) -> int {
    if (c as int) < 0x80 {
        1
    } else if (c as int) < 0x800 {
        2
    } else if (c as int) < 0x10000 {
        3
    } else {
        4
    }
}

/// Executable form of [`byte_len`].
pub fn char_byte_len(c: char) -> (r: usize)
    ensures
        r == byte_len(c),
{
    let u = c as u32;
    if u < 0x80 {
        1
    } else if u < 0x800 {
        2
    } else if u < 0x10000 {
        3
    } else {
        4
    }
}

/// The byte offset of character position `i` in the UTF-8 encoding of `s`:
/// the summed encoded lengths of the characters before it.
pub open spec fn byte_offset_of(s: Seq<char>, i: int) -> int
    decreases i,
{
    if i <= 0 {
        0
    } else {
        byte_offset_of(s, i - 1) + byte_len(s[i - 1])
    }
}

/// Byte offsets grow at least one byte per character, so they dominate
/// character positions and are strictly monotone.
pub proof fn lemma_byte_offset_mono(s: Seq<char>, i: int, j: int)
    requires
        0 <= i <= j,
    ensures
        byte_offset_of(s, i) + (j - i) <= byte_offset_of(s, j),
        i <= byte_offset_of(s, i),
    decreases j,
{
    if i < j {
        lemma_byte_offset_mono(s, i, j - 1);
    } else if i > 0 {
        lemma_byte_offset_mono(s, i - 1, i - 1);
    }
}

/// The character position at a byte offset in `s`, scanning from `i`: the
/// first position whose byte offset reaches `byte`.
pub open spec fn char_pos_rec(s: Seq<char>, i: int, byte: int) -> int
    decreases s.len() - i,
{
    if i < 0 || i >= s.len() {
        i
    } else if byte_offset_of(s, i) >= byte {
        i
    } else {
        char_pos_rec(s, i + 1, byte)
    }
}

/// The character position whose UTF-8 byte offset is `byte`.
pub open spec fn char_pos_at(s: Seq<char>, byte: int) -> int {
    char_pos_rec(s, 0, byte)
}

proof fn lemma_char_pos_rec_of_byte(s: Seq<char>, i: int, k: int)
    requires
        0 <= i <= k <= s.len(),
    ensures
        char_pos_rec(s, i, byte_offset_of(s, k)) == k,
    decreases k - i,
{
    if i < k {
        lemma_byte_offset_mono(s, i, k);
        lemma_char_pos_rec_of_byte(s, i + 1, k);
    }
}

/// Byte offsets and character positions are inverse on boundaries: the
/// character position at the byte offset of `k` is `k` itself.
pub proof fn lemma_char_pos_of_byte(s: Seq<char>, k: int)
    requires
        0 <= k <= s.len(),
    ensures
        char_pos_at(s, byte_offset_of(s, k)) == k,
{
    lemma_char_pos_rec_of_byte(s, 0, k);
}

/// Relies on `FromIterator<char> for String`: collecting characters yields
/// the string of exactly those characters, in order.
#[verifier::external_body]
pub fn chars_to_string(v: &Vec<char>) -> (r: String)
    ensures
        r@ == v@,
{
    v.iter().collect()
}

/// The characters of a string, as a vector.
pub fn str_to_chars(s: &str) -> (r: Vec<char>)
    ensures
        r@ == s@,
{
    let n = s.unicode_len();
    let mut r: Vec<char> = Vec::new();
    let mut i: usize = 0;
    while i < n
        invariant
            n == s@.len(),
            i <= n,
            r@ == s@.subrange(0, i as int),
        decreases n - i,
    {
        let c = s.get_char(i);
        r.push(c);
        i = i + 1;
        assert(r@ =~= s@.subrange(0, i as int));
    }
    assert(r@ =~= s@);
    r
}

} // verus!
