//! Character classes and the reading of numbers from digit text.
use vstd::prelude::*;

verus! {

/// An ASCII decimal digit.
pub open spec fn is_digit(c: char) -> bool {
    '0' <= c && c <= '9'
}

/// An ASCII letter.
pub open spec fn is_alpha(c: char) -> bool {
    ('a' <= c && c <= 'z') || ('A' <= c && c <= 'Z')
}

/// An ASCII upper-case letter.
pub open spec fn is_upper(c: char) -> bool {
    'A' <= c && c <= 'Z'
}

/// An ASCII hexadecimal digit, either case.
pub open spec fn is_hex_digit(c: char) -> bool {
    is_digit(c) || ('a' <= c && c <= 'f') || ('A' <= c && c <= 'F')
}

/// Whether a character is alphanumeric in Unicode's sense (`char::is_alphanumeric`).
pub uninterp spec fn unicode_alphanumeric(c: char) -> bool;

/// Whether a character is alphabetic in Unicode's sense (`char::is_alphabetic`).
pub uninterp spec fn unicode_alphabetic(c: char) -> bool;

/// `char::is_alphanumeric`: Unicode alphanumeric; among ASCII characters exactly the letters
/// and digits.
#[verifier::external_body]
pub(crate) fn char_is_alphanumeric(c: char) -> (r: bool)
    ensures
        r == unicode_alphanumeric(c),
        (c as u32) < 128 ==> (r == (is_alpha(c) || is_digit(c))),
{
    c.is_alphanumeric()
}

/// `char::is_alphabetic`: Unicode alphabetic; among ASCII characters exactly the letters.
#[verifier::external_body]
pub(crate) fn char_is_alphabetic(c: char) -> (r: bool)
    ensures
        r == unicode_alphabetic(c),
        (c as u32) < 128 ==> (r == is_alpha(c)),
{
    c.is_alphabetic()
}

/// Whether a character is white space in Unicode's sense (`char::is_whitespace`).
pub uninterp spec fn unicode_whitespace(c: char) -> bool;

/// ASCII white space: tab, line feed, vertical tab, form feed, carriage return and space.
pub open spec fn is_ascii_space(c: char) -> bool {
    c == '\t' || c == '\n' || c == '\x0B' || c == '\x0C' || c == '\r' || c == ' '
}

/// `char::is_whitespace`: Unicode white space; among ASCII characters exactly tab, line feed,
/// vertical tab, form feed, carriage return and space.
#[verifier::external_body]
pub(crate) fn char_is_whitespace(c: char) -> (r: bool)
    ensures
        r == unicode_whitespace(c),
        (c as u32) < 128 ==> (r == is_ascii_space(c)),
{
    c.is_whitespace()
}

/// Whether `c` is an ASCII digit.
pub fn is_ascii_digit(c: char) -> (b: bool)
    ensures
        b == is_digit(c),
{
    '0' <= c && c <= '9'
}

/// Whether `c` is an ASCII letter.
pub fn is_ascii_alpha(c: char) -> (b: bool)
    ensures
        b == is_alpha(c),
{
    ('a' <= c && c <= 'z') || ('A' <= c && c <= 'Z')
}

/// Whether `c` is an ASCII upper-case letter.
pub fn is_ascii_upper(c: char) -> (b: bool)
    ensures
        b == is_upper(c),
{
    'A' <= c && c <= 'Z'
}

/// Whether `c` is an ASCII hexadecimal digit.
pub fn is_ascii_hex(c: char) -> (b: bool)
    ensures
        b == is_hex_digit(c),
{
    ('0' <= c && c <= '9') || ('a' <= c && c <= 'f') || ('A' <= c && c <= 'F')
}

/// Whether every character is an ASCII decimal digit.
pub open spec fn all_digits(s: Seq<char>) -> bool {
    forall|i: int| 0 <= i < s.len() ==> is_digit(#[trigger] s[i])
}

/// Value of a digit character in base 16 (decimal digits included).
pub open spec fn digit_value(c: char) -> nat {
    if is_digit(c) {
        (c as u32 - '0' as u32) as nat
    } else if 'a' <= c && c <= 'f' {
        (c as u32 - 'a' as u32 + 10) as nat
    } else {
        (c as u32 - 'A' as u32 + 10) as nat
    }
}

/// Value of digit text in a base, most significant digit first.
pub open spec fn digits_value(s: Seq<char>, base: nat) -> nat
    decreases s.len(),
{
    if s.len() == 0 { 0 } else { digits_value(s.drop_last(), base) * base + digit_value(s.last()) }
}

/// What reading digit text as a number up to `limit` gives: the value, or `None` for empty text
/// or a value past the limit.
pub open spec fn read_digits(s: Seq<char>, base: nat, limit: nat) -> Option<nat> {
    if s.len() == 0 || digits_value(s, base) > limit { None } else { Some(digits_value(s, base)) }
}

proof fn lemma_digits_grow(s: Seq<char>, base: nat, c: char)
    requires
        base >= 2,
    ensures
        digits_value(s.push(c), base) >= digits_value(s, base),
        digits_value(s.push(c), base) == digits_value(s, base) * base + digit_value(c),
{
    assert(s.push(c).drop_last() =~= s);
    assert(digits_value(s, base) * base >= digits_value(s, base)) by (nonlinear_arith)
        requires base >= 2;
}

/// Reads digit text (all digits of the base) as a number up to `limit`.
pub fn read_number(s: &[char], base: u64, limit: u64) -> (r: Option<u64>)
    requires
        base == 10 || base == 16,
        limit <= 0x1_0000_0000,
        forall|i: int| 0 <= i < s@.len() ==> if base == 10 { is_digit(#[trigger] s@[i]) } else { is_hex_digit(s@[i]) },
    ensures
        r == (match read_digits(s@, base as nat, limit as nat) { Some(v) => Some(v as u64), None => None }),
{
    let mut acc: u64 = 0;
    let mut i: usize = 0;
    while i < s.len()
        invariant
            i <= s@.len(),
            base == 10 || base == 16,
            limit <= 0x1_0000_0000,
            forall|k: int| 0 <= k < s@.len() ==> if base == 10 { is_digit(#[trigger] s@[k]) } else { is_hex_digit(s@[k]) },
            digits_value(s@.subrange(0, i as int), base as nat) <= limit ==> acc == digits_value(s@.subrange(0, i as int), base as nat),
            digits_value(s@.subrange(0, i as int), base as nat) > limit ==> acc > limit,
            acc <= limit * 16 + 16,
        decreases s@.len() - i,
    {
        let c = s[i];
        let d: u64 = if '0' <= c && c <= '9' {
            (c as u32 - '0' as u32) as u64
        } else if 'a' <= c && c <= 'f' {
            (c as u32 - 'a' as u32 + 10) as u64
        } else {
            (c as u32 - 'A' as u32 + 10) as u64
        };
        proof {
            lemma_digits_grow(s@.subrange(0, i as int), base as nat, c);
            assert(s@.subrange(0, i as int).push(c) =~= s@.subrange(0, i + 1));
            assert(d == digit_value(c));
            assert(d < 16);
        }
        if acc <= limit {
            acc = acc * base + d;
        }
        i += 1;
    }
    assert(s@.subrange(0, i as int) =~= s@);
    if s.len() == 0 || acc > limit {
        None
    } else {
        Some(acc)
    }
}

} // verus!
