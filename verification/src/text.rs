//! Helpers for text held as `String`, `&str` and `Vec<char>`.
//!
//! Every contract here speaks of a text through its view, a `Seq<char>`.

use vstd::prelude::*;
use vstd::string::*;
use vstd::utf8::is_scalar;

verus! {

/// Appends one character to a string.
///
/// Calls `String::push`: the string afterwards is the string before followed by
/// `c`.
#[verifier::external_body]
pub(crate) fn push_char(s: &mut String, c: char)
    ensures
        final(s)@ == old(s)@.push(c),
{
    s.push(c)
}

/// The character with the given code point, if there is one.
///
/// Calls `char::from_u32`, which gives a character for every Unicode scalar
/// value (a code point up to 0x10FFFF outside the surrogate range) and nothing
/// for any other number.
#[verifier::external_body]
pub(crate) fn char_from_u32(code: u32) -> (r: Option<char>)
    ensures
        r == scalar_char(code),
{
    char::from_u32(code)
}

/// The character with code point `code`, where `code` is a Unicode scalar value.
pub open spec fn scalar_char(code: u32) -> Option<char> {
    if is_scalar(code) {
        Some(code as char)
    } else {
        None
    }
}

/// The characters of `s`, in order.
pub fn str_chars(s: &str) -> (v: Vec<char>)
    ensures
        v@ == s@,
{
    let mut v: Vec<char> = Vec::new();
    for c in it: s.chars()
        invariant
            it.seq() == s@,
            v@ == s@.take(it.index()),
    {
        v.push(c);
    }
    assert(s@.take(s@.len() as int) == s@);
    v
}

/// Appends the characters of `s` to `v`.
pub fn push_str_chars(v: &mut Vec<char>, s: &str)
    ensures
        final(v)@ == old(v)@ + s@,
{
    let ghost before = v@;
    for c in it: s.chars()
        invariant
            it.seq() == s@,
            v@ == before + s@.take(it.index()),
    {
        v.push(c);
    }
    assert(s@.take(s@.len() as int) == s@);
}

/// Appends the characters of `v` to `s`.
pub fn push_chars(s: &mut String, v: &Vec<char>)
    ensures
        final(s)@ == old(s)@ + v@,
{
    let ghost before = s@;
    let mut i: usize = 0;
    while i < v.len()
        invariant
            i <= v.len(),
            s@ == before + v@.take(i as int),
        decreases v.len() - i,
    {
        push_char(s, v[i]);
        i = i + 1;
    }
    assert(v@.take(v@.len() as int) == v@);
}

/// A string with the characters of `v`.
pub fn string_from_chars(v: &Vec<char>) -> (s: String)
    ensures
        s@ == v@,
{
    let mut s = String::new();
    push_chars(&mut s, v);
    s
}

/// Whether two texts hold the same characters.
pub fn chars_eq(a: &Vec<char>, b: &Vec<char>) -> (r: bool)
    ensures
        r == (a@ == b@),
{
    if a.len() != b.len() {
        return false;
    }
    let mut i: usize = 0;
    while i < a.len()
        invariant
            i <= a.len(),
            a.len() == b.len(),
            a@.take(i as int) == b@.take(i as int),
        decreases a.len() - i,
    {
        if a[i] != b[i] {
            return false;
        }
        assert(a@.take(i + 1) == a@.take(i as int).push(a@[i as int]));
        assert(b@.take(i + 1) == b@.take(i as int).push(b@[i as int]));
        i = i + 1;
    }
    assert(a@.take(a@.len() as int) == a@);
    assert(b@.take(b@.len() as int) == b@);
    true
}

/// Whether two string slices hold the same characters.
pub fn str_eq(a: &str, b: &str) -> (r: bool)
    ensures
        r == (a@ == b@),
{
    let x = str_chars(a);
    let y = str_chars(b);
    chars_eq(&x, &y)
}

/// Whether `v` holds exactly the characters of `s`.
pub fn chars_are(v: &Vec<char>, s: &str) -> (r: bool)
    ensures
        r == (v@ == s@),
{
    let y = str_chars(s);
    chars_eq(v, &y)
}

/// The decimal digits of `n`, most significant first, without leading zeros
/// (`"0"` for zero).
pub open spec fn decimal(n: nat) -> Seq<char>
    decreases n,
{
    if n < 10 {
        seq![digit_char(n)]
    } else {
        decimal(n / 10).push(digit_char(n % 10))
    }
}

/// The character for a digit below sixteen: `0` to `9`, then `A` to `F`.
pub open spec fn digit_char(d: nat) -> char {
    if d < 10 {
        ((d + 48) as u8) as char
    } else {
        ((d + 55) as u8) as char
    }
}

/// The character for a digit below sixteen.
pub fn digit_to_char(d: u8) -> (c: char)
    requires
        d < 16,
    ensures
        c == digit_char(d as nat),
{
    if d < 10 {
        (d + 48) as char
    } else {
        (d + 55) as char
    }
}

/// Appends the decimal digits of `n` to `v`.
pub fn push_decimal(v: &mut Vec<char>, n: u128)
    ensures
        final(v)@ == old(v)@ + decimal(n as nat),
    decreases n,
{
    if n < 10 {
        v.push(digit_to_char(n as u8));
    } else {
        push_decimal(v, n / 10);
        v.push(digit_to_char((n % 10) as u8));
    }
}

/// The hexadecimal digits of `n` in upper case, most significant first, padded
/// with zeros on the left to at least `width` digits.
pub open spec fn upper_hex(n: nat, width: nat) -> Seq<char>
    decreases n, width,
{
    if n < 16 && width <= 1 {
        seq![digit_char(n)]
    } else {
        upper_hex(n / 16, if width > 0 { (width - 1) as nat } else { 0 }).push(digit_char(n % 16))
    }
}

/// Appends the hexadecimal digits of `n`, padded to `width` digits, to `v`.
pub fn push_upper_hex(v: &mut Vec<char>, n: u32, width: u8)
    ensures
        final(v)@ == old(v)@ + upper_hex(n as nat, width as nat),
    decreases n, width,
{
    if n < 16 && width <= 1 {
        v.push(digit_to_char(n as u8));
    } else {
        push_upper_hex(v, n / 16, if width > 0 { width - 1 } else { 0 });
        v.push(digit_to_char((n % 16) as u8));
    }
}

} // verus!
