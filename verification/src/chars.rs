//! Character classes used by the tokenizer.
use vstd::prelude::*;

verus! {

/// Is `c` a hexadecimal digit (`0`-`9`, `a`-`f`, `A`-`F`)?
pub open spec fn is_hex_digit_spec(c: char) -> bool {
    ('0' <= c && c <= '9') || ('a' <= c && c <= 'f') || ('A' <= c && c <= 'F')
}

/// Is `c` a decimal digit?
pub open spec fn is_numeric_digit_spec(c: char) -> bool {
    '0' <= c && c <= '9'
}

/// Is `c` an octal digit?
pub open spec fn is_octal_digit_spec(c: char) -> bool {
    '0' <= c && c <= '7'
}

/// Is `c` a binary digit?
pub open spec fn is_binary_digit_spec(c: char) -> bool {
    c == '0' || c == '1'
}

/// Is `c` ASCII whitespace (space, tab, line feed, form feed or carriage return)?
pub open spec fn is_ascii_whitespace_spec(c: char) -> bool {
    c == ' ' || c == '\t' || c == '\n' || c == '\x0C' || c == '\r'
}

/// Has `c` the Unicode `White_Space` property?
pub open spec fn is_whitespace_spec(c: char) -> bool {
    ('\t' <= c && c <= '\r') || c == ' ' || c == '\u{85}' || c == '\u{A0}' || c == '\u{1680}' || (
    '\u{2000}' <= c && c <= '\u{200A}') || c == '\u{2028}' || c == '\u{2029}' || c == '\u{202F}'
        || c == '\u{205F}' || c == '\u{3000}'
}

/// The value of `c` as a hexadecimal digit, if it is one.
pub open spec fn hex_value(c: char) -> Option<u32> {
    if '0' <= c && c <= '9' {
        Some((c as u32 - '0' as u32) as u32)
    } else if 'a' <= c && c <= 'f' {
        Some((c as u32 - 'a' as u32 + 10) as u32)
    } else if 'A' <= c && c <= 'F' {
        Some((c as u32 - 'A' as u32 + 10) as u32)
    } else {
        None
    }
}

/// Is `v` a Unicode scalar value (a code point that is not a surrogate)?
pub open spec fn is_scalar_value(v: u32) -> bool {
    v <= 0x10FFFF && !(0xD800 <= v && v <= 0xDFFF)
}

/// May `c` start an identifier: is it an ASCII letter?
pub open spec fn id_start(c: char) -> bool {
    ('a' <= c && c <= 'z') || ('A' <= c && c <= 'Z')
}

/// May `c` continue an identifier: is it an ASCII letter or digit, or `_`?
pub open spec fn id_continue(c: char) -> bool {
    ('a' <= c && c <= 'z') || ('A' <= c && c <= 'Z') || ('0' <= c && c <= '9') || c == '_'
}

/// `char::from_u32`: the character with code `v`, if `v` is a Unicode scalar value.
#[verifier::external_body]
pub(crate) fn char_from_u32(v: u32) -> (r: Option<char>)
    ensures
        r is Some <==> is_scalar_value(v),
        r matches Some(c) ==> c as u32 == v,
{
    char::from_u32(v)
}

/// Is the character a hexadecimal digit?
pub fn is_hex_digit(c: char) -> (r: bool)
    ensures
        r == is_hex_digit_spec(c),
{
    ('0' <= c && c <= '9') || ('a' <= c && c <= 'f') || ('A' <= c && c <= 'F')
}

/// Is the character a numeric digit (i.e. 0-9)?
pub fn is_numeric_digit(c: char) -> (r: bool)
    ensures
        r == is_numeric_digit_spec(c),
{
    '0' <= c && c <= '9'
}

/// Is the character an octal digit (i.e. 0-7)?
pub fn is_octal_digit(c: char) -> (r: bool)
    ensures
        r == is_octal_digit_spec(c),
{
    '0' <= c && c <= '7'
}

/// Is the character a binary digit (i.e. 0 or 1)?
pub fn is_binary_digit(c: char) -> (r: bool)
    ensures
        r == is_binary_digit_spec(c),
{
    c == '0' || c == '1'
}

/// Is the character ASCII whitespace?
pub fn is_ascii_whitespace(c: char) -> (r: bool)
    ensures
        r == is_ascii_whitespace_spec(c),
{
    c == ' ' || c == '\t' || c == '\n' || c == '\x0C' || c == '\r'
}

/// Is the character Unicode whitespace?
pub fn is_whitespace(c: char) -> (r: bool)
    ensures
        r == is_whitespace_spec(c),
{
    ('\t' <= c && c <= '\r') || c == ' ' || c == '\u{85}' || c == '\u{A0}' || c == '\u{1680}' || (
    '\u{2000}' <= c && c <= '\u{200A}') || c == '\u{2028}' || c == '\u{2029}' || c == '\u{202F}'
        || c == '\u{205F}' || c == '\u{3000}'
}

/// The value of a hexadecimal digit.
pub fn hex_digit_value(c: char) -> (r: Option<u32>)
    ensures
        r == hex_value(c),
{
    if '0' <= c && c <= '9' {
        Some(c as u32 - '0' as u32)
    } else if 'a' <= c && c <= 'f' {
        Some(c as u32 - 'a' as u32 + 10)
    } else if 'A' <= c && c <= 'F' {
        Some(c as u32 - 'A' as u32 + 10)
    } else {
        None
    }
}

/// Is a character valid to start an identifier?
pub fn is_id_first_alphabetic(x: char) -> (r: bool)
    ensures
        r == id_start(x),
{
    ('a' <= x && x <= 'z') || ('A' <= x && x <= 'Z')
}

/// Is a character valid for an identifier?
pub fn is_id_continue(x: char) -> (r: bool)
    ensures
        r == id_continue(x),
{
    ('a' <= x && x <= 'z') || ('A' <= x && x <= 'Z') || ('0' <= x && x <= '9') || x == '_'
}

} // verus!
