//! Decoding of textual MAC addresses: hexadecimal digits and the stripping
//! of a separator character.

use vstd::prelude::*;

verus! {

/// A character that standard hexadecimal decoding accepts, in either case.
pub open spec fn is_hex_digit(c: char) -> bool {
    ('0' <= c && c <= '9') || ('a' <= c && c <= 'f') || ('A' <= c && c <= 'F')
}

/// The numeric value of one hexadecimal digit.
pub open spec fn hex_digit_value(c: char) -> u8
    recommends
        is_hex_digit(c),
{
    if '0' <= c && c <= '9' {
        (c as u32 - '0' as u32) as u8
    } else if 'a' <= c && c <= 'f' {
        (c as u32 - 'a' as u32 + 10) as u8
    } else {
        (c as u32 - 'A' as u32 + 10) as u8
    }
}

/// The bytes encoded by a sequence of hexadecimal digits: each pair of
/// digits becomes one byte, high digit first.
pub open spec fn spec_hex_decode(s: Seq<char>) -> Seq<u8>
    recommends
        s.len() % 2 == 0,
        forall|i: int| 0 <= i < s.len() ==> is_hex_digit(s[i]),
{
    Seq::new(s.len() / 2, |i: int| (hex_digit_value(s[2 * i]) * 16 + hex_digit_value(s[2 * i + 1])) as u8)
}

/// The characters of `s` with every occurrence of `sep` removed, in order.
pub open spec fn strip_separator(s: Seq<char>, sep: char) -> Seq<char>
    decreases s.len(),
{
    if s.len() == 0 {
        Seq::empty()
    } else if s.last() == sep {
        strip_separator(s.drop_last(), sep)
    } else {
        strip_separator(s.drop_last(), sep).push(s.last())
    }
}

/// Every character of `t` is a hexadecimal digit.
pub open spec fn all_hex(t: Seq<char>) -> bool {
    forall|i: int| 0 <= i < t.len() ==> is_hex_digit(t[i])
}

/// `c` is the first character of `t` that is not a hexadecimal digit, and
/// `index` is its position.
pub open spec fn first_non_hex_at(t: Seq<char>, c: char, index: usize) -> bool {
    &&& index < t.len()
    &&& c == t[index as int]
    &&& !is_hex_digit(c)
    &&& forall|j: int| 0 <= j < index ==> is_hex_digit(t[j])
}

/// Whether `c` is a hexadecimal digit.
pub fn check_hex_digit(c: char) -> (r: bool)
    ensures
        r == is_hex_digit(c),
{
    ('0' <= c && c <= '9') || ('a' <= c && c <= 'f') || ('A' <= c && c <= 'F')
}

/// Relies on `hex::decode`: an even-length run of hexadecimal digits
/// decodes without error, one byte per digit pair, high digit first.
#[verifier::external_body]
pub(crate) fn hex_decode_digits(data: &Vec<char>) -> (r: Vec<u8>)
    requires
        data@.len() % 2 == 0,
        all_hex(data@),
    ensures
        r@ == spec_hex_decode(data@),
{
    let text: String = data.iter().collect();
    hex::decode(text).unwrap()
}

} // verus!
