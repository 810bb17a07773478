//! Hexadecimal encoding and decoding of assertion ids, specified
//! exactly and performed by the `hex` crate.

use vstd::prelude::*;

verus! {

use vstd::string::StringSliceAdditionalSpecFns;

/// The lowercase character for one hex digit.
pub open spec fn hex_digit_char(d: int) -> char {
    if d == 0 { '0' }
    else if d == 1 { '1' }
    else if d == 2 { '2' }
    else if d == 3 { '3' }
    else if d == 4 { '4' }
    else if d == 5 { '5' }
    else if d == 6 { '6' }
    else if d == 7 { '7' }
    else if d == 8 { '8' }
    else if d == 9 { '9' }
    else if d == 10 { 'a' }
    else if d == 11 { 'b' }
    else if d == 12 { 'c' }
    else if d == 13 { 'd' }
    else if d == 14 { 'e' }
    else { 'f' }
}

/// Lowercase hex rendering of a byte string: two digits per byte, high
/// nibble first.
pub open spec fn hex_chars(b: Seq<u8>) -> Seq<char> {
    Seq::new(
        b.len() * 2,
        |i: int|
            if i % 2 == 0 {
                hex_digit_char(b[i / 2] as int / 16)
            } else {
                hex_digit_char(b[i / 2] as int % 16)
            },
    )
}

/// Whether a byte is an ASCII hex digit (either case).
pub open spec fn is_hex_byte(v: u8) -> bool {
    (48 <= v <= 57) || (97 <= v <= 102) || (65 <= v <= 70)
}

/// Numeric value of an ASCII hex digit byte.
pub open spec fn hex_byte_val(v: u8) -> int {
    if 48 <= v <= 57 {
        v - 48
    } else if 97 <= v <= 102 {
        v - 87
    } else {
        v - 55
    }
}

/// Whether a byte string is well-formed hex: even length, all digits.
pub open spec fn valid_hex_bytes(bs: Seq<u8>) -> bool {
    &&& bs.len() % 2 == 0
    &&& forall|i: int| 0 <= i < bs.len() ==> is_hex_byte(#[trigger] bs[i])
}

/// The bytes a hex string denotes, one per digit pair.
pub open spec fn hex_decoded(bs: Seq<u8>) -> Seq<u8> {
    Seq::new(
        bs.len() / 2,
        |i: int| (hex_byte_val(bs[2 * i]) * 16 + hex_byte_val(bs[2 * i + 1])) as u8,
    )
}

/// Relies on `hex::encode`: each input byte becomes exactly two
/// lowercase hex digits, high nibble first.
#[verifier::external_body]
pub fn hex_encode(b: &Vec<u8>) -> (r: String)
    ensures
        r@ == hex_chars(b@),
{
    hex::encode(b)
}

/// Relies on `hex::decode`: succeeds exactly on even-length strings of
/// hex digits (either case), yielding one byte per digit pair.
#[verifier::external_body]
pub fn hex_decode(s: &str) -> (r: Option<Vec<u8>>)
    ensures
        r is Some <==> valid_hex_bytes(s.spec_bytes()),
        r is Some ==> r->0@ == hex_decoded(s.spec_bytes()),
{
    match hex::decode(s) {
        Ok(v) => Some(v),
        Err(_) => None,
    }
}

} // verus!
