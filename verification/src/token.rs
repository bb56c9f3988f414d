//! Bearer-token generation.
//!
//! A token is 32 random bytes rendered as 64 lowercase hexadecimal
//! characters. The hex rendering is specified exactly: each byte becomes
//! the digit of its high nibble followed by the digit of its low nibble.

use vstd::prelude::*;

verus! {

/// The lowercase hexadecimal digit for a nibble value.
pub open spec fn hex_digit_char(n: u8) -> char
    recommends
        n < 16,
{
    if n == 0 {
        '0'
    } else if n == 1 {
        '1'
    } else if n == 2 {
        '2'
    } else if n == 3 {
        '3'
    } else if n == 4 {
        '4'
    } else if n == 5 {
        '5'
    } else if n == 6 {
        '6'
    } else if n == 7 {
        '7'
    } else if n == 8 {
        '8'
    } else if n == 9 {
        '9'
    } else if n == 10 {
        'a'
    } else if n == 11 {
        'b'
    } else if n == 12 {
        'c'
    } else if n == 13 {
        'd'
    } else if n == 14 {
        'e'
    } else {
        'f'
    }
}

/// The lowercase hexadecimal rendering of a byte sequence: two digits per
/// byte, high nibble first, in input order.
pub open spec fn hex_of(bytes: Seq<u8>) -> Seq<char>
    decreases bytes.len(),
{
    if bytes.len() == 0 {
        Seq::empty()
    } else {
        seq![hex_digit_char(bytes[0] / 16), hex_digit_char(bytes[0] % 16)] + hex_of(
            bytes.drop_first(),
        )
    }
}

/// A character drawn from the lowercase hexadecimal alphabet `0-9a-f`.
pub open spec fn is_lower_hex_digit(c: char) -> bool {
    (48 <= c as u32 <= 57) || (97 <= c as u32 <= 102)
}

/// A well-formed bearer token: exactly 64 lowercase hexadecimal characters.
pub open spec fn is_token(s: Seq<char>) -> bool {
    &&& s.len() == 64
    &&& forall|i: int| 0 <= i < s.len() ==> is_lower_hex_digit(s[i])
}

/// The hex rendering of `n` bytes has `2 * n` characters, all of them
/// lowercase hexadecimal digits.
pub proof fn lemma_hex_of_well_formed(bytes: Seq<u8>)
    ensures
        hex_of(bytes).len() == 2 * bytes.len(),
        forall|i: int| 0 <= i < hex_of(bytes).len() ==> is_lower_hex_digit(hex_of(bytes)[i]),
    decreases bytes.len(),
{
    if bytes.len() > 0 {
        lemma_hex_of_well_formed(bytes.drop_first());
        assert(bytes[0] / 16 < 16);
        assert(is_lower_hex_digit(hex_digit_char(bytes[0] / 16)));
        assert(is_lower_hex_digit(hex_digit_char(bytes[0] % 16)));
    }
}

/// Relies on rand::random with the standard uniform distribution over byte
/// arrays: 32 bytes drawn from the thread-local cryptographically secure
/// generator. Nothing is promised of their values.
#[verifier::external_body]
fn random_bytes() -> (r: Vec<u8>)
    ensures
        r@.len() == 32,
{
    let bytes: [u8; 32] = rand::random();
    bytes.to_vec()
}

/// Relies on hex::encode: each input byte becomes two characters, the
/// lowercase hexadecimal digits of its high and low nibble, in input order.
#[verifier::external_body]
fn hex_encode(bytes: &Vec<u8>) -> (r: String)
    ensures
        r@ == hex_of(bytes@),
{
    hex::encode(bytes)
}

/// Generates a fresh bearer token: 32 random bytes rendered as 64
/// lowercase hexadecimal characters.
pub fn generate_token() -> (t: String)
    ensures
        is_token(t@),
{
    let bytes = random_bytes();
    let t = hex_encode(&bytes);
    proof {
        lemma_hex_of_well_formed(bytes@);
    }
    t
}

} // verus!
