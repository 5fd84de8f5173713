//! Hex encoding of byte strings, as used for identifiers and stored records.

use vstd::prelude::*;

verus! {

/// The lowercase hex digit for a value below 16.
pub open spec fn hex_digit(n: int) -> char {
    if n == 0 { '0' }
    else if n == 1 { '1' }
    else if n == 2 { '2' }
    else if n == 3 { '3' }
    else if n == 4 { '4' }
    else if n == 5 { '5' }
    else if n == 6 { '6' }
    else if n == 7 { '7' }
    else if n == 8 { '8' }
    else if n == 9 { '9' }
    else if n == 10 { 'a' }
    else if n == 11 { 'b' }
    else if n == 12 { 'c' }
    else if n == 13 { 'd' }
    else if n == 14 { 'e' }
    else { 'f' }
}

/// Lowercase hex encoding: two digits for each byte, high nibble first.
pub open spec fn spec_hex(b: Seq<u8>) -> Seq<char>
    decreases b.len(),
{
    if b.len() == 0 {
        Seq::empty()
    } else {
        spec_hex(b.drop_last()) + seq![
            hex_digit((b.last() / 16) as int),
            hex_digit((b.last() % 16) as int),
        ]
    }
}

/// A hex encoding is exactly twice as long as its input.
pub proof fn lemma_spec_hex_len(b: Seq<u8>)
    ensures
        spec_hex(b).len() == 2 * b.len(),
    decreases b.len(),
{
    if b.len() > 0 {
        lemma_spec_hex_len(b.drop_last());
    }
}

/// Relies on `hex::encode`: lowercase, each byte encoded as exactly two hex
/// digits, high nibble first.
#[verifier::external_body]
pub fn hex_encode(b: &Vec<u8>) -> (r: String)
    ensures
        r@ == spec_hex(b@),
{
    hex::encode(b)
}

/// Relies on `Rng::gen` over `thread_rng`: sixteen bytes of cryptographically
/// strong randomness (nothing is promised of their values).
#[verifier::external_body]
pub fn random_bytes_16() -> (r: Vec<u8>)
    ensures
        r@.len() == 16,
{
    let bytes: [u8; 16] = rand::Rng::gen(&mut rand::thread_rng());
    bytes.to_vec()
}

/// A fresh 128-bit random identifier: the lowercase hex encoding of 16
/// random bytes, 32 characters in all.
pub fn generate_quote_id() -> (r: String)
    ensures
        r@.len() == 32,
        exists|b: Seq<u8>| b.len() == 16 && r@ == spec_hex(b),
{
    let b = random_bytes_16();
    let s = hex_encode(&b);
    proof {
        lemma_spec_hex_len(b@);
        assert(b@.len() == 16 && s@ == spec_hex(b@));
    }
    s
}

} // verus!
