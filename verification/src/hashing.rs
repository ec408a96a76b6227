//! Content digests for snapshot verification.
//!
//! A snapshot's commitment is the SHA-256 digest of its canonical JSON,
//! rendered as 64 lowercase hexadecimal characters. The digest itself comes
//! from the `sha2` crate and the rendering from the `hex` crate, each behind
//! a trusted wrapper; everything layered on top is verified.

use vstd::prelude::*;

use crate::text::{lower_char, lower_chars};
use vstd::string::StringSliceAdditionalSpecFns;

verus! {

/// The SHA-256 digest of a byte sequence. The digest is a pure function of
/// the input bytes; its 32-byte value is not given an algorithmic
/// definition here.
pub uninterp spec fn sha256_of(data: Seq<u8>) -> Seq<u8>;

/// Relies on `sha2::Sha256::digest`: a pure function of the input bytes
/// returning the 32-byte SHA-256 digest.
#[verifier::external_body]
fn sha256_bytes(data: &[u8]) -> (r: Vec<u8>)
    ensures
        r@ == sha256_of(data@),
        r@.len() == 32,
{
    <sha2::Sha256 as sha2::Digest>::digest(data).to_vec()
}

/// The lowercase hexadecimal digit for a nibble.
pub open spec fn hex_digit_char(n: u8) -> char
    recommends
        n < 16,
{
    if n < 10 {
        ((48 + n) as u8) as char
    } else {
        ((87 + n) as u8) as char
    }
}

/// The lowercase hexadecimal rendering of a byte sequence: two digits per
/// byte, high nibble first.
pub open spec fn hex_chars(bytes: Seq<u8>) -> Seq<char> {
    Seq::new(
        2 * bytes.len(),
        |i: int|
            if i % 2 == 0 {
                hex_digit_char(bytes[i / 2] >> 4)
            } else {
                hex_digit_char(bytes[i / 2] & 0x0f)
            },
    )
}

/// Relies on `hex::encode`: each input byte becomes its two lowercase
/// hexadecimal digits, high nibble first.
#[verifier::external_body]
fn hex_encode(bytes: &Vec<u8>) -> (r: String)
    ensures
        r@ == hex_chars(bytes@),
{
    hex::encode(bytes)
}

/// Whether `c` is a lowercase hexadecimal digit.
pub open spec fn is_lower_hex_digit(c: char) -> bool {
    (48 <= c as u32 <= 57) || (97 <= c as u32 <= 102)
}

/// Hexadecimal renderings consist of lowercase hex digits only, and are
/// therefore fixed points of ASCII case folding.
pub proof fn lemma_hex_chars_lower(bytes: Seq<u8>)
    ensures
        forall|i: int| 0 <= i < 2 * bytes.len() ==> is_lower_hex_digit(#[trigger] hex_chars(bytes)[i]),
        lower_chars(hex_chars(bytes)) == hex_chars(bytes),
{
    assert forall|i: int| 0 <= i < 2 * bytes.len() implies is_lower_hex_digit(
        #[trigger] hex_chars(bytes)[i],
    ) by {
        let b = bytes[i / 2];
        assert((b >> 4) < 16 && (b & 0x0f) < 16) by (bit_vector);
    }
    assert forall|i: int| 0 <= i < hex_chars(bytes).len() implies lower_chars(hex_chars(bytes))[i]
        == hex_chars(bytes)[i] by {
        assert(is_lower_hex_digit(hex_chars(bytes)[i]));
        assert(lower_char(hex_chars(bytes)[i]) == hex_chars(bytes)[i]);
    }
    assert(lower_chars(hex_chars(bytes)) =~= hex_chars(bytes));
}

/// The commitment digest of canonical data: SHA-256 rendered as 64
/// lowercase hexadecimal characters.
pub fn sha256_hex(data: &str) -> (r: String)
    ensures
        r@ == hex_chars(sha256_of(data.spec_bytes())),
        r@.len() == 64,
        forall|i: int| 0 <= i < r@.len() ==> is_lower_hex_digit(#[trigger] r@[i]),
        lower_chars(r@) == r@,
{
    let digest = sha256_bytes(data.as_bytes());
    let r = hex_encode(&digest);
    proof {
        lemma_hex_chars_lower(digest@);
    }
    r
}

} // verus!
