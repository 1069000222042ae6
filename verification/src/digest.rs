//! Digests of bytes.

use sha2::Digest;
use vstd::prelude::*;

verus! {

/// The SHA-256 digest that `sha2::Sha256` computes of bytes.
pub uninterp spec fn sha256_of(b: Seq<u8>) -> Seq<u8>;

/// A hexadecimal digit.
pub open spec fn hex_digit(n: int) -> char {
    "0123456789abcdef"@[n]
}

/// Bytes in hexadecimal, each with two digits, the higher one first.
pub open spec fn hex_of(b: Seq<u8>) -> Seq<char> {
    Seq::new(
        2 * b.len(),
        |i: int| hex_digit(if i % 2 == 0 { b[i / 2] / 16 } else { b[i / 2] % 16 } as int),
    )
}

/// The digest of bytes in hexadecimal.
pub open spec fn digest_of(b: Seq<u8>) -> Seq<char> {
    hex_of(sha256_of(b))
}

/// `sha2::Sha256::digest`: the SHA-256 digest of bytes, 32 of them. It is named
/// after the bytes alone.
#[verifier::external_body]
fn sha256(b: &Vec<u8>) -> (r: Vec<u8>)
    ensures
        r@ == sha256_of(b@),
        r.len() == 32,
{
    sha2::Sha256::digest(b).to_vec()
}

/// `hex::encode`: bytes in hexadecimal with small letters, two digits for each.
#[verifier::external_body]
fn hex_text(b: &Vec<u8>) -> (r: String)
    ensures
        r@ == hex_of(b@),
{
    hex::encode(b)
}

/// The digest of bytes in hexadecimal: 64 digits.
pub fn digest(b: &Vec<u8>) -> (r: String)
    ensures
        r@ == digest_of(b@),
        r@.len() == 64,
{
    let raw = sha256(b);
    hex_text(&raw)
}

/// A digest is written in 64 hexadecimal signs, in small letters.
pub proof fn lemma_digest_signs(b: Vec<u8>, i: int, r: String)
    requires
        call_ensures(digest, (&b,), r),
        0 <= i < r@.len(),
    ensures
        r@.len() == 64,
        '0' <= r@[i] <= '9' || 'a' <= r@[i] <= 'f',
{
    reveal_strlit("0123456789abcdef");
    let h = sha256_of(b@);
    assert(r@[i] == hex_digit(if i % 2 == 0 { h[i / 2] / 16 } else { h[i / 2] % 16 } as int));
}

} // verus!
