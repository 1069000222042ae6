//! Bytes as text by base64.

use base64::Engine;
use vstd::prelude::*;

verus! {

/// What the standard engine of the `base64` crate encodes bytes as.
pub uninterp spec fn encoded(b: Seq<u8>) -> Seq<char>;

/// What the standard engine of the `base64` crate decodes a text to, or the text
/// of its error.
pub uninterp spec fn decoded(s: Seq<char>) -> Result<Seq<u8>, Seq<char>>;

/// Whether a character occurs in base64.
pub open spec fn in_alphabet(c: char) -> bool {
    'A' <= c <= 'Z' || 'a' <= c <= 'z' || '0' <= c <= '9' || c == '+' || c == '/' || c == '='
}

/// Whether every character of a text occurs in base64.
pub open spec fn all_in_alphabet(s: Seq<char>) -> bool {
    forall|i: int| 0 <= i < s.len() ==> in_alphabet(#[trigger] s[i])
}

/// Whether a text decodes to bytes.
pub open spec fn decodes_to(s: Seq<char>, b: Seq<u8>) -> bool {
    decoded(s) == Ok::<Seq<u8>, Seq<char>>(b)
}

/// The most bytes whose encoding has no more bytes than a vector can hold.
pub open spec fn encodable(b: Seq<u8>) -> bool {
    b.len() <= usize::MAX / 8 * 3
}

/// `base64::engine::general_purpose::STANDARD.encode`: bytes in base64, with
/// padding. It is named after the bytes alone. The text holds letters, digits
/// and `+`, `/` and `=` alone, and the same engine decodes it to the bytes.
#[verifier::external_body]
pub(crate) fn encode(b: &Vec<u8>) -> (r: String)
    requires
        encodable(b@),
    ensures
        r@ == encoded(b@) && decodes_to(r@, b@),
        all_in_alphabet(r@),
{
    base64::engine::general_purpose::STANDARD.encode(b)
}

/// `base64::engine::general_purpose::STANDARD.decode`: the bytes that a text in
/// base64 stands for, or the text of the error. It is named after the text
/// alone.
#[verifier::external_body]
pub(crate) fn decode(s: &str) -> (r: Result<Vec<u8>, String>)
    ensures
        match r {
            Ok(b) => decoded(s@) == Ok::<Seq<u8>, Seq<char>>(b@),
            Err(e) => decoded(s@) == Err::<Seq<u8>, Seq<char>>(e@),
        },
{
    base64::engine::general_purpose::STANDARD.decode(s).map_err(|e| e.to_string())
}

} // verus!
