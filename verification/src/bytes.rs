//! Strings by the bytes of their encoding.

use vstd::prelude::*;
use vstd::string::StringSliceAdditionalSpecFns;

use crate::case;

verus! {

/// Whether a string can be cut after `n` bytes: it is no longer than that, or a
/// character begins there.
pub open spec fn cuttable(s: Seq<char>, n: nat) -> bool {
    let b = vstd::utf8::encode_utf8(s);
    b.len() > n ==> vstd::utf8::is_char_boundary(b, n as int)
}

/// The characters in the first `n` bytes of a string; all of a string that is
/// no longer than that.
pub open spec fn clipped(s: Seq<char>, n: nat) -> Seq<char> {
    let b = vstd::utf8::encode_utf8(s);
    if b.len() > n {
        vstd::utf8::decode_utf8(b.subrange(0, n as int))
    } else {
        s
    }
}

/// Whether the last `n` bytes of a string can be cut off: it has no more, or a
/// character begins there.
pub open spec fn end_cuttable(s: Seq<char>, n: nat) -> bool {
    let b = vstd::utf8::encode_utf8(s);
    b.len() > n ==> vstd::utf8::is_char_boundary(b, b.len() - n)
}

/// The characters in the last `n` bytes of a string; all of a string that is no
/// longer than that.
pub open spec fn ending(s: Seq<char>, n: nat) -> Seq<char> {
    let b = vstd::utf8::encode_utf8(s);
    if b.len() > n {
        vstd::utf8::decode_utf8(b.subrange(b.len() - n, b.len() as int))
    } else {
        s
    }
}

/// How many bytes the encoding of a string has.
pub open spec fn byte_len(s: Seq<char>) -> nat {
    vstd::utf8::encode_utf8(s).len()
}

/// How many bytes the encoding of a string has.
pub fn len_in_bytes(s: &str) -> (r: usize)
    ensures
        r == byte_len(s@),
{
    s.as_bytes().len()
}

/// The characters in the first `n` bytes of a string.
pub fn clip<'a>(s: &'a str, n: usize) -> (r: &'a str)
    requires
        cuttable(s@, n as nat),
    ensures
        r@ == clipped(s@, n as nat),
{
    if s.as_bytes().len() > n {
        let (head, _) = s.split_at(n);
        proof {
            vstd::utf8::encode_utf8_decode_utf8(head@);
            assert(head.spec_bytes() == s.spec_bytes().subrange(0, n as int));
        }
        head
    } else {
        s
    }
}

/// The characters in the last `n` bytes of a string.
pub fn end_of<'a>(s: &'a str, n: usize) -> (r: &'a str)
    requires
        end_cuttable(s@, n as nat),
    ensures
        r@ == ending(s@, n as nat),
{
    let len: usize = s.as_bytes().len();
    if len > n {
        let (_, tail) = s.split_at(len - n);
        proof {
            vstd::utf8::encode_utf8_decode_utf8(tail@);
            assert(tail.spec_bytes() == s.spec_bytes().subrange(len - n, len as int));
        }
        tail
    } else {
        s
    }
}

/// A string of ASCII characters can be cut anywhere, and has a byte for each
/// character.
pub proof fn lemma_clip_plain(s: Seq<char>, n: nat)
    requires
        case::plain(s),
    ensures
        byte_len(s) == s.len(),
        cuttable(s, n),
        clipped(s, n) == if s.len() > n {
            s.take(n as int)
        } else {
            s
        },
{
    let b = vstd::utf8::encode_utf8(s);
    assert(vstd::utf8::is_ascii_chars(s));
    vstd::utf8::is_ascii_chars_encode_utf8(s);
    vstd::utf8::encode_utf8_valid_utf8(s);
    if s.len() > n {
        let t = s.take(n as int);
        assert(vstd::utf8::is_ascii_chars(t)) by {
            assert forall|i: int| 0 <= i < t.len() implies '\0' <= #[trigger] t[i] <= '\u{7f}' by {
                assert(t[i] == s[i]);
            }
        }
        vstd::utf8::is_ascii_chars_encode_utf8(t);
        vstd::utf8::encode_utf8_decode_utf8(t);
        assert(b.subrange(0, n as int) =~= vstd::utf8::encode_utf8(t)) by {
            assert forall|i: int| 0 <= i < n implies b[i] == vstd::utf8::encode_utf8(t)[i] by {
                assert(t[i] == s[i]);
                assert(b[i] == s[i] as u8);
            }
        }
        assert(b[n as int] == s[n as int] as u8);
        vstd::utf8::is_char_boundary_iff_not_is_continuation_byte(b, n as int);
    }
}

/// What `String::from_utf8_lossy` makes of bytes.
pub uninterp spec fn lossy(b: Seq<u8>) -> Seq<char>;

/// `String::from_utf8_lossy`: bytes as text, with a replacement character for
/// what is no UTF-8. It is named after the bytes alone; of bytes that are UTF-8
/// it makes the text that they encode.
#[verifier::external_body]
pub(crate) fn lossy_text(b: &Vec<u8>) -> (r: String)
    ensures
        r@ == lossy(b@),
        vstd::utf8::valid_utf8(b@) ==> r@ == vstd::utf8::decode_utf8(b@),
{
    String::from_utf8_lossy(b).into_owned()
}

} // verus!
