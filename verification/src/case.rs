//! Letter case by the rules of Unicode.

use vstd::prelude::*;

use crate::split;

verus! {

/// What `str::to_lowercase` makes of a text.
pub uninterp spec fn lowercase_of(s: Seq<char>) -> Seq<char>;

/// What `str::to_uppercase` makes of a text.
pub uninterp spec fn uppercase_of(s: Seq<char>) -> Seq<char>;

/// Whether every character is an ASCII character.
pub open spec fn plain(s: Seq<char>) -> bool {
    forall|i: int| 0 <= i < s.len() ==> '\0' <= #[trigger] s[i] <= '\u{7f}'
}

/// `str::to_lowercase`: the lowercase equivalent of the text as a new string.
/// Of a text of ASCII characters it maps the capital letters to the small ones
/// and leaves all else as it is; what it makes of other characters is left to
/// its name.
#[verifier::external_body]
pub(crate) fn to_lowercase(s: &str) -> (r: String)
    ensures
        r@ == lowercase_of(s@),
        plain(s@) ==> r@ == split::lowered(s@),
{
    s.to_lowercase()
}

/// `str::to_uppercase`: the uppercase equivalent of the text as a new string.
/// Of a text of ASCII characters it maps the small letters to the capital ones
/// and leaves all else as it is; what it makes of other characters is left to
/// its name.
#[verifier::external_body]
pub(crate) fn to_uppercase(s: &str) -> (r: String)
    ensures
        r@ == uppercase_of(s@),
        plain(s@) ==> r@ == split::uppered(s@),
{
    s.to_uppercase()
}

} // verus!
