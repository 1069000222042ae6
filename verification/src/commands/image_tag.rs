//! `tag`: one more name for an image.

use vstd::prelude::*;

use crate::split;
use crate::split::{contains_char, rsplit_once};
use crate::text;
use crate::text::{cat2, cat3, chars_of};

verus! {

/// The arguments of `tag`.
#[derive(Debug)]
pub struct ImageTagArgs {
    pub source: String,
    pub target: String,
}

/// The repository of a reference: what stands before its digest and its tag. A
/// colon before a slash is that of a port and begins no tag.
pub open spec fn repository(target: Seq<char>) -> Seq<char> {
    let s = split::pieces(target, '@')[0];
    match split::cut_last(s, ':') {
        Some((a, b)) => if b.contains('/') { s } else { a },
        None => s,
    }
}

/// Whether a text holds a capital letter of ASCII.
pub open spec fn has_capital(s: Seq<char>) -> bool {
    exists|i: int| 0 <= i < s.len() && 'A' <= #[trigger] s[i] <= 'Z'
}

/// Whether a text holds a capital letter of ASCII.
pub fn contains_capital(s: &str) -> (r: bool)
    ensures
        r == has_capital(s@),
{
    let v = chars_of(s);
    for i in 0..v.len()
        invariant
            v@ == s@,
            forall|j: int| 0 <= j < i ==> !('A' <= #[trigger] s@[j] <= 'Z'),
    {
        if 'A' <= v[i] && v[i] <= 'Z' {
            assert('A' <= s@[i as int] <= 'Z');
            return true;
        }
    }
    false
}

/// Refuses a name for an image whose repository has a capital letter.
pub fn validate_tag_target(target: &str) -> (r: Result<(), String>)
    ensures
        match r {
            Ok(_) => !has_capital(repository(target@)),
            Err(e) => has_capital(repository(target@)) && e@
                == "invalid reference format: repository name must be lowercase: '"@ + target@ + "'"@,
        },
{
    let parts = split::split(target, '@');
    assert(text::strs(parts@)[0] == parts@[0]@);
    let s: &str = &parts[0];
    let repo: &str = match rsplit_once(s, ':') {
        Some((a, b)) => if contains_char(b, '/') { s } else { a },
        None => s,
    };
    if contains_capital(repo) {
        return Err(cat3("invalid reference format: repository name must be lowercase: '", target, "'"));
    }
    Ok(())
}

/// What is said of an image that is not in the store.
pub fn image_not_found(source: &str) -> (r: String)
    ensures
        r@ == "Image not found: "@ + source@,
{
    cat2("Image not found: ", source)
}

/// Capital letters in the tag are no reason to refuse a name.
pub proof fn lemma_tag_may_have_capitals(name: Seq<char>, tag: Seq<char>)
    requires
        !name.contains('@'),
        !tag.contains('@'),
        !tag.contains('/'),
        !tag.contains(':'),
    ensures
        repository(name + seq![':'] + tag) == name,
{
    let s = name + seq![':'] + tag;
    let k = name.len() as int;
    assert forall|i: int| 0 <= i < s.len() implies s[i] != '@' by {
        if i < k {
            assert(name.contains(name[i]));
        } else if i > k {
            assert(tag.contains(tag[i - k - 1]));
        }
    }
    assert(split::cut(s, '@') is None) by {
        split::lemma_cut(s, '@');
    }
    assert(split::pieces(s, '@')[0] == s);
    assert(split::is_last(s, ':', k)) by {
        assert forall|j: int| k < j < s.len() implies s[j] != ':' by {
            assert(tag.contains(tag[j - k - 1]));
        }
    }
    split::lemma_cut_last_at(s, ':', k);
    assert(s.skip(k + 1) =~= tag);
    assert(s.take(k) =~= name);
}

/// A target is refused exactly where the name of its repository has a capital letter;
/// without a tag and a digest the name is the target itself.
pub proof fn lemma_target_in_small_letters(target: &str, i: int, r: Result<(), String>)
    requires
        call_ensures(validate_tag_target, (target,), r),
        !target@.contains('@'),
        !target@.contains(':'),
    ensures
        0 <= i < target@.len() && 'A' <= target@[i] <= 'Z' ==> r is Err,
        (forall|k: int| 0 <= k < target@.len() ==> !('A' <= #[trigger] target@[k] <= 'Z')) ==> r is Ok,
{
    split::lemma_cut(target@, '@');
    assert(split::pieces(target@, '@') == seq![target@]);
    assert(repository(target@) == target@);
}

/// Whether there is a capital letter.
pub proof fn lemma_capital(s: &str, i: int, r: bool)
    requires
        call_ensures(contains_capital, (s,), r),
    ensures
        0 <= i < s@.len() && 'A' <= s@[i] <= 'Z' ==> r,
        (forall|k: int| 0 <= k < s@.len() ==> !('A' <= #[trigger] s@[k] <= 'Z')) ==> !r,
{
}

} // verus!
