//! Images in the local store.

use vstd::prelude::*;

use crate::bytes;
use crate::bytes::clip;
use crate::state::Timestamp;
use crate::text;
use crate::text::{cat2, strip_prefix};

verus! {

/// An image in the local store.
#[derive(Debug)]
pub struct StoredImage {
    pub reference: String,
    pub digest: String,
    pub size_bytes: u64,
    pub pulled_at: Timestamp,
    pub last_used: Timestamp,
    pub path: String,
}

/// The parts of an image reference.
#[derive(Debug)]
pub struct ImageReference {
    pub registry: String,
    pub repository: String,
    pub tag: Option<String>,
}

/// The parts of an image reference.
pub struct ReferenceView {
    pub registry: Seq<char>,
    pub repository: Seq<char>,
    pub tag: Option<Seq<char>>,
}

impl View for ImageReference {
    type V = ReferenceView;

    open spec fn view(&self) -> ReferenceView {
        ReferenceView { registry: self.registry@, repository: self.repository@, tag: text::opt_str(self.tag) }
    }
}

/// The parts of an image reference, if it has parts.
pub open spec fn opt_reference(o: Option<ImageReference>) -> Option<ReferenceView> {
    match o {
        Some(r) => Some(r@),
        None => None,
    }
}

/// Whether a digest can be cut to the twelve bytes that listings show.
pub open spec fn printable(digest: Seq<char>) -> bool {
    if text::has_prefix(digest, "sha256:"@) {
        bytes::cuttable(digest.skip(7), 12)
    } else {
        bytes::cuttable(digest, 12)
    }
}

/// A digest as listings show it: its first twelve bytes, behind the name of its
/// algorithm.
pub open spec fn short_form(digest: Seq<char>) -> Seq<char> {
    if text::has_prefix(digest, "sha256:"@) {
        "sha256:"@ + bytes::clipped(digest.skip(7), 12)
    } else {
        bytes::clipped(digest, 12)
    }
}

/// A digest as listings show it.
pub fn short_digest(digest: &str) -> (r: String)
    requires
        printable(digest@),
    ensures
        r@ == short_form(digest@),
{
    proof {
        reveal_strlit("sha256:");
        assert("sha256:"@.len() == 7);
    }
    match strip_prefix(digest, "sha256:") {
        Some(hex) => cat2("sha256:", clip(hex, 12)),
        None => clip(digest, 12).to_string(),
    }
}

/// A plain digest is shown by the first twelve of its signs, behind the name of its
/// algorithm where it has it.
pub proof fn lemma_short_digest(digest: &str, hash: Seq<char>, r: String)
    requires
        printable(digest@),
        call_ensures(short_digest, (digest,), r),
        crate::case::plain(hash),
        hash.len() > 12,
    ensures
        digest@ == "sha256:"@ + hash ==> r@ == "sha256:"@ + hash.take(12),
        digest@ == hash && !text::has_prefix(hash, "sha256:"@) ==> r@ == hash.take(12),
{
    reveal_strlit("sha256:");
    bytes::lemma_clip_plain(hash, 12);
    if digest@ == "sha256:"@ + hash {
        assert(digest@.take(7) =~= "sha256:"@);
        assert(digest@.skip(7) =~= hash);
    }
}

} // verus!
