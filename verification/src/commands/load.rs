//! `load`: an image from an archive of its layout.

use vstd::prelude::*;

use crate::json;
use crate::json::{as_text, item, member, JsonView};
use crate::oci;
use crate::oci::{first_manifest_digest, opt_view};
use crate::split;
use crate::split::trim;
use crate::text::{cat2, cat5};

verus! {

/// The arguments of `load`.
#[derive(Debug)]
pub struct LoadArgs {
    pub input: String,
    pub tag: Option<String>,
}

/// The annotation of a manifest that names its image.
pub const REF_NAME: &'static str = "org.opencontainers.image.ref.name";

/// The reference that an index names for its first manifest.
pub open spec fn annotated(index: JsonView) -> Option<Seq<char>> {
    let first = json::item_of(json::member_of(index, "manifests"@), 0);
    json::text_of(json::member_of(json::member_of(first, "annotations"@), REF_NAME@))
}

/// The reference that an image is loaded under: the tag that is asked for, the
/// reference that the index names, or the digest. A tag of white space alone is
/// refused.
pub open spec fn reference_of(index: JsonView, tag: Option<Seq<char>>, digest: Seq<char>) -> Result<Seq<char>, Seq<char>> {
    match tag {
        Some(t) => if split::trimmed(t).len() > 0 {
            Ok(split::trimmed(t))
        } else {
            Err("Image tag cannot be empty"@)
        },
        None => match annotated(index) {
            Some(name) => if split::trimmed(name).len() > 0 {
                Ok(split::trimmed(name))
            } else {
                Ok(digest)
            },
            None => Ok(digest),
        },
    }
}

/// The reference that an image is loaded under.
pub fn load_reference(index: &serde_json::Value, tag: Option<&str>, digest: &str) -> (r: Result<String, String>)
    ensures
        match r {
            Ok(s) => reference_of(json::contents(*index), opt_view(tag), digest@) == Ok::<Seq<char>, Seq<char>>(s@),
            Err(e) => reference_of(json::contents(*index), opt_view(tag), digest@) == Err::<Seq<char>, Seq<char>>(e@),
        },
{
    if let Some(t) = tag {
        let t = trim(t);
        if t.unicode_len() > 0 {
            return Ok(t.to_string());
        }
        return Err("Image tag cannot be empty".to_string());
    }
    let first = item(&member(index, "manifests"), 0);
    if let Some(name) = as_text(&member(&member(&first, "annotations"), REF_NAME)) {
        let name = trim(&name);
        if name.unicode_len() > 0 {
            return Ok(name.to_string());
        }
    }
    Ok(digest.to_string())
}

/// What is loaded from a layout: the reference and the digest.
#[derive(Debug)]
pub struct Loaded {
    pub reference: String,
    pub digest: String,
}

/// What is loaded from a layout with an index.
pub open spec fn loaded(index: Seq<char>, tag: Option<Seq<char>>) -> Result<(Seq<char>, Seq<char>), Seq<char>> {
    match json::parsed(index) {
        Err(e) => Err("Invalid index.json: "@ + e),
        Ok(doc) => match oci::first_digest(doc) {
            None => Err("No manifest digest in index.json"@),
            Some(digest) => match reference_of(doc, tag, digest) {
                Err(e) => Err(e),
                Ok(reference) => Ok((reference, digest)),
            },
        },
    }
}

/// What is loaded from a layout with an index.
pub fn read_index(index: &str, tag: Option<&str>) -> (r: Result<Loaded, String>)
    ensures
        match r {
            Ok(l) => loaded(index@, opt_view(tag)) == Ok::<(Seq<char>, Seq<char>), Seq<char>>(
                (l.reference@, l.digest@),
            ),
            Err(e) => loaded(index@, opt_view(tag)) == Err::<(Seq<char>, Seq<char>), Seq<char>>(e@),
        },
{
    let doc = match json::parse(index) {
        Ok(doc) => doc,
        Err(e) => {
            return Err(cat2("Invalid index.json: ", &e));
        },
    };
    match first_manifest_digest(&doc) {
        None => Err("No manifest digest in index.json".to_string()),
        Some(digest) => {
            let reference = load_reference(&doc, tag, &digest)?;
            Ok(Loaded { reference, digest })
        },
    }
}

/// The line that says what is loaded, with its size in words.
pub fn loaded_line(reference: &str, size: &str) -> (r: String)
    ensures
        r@ == "Loaded image: "@ + reference@ + " ("@ + size@ + ")"@,
{
    cat5("Loaded image: ", reference, " (", size, ")")
}

/// An image is loaded under the tag that is given; without one under the name it was
/// saved with, and without that under its digest. A tag of nothing but white space is
/// refused.
pub proof fn lemma_loaded_under(
    index: serde_json::Value,
    tag: Option<&str>,
    digest: &str,
    r: Result<String, String>,
)
    requires
        call_ensures(load_reference, (&index, tag, digest), r),
    ensures
        ({
            let first = json::item_of(json::member_of(json::contents(index), "manifests"@), 0);
            let name = json::member_of(json::member_of(first, "annotations"@), REF_NAME@);
            &&& tag is Some ==> (r is Ok <==> split::trimmed(tag->0@).len() > 0)
            &&& tag is Some && r is Ok ==> r->Ok_0@ == split::trimmed(tag->0@)
            &&& tag is None ==> r is Ok
            &&& tag is None && name is Null ==> r->Ok_0@ == digest@
            &&& tag is None && name is Text && split::trimmed(name->Text_0).len() > 0 ==> r->Ok_0@
                == split::trimmed(name->Text_0)
            &&& tag is None && name is Text && split::trimmed(name->Text_0).len() == 0 ==> r->Ok_0@
                == digest@
        }),
{
}

/// An image that is loaded has the digest of the first manifest of its index; without
/// one nothing is loaded.
pub proof fn lemma_loaded_digest(index: &str, tag: Option<&str>, doc: JsonView, r: Result<Loaded, String>)
    requires
        call_ensures(read_index, (index, tag), r),
    ensures
        json::parsed(index@) is Err ==> r is Err,
        json::parsed(index@) == Ok::<JsonView, Seq<char>>(doc) && oci::first_digest(doc) is None ==> r is Err,
        json::parsed(index@) == Ok::<JsonView, Seq<char>>(doc) && r is Ok ==> oci::first_digest(doc)
            == Some(r->Ok_0.digest@),
        json::parsed(index@) == Ok::<JsonView, Seq<char>>(doc) && oci::first_digest(doc) is Some && tag is None
            ==> r is Ok,
{
}

} // verus!
