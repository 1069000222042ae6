//! `save`: an archive of the layout of an image.

use vstd::prelude::*;

use crate::commands::load;
use crate::commands::load::REF_NAME;
use crate::json;
use crate::json::{
    as_list, as_members, get_member, insert_member, list_value, new_members, object_value, parse_bytes, print_bytes,
    text_value, JsonView,
};
use crate::oci;
use crate::split;
use crate::text::{cat2, cat7};

verus! {

/// The arguments of `save`.
#[derive(Debug)]
pub struct SaveArgs {
    pub image: String,
    pub output: String,
}

/// Members with an annotation that names an image. Annotations are made where
/// there are none; anything else in their place stays.
pub open spec fn annotated(m: Map<Seq<char>, JsonView>, reference: Seq<char>) -> Map<Seq<char>, JsonView> {
    let notes = if m.contains_key("annotations"@) { m["annotations"@] } else { JsonView::Object(json::nothing()) };
    match notes {
        JsonView::Object(a) => m.insert(
            "annotations"@,
            JsonView::Object(a.insert(REF_NAME@, JsonView::Text(reference))),
        ),
        _ => m,
    }
}

/// Whether an index has a first manifest that can be annotated.
pub open spec fn has_manifest(index: JsonView) -> bool {
    json::item_of(json::member_of(index, "manifests"@), 0) is Object
}

/// An index after its first manifest is annotated with a reference; an index
/// without one stays as it is.
pub open spec fn stamped(index: JsonView, reference: Seq<char>) -> JsonView {
    if has_manifest(index) {
        let members = index->Object_0;
        let list = members["manifests"@]->List_0;
        JsonView::Object(
            members.insert(
                "manifests"@,
                JsonView::List(list.update(0, JsonView::Object(annotated(list[0]->Object_0, reference)))),
            ),
        )
    } else {
        index
    }
}

/// Adds the annotation that names an image to the members of a manifest.
fn annotate(m: &mut serde_json::Map<String, serde_json::Value>, reference: &str)
    ensures
        json::members(*final(m)) == annotated(json::members(*old(m)), reference@),
{
    let notes = match get_member(m, "annotations") {
        Some(v) => as_members(&v),
        None => Some(new_members()),
    };
    if let Some(mut a) = notes {
        insert_member(&mut a, REF_NAME, text_value(reference));
        insert_member(m, "annotations", object_value(a));
    }
}

/// An index after its first manifest is annotated with a reference.
pub fn stamp(index: serde_json::Value, reference: &str) -> (r: serde_json::Value)
    ensures
        json::contents(r) == stamped(json::contents(index), reference@),
{
    if let Some(mut m) = as_members(&index) {
        if let Some(manifests) = get_member(&m, "manifests") {
            if let Some(mut list) = as_list(&manifests) {
                if list.len() > 0 {
                    let ghost all = json::all_contents(list@);
                    assert(all[0] == json::contents(list@[0]));
                    if let Some(mut first) = as_members(&list[0]) {
                        annotate(&mut first, reference);
                        let ghost before = list@;
                        let value = object_value(first);
                        list.set(0, value);
                        assert(json::all_contents(list@) =~= all.update(0, json::contents(value)));
                        insert_member(&mut m, "manifests", list_value(list));
                        return object_value(m);
                    }
                }
            }
        }
    }
    index
}

/// The bytes of an index after its first manifest is annotated with a reference.
pub open spec fn stamped_bytes(index: Seq<u8>, reference: Seq<char>) -> Result<Seq<u8>, Seq<char>> {
    match json::parsed_bytes(index) {
        Err(e) => Err("Invalid index.json: "@ + e),
        Ok(doc) => match json::printed_bytes(stamped(doc, reference)) {
            Err(e) => Err("Failed to encode index.json: "@ + e),
            Ok(b) => Ok(b),
        },
    }
}

/// The bytes of an index after its first manifest is annotated with a reference.
/// Read back as text, they load as the index so annotated.
pub fn stamp_ref_annotation(index: &Vec<u8>, reference: &str) -> (r: Result<Vec<u8>, String>)
    ensures
        match r {
            Ok(b) => stamped_bytes(index@, reference@) == Ok::<Seq<u8>, Seq<char>>(b@),
            Err(e) => stamped_bytes(index@, reference@) == Err::<Seq<u8>, Seq<char>>(e@),
        },
        r is Ok && json::readable(stamped(json::parsed_bytes(index@)->Ok_0, reference@)) ==> json::parsed(
            vstd::utf8::decode_utf8(r->Ok_0@),
        ) == Ok::<JsonView, Seq<char>>(stamped(json::parsed_bytes(index@)->Ok_0, reference@)),
{
    match parse_bytes(index) {
        Err(e) => Err(cat2("Invalid index.json: ", &e)),
        Ok(doc) => match print_bytes(&stamp(doc, reference)) {
            Err(e) => Err(cat2("Failed to encode index.json: ", &e)),
            Ok(b) => Ok(b),
        },
    }
}

/// The line that says what is saved, with its size in words.
pub fn saved_line(image: &str, output: &str, size: &str) -> (r: String)
    ensures
        r@ == "Saved "@ + image@ + " to "@ + output@ + " ("@ + size@ + ")"@,
{
    cat7("Saved ", image, " to ", output, " (", size, ")")
}

/// What is saved under a reference loads under that reference, without the white
/// space around it, where the manifest can be annotated; and it loads with the
/// digest that it had.
pub proof fn lemma_saved_reference_loads(index: JsonView, reference: Seq<char>, digest: Seq<char>)
    requires
        has_manifest(index),
        json::member_of(json::item_of(json::member_of(index, "manifests"@), 0), "annotations"@) is Object || !(
        json::item_of(json::member_of(index, "manifests"@), 0)->Object_0).contains_key("annotations"@),
        split::trimmed(reference).len() > 0,
    ensures
        load::reference_of(stamped(index, reference), None, digest) == Ok::<Seq<char>, Seq<char>>(
            split::trimmed(reference),
        ),
        oci::first_digest(stamped(index, reference)) == oci::first_digest(index),
{
    reveal_strlit("annotations");
    reveal_strlit("digest");
    assert("annotations"@.len() == 11 && "digest"@.len() == 6);
    assert(stamped(index, reference)->Object_0["manifests"@]->List_0[0] is Object);
}

/// An index that is stamped names the reference in the first of its manifests, and
/// keeps every other manifest and every other member as it was.
pub proof fn lemma_stamp_changes_the_first(
    index: serde_json::Value,
    reference: &str,
    manifests: Seq<JsonView>,
    r: serde_json::Value,
)
    requires
        call_ensures(stamp, (index, reference), r),
        json::member_of(json::contents(index), "manifests"@) == JsonView::List(manifests),
        manifests.len() > 0,
        manifests[0] is Object,
    ensures
        ({
            let after = json::member_of(json::contents(r), "manifests"@);
            let first = json::item_of(after, 0);
            &&& after is List && after->List_0.len() == manifests.len()
            &&& forall|i: int| 0 < i < manifests.len() ==> #[trigger] after->List_0[i] == manifests[i]
            &&& json::member_of(manifests[0], "annotations"@) is Object || !manifests[0]->Object_0.contains_key(
                "annotations"@,
            ) ==> json::member_of(json::member_of(first, "annotations"@), REF_NAME@) == JsonView::Text(
                reference@,
            )
            &&& forall|k: Seq<char>|
                k != "annotations"@ ==> #[trigger] json::member_of(first, k) == json::member_of(
                    manifests[0],
                    k,
                )
            &&& forall|k: Seq<char>|
                k != "manifests"@ ==> #[trigger] json::member_of(json::contents(r), k)
                    == json::member_of(json::contents(index), k)
        }),
{
}

/// An index without a manifest is not changed.
pub proof fn lemma_nothing_to_stamp(index: serde_json::Value, reference: &str, r: serde_json::Value)
    requires
        call_ensures(stamp, (index, reference), r),
        json::member_of(json::contents(index), "manifests"@) is Null,
    ensures
        json::contents(r) == json::contents(index),
{
}

/// An index that can be read is written with the reference in it, and one that cannot is
/// refused.
pub proof fn lemma_stamped_index(index: Vec<u8>, reference: &str, doc: JsonView, r: Result<Vec<u8>, String>)
    requires
        call_ensures(stamp_ref_annotation, (&index, reference), r),
    ensures
        json::parsed_bytes(index@) is Err ==> r is Err,
        json::parsed_bytes(index@) == Ok::<JsonView, Seq<char>>(doc) && r is Ok ==> json::printed_bytes(
            stamped(doc, reference@),
        ) == Ok::<Seq<u8>, Seq<char>>(r->Ok_0@),
{
}

} // verus!
