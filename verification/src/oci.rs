//! Image layouts: the files of an image with one layer.

use vstd::prelude::*;
use vstd::string::StrSliceExecFns;

use crate::digest;
use crate::digest::digest;
use crate::json;
use crate::json::{
    item, member, new_members, object_value, print_bytes, put, put_count, put_object, put_text, single, JsonView,
};
use crate::text;
use crate::text::cat2;

verus! {

/// A file of an image layout.
#[derive(Debug)]
pub struct ImageFile {
    pub path: String,
    pub bytes: Vec<u8>,
}

impl View for ImageFile {
    type V = (Seq<char>, Seq<u8>);

    open spec fn view(&self) -> (Seq<char>, Seq<u8>) {
        (self.path@, self.bytes@)
    }
}

/// What files hold.
pub open spec fn file_views(l: Seq<ImageFile>) -> Seq<(Seq<char>, Seq<u8>)> {
    l.map_values(|f: ImageFile| f@)
}

/// The files of an image layout, and the bytes and the digest of its manifest.
#[derive(Debug)]
pub struct Layout {
    pub files: Vec<ImageFile>,
    pub manifest: Vec<u8>,
    pub digest: String,
}

/// What the files of an image layout and its manifest hold.
pub struct LayoutView {
    pub files: Seq<(Seq<char>, Seq<u8>)>,
    pub manifest: Seq<u8>,
}

/// The content of the file that marks an image layout.
pub const LAYOUT_TEXT: &'static str = "{\"imageLayoutVersion\":\"1.0.0\"}";

/// The media type of a manifest.
pub const MANIFEST_TYPE: &'static str = "application/vnd.oci.image.manifest.v1+json";

/// The media type of an image configuration.
pub const CONFIG_TYPE: &'static str = "application/vnd.oci.image.config.v1+json";

/// The media type of a layer.
pub const LAYER_TYPE: &'static str = "application/vnd.oci.image.layer.v1.tar+gzip";

/// The media type of an index.
pub const INDEX_TYPE: &'static str = "application/vnd.oci.image.index.v1+json";

/// The digest of bytes as documents write it.
pub open spec fn tagged(b: Seq<u8>) -> Seq<char> {
    "sha256:"@ + digest::digest_of(b)
}

/// The path of the blob that bytes are kept in.
pub open spec fn blob_of(b: Seq<u8>) -> Seq<char> {
    "blobs/sha256/"@ + digest::digest_of(b)
}

/// The members that describe bytes of a media type.
pub open spec fn descriptor(media: Seq<char>, b: Seq<u8>) -> Map<Seq<char>, JsonView> {
    json::nothing().insert("mediaType"@, JsonView::Text(media)).insert("digest"@, JsonView::Text(tagged(b))).insert(
        "size"@,
        JsonView::Number(b.len() as int),
    )
}

/// The manifest of an image with one layer.
pub open spec fn manifest_doc(config: Seq<u8>, layer: Seq<u8>) -> JsonView {
    JsonView::Object(
        json::nothing().insert("schemaVersion"@, JsonView::Number(2)).insert("mediaType"@, JsonView::Text(MANIFEST_TYPE@)).insert(
            "config"@,
            JsonView::Object(descriptor(CONFIG_TYPE@, config)),
        ).insert("layers"@, JsonView::List(seq![JsonView::Object(descriptor(LAYER_TYPE@, layer))])),
    )
}

/// The platform that an index names.
pub open spec fn platform_doc(arch: Seq<char>) -> Map<Seq<char>, JsonView> {
    json::nothing().insert("os"@, JsonView::Text("linux"@)).insert("architecture"@, JsonView::Text(arch))
}

/// The description of a manifest in an index.
pub open spec fn manifest_entry(manifest: Seq<u8>, platform: Option<Seq<char>>) -> Map<Seq<char>, JsonView> {
    match platform {
        Some(arch) => descriptor(MANIFEST_TYPE@, manifest).insert("platform"@, JsonView::Object(platform_doc(arch))),
        None => descriptor(MANIFEST_TYPE@, manifest),
    }
}

/// The index of an image with one manifest.
pub open spec fn index_doc(manifest: Seq<u8>, platform: Option<Seq<char>>) -> JsonView {
    JsonView::Object(
        json::nothing().insert("schemaVersion"@, JsonView::Number(2)).insert("mediaType"@, JsonView::Text(INDEX_TYPE@)).insert(
            "manifests"@,
            JsonView::List(seq![JsonView::Object(manifest_entry(manifest, platform))]),
        ),
    )
}

/// The section of an image configuration that names its one layer.
pub open spec fn rootfs_doc(tar: Seq<u8>) -> Map<Seq<char>, JsonView> {
    json::nothing().insert("type"@, JsonView::Text("layers"@)).insert(
        "diff_ids"@,
        JsonView::List(seq![JsonView::Text(tagged(tar))]),
    )
}

/// The layout of an image with a configuration and one layer, or the error of
/// printing one of its documents.
pub open spec fn layout_of(layer: Seq<u8>, config: JsonView, platform: Option<Seq<char>>) -> Result<
    LayoutView,
    Seq<char>,
> {
    match json::printed_bytes(config) {
        Err(e) => Err(e),
        Ok(config_bytes) => match json::printed_bytes(manifest_doc(config_bytes, layer)) {
            Err(e) => Err(e),
            Ok(manifest) => match json::printed_bytes(index_doc(manifest, platform)) {
                Err(e) => Err(e),
                Ok(index) => Ok(
                    (LayoutView {
                        files: seq![
                            (blob_of(layer), layer),
                            (blob_of(config_bytes), config_bytes),
                            (blob_of(manifest), manifest),
                            (document_path("index"@), index),
                            ("oci-layout"@, vstd::utf8::encode_utf8(LAYOUT_TEXT@)),
                        ],
                        manifest,
                    }),
                ),
            },
        },
    }
}

/// The path of a document that stands at the root of a layout.
pub open spec fn document_path(name: Seq<char>) -> Seq<char> {
    name + ".json"@
}

/// The path of a document that stands at the root of a layout.
pub fn document_file(name: &str) -> (r: String)
    ensures
        r@ == document_path(name@),
{
    cat2(name, ".json")
}

/// The digest of bytes as documents write it.
pub fn tagged_digest(b: &Vec<u8>) -> (r: String)
    ensures
        r@ == tagged(b@),
{
    let d = digest(b);
    cat2("sha256:", &d)
}

/// The members that describe bytes of a media type.
pub fn describe(media: &str, b: &Vec<u8>) -> (r: serde_json::Map<String, serde_json::Value>)
    ensures
        json::members(r) == descriptor(media@, b@),
{
    let d = tagged_digest(b);
    let m = put_text(new_members(), "mediaType", media);
    let m = put_text(m, "digest", &d);
    put_count(m, "size", b.len() as u64)
}

/// The manifest of an image with one layer.
pub fn manifest_value(config: &Vec<u8>, layer: &Vec<u8>) -> (r: serde_json::Value)
    ensures
        json::contents(r) == manifest_doc(config@, layer@),
{
    let m = put_count(new_members(), "schemaVersion", 2);
    let m = put_text(m, "mediaType", MANIFEST_TYPE);
    let m = put_object(m, "config", describe(CONFIG_TYPE, config));
    let layers = single(object_value(describe(LAYER_TYPE, layer)));
    object_value(put(m, "layers", layers))
}

/// The index of an image with one manifest.
pub fn index_value(manifest: &Vec<u8>, platform: Option<&str>) -> (r: serde_json::Value)
    ensures
        json::contents(r) == index_doc(manifest@, opt_view(platform)),
{
    let entry = describe(MANIFEST_TYPE, manifest);
    let entry = match platform {
        Some(arch) => {
            let p = put_text(new_members(), "os", "linux");
            let p = put_text(p, "architecture", arch);
            put_object(entry, "platform", p)
        },
        None => entry,
    };
    let m = put_count(new_members(), "schemaVersion", 2);
    let m = put_text(m, "mediaType", INDEX_TYPE);
    object_value(put(m, "manifests", single(object_value(entry))))
}

/// What an optional text holds.
pub open spec fn opt_view(o: Option<&str>) -> Option<Seq<char>> {
    match o {
        Some(s) => Some(s@),
        None => None,
    }
}

/// The section of an image configuration that names its one layer.
pub fn rootfs_section(tar: &Vec<u8>) -> (r: serde_json::Map<String, serde_json::Value>)
    ensures
        json::members(r) == rootfs_doc(tar@),
{
    let d = tagged_digest(tar);
    let m = put_text(new_members(), "type", "layers");
    put(m, "diff_ids", single(json::text_value(&d)))
}

/// A blob: bytes under the name of their digest.
pub fn blob(b: &Vec<u8>) -> (r: ImageFile)
    ensures
        r@ == (blob_of(b@), b@),
{
    let d = digest(b);
    ImageFile { path: cat2("blobs/sha256/", &d), bytes: b.clone() }
}

/// The layout of an image with a configuration and one layer.
pub fn image_layout(layer: &Vec<u8>, config: &serde_json::Value, platform: Option<&str>) -> (r: Result<Layout, String>)
    ensures
        match r {
            Ok(l) => layout_of(layer@, json::contents(*config), opt_view(platform)) == Ok::<LayoutView, Seq<char>>(
                (LayoutView { files: file_views(l.files@), manifest: l.manifest@ }),
            ) && l.digest@ == tagged(l.manifest@),
            Err(e) => layout_of(layer@, json::contents(*config), opt_view(platform)) == Err::<LayoutView, Seq<char>>(e@),
        },
{
    let config_bytes = print_bytes(config)?;
    let manifest = print_bytes(&manifest_value(&config_bytes, layer))?;
    let index = print_bytes(&index_value(&manifest, platform))?;
    let mark = LAYOUT_TEXT.as_bytes_vec();
    let digest = tagged_digest(&manifest);
    let mut files: Vec<ImageFile> = Vec::new();
    files.push(blob(layer));
    files.push(blob(&config_bytes));
    files.push(blob(&manifest));
    files.push(ImageFile { path: document_file("index"), bytes: index });
    files.push(ImageFile { path: "oci-layout".to_string(), bytes: mark });
    assert(file_views(files@) =~= layout_of(layer@, json::contents(*config), opt_view(platform))->Ok_0.files);
    Ok(Layout { files, manifest, digest })
}

/// The digest of the first manifest that an index names.
pub open spec fn first_digest(index: JsonView) -> Option<Seq<char>> {
    json::text_of(json::member_of(json::item_of(json::member_of(index, "manifests"@), 0), "digest"@))
}

/// The digest of the first manifest that an index names, if it names one.
pub fn first_manifest_digest(index: &serde_json::Value) -> (r: Option<String>)
    ensures
        text::opt_str(r) == first_digest(json::contents(*index)),
{
    let manifests = member(index, "manifests");
    let first = item(&manifests, 0);
    json::as_text(&member(&first, "digest"))
}

/// The index of a layout names the digest of the manifest that the layout
/// keeps.
pub proof fn lemma_index_names_manifest(manifest: Seq<u8>, platform: Option<Seq<char>>)
    ensures
        first_digest(index_doc(manifest, platform)) == Some(tagged(manifest)),
{
    reveal_strlit("digest");
    reveal_strlit("size");
    reveal_strlit("platform");
    assert("digest"@.len() == 6 && "size"@.len() == 4 && "platform"@.len() == 8);
}

/// Every blob of a layout is kept under the digest of its bytes, and the
/// manifest is one of them.
pub proof fn lemma_blobs_under_digests(layer: Seq<u8>, config: JsonView, platform: Option<Seq<char>>)
    requires
        layout_of(layer, config, platform) is Ok,
    ensures
        ({
            let l = layout_of(layer, config, platform)->Ok_0;
            &&& forall|i: int| 0 <= i < 3 ==> (#[trigger] l.files[i]).0 == blob_of(l.files[i].1)
            &&& l.files[2].1 == l.manifest
        }),
{
}

/// The members of a descriptor have different names.
proof fn lemma_descriptor_keys()
    ensures
        "mediaType"@ != "digest"@,
        "digest"@ != "size"@,
        "mediaType"@ != "size"@,
        "schemaVersion"@ != "mediaType"@,
        "schemaVersion"@ != "config"@,
        "schemaVersion"@ != "layers"@,
        "mediaType"@ != "config"@,
        "mediaType"@ != "layers"@,
        "config"@ != "layers"@,
{
    reveal_strlit("mediaType");
    reveal_strlit("digest");
    reveal_strlit("size");
    reveal_strlit("schemaVersion");
    reveal_strlit("config");
    reveal_strlit("layers");
    assert("mediaType"@.len() == 9 && "digest"@.len() == 6 && "size"@.len() == 4);
    assert("schemaVersion"@.len() == 13 && "config"@.len() == 6 && "layers"@.len() == 6);
    assert("config"@[0] == 'c' && "layers"@[0] == 'l');
}

/// What is described is described by its own digest and its own length.
pub proof fn lemma_described_by_itself(
    media: &str,
    b: Vec<u8>,
    r: serde_json::Map<String, serde_json::Value>,
)
    requires
        call_ensures(describe, (media, &b), r),
    ensures
        ({
            let d = JsonView::Object(json::members(r));
            &&& json::member_of(d, "mediaType"@) == JsonView::Text(media@)
            &&& json::member_of(d, "digest"@) == JsonView::Text("sha256:"@ + digest::digest_of(b@))
            &&& json::member_of(d, "size"@) == JsonView::Number(b@.len() as int)
        }),
{
    lemma_descriptor_keys();
}

/// A manifest names the configuration and the one layer it is made of, each by its
/// digest and its length, and these are what a reader of the manifest finds.
pub proof fn lemma_manifest_names_its_parts(config: Vec<u8>, layer: Vec<u8>, r: serde_json::Value, sizes: Vec<u64>)
    requires
        call_ensures(manifest_value, (&config, &layer), r),
        call_ensures(crate::commands::history::layer_sizes, (&r,), sizes),
        layer@.len() <= u64::MAX,
    ensures
        crate::commands::history::config_digest(json::contents(r)) == Some(
            "sha256:"@ + digest::digest_of(config@),
        ),
        sizes@.len() == 1 && sizes@[0] == layer@.len(),
        json::text_of(
            json::member_of(
                json::item_of(json::member_of(json::contents(r), "layers"@), 0),
                "digest"@,
            ),
        ) == Some("sha256:"@ + digest::digest_of(layer@)),
{
    lemma_descriptor_keys();
    let doc = json::contents(r);
    let layers = seq![JsonView::Object(descriptor(LAYER_TYPE@, layer@))];
    assert(json::member_of(doc, "layers"@) == JsonView::List(layers));
    assert(layers[0] == JsonView::Object(descriptor(LAYER_TYPE@, layer@)));
    assert(json::member_of(layers[0], "size"@) == JsonView::Number(layer@.len() as int));
    assert(sizes@ =~= crate::commands::history::sizes_in(doc));
}

/// An image is stored as five files: its layer, its configuration and its manifest,
/// each under its own digest, the index and the mark of the layout. The image goes by
/// the digest of its manifest.
pub proof fn lemma_layout_of_an_image(
    layer: Vec<u8>,
    config: serde_json::Value,
    platform: Option<&str>,
    l: Layout,
)
    requires
        call_ensures(image_layout, (&layer, &config, platform), Ok::<Layout, String>(l)),
    ensures
        l.files@.len() == 5,
        l.files@[0].bytes@ == layer@,
        json::printed_bytes(json::contents(config)) == Ok::<Seq<u8>, Seq<char>>(l.files@[1].bytes@),
        l.files@[2].bytes@ == l.manifest@,
        forall|i: int|
            0 <= i < 3 ==> (#[trigger] l.files@[i]).path@ == "blobs/sha256/"@ + digest::digest_of(
                l.files@[i].bytes@,
            ),
        l.files@[3].path@ == "index"@ + ".json"@,
        l.files@[4].path@ == "oci-layout"@,
        l.digest@ == "sha256:"@ + digest::digest_of(l.files@[2].bytes@),
{
    let f = file_views(l.files@);
    assert(f.len() == 5);
    assert(f.len() == l.files@.len());
    assert forall|i: int| 0 <= i < 5 implies f[i] == ((#[trigger] l.files@[i]).path@, l.files@[i].bytes@) by {}
    assert(l.files@[0].path@ == f[0].0 && l.files@[1].path@ == f[1].0 && l.files@[2].path@ == f[2].0);
    assert(l.files@[3].path@ == f[3].0 && l.files@[4].path@ == f[4].0);
}

/// The first digest of an index is that of its first manifest, and there is none where
/// it has no manifest or the manifest no digest.
pub proof fn lemma_first_digest_read(
    index: serde_json::Value,
    manifests: Seq<JsonView>,
    d: Seq<char>,
    r: Option<String>,
)
    requires
        call_ensures(first_manifest_digest, (&index,), r),
        json::member_of(json::contents(index), "manifests"@) == JsonView::List(manifests),
    ensures
        manifests.len() == 0 ==> r is None,
        manifests.len() > 0 && json::member_of(manifests[0], "digest"@) == JsonView::Text(d) ==> r is Some
            && r->0@ == d,
        manifests.len() > 0 && json::member_of(manifests[0], "digest"@) is Null ==> r is None,
{
}

/// An index names its one manifest by its digest and its length, and the machine it is
/// for where one is given.
pub proof fn lemma_index_of_a_manifest(manifest: Vec<u8>, platform: Option<&str>, r: serde_json::Value)
    requires
        call_ensures(index_value, (&manifest, platform), r),
    ensures
        ({
            let first = json::item_of(json::member_of(json::contents(r), "manifests"@), 0);
            &&& json::member_of(first, "digest"@) == JsonView::Text(
                "sha256:"@ + digest::digest_of(manifest@),
            )
            &&& json::member_of(first, "size"@) == JsonView::Number(manifest@.len() as int)
            &&& platform is None ==> json::member_of(first, "platform"@) is Null
            &&& platform is Some ==> json::member_of(json::member_of(first, "platform"@), "architecture"@)
                == JsonView::Text(platform->0@)
            &&& platform is Some ==> json::member_of(json::member_of(first, "platform"@), "os"@)
                == JsonView::Text("linux"@)
        }),
{
    lemma_descriptor_keys();
    reveal_strlit("manifests");
    reveal_strlit("mediaType");
    reveal_strlit("schemaVersion");
    reveal_strlit("platform");
    reveal_strlit("digest");
    reveal_strlit("size");
    reveal_strlit("os");
    reveal_strlit("architecture");
    assert("manifests"@.len() == 9 && "mediaType"@.len() == 9 && "manifests"@[1] == 'a' && "mediaType"@[1]
        == 'e');
    assert("platform"@.len() == 8 && "digest"@.len() == 6 && "size"@.len() == 4 && "os"@.len() == 2
        && "architecture"@.len() == 12 && "schemaVersion"@.len() == 13);
    let entry = JsonView::Object(manifest_entry(manifest@, opt_view(platform)));
    assert(json::member_of(json::contents(r), "manifests"@) == JsonView::List(seq![entry]));
}

} // verus!
