//! `history`: the layers of an image and what made them.

use vstd::prelude::*;

use crate::bytes;
use crate::bytes::{clip, len_in_bytes};
use crate::json;
use crate::json::{as_count, as_list, as_text, member, JsonView};
use crate::oci;
use crate::oci::first_manifest_digest;
use crate::path;
use crate::path::path_join;
use crate::split;
use crate::state::Timestamp;
use crate::text;
use crate::text::cat2;
use crate::time;
use crate::time::parse_rfc3339;

verus! {

/// The arguments of `history`.
#[derive(Debug)]
pub struct HistoryArgs {
    pub image: String,
    pub quiet: bool,
    pub no_trunc: bool,
}

/// The path of a blob in a layout by its digest: under the algorithm that the
/// digest names, or under `sha256` where it does not name exactly one.
pub open spec fn blob_path_of(root: Seq<char>, digest: Seq<char>) -> Seq<char> {
    let parts = split::pieces(digest, ':');
    let (algorithm, hash) = if parts.len() == 2 { (parts[0], parts[1]) } else { ("sha256"@, digest) };
    path::under(path::under(path::under(root, "blobs"@), algorithm), hash)
}

/// The path of a blob in a layout by its digest.
pub fn blob_path(root_dir: &str, digest: &str) -> (r: String)
    ensures
        r@ == blob_path_of(root_dir@, digest@),
{
    let parts = split::split(digest, ':');
    let blobs = path_join(root_dir, "blobs");
    proof {
        assert(text::strs(parts@).len() == parts@.len());
        if parts@.len() == 2 {
            assert(text::strs(parts@)[0] == parts@[0]@ && text::strs(parts@)[1] == parts@[1]@);
        }
    }
    if parts.len() == 2 {
        path_join(&path_join(&blobs, &parts[0]), &parts[1])
    } else {
        path_join(&path_join(&blobs, "sha256"), digest)
    }
}

/// Where the manifest that an index names is kept in a layout.
pub open spec fn manifest_path_of(image_dir: Seq<char>, index: Seq<char>) -> Result<Seq<char>, Seq<char>> {
    match json::parsed(index) {
        Err(e) => Err(e),
        Ok(doc) => match oci::first_digest(doc) {
            Some(d) => Ok(blob_path_of(image_dir, d)),
            None => Err("No manifest digest in index.json"@),
        },
    }
}

/// Where the manifest that an index names is kept in a layout.
pub fn manifest_path(image_dir: &str, index: &str) -> (r: Result<String, String>)
    ensures
        match r {
            Ok(p) => manifest_path_of(image_dir@, index@) == Ok::<Seq<char>, Seq<char>>(p@),
            Err(e) => manifest_path_of(image_dir@, index@) == Err::<Seq<char>, Seq<char>>(e@),
        },
{
    let doc = json::parse(index)?;
    match first_manifest_digest(&doc) {
        Some(d) => Ok(blob_path(image_dir, &d)),
        None => Err("No manifest digest in index.json".to_string()),
    }
}

/// The digest of the configuration that a manifest names.
pub open spec fn config_digest(manifest: JsonView) -> Option<Seq<char>> {
    json::text_of(json::member_of(json::member_of(manifest, "config"@), "digest"@))
}

/// Where the configuration that a manifest names is kept in a layout.
pub open spec fn config_path_of(image_dir: Seq<char>, manifest: Seq<char>) -> Result<Seq<char>, Seq<char>> {
    match json::parsed(manifest) {
        Err(e) => Err(e),
        Ok(doc) => match config_digest(doc) {
            Some(d) => Ok(blob_path_of(image_dir, d)),
            None => Err("No config digest in manifest"@),
        },
    }
}

/// Where the configuration that a manifest names is kept in a layout.
pub fn config_path(image_dir: &str, manifest: &str) -> (r: Result<String, String>)
    ensures
        match r {
            Ok(p) => config_path_of(image_dir@, manifest@) == Ok::<Seq<char>, Seq<char>>(p@),
            Err(e) => config_path_of(image_dir@, manifest@) == Err::<Seq<char>, Seq<char>>(e@),
        },
{
    let doc = json::parse(manifest)?;
    match as_text(&member(&member(&doc, "config"), "digest")) {
        Some(d) => Ok(blob_path(image_dir, &d)),
        None => Err("No config digest in manifest".to_string()),
    }
}

/// The size that the description of a layer names; zero where it names none.
pub open spec fn layer_size(layer: JsonView) -> u64 {
    match json::member_of(layer, "size"@) {
        JsonView::Number(n) => if n >= 0 { n as u64 } else { 0 },
        _ => 0,
    }
}

/// The sizes of the layers that a manifest names.
pub open spec fn sizes_in(manifest: JsonView) -> Seq<u64> {
    match json::member_of(manifest, "layers"@) {
        JsonView::List(l) => l.map_values(|v: JsonView| layer_size(v)),
        _ => Seq::empty(),
    }
}

/// The sizes of the layers that a parsed manifest names.
pub fn layer_sizes(manifest: &serde_json::Value) -> (r: Vec<u64>)
    ensures
        r@ == sizes_in(json::contents(*manifest)),
{
    let layers = member(manifest, "layers");
    let mut out: Vec<u64> = Vec::new();
    if let Some(list) = as_list(&layers) {
        let ghost all = json::all_contents(list@);
        for i in 0..list.len()
            invariant
                all == json::all_contents(list@),
                out@ == all.take(i as int).map_values(|v: JsonView| layer_size(v)),
        {
            let size: u64 = match as_count(&member(&list[i], "size")) {
                Some(n) => n,
                None => 0,
            };
            assert(all[i as int] == json::contents(list@[i as int]));
            out.push(size);
            assert(out@ =~= all.take(i + 1).map_values(|v: JsonView| layer_size(v)));
        }
        assert(all.take(list@.len() as int) =~= all);
    }
    out
}

/// The sizes of the layers that a manifest names.
pub fn get_layer_sizes(manifest: &str) -> (r: Result<Vec<u64>, String>)
    ensures
        match json::parsed(manifest@) {
            Ok(doc) => r matches Ok(l) && l@ == sizes_in(doc),
            Err(e) => r matches Err(x) && x@ == e,
        },
{
    let doc = json::parse(manifest)?;
    Ok(layer_sizes(&doc))
}

/// A text of at most a number of bytes; three dots stand for what a longer one
/// loses.
pub open spec fn truncated(s: Seq<char>, max: nat) -> Seq<char> {
    if bytes::byte_len(s) <= max {
        s
    } else {
        bytes::clipped(s, if max < 3 { 0 } else { (max - 3) as nat }) + "..."@
    }
}

/// Whether a text can be truncated to a number of bytes.
pub open spec fn truncatable(s: Seq<char>, max: nat) -> bool {
    bytes::byte_len(s) <= max || bytes::cuttable(s, if max < 3 { 0 } else { (max - 3) as nat })
}

/// A text of at most a number of bytes; three dots stand for what a longer one
/// loses.
pub fn truncate_str(s: &str, max_len: usize) -> (r: String)
    requires
        truncatable(s@, max_len as nat),
    ensures
        r@ == truncated(s@, max_len as nat),
{
    if len_in_bytes(s) <= max_len {
        s.to_string()
    } else {
        let keep: usize = if max_len < 3 { 0 } else { max_len - 3 };
        cat2(clip(s, keep), "...")
    }
}

/// When a layer was made: at a point in time, or as the image says it.
#[derive(Debug)]
pub enum Created {
    At(Timestamp),
    Words(String),
}

/// When a layer was made.
pub enum CreatedView {
    At(i64, u32),
    Words(Seq<char>),
}

impl View for Created {
    type V = CreatedView;

    open spec fn view(&self) -> CreatedView {
        match self {
            Created::At(t) => CreatedView::At(t.secs, t.nanos),
            Created::Words(s) => CreatedView::Words(s@),
        }
    }
}

/// When a layer was made, by what the image says.
pub open spec fn created_of(ts: Seq<char>) -> CreatedView {
    match time::rfc3339_of(ts) {
        Some((secs, nanos)) => CreatedView::At(secs, nanos),
        None => CreatedView::Words(ts),
    }
}

/// When a layer was made, by what the image says.
pub fn format_timestamp(ts: &str) -> (r: Created)
    ensures
        r@ == created_of(ts@),
{
    match parse_rfc3339(ts) {
        Some(t) => Created::At(t),
        None => Created::Words(ts.to_string()),
    }
}

/// What an image says of how one of its layers was made.
#[derive(Debug)]
pub struct HistoryEntry {
    pub created: Option<String>,
    pub created_by: Option<String>,
    pub empty_layer: Option<bool>,
    pub comment: Option<String>,
}

/// What an image says of how one of its layers was made.
pub struct HistoryEntryView {
    pub created: Option<Seq<char>>,
    pub created_by: Option<Seq<char>>,
    pub empty_layer: Option<bool>,
    pub comment: Option<Seq<char>>,
}

impl View for HistoryEntry {
    type V = HistoryEntryView;

    open spec fn view(&self) -> HistoryEntryView {
        HistoryEntryView {
            created: text::opt_str(self.created),
            created_by: text::opt_str(self.created_by),
            empty_layer: self.empty_layer,
            comment: text::opt_str(self.comment),
        }
    }
}

/// What entries say.
pub open spec fn entry_views(v: Seq<HistoryEntry>) -> Seq<HistoryEntryView> {
    v.map_values(|e: HistoryEntry| e@)
}

/// The diff ids and the history that `serde_json::from_str` reads from a text as
/// an `oci_spec::image::ImageConfiguration`, or the text of its error.
pub uninterp spec fn parsed_configuration(s: Seq<char>) -> Result<
    (Seq<Seq<char>>, Seq<HistoryEntryView>),
    Seq<char>,
>;

/// `serde_json::from_str` into an `oci_spec::image::ImageConfiguration`: the diff
/// ids of the root file system and the entries of the history, each in its order,
/// or the text of the error. They are named after the text alone.
#[verifier::external_body]
pub(crate) fn parse_configuration(s: &str) -> (r: Result<(Vec<String>, Vec<HistoryEntry>), String>)
    ensures
        match r {
            Ok((ids, entries)) => parsed_configuration(s@) == Ok::<
                (Seq<Seq<char>>, Seq<HistoryEntryView>),
                Seq<char>,
            >((text::strs(ids@), entry_views(entries@))),
            Err(e) => parsed_configuration(s@) == Err::<(Seq<Seq<char>>, Seq<HistoryEntryView>), Seq<char>>(e@),
        },
{
    let c: oci_spec::image::ImageConfiguration = serde_json::from_str(s).map_err(|e| e.to_string())?;
    let entries = c.history().iter().map(|h| HistoryEntry {
        created: h.created().clone(),
        created_by: h.created_by().clone(),
        empty_layer: h.empty_layer(),
        comment: h.comment().clone(),
    });
    Ok((c.rootfs().diff_ids().clone(), entries.collect()))
}

/// The diff ids and the history in the configuration of an image. `config` is
/// what reading it gave.
pub fn load_image_configuration(config: &Result<String, String>) -> (r: Result<
    (Vec<String>, Vec<HistoryEntry>),
    String,
>)
    ensures
        match *config {
            Err(m) => r matches Err(e) && e@ == "Failed to read config: "@ + m@,
            Ok(s) => match parsed_configuration(s@) {
                Ok((ids, entries)) => r matches Ok(x) && text::strs(x.0@) == ids && entry_views(x.1@) == entries,
                Err(m) => r matches Err(e) && e@ == "Failed to parse config: "@ + m,
            },
        },
{
    match config {
        Err(m) => Err(cat2("Failed to read config: ", m)),
        Ok(s) => match parse_configuration(s) {
            Ok(x) => Ok(x),
            Err(m) => Err(cat2("Failed to parse config: ", &m)),
        },
    }
}

/// What is shown of a layer. The size is that of its blob, and none where the
/// entry made no layer.
#[derive(Debug)]
pub struct HistoryRow {
    pub created: Created,
    pub created_by: String,
    pub size: Option<u64>,
    pub comment: String,
}

/// What is shown of a layer.
pub struct HistoryRowView {
    pub created: CreatedView,
    pub created_by: Seq<char>,
    pub size: Option<u64>,
    pub comment: Seq<char>,
}

impl View for HistoryRow {
    type V = HistoryRowView;

    open spec fn view(&self) -> HistoryRowView {
        HistoryRowView {
            created: self.created@,
            created_by: self.created_by@,
            size: self.size,
            comment: self.comment@,
        }
    }
}

/// Whether an entry made no layer.
pub open spec fn made_nothing(e: HistoryEntry) -> bool {
    e.empty_layer == Some(true)
}

/// How many of the first entries made a layer.
pub open spec fn layers_before(entries: Seq<HistoryEntry>, n: int) -> nat
    decreases n,
{
    if n <= 0 {
        0
    } else {
        layers_before(entries, n - 1) + if made_nothing(entries[n - 1]) { 0nat } else { 1nat }
    }
}

/// How many bytes what made a layer is cut to.
pub const COMMAND_WIDTH: usize = 60;

/// What is shown of an entry: the layers have the sizes of the manifest, in the
/// order of the entries that made one.
pub open spec fn row_of(entries: Seq<HistoryEntry>, sizes: Seq<u64>, no_trunc: bool, i: int) -> HistoryRowView {
    let e = entries[i];
    let layer = layers_before(entries, i) as int;
    HistoryRowView {
        created: match text::opt_str(e.created) {
            Some(ts) => created_of(ts),
            None => CreatedView::Words("<unknown>"@),
        },
        created_by: match text::opt_str(e.created_by) {
            Some(s) => if no_trunc { s } else { truncated(s, COMMAND_WIDTH as nat) },
            None => ""@,
        },
        size: if made_nothing(e) {
            None
        } else {
            Some(if layer < sizes.len() { sizes[layer] } else { 0 })
        },
        comment: match text::opt_str(e.comment) {
            Some(s) => s,
            None => ""@,
        },
    }
}

/// What is shown of the entries of an image.
pub fn history_rows(entries: &Vec<HistoryEntry>, sizes: &Vec<u64>, no_trunc: bool) -> (r: Vec<HistoryRow>)
    requires
        no_trunc || forall|i: int|
            0 <= i < entries@.len() ==> ((#[trigger] entries@[i]).created_by matches Some(s) ==> truncatable(
                s@,
                COMMAND_WIDTH as nat,
            )),
    ensures
        r.len() == entries.len(),
        forall|i: int| 0 <= i < entries@.len() ==> (#[trigger] r@[i])@ == row_of(entries@, sizes@, no_trunc, i),
{
    let mut out: Vec<HistoryRow> = Vec::new();
    let mut layer: usize = 0;
    for i in 0..entries.len()
        invariant
            no_trunc || forall|i: int|
                0 <= i < entries@.len() ==> ((#[trigger] entries@[i]).created_by matches Some(s) ==> truncatable(
                    s@,
                    COMMAND_WIDTH as nat,
                )),
            layer == layers_before(entries@, i as int),
            layer <= i,
            out.len() == i,
            forall|j: int| 0 <= j < i ==> (#[trigger] out@[j])@ == row_of(entries@, sizes@, no_trunc, j),
    {
        let e = &entries[i];
        let created = match &e.created {
            Some(ts) => format_timestamp(ts),
            None => Created::Words("<unknown>".to_string()),
        };
        let created_by = match &e.created_by {
            Some(s) => if no_trunc {
                s.clone()
            } else {
                truncate_str(s, COMMAND_WIDTH)
            },
            None => "".to_string(),
        };
        let empty = match e.empty_layer {
            Some(b) => b,
            None => false,
        };
        let size: Option<u64> = if empty {
            None
        } else {
            let bytes: u64 = if layer < sizes.len() { sizes[layer] } else { 0 };
            layer = layer + 1;
            Some(bytes)
        };
        let comment = match &e.comment {
            Some(s) => s.clone(),
            None => "".to_string(),
        };
        let row = HistoryRow { created, created_by, size, comment };
        assert(row@ == row_of(entries@, sizes@, no_trunc, i as int));
        out.push(row);
    }
    out
}

/// The sizes that the rows show are those of the manifest, as long as it names
/// enough of them.
pub proof fn lemma_sizes_in_order(entries: Seq<HistoryEntry>, sizes: Seq<u64>, no_trunc: bool, i: int)
    requires
        0 <= i < entries.len(),
        !made_nothing(entries[i]),
        layers_before(entries, entries.len() as int) <= sizes.len(),
    ensures
        row_of(entries, sizes, no_trunc, i).size == Some(sizes[layers_before(entries, i) as int]),
{
    lemma_layers_grow(entries, i + 1, entries.len() as int);
}

/// Later entries come behind no fewer layers.
proof fn lemma_layers_grow(entries: Seq<HistoryEntry>, i: int, j: int)
    requires
        0 <= i <= j,
    ensures
        layers_before(entries, i) <= layers_before(entries, j),
    decreases j - i,
{
    if i < j {
        lemma_layers_grow(entries, i, j - 1);
    }
}

/// A row tells what its entry tells: its command, whole where nothing is cut, and its
/// comment. An entry that made no layer has no size, and any other the size of the
/// next layer.
pub proof fn lemma_row_of_its_entry(
    entries: Vec<HistoryEntry>,
    sizes: Vec<u64>,
    i: int,
    r: Vec<HistoryRow>,
)
    requires
        call_ensures(history_rows, (&entries, &sizes, true), r),
        0 <= i < entries@.len(),
    ensures
        r@.len() == entries@.len(),
        entries@[i].created_by is Some ==> r@[i].created_by@ == entries@[i].created_by->0@,
        entries@[i].created_by is None ==> r@[i].created_by@ == ""@,
        entries@[i].comment is Some ==> r@[i].comment@ == entries@[i].comment->0@,
        entries@[i].comment is None ==> r@[i].comment@ == ""@,
        r@[i].size is None <==> entries@[i].empty_layer == Some(true),
        i == 0 && r@[i].size is Some && sizes@.len() > 0 ==> r@[i].size == Some(sizes@[0]),
{
    assert(r@[i]@ == row_of(entries@, sizes@, true, i));
    assert(layers_before(entries@, 0) == 0);
}

/// Each entry that made a layer takes the size behind that of the one before it, and
/// one that made none takes none.
pub proof fn lemma_layers_counted(entries: Seq<HistoryEntry>, i: int)
    requires
        0 <= i < entries.len(),
    ensures
        layers_before(entries, 0) == 0,
        entries[i].empty_layer == Some(true) ==> layers_before(entries, i + 1) == layers_before(entries, i),
        entries[i].empty_layer != Some(true) ==> layers_before(entries, i + 1) == layers_before(entries, i)
            + 1,
{
}

/// A text that is short enough stays as it is. A longer plain one is cut to the width,
/// with its beginning kept and three dots at its end.
pub proof fn lemma_cut_to_width(s: &str, max: usize, r: String)
    requires
        crate::case::plain(s@),
        max >= 3,
        call_ensures(truncate_str, (s, max), r),
    ensures
        s@.len() <= max ==> r@ == s@,
        s@.len() > max ==> r@.len() == max && text::has_suffix(r@, "..."@) && r@.take(max - 3) == s@.take(
            max - 3,
        ),
{
    bytes::lemma_clip_plain(s@, (max - 3) as nat);
    reveal_strlit("...");
    if s@.len() > max {
        assert(r@ == s@.take(max - 3) + "..."@);
        assert(r@.skip(r@.len() - 3) =~= "..."@);
        assert(r@.take(max - 3) =~= s@.take(max - 3));
    }
}

/// The sizes of the layers are those of the manifest, in their order; what is no
/// number of bytes counts as none.
pub proof fn lemma_layer_sizes(manifest: serde_json::Value, layers: Seq<JsonView>, i: int, r: Vec<u64>)
    requires
        call_ensures(layer_sizes, (&manifest,), r),
        json::member_of(json::contents(manifest), "layers"@) == JsonView::List(layers),
        0 <= i < layers.len(),
    ensures
        r@.len() == layers.len(),
        json::member_of(layers[i], "size"@) matches JsonView::Number(n) && 0 <= n <= u64::MAX ==> r@[i]
            == json::member_of(layers[i], "size"@)->Number_0,
        json::member_of(layers[i], "size"@) is Null ==> r@[i] == 0,
{
}

/// A blob lies under the two parts of its digest, and under `sha256` where it has but
/// one.
pub proof fn lemma_blob_place(root: &str, digest: &str, algorithm: Seq<char>, hash: Seq<char>, r: String)
    requires
        call_ensures(blob_path, (root, digest), r),
        !algorithm.contains(':'),
        !hash.contains(':'),
    ensures
        digest@ == algorithm + seq![':'] + hash ==> r@ == path::under(
            path::under(path::under(root@, "blobs"@), algorithm),
            hash,
        ),
        digest@ == hash ==> r@ == path::under(
            path::under(path::under(root@, "blobs"@), "sha256"@),
            hash,
        ),
{
    split::lemma_cut(digest@, ':');
    split::lemma_cut(hash, ':');
    if digest@ == algorithm + seq![':'] + hash {
        let n = algorithm.len() as int;
        assert(digest@[n] == ':');
        assert forall|j: int| 0 <= j < n implies digest@[j] != ':' by {
            assert(digest@[j] == algorithm[j]);
            assert(algorithm.contains(algorithm[j]));
        }
        split::lemma_cut_at(digest@, ':', n);
        assert(digest@.contains(':'));
        assert(digest@.take(n) =~= algorithm);
        assert(digest@.skip(n + 1) =~= hash);
        assert(split::pieces(hash, ':') == seq![hash]);
        assert(split::pieces(digest@, ':') == seq![algorithm] + seq![hash]);
    } else if digest@ == hash {
        assert(split::pieces(digest@, ':') == seq![hash]);
    }
}

/// What is read of an index or of a manifest names a blob of the image, by its digest,
/// and is refused where it names none.
pub proof fn lemma_blobs_of_documents(
    dir: &str,
    doc: &str,
    index: JsonView,
    d: &str,
    place: String,
    manifest: Result<String, String>,
    config: Result<String, String>,
    sizes: Result<Vec<u64>, String>,
)
    requires
        json::parsed(doc@) == Ok::<JsonView, Seq<char>>(index),
        call_ensures(blob_path, (dir, d), place),
        call_ensures(manifest_path, (dir, doc), manifest),
        call_ensures(config_path, (dir, doc), config),
        call_ensures(get_layer_sizes, (doc,), sizes),
    ensures
        oci::first_digest(index) == Some(d@) ==> manifest is Ok && manifest->Ok_0@ == place@,
        oci::first_digest(index) is None ==> manifest is Err,
        json::member_of(json::member_of(index, "config"@), "digest"@) == JsonView::Text(d@) ==> config is Ok
            && config->Ok_0@ == place@,
        json::member_of(json::member_of(index, "config"@), "digest"@) is Null ==> config is Err,
        sizes is Ok,
        json::member_of(index, "layers"@) is Null ==> (sizes->Ok_0)@.len() == 0,
{
}

/// A time is shown as the point it is, and what is no time as it is written.
pub proof fn lemma_created_shown(ts: &str, r: Created)
    requires
        call_ensures(format_timestamp, (ts,), r),
    ensures
        time::rfc3339_of(ts@) is Some ==> (r matches Created::At(t) && (t.secs, t.nanos)
            == time::rfc3339_of(ts@)->0),
        time::rfc3339_of(ts@) is None ==> (r matches Created::Words(s) && s@ == ts@),
{
    assert(r@ == created_of(ts@));
}

/// A command that is too long for its column is cut to it, and a short one is shown as
/// it is.
pub proof fn lemma_command_cut(entries: Vec<HistoryEntry>, sizes: Vec<u64>, i: int, r: Vec<HistoryRow>)
    requires
        call_ensures(history_rows, (&entries, &sizes, false), r),
        0 <= i < entries@.len(),
        entries@[i].created_by is Some,
        crate::case::plain(entries@[i].created_by->0@),
    ensures
        ({
            let whole = entries@[i].created_by->0@;
            let shown = r@[i].created_by@;
            &&& whole.len() <= COMMAND_WIDTH ==> shown == whole
            &&& whole.len() > COMMAND_WIDTH ==> shown.len() == COMMAND_WIDTH && text::has_suffix(
                shown,
                "..."@,
            )
        }),
        entries@[i].created is Some && time::rfc3339_of(entries@[i].created->0@) is None
            ==> (r@[i].created matches Created::Words(s) && s@ == entries@[i].created->0@),
{
    let whole = entries@[i].created_by->0@;
    assert(r@[i]@ == row_of(entries@, sizes@, false, i));
    bytes::lemma_clip_plain(whole, (COMMAND_WIDTH - 3) as nat);
    reveal_strlit("...");
    if whole.len() > COMMAND_WIDTH {
        let shown = r@[i].created_by@;
        assert(shown == whole.take(COMMAND_WIDTH - 3) + "..."@);
        assert(shown.skip(shown.len() - 3) =~= "..."@);
    }
    assert(r@[i].created@ == row_of(entries@, sizes@, false, i).created);
}

} // verus!
