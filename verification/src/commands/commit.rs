//! `commit`: an image from the file system of a box.

use vstd::prelude::*;

use crate::commands::import;
use crate::digest;
use crate::digest::digest;
use crate::gzip;
use crate::gzip::gzip;
use crate::json;
use crate::json::{
    as_list, as_members, insert_member, list_value, member, new_members, object_value, put, put_object, put_text,
    set_member, single, text_value, texts_value, JsonView,
};
use crate::oci;
use crate::oci::{document_file, first_manifest_digest, image_layout, rootfs_section, ImageFile, Layout};
use crate::split;
use crate::split::{split_once, trim};
use crate::state::Timestamp;
use crate::text;
use crate::text::{cat2, cat3, cat5, strip_prefix};
use crate::time;
use crate::time::to_rfc3339;

verus! {

/// The arguments of `commit`.
#[derive(Debug)]
pub struct CommitArgs {
    pub name: String,
    pub repository: Option<String>,
    pub message: Option<String>,
    pub author: Option<String>,
    pub change: Vec<String>,
    pub pause: bool,
}

/// The reference that an image is committed under: the one that is asked for,
/// or the latest of the repository that the box was made from.
pub open spec fn reference_of(repository: Option<Seq<char>>, image: Seq<char>) -> Seq<char> {
    match repository {
        Some(r) => r,
        None => split::pieces(image, ':')[0] + ":latest"@,
    }
}

/// The reference that an image is committed under.
pub fn commit_reference(repository: &Option<String>, image: &str) -> (r: String)
    ensures
        r@ == reference_of(text::opt_str(*repository), image@),
{
    match repository {
        Some(reference) => reference.clone(),
        None => {
            let parts = split::split(image, ':');
            assert(text::strs(parts@)[0] == parts@[0]@);
            cat2(&parts[0], ":latest")
        },
    }
}

/// What is said where a box has no file system to commit.
pub fn rootfs_missing(name: &str, box_dir: &str) -> (r: String)
    ensures
        r@ == "Rootfs not found for box '"@ + name@ + "' under "@ + box_dir@
            + " (looked for merged/ and rootfs/). For overlay-backed boxes the filesystem is only available while the box exists; commit a running box."@,
{
    cat5(
        "Rootfs not found for box '",
        name,
        "' under ",
        box_dir,
        " (looked for merged/ and rootfs/). For overlay-backed boxes the filesystem is only available while the box exists; commit a running box.",
    )
}

/// The hexadecimal part of a digest.
pub open spec fn bare(digest: Seq<char>) -> Seq<char> {
    if text::has_prefix(digest, "sha256:"@) {
        digest.skip(7)
    } else {
        digest
    }
}

/// The hexadecimal part of a digest.
pub fn bare_digest<'a>(digest: &'a str) -> (r: &'a str)
    ensures
        r@ == bare(digest@),
{
    proof {
        reveal_strlit("sha256:");
        assert("sha256:"@.len() == 7);
    }
    match strip_prefix(digest, "sha256:") {
        Some(rest) => rest,
        None => digest,
    }
}

/// The line that says under which digest an image is stored.
pub fn committed_line(digest: &str) -> (r: String)
    ensures
        r@ == "sha256:"@ + bare(digest@),
{
    cat2("sha256:", bare_digest(digest))
}

/// Why the manifest of a layout cannot be found.
#[derive(Debug)]
pub enum BlobError {
    /// The index is no document.
    InvalidData(String),
    /// The index names no manifest.
    NotFound(String),
}

/// What an index says of where its manifest is kept.
pub open spec fn manifest_blob_of(index: Seq<char>) -> Result<Seq<char>, (bool, Seq<char>)> {
    match json::parsed(index) {
        Err(e) => Err((true, e)),
        Ok(doc) => match oci::first_digest(doc) {
            Some(d) => Ok("blobs/sha256/"@ + bare(d)),
            None => Err((false, "No manifest digest in index.json"@)),
        },
    }
}

/// The blob, below the directory of a layout, that its index names as its first
/// manifest.
pub fn find_manifest_blob(index: &str) -> (r: Result<String, BlobError>)
    ensures
        match r {
            Ok(path) => manifest_blob_of(index@) == Ok::<Seq<char>, (bool, Seq<char>)>(path@),
            Err(BlobError::InvalidData(e)) => manifest_blob_of(index@) == Err::<Seq<char>, (bool, Seq<char>)>((true, e@)),
            Err(BlobError::NotFound(e)) => manifest_blob_of(index@) == Err::<Seq<char>, (bool, Seq<char>)>((false, e@)),
        },
{
    match json::parse(index) {
        Err(e) => Err(BlobError::InvalidData(e)),
        Ok(doc) => manifest_blob(&doc),
    }
}

/// The blob, below the directory of a layout, that its parsed index names as its
/// first manifest.
pub fn manifest_blob(index: &serde_json::Value) -> (r: Result<String, BlobError>)
    ensures
        match oci::first_digest(json::contents(*index)) {
            Some(d) => r matches Ok(path) && path@ == "blobs/sha256/"@ + bare(d),
            None => r matches Err(BlobError::NotFound(e)) && e@ == "No manifest digest in index.json"@,
        },
{
    match first_manifest_digest(index) {
        Some(d) => Ok(cat2("blobs/sha256/", bare_digest(&d))),
        None => Err(BlobError::NotFound("No manifest digest in index.json".to_string())),
    }
}

/// The digest of an uncompressed layer.
pub fn compute_diff_id(tar: &Vec<u8>) -> (r: String)
    ensures
        r@ == digest::digest_of(tar@),
        r@.len() == 64,
{
    digest(tar)
}

/// A command for the shell of the image.
pub open spec fn shell(command: Seq<char>) -> JsonView {
    json::texts(seq!["/bin/sh"@, "-c"@, command])
}

/// An image configuration after a member of its `config` section is set;
/// nothing where the configuration or the section cannot have members.
pub open spec fn set_section(doc: JsonView, key: Seq<char>, value: JsonView) -> Option<JsonView> {
    let section = json::member_of(doc, "config"@);
    if json::settable(doc) && json::settable(section) {
        Some(json::with_member(doc, "config"@, json::with_member(section, key, value)))
    } else {
        None
    }
}

/// The items of a list; none of anything else.
pub open spec fn items(v: JsonView) -> Seq<JsonView> {
    match v {
        JsonView::List(l) => l,
        _ => Seq::empty(),
    }
}

/// The members of an object; none of anything else.
pub open spec fn object_members(v: JsonView) -> Map<Seq<char>, JsonView> {
    match v {
        JsonView::Object(m) => m,
        _ => json::nothing(),
    }
}

/// An image configuration after one directive: the first instruction that the
/// directive begins with is applied, and any other directive has no effect.
/// Nothing where it cannot be applied.
pub open spec fn changed_by(doc: JsonView, change: Seq<char>) -> Option<JsonView> {
    let t = split::trimmed(change);
    let section = json::member_of(doc, "config"@);
    if text::has_prefix(t, "CMD "@) {
        set_section(doc, "Cmd"@, shell(t.skip(4)))
    } else if text::has_prefix(t, "ENTRYPOINT "@) {
        set_section(doc, "Entrypoint"@, shell(t.skip(11)))
    } else if text::has_prefix(t, "ENV "@) {
        match split::cut(t.skip(4), '=') {
            Some((k, v)) => set_section(
                doc,
                "Env"@,
                JsonView::List(items(json::member_of(section, "Env"@)).push(JsonView::Text(k + "="@ + v))),
            ),
            None => Some(doc),
        }
    } else if text::has_prefix(t, "EXPOSE "@) {
        set_section(
            doc,
            "ExposedPorts"@,
            JsonView::Object(
                object_members(json::member_of(section, "ExposedPorts"@)).insert(
                    t.skip(7) + "/tcp"@,
                    JsonView::Object(json::nothing()),
                ),
            ),
        )
    } else if text::has_prefix(t, "WORKDIR "@) {
        set_section(doc, "WorkingDir"@, JsonView::Text(t.skip(8)))
    } else if text::has_prefix(t, "USER "@) {
        set_section(doc, "User"@, JsonView::Text(t.skip(5)))
    } else if text::has_prefix(t, "LABEL "@) {
        match split::cut(t.skip(6), '=') {
            Some((k, v)) => set_section(
                doc,
                "Labels"@,
                JsonView::Object(object_members(json::member_of(section, "Labels"@)).insert(k, JsonView::Text(v))),
            ),
            None => Some(doc),
        }
    } else {
        Some(doc)
    }
}

/// An image configuration after directives, in order; nothing where one of them
/// cannot be applied.
pub open spec fn changed(doc: JsonView, changes: Seq<Seq<char>>) -> Option<JsonView>
    decreases changes.len(),
{
    if changes.len() == 0 {
        Some(doc)
    } else {
        match changed(doc, changes.drop_last()) {
            Some(d) => changed_by(d, changes.last()),
            None => None,
        }
    }
}

/// Directives that can all be applied can be applied up to each of them.
proof fn lemma_changed_prefix(doc: JsonView, changes: Seq<Seq<char>>, n: int)
    requires
        0 <= n <= changes.len(),
        changed(doc, changes) is Some,
    ensures
        changed(doc, changes.take(n)) is Some,
    decreases changes.len() - n,
{
    if n < changes.len() {
        lemma_changed_prefix(doc, changes, n + 1);
        assert(changes.take(n + 1).drop_last() =~= changes.take(n));
    } else {
        assert(changes.take(n) =~= changes);
    }
}

/// An image configuration with every directive applied stays one that can be
/// given members.
proof fn lemma_changed_settable(doc: JsonView, changes: Seq<Seq<char>>)
    requires
        json::settable(doc),
        json::settable(json::member_of(doc, "config"@)),
    ensures
        changed(doc, changes) matches Some(d) && json::settable(d) && json::settable(json::member_of(d, "config"@)),
    decreases changes.len(),
{
    if changes.len() > 0 {
        lemma_changed_settable(doc, changes.drop_last());
    }
}

/// Sets a member of the `config` section of an image configuration.
fn set_in_section(doc: &mut serde_json::Value, key: &str, value: serde_json::Value)
    requires
        set_section(json::contents(*old(doc)), key@, json::contents(value)) is Some,
    ensures
        set_section(json::contents(*old(doc)), key@, json::contents(value)) == Some(json::contents(*final(doc))),
{
    let mut section = member(doc, "config");
    set_member(&mut section, key, value);
    set_member(doc, "config", section);
}

/// A command for the shell of the image.
pub fn shell_value(command: &str) -> (r: serde_json::Value)
    ensures
        json::contents(r) == shell(command@),
{
    let mut words: Vec<String> = Vec::new();
    words.push("/bin/sh".to_string());
    words.push("-c".to_string());
    words.push(command.to_string());
    assert(text::strs(words@) =~= seq!["/bin/sh"@, "-c"@, command@]);
    texts_value(&words)
}

/// A document as a list with one more text.
fn appended(v: &serde_json::Value, entry: &str) -> (r: serde_json::Value)
    ensures
        json::contents(r) == JsonView::List(items(json::contents(*v)).push(JsonView::Text(entry@))),
{
    let mut list = match as_list(v) {
        Some(l) => l,
        None => Vec::new(),
    };
    let ghost before = list@;
    assert(json::all_contents(before) =~= items(json::contents(*v)));
    let one = text_value(entry);
    list.push(one);
    assert(json::all_contents(list@) =~= json::all_contents(before).push(json::contents(one)));
    list_value(list)
}

/// A document as an object with one more member.
fn extended(v: &serde_json::Value, key: &str, value: serde_json::Value) -> (r: serde_json::Value)
    ensures
        json::contents(r) == JsonView::Object(
            object_members(json::contents(*v)).insert(key@, json::contents(value)),
        ),
{
    let mut m = match as_members(v) {
        Some(m) => m,
        None => new_members(),
    };
    insert_member(&mut m, key, value);
    object_value(m)
}

/// Applies one directive to an image configuration.
fn apply_change(doc: &mut serde_json::Value, change: &str)
    requires
        changed_by(json::contents(*old(doc)), change@) is Some,
    ensures
        changed_by(json::contents(*old(doc)), change@) == Some(json::contents(*final(doc))),
{
    proof {
        reveal_strlit("CMD ");
        reveal_strlit("ENTRYPOINT ");
        reveal_strlit("ENV ");
        reveal_strlit("EXPOSE ");
        reveal_strlit("WORKDIR ");
        reveal_strlit("USER ");
        reveal_strlit("LABEL ");
        assert("CMD "@.len() == 4 && "ENTRYPOINT "@.len() == 11 && "ENV "@.len() == 4 && "EXPOSE "@.len() == 7);
        assert("WORKDIR "@.len() == 8 && "USER "@.len() == 5 && "LABEL "@.len() == 6);
    }
    let t = trim(change);
    if let Some(rest) = strip_prefix(t, "CMD ") {
        set_in_section(doc, "Cmd", shell_value(rest));
    } else if let Some(rest) = strip_prefix(t, "ENTRYPOINT ") {
        set_in_section(doc, "Entrypoint", shell_value(rest));
    } else if let Some(rest) = strip_prefix(t, "ENV ") {
        if let Some((k, v)) = split_once(rest, '=') {
            let entry = cat3(k, "=", v);
            let env = appended(&member(&member(doc, "config"), "Env"), &entry);
            set_in_section(doc, "Env", env);
        }
    } else if let Some(rest) = strip_prefix(t, "EXPOSE ") {
        let port = cat2(rest, "/tcp");
        let ports = extended(&member(&member(doc, "config"), "ExposedPorts"), &port, object_value(new_members()));
        set_in_section(doc, "ExposedPorts", ports);
    } else if let Some(rest) = strip_prefix(t, "WORKDIR ") {
        set_in_section(doc, "WorkingDir", text_value(rest));
    } else if let Some(rest) = strip_prefix(t, "USER ") {
        set_in_section(doc, "User", text_value(rest));
    } else if let Some(rest) = strip_prefix(t, "LABEL ") {
        if let Some((k, v)) = split_once(rest, '=') {
            let labels = extended(&member(&member(doc, "config"), "Labels"), k, text_value(v));
            set_in_section(doc, "Labels", labels);
        }
    }
}

/// Applies directives to an image configuration.
pub fn apply_changes(config: &mut serde_json::Value, changes: &Vec<String>)
    requires
        changed(json::contents(*old(config)), text::strs(changes@)) is Some,
    ensures
        changed(json::contents(*old(config)), text::strs(changes@)) == Some(json::contents(*final(config))),
{
    let ghost start = json::contents(*config);
    let ghost all = text::strs(changes@);
    for i in 0..changes.len()
        invariant
            all == text::strs(changes@),
            changed(start, all) is Some,
            changed(start, all.take(i as int)) == Some(json::contents(*config)),
    {
        proof {
            lemma_changed_prefix(start, all, i + 1);
            assert(all.take(i + 1).drop_last() =~= all.take(i as int));
            assert(all.take(i + 1).last() == changes@[i as int]@);
        }
        apply_change(config, &changes[i]);
    }
    assert(all.take(changes@.len() as int) =~= all);
}

/// The history of a committed image: one entry.
pub open spec fn history_doc(created: Seq<char>, message: Option<Seq<char>>, author: Option<Seq<char>>) -> JsonView {
    JsonView::List(
        seq![
            JsonView::Object(
                json::nothing().insert("created"@, JsonView::Text(created)).insert(
                    "created_by"@,
                    JsonView::Text("a3s-box commit"@),
                ).insert("comment"@, JsonView::Text(or_empty(message))).insert("author"@, JsonView::Text(or_empty(author))),
            ),
        ],
    )
}

/// An optional text, empty where there is none.
pub open spec fn or_empty(o: Option<Seq<char>>) -> Seq<char> {
    match o {
        Some(s) => s,
        None => ""@,
    }
}

/// The configuration of a committed image before its directives.
pub open spec fn config_doc(
    tar: Seq<u8>,
    arch: Seq<char>,
    created: Seq<char>,
    message: Option<Seq<char>>,
    author: Option<Seq<char>>,
) -> JsonView {
    JsonView::Object(
        json::nothing().insert("architecture"@, JsonView::Text(arch)).insert("os"@, JsonView::Text("linux"@)).insert(
            "config"@,
            JsonView::Object(json::nothing()),
        ).insert("rootfs"@, JsonView::Object(oci::rootfs_doc(tar))).insert(
            "history"@,
            history_doc(created, message, author),
        ),
    )
}

/// The configuration of a committed image.
pub open spec fn committed_config(
    tar: Seq<u8>,
    arch: Seq<char>,
    created: Seq<char>,
    message: Option<Seq<char>>,
    author: Option<Seq<char>>,
    changes: Seq<Seq<char>>,
) -> JsonView {
    changed(config_doc(tar, arch, created, message, author), changes)->0
}

/// An optional text, empty where there is none.
fn text_or_empty<'a>(o: &'a Option<String>) -> (r: &'a str)
    ensures
        r@ == or_empty(text::opt_str(*o)),
{
    match o {
        Some(s) => s,
        None => "",
    }
}

/// The configuration of a committed image.
pub fn image_config(
    tar: &Vec<u8>,
    arch: &str,
    created: &str,
    message: &Option<String>,
    author: &Option<String>,
    changes: &Vec<String>,
) -> (r: serde_json::Value)
    ensures
        changed(
            config_doc(tar@, arch@, created@, text::opt_str(*message), text::opt_str(*author)),
            text::strs(changes@),
        ) is Some,
        json::contents(r) == committed_config(
            tar@,
            arch@,
            created@,
            text::opt_str(*message),
            text::opt_str(*author),
            text::strs(changes@),
        ),
{
    let entry = put_text(new_members(), "created", created);
    let entry = put_text(entry, "created_by", "a3s-box commit");
    let entry = put_text(entry, "comment", text_or_empty(message));
    let entry = put_text(entry, "author", text_or_empty(author));
    let m = put_text(new_members(), "architecture", arch);
    let m = put_text(m, "os", "linux");
    let m = put_object(m, "config", new_members());
    let m = put_object(m, "rootfs", rootfs_section(tar));
    let mut config = object_value(put(m, "history", single(object_value(entry))));
    proof {
        let doc = config_doc(tar@, arch@, created@, text::opt_str(*message), text::opt_str(*author));
        assert(json::contents(config) == doc);
        reveal_strlit("config");
        reveal_strlit("rootfs");
        reveal_strlit("history");
        assert("config"@[0] == 'c' && "rootfs"@[0] == 'r' && "history"@[0] == 'h');
        assert(json::member_of(doc, "config"@) == JsonView::Object(json::nothing()));
        lemma_changed_settable(doc, text::strs(changes@));
    }
    apply_changes(&mut config, changes);
    config
}

/// The layout of a committed image: that of its compressed layer and its
/// configuration, with the manifest once more under a name of its own.
pub open spec fn committed_layout(tar: Seq<u8>, config: JsonView) -> Result<oci::LayoutView, Seq<char>> {
    match gzip::gzipped(tar) {
        Err(e) => Err(e),
        Ok(layer) => match oci::layout_of(layer, config, None) {
            Err(e) => Err(e),
            Ok(l) => Ok(
                (oci::LayoutView { files: l.files.push((oci::document_path("manifest"@), l.manifest)), manifest: l.manifest }),
            ),
        },
    }
}

/// The files of an image with the uncompressed archive of a file system as its
/// one layer, made at a point in time. The layer is imported as the archive that
/// it was made of.
pub fn build_oci_image(
    tar: &Vec<u8>,
    arch: &str,
    now: Timestamp,
    message: &Option<String>,
    author: &Option<String>,
    changes: &Vec<String>,
) -> (r: Result<Layout, String>)
    requires
        time::representable(now),
    ensures
        ({
            let config = committed_config(
                tar@,
                arch@,
                time::rfc3339_text(now.secs, now.nanos),
                text::opt_str(*message),
                text::opt_str(*author),
                text::strs(changes@),
            );
            match r {
                Ok(l) => committed_layout(tar@, config) == Ok::<oci::LayoutView, Seq<char>>(
                    (oci::LayoutView { files: oci::file_views(l.files@), manifest: l.manifest@ }),
                ) && l.digest@ == oci::tagged(l.manifest@) && import::archive_of(oci::file_views(l.files@)[0].1) == Ok::<
                    Seq<u8>,
                    Seq<char>,
                >(tar@),
                Err(e) => committed_layout(tar@, config) == Err::<oci::LayoutView, Seq<char>>(e@),
            }
        }),
{
    let created = to_rfc3339(now);
    let layer = gzip(tar)?;
    let config = image_config(tar, arch, &created, message, author, changes);
    let mut layout = image_layout(&layer, &config, None)?;
    let ghost before = layout.files@;
    let copy = ImageFile { path: document_file("manifest"), bytes: layout.manifest.clone() };
    layout.files.push(copy);
    assert(oci::file_views(layout.files@) =~= oci::file_views(before).push(copy@));
    Ok(layout)
}

/// A directive that sets the command sets it whatever was set before, and every
/// other member of the section stays as it was.
pub proof fn lemma_cmd_replaces(doc: JsonView, command: Seq<char>, other: Seq<char>)
    requires
        json::settable(doc),
        json::settable(json::member_of(doc, "config"@)),
        split::trimmed("CMD "@ + command) == "CMD "@ + command,
        other != "Cmd"@,
    ensures
        ({
            let after = changed_by(doc, "CMD "@ + command)->0;
            &&& changed_by(doc, "CMD "@ + command) is Some
            &&& json::member_of(json::member_of(after, "config"@), "Cmd"@) == shell(command)
            &&& json::member_of(json::member_of(after, "config"@), other) == json::member_of(
                json::member_of(doc, "config"@),
                other,
            )
        }),
{
    reveal_strlit("CMD ");
    assert("CMD "@.len() == 4);
    assert(("CMD "@ + command).skip(4) =~= command);
    assert(("CMD "@ + command).take(4) =~= "CMD "@);
}

/// A member of the section of a document that says how its box is run.
pub open spec fn setting(doc: JsonView, key: Seq<char>) -> JsonView {
    json::member_of(json::member_of(doc, "config"@), key)
}

/// The settings of `after` are those of `before`, but for this one, and so is the
/// rest of the document.
pub open spec fn only_sets(before: JsonView, after: JsonView, key: Seq<char>) -> bool {
    &&& forall|k: Seq<char>| k != key ==> #[trigger] setting(after, k) == setting(before, k)
    &&& forall|k: Seq<char>|
        k != "config"@ ==> #[trigger] json::member_of(after, k) == json::member_of(before, k)
}

/// A directive that sets one member leaves every other alone.
proof fn lemma_section_set(doc: JsonView, key: Seq<char>, value: JsonView)
    requires
        json::settable(doc),
        json::settable(json::member_of(doc, "config"@)),
    ensures
        set_section(doc, key, value) matches Some(after) && setting(after, key) == value && only_sets(
            doc,
            after,
            key,
        ),
{
}

/// The words of the directives, each with the space behind it.
proof fn lemma_words()
    ensures
        "CMD "@.len() == 4 && "ENTRYPOINT "@.len() == 11 && "ENV "@.len() == 4 && "EXPOSE "@.len() == 7,
        "WORKDIR "@.len() == 8 && "USER "@.len() == 5 && "LABEL "@.len() == 6,
        "CMD "@[0] == 'C' && "ENTRYPOINT "@[0] == 'E' && "ENTRYPOINT "@[1] == 'N' && "ENTRYPOINT "@[2]
            == 'T',
        "ENV "@[0] == 'E' && "ENV "@[1] == 'N' && "ENV "@[2] == 'V',
        "EXPOSE "@[0] == 'E' && "EXPOSE "@[1] == 'X',
        "WORKDIR "@[0] == 'W' && "USER "@[0] == 'U' && "LABEL "@[0] == 'L',
{
    reveal_strlit("CMD ");
    reveal_strlit("ENTRYPOINT ");
    reveal_strlit("ENV ");
    reveal_strlit("EXPOSE ");
    reveal_strlit("WORKDIR ");
    reveal_strlit("USER ");
    reveal_strlit("LABEL ");
}

/// A text begins as a prefix of it does.
proof fn lemma_prefix(t: Seq<char>, word: Seq<char>, rest: Seq<char>)
    requires
        t == word + rest,
    ensures
        text::has_prefix(t, word),
        t.skip(word.len() as int) == rest,
        forall|p: Seq<char>| #[trigger]
            text::has_prefix(t, p) ==> forall|i: int| 0 <= i < p.len() ==> #[trigger] p[i] == t[i],
        forall|i: int| 0 <= i < word.len() ==> #[trigger] word[i] == t[i],
{
    assert(t.take(word.len() as int) =~= word);
    assert(t.skip(word.len() as int) =~= rest);
    assert forall|p: Seq<char>| #[trigger] text::has_prefix(t, p) implies forall|i: int|
        0 <= i < p.len() ==> #[trigger] p[i] == t[i] by {
        assert forall|i: int| 0 <= i < p.len() implies #[trigger] p[i] == t[i] by {
            assert(t.take(p.len() as int)[i] == p[i]);
        }
    }
}

/// Each directive sets the member that is its own and no other: `CMD` the command,
/// `ENTRYPOINT` the entrypoint, `WORKDIR` the directory and `USER` the user.
pub proof fn lemma_directive_sets_its_own(doc: JsonView, change: Seq<char>, rest: Seq<char>)
    requires
        json::settable(doc),
        json::settable(json::member_of(doc, "config"@)),
    ensures
        split::trimmed(change) == "CMD "@ + rest ==> (changed_by(doc, change) matches Some(after)
            && json::item_of(setting(after, "Cmd"@), 2) == JsonView::Text(rest) && only_sets(
            doc,
            after,
            "Cmd"@,
        )),
        split::trimmed(change) == "ENTRYPOINT "@ + rest ==> (changed_by(doc, change) matches Some(after)
            && json::item_of(setting(after, "Entrypoint"@), 2) == JsonView::Text(rest) && only_sets(
            doc,
            after,
            "Entrypoint"@,
        )),
        split::trimmed(change) == "WORKDIR "@ + rest ==> (changed_by(doc, change) matches Some(after)
            && setting(after, "WorkingDir"@) == JsonView::Text(rest) && only_sets(
            doc,
            after,
            "WorkingDir"@,
        )),
        split::trimmed(change) == "USER "@ + rest ==> (changed_by(doc, change) matches Some(after)
            && setting(after, "User"@) == JsonView::Text(rest) && only_sets(doc, after, "User"@)),
{
    lemma_words();
    let t = split::trimmed(change);
    if t == "CMD "@ + rest {
        lemma_prefix(t, "CMD "@, rest);
        lemma_section_set(doc, "Cmd"@, shell(rest));
    }
    if t == "ENTRYPOINT "@ + rest {
        lemma_prefix(t, "ENTRYPOINT "@, rest);
        assert("ENTRYPOINT "@[0] == t[0]);
        if text::has_prefix(t, "CMD "@) {
            assert("CMD "@[0] == t[0]);
        }
        lemma_section_set(doc, "Entrypoint"@, shell(rest));
    }
    if t == "WORKDIR "@ + rest {
        lemma_prefix(t, "WORKDIR "@, rest);
        assert("WORKDIR "@[0] == t[0]);
        lemma_other_words(t);
        lemma_section_set(doc, "WorkingDir"@, JsonView::Text(rest));
    }
    if t == "USER "@ + rest {
        lemma_prefix(t, "USER "@, rest);
        assert("USER "@[0] == t[0]);
        lemma_other_words(t);
        lemma_section_set(doc, "User"@, JsonView::Text(rest));
    }
}

/// A directive begins as its word does.
proof fn lemma_other_words(t: Seq<char>)
    ensures
        text::has_prefix(t, "CMD "@) ==> t[0] == 'C',
        text::has_prefix(t, "ENTRYPOINT "@) ==> t[0] == 'E' && t[1] == 'N' && t[2] == 'T',
        text::has_prefix(t, "ENV "@) ==> t[0] == 'E' && t[1] == 'N' && t[2] == 'V',
        text::has_prefix(t, "EXPOSE "@) ==> t[0] == 'E' && t[1] == 'X',
        text::has_prefix(t, "WORKDIR "@) ==> t[0] == 'W',
        text::has_prefix(t, "USER "@) ==> t[0] == 'U',
        text::has_prefix(t, "LABEL "@) ==> t[0] == 'L',
{
    lemma_words();
    if text::has_prefix(t, "CMD "@) {
        assert(t.take(4)[0] == t[0]);
    }
    if text::has_prefix(t, "ENTRYPOINT "@) {
        assert(t.take(11)[0] == t[0] && t.take(11)[1] == t[1] && t.take(11)[2] == t[2]);
    }
    if text::has_prefix(t, "ENV "@) {
        assert(t.take(4)[0] == t[0] && t.take(4)[1] == t[1] && t.take(4)[2] == t[2]);
    }
    if text::has_prefix(t, "EXPOSE "@) {
        assert(t.take(7)[0] == t[0] && t.take(7)[1] == t[1]);
    }
    if text::has_prefix(t, "WORKDIR "@) {
        assert(t.take(8)[0] == t[0]);
    }
    if text::has_prefix(t, "USER "@) {
        assert(t.take(5)[0] == t[0]);
    }
    if text::has_prefix(t, "LABEL "@) {
        assert(t.take(6)[0] == t[0]);
    }
}

/// `ENV` puts a variable behind those that are there, `LABEL` sets a label beside
/// those that are there, and `EXPOSE` a port. What was there stays.
pub proof fn lemma_directive_adds(
    doc: JsonView,
    change: Seq<char>,
    rest: Seq<char>,
    key: Seq<char>,
    value: Seq<char>,
)
    requires
        json::settable(doc),
        json::settable(json::member_of(doc, "config"@)),
        rest == key + seq!['='] + value,
        !key.contains('='),
    ensures
        split::trimmed(change) == "ENV "@ + rest ==> (changed_by(doc, change) matches Some(after) && {
            let before = items(setting(doc, "Env"@));
            &&& setting(after, "Env"@) matches JsonView::List(l)
            &&& l.len() == before.len() + 1
            &&& forall|i: int| 0 <= i < before.len() ==> #[trigger] l[i] == before[i]
            &&& l.last() == JsonView::Text(rest)
            &&& only_sets(doc, after, "Env"@)
        }),
        split::trimmed(change) == "LABEL "@ + rest ==> (changed_by(doc, change) matches Some(after)
            && json::member_of(setting(after, "Labels"@), key) == JsonView::Text(value) && (forall|
            k: Seq<char>,
        |
            k != key && setting(doc, "Labels"@) is Object ==> #[trigger] json::member_of(
                setting(after, "Labels"@),
                k,
            ) == json::member_of(setting(doc, "Labels"@), k)) && only_sets(doc, after, "Labels"@)),
        split::trimmed(change) == "EXPOSE "@ + rest ==> (changed_by(doc, change) matches Some(after)
            && json::member_of(setting(after, "ExposedPorts"@), rest + "/tcp"@) is Object
            && only_sets(doc, after, "ExposedPorts"@)),
{
    lemma_words();
    let t = split::trimmed(change);
    let n = key.len() as int;
    assert(rest[n] == '=');
    assert forall|j: int| 0 <= j < n implies rest[j] != '=' by {
        assert(rest[j] == key[j]);
        assert(key.contains(key[j]));
    }
    split::lemma_cut_at(rest, '=', n);
    assert(rest.take(n) =~= key);
    assert(rest.skip(n + 1) =~= value);
    reveal_strlit("=");
    assert(key + "="@ + value =~= rest);
    lemma_other_words(t);
    if t == "ENV "@ + rest {
        lemma_prefix(t, "ENV "@, rest);
        lemma_section_set(
            doc,
            "Env"@,
            JsonView::List(items(setting(doc, "Env"@)).push(JsonView::Text(rest))),
        );
    }
    if t == "LABEL "@ + rest {
        lemma_prefix(t, "LABEL "@, rest);
        lemma_section_set(
            doc,
            "Labels"@,
            JsonView::Object(
                object_members(setting(doc, "Labels"@)).insert(key, JsonView::Text(value)),
            ),
        );
    }
    if t == "EXPOSE "@ + rest {
        lemma_prefix(t, "EXPOSE "@, rest);
        lemma_section_set(
            doc,
            "ExposedPorts"@,
            JsonView::Object(
                object_members(setting(doc, "ExposedPorts"@)).insert(
                    rest + "/tcp"@,
                    JsonView::Object(json::nothing()),
                ),
            ),
        );
    }
}

/// Changes are made in their order: a list of them does what its first part does and
/// then its second.
pub proof fn lemma_changes_in_turn(doc: JsonView, first: Seq<Seq<char>>, second: Seq<Seq<char>>)
    requires
        changed(doc, first) is Some,
    ensures
        changed(doc, first + second) == changed(changed(doc, first)->0, second),
    decreases second.len(),
{
    if second.len() == 0 {
        assert(first + second =~= first);
    } else {
        let all = first + second;
        assert(all.drop_last() =~= first + second.drop_last());
        assert(all.last() == second.last());
        lemma_changes_in_turn(doc, first, second.drop_last());
    }
}

/// The configuration of a committed image is that of its parts: without changes it
/// names the machine that was given and the digest of the archive, sets nothing, and
/// tells the message and the author in its history.
pub proof fn lemma_committed_as_asked(
    tar: Vec<u8>,
    arch: &str,
    created: &str,
    message: Option<String>,
    author: Option<String>,
    changes: Vec<String>,
    r: serde_json::Value,
)
    requires
        call_ensures(image_config, (&tar, arch, created, &message, &author, &changes), r),
        changes@.len() == 0,
    ensures
        ({
            let doc = json::contents(r);
            let history = json::item_of(json::member_of(doc, "history"@), 0);
            &&& json::member_of(doc, "architecture"@) == JsonView::Text(arch@)
            &&& json::member_of(doc, "os"@) == JsonView::Text("linux"@)
            &&& forall|k: Seq<char>| #[trigger] setting(doc, k) is Null
            &&& json::member_of(history, "created"@) == JsonView::Text(created@)
            &&& json::member_of(history, "comment"@) == JsonView::Text(
                if message is Some {
                    message->0@
                } else {
                    ""@
                },
            )
            &&& json::member_of(history, "author"@) == JsonView::Text(
                if author is Some {
                    author->0@
                } else {
                    ""@
                },
            )
            &&& json::item_of(json::member_of(json::member_of(doc, "rootfs"@), "diff_ids"@), 0)
                == JsonView::Text("sha256:"@ + digest::digest_of(tar@))
        }),
{
    assert(text::strs(changes@).len() == 0);
    reveal_strlit("architecture");
    reveal_strlit("os");
    reveal_strlit("created");
    reveal_strlit("config");
    reveal_strlit("rootfs");
    reveal_strlit("history");
    reveal_strlit("created_by");
    reveal_strlit("comment");
    reveal_strlit("author");
    reveal_strlit("type");
    reveal_strlit("diff_ids");
    assert("architecture"@.len() == 12 && "os"@.len() == 2 && "created"@.len() == 7);
    assert("config"@.len() == 6 && "rootfs"@.len() == 6 && "history"@.len() == 7);
    assert("config"@[0] == 'c' && "rootfs"@[0] == 'r' && "created"@[1] == 'r' && "history"@[0] == 'h');
    assert("created_by"@.len() == 10 && "comment"@.len() == 7 && "comment"@[1] == 'o');
    assert("author"@.len() == 6 && "type"@.len() == 4 && "diff_ids"@.len() == 8);
}

/// A committed image goes by the name it is given, and else by the name of its
/// box's image with the tag `latest` in place of what follows the first colon.
pub proof fn lemma_commit_name(repository: Option<String>, image: &str, name: Seq<char>, r: String)
    requires
        call_ensures(commit_reference, (&repository, image), r),
    ensures
        repository is Some ==> r@ == repository->0@,
        repository is None && image@ == name && !name.contains(':') ==> r@ == name + ":latest"@,
        repository is None && (exists|tag: Seq<char>| image@ == #[trigger] (name + seq![':'] + tag))
            && !name.contains(':') ==> r@ == name + ":latest"@,
{
    split::lemma_cut(image@, ':');
    if repository is None && !name.contains(':') {
        if exists|tag: Seq<char>| image@ == #[trigger] (name + seq![':'] + tag) {
            let tag = choose|tag: Seq<char>| image@ == #[trigger] (name + seq![':'] + tag);
            let n = name.len() as int;
            assert(image@[n] == ':');
            assert forall|j: int| 0 <= j < n implies image@[j] != ':' by {
                assert(image@[j] == name[j]);
                assert(name.contains(name[j]));
            }
            split::lemma_cut_at(image@, ':', n);
            assert(image@.contains(':'));
            assert(image@.take(n) =~= name);
            assert(split::pieces(image@, ':')[0] == name);
        } else if image@ == name {
            assert(split::pieces(image@, ':') == seq![image@]);
        }
    }
}

/// A change of a configuration is made to the configuration itself: `ENTRYPOINT` sets
/// the entrypoint and leaves the command, and `CMD` the other way round.
pub proof fn lemma_one_directive_applied(
    config: &mut serde_json::Value,
    changes: Vec<String>,
    rest: Seq<char>,
)
    requires
        changes@.len() == 1,
        json::settable(json::contents(*old(config))),
        json::settable(json::member_of(json::contents(*old(config)), "config"@)),
        call_ensures(apply_changes, (config, &changes), ()),
    ensures
        split::trimmed(changes@[0]@) == "ENTRYPOINT "@ + rest ==> json::item_of(
            setting(json::contents(*final(config)), "Entrypoint"@),
            2,
        ) == JsonView::Text(rest) && setting(json::contents(*final(config)), "Cmd"@) == setting(
            json::contents(*old(config)),
            "Cmd"@,
        ),
        split::trimmed(changes@[0]@) == "CMD "@ + rest ==> json::item_of(
            setting(json::contents(*final(config)), "Cmd"@),
            2,
        ) == JsonView::Text(rest) && setting(json::contents(*final(config)), "Entrypoint"@) == setting(
            json::contents(*old(config)),
            "Entrypoint"@,
        ),
{
    let doc = json::contents(*old(config));
    let change = changes@[0]@;
    let one = text::strs(changes@);
    assert(one =~= seq![change]);
    assert(one.drop_last() =~= Seq::<Seq<char>>::empty());
    reveal_with_fuel(changed, 2);
    assert(changed(doc, one) == changed_by(doc, change));
    lemma_directive_sets_its_own(doc, change, rest);
    reveal_strlit("Cmd");
    reveal_strlit("Entrypoint");
    assert("Cmd"@.len() == 3 && "Entrypoint"@.len() == 10);
}

/// A digest is bare without the name of its algorithm before it, and is told with it.
pub proof fn lemma_bare_digest<'a>(digest: &'a str, hash: Seq<char>, r: &'a str, line: String)
    requires
        call_ensures(bare_digest, (digest,), r),
        call_ensures(committed_line, (digest,), line),
    ensures
        digest@ == "sha256:"@ + hash ==> r@ == hash && line@ == digest@,
        !text::has_prefix(digest@, "sha256:"@) ==> r@ == digest@ && line@ == "sha256:"@ + digest@,
{
    reveal_strlit("sha256:");
    if digest@ == "sha256:"@ + hash {
        assert(digest@.take(7) =~= "sha256:"@);
        assert(digest@.skip(7) =~= hash);
    }
}

/// A committed image holds the archive that was given: its first file is the archive,
/// compressed, its second the configuration, and the manifest that its digest is of is
/// stored twice.
pub proof fn lemma_committed_layout(
    tar: Vec<u8>,
    arch: &str,
    now: Timestamp,
    message: Option<String>,
    author: Option<String>,
    changes: Vec<String>,
    created: &str,
    config: serde_json::Value,
    l: Layout,
)
    requires
        time::representable(now),
        created@ == time::rfc3339_text(now.secs, now.nanos),
        call_ensures(image_config, (&tar, arch, created, &message, &author, &changes), config),
        call_ensures(
            build_oci_image,
            (&tar, arch, now, &message, &author, &changes),
            Ok::<Layout, String>(l),
        ),
    ensures
        l.files@.len() == 6,
        import::archive_of(l.files@[0].bytes@) == Ok::<Seq<u8>, Seq<char>>(tar@),
        json::printed_bytes(json::contents(config)) == Ok::<Seq<u8>, Seq<char>>(l.files@[1].bytes@),
        l.files@[2].bytes@ == l.manifest@ && l.files@[5].bytes@ == l.manifest@,
        l.digest@ == "sha256:"@ + digest::digest_of(l.manifest@),
{
    let f = oci::file_views(l.files@);
    assert(f.len() == 6);
    assert(f.len() == l.files@.len());
    assert(f[0].1 == l.files@[0].bytes@ && f[1].1 == l.files@[1].bytes@ && f[2].1 == l.files@[2].bytes@
        && f[5].1 == l.files@[5].bytes@);
}

/// The manifest of an image is the blob that the index names first, under its bare
/// digest.
pub proof fn lemma_manifest_blob(index: serde_json::Value, d: Seq<char>, r: Result<String, BlobError>)
    requires
        call_ensures(manifest_blob, (&index,), r),
    ensures
        oci::first_digest(json::contents(index)) is None ==> r is Err,
        oci::first_digest(json::contents(index)) == Some("sha256:"@ + d) ==> r is Ok && r->Ok_0@
            == "blobs/sha256/"@ + d,
{
    reveal_strlit("sha256:");
    let s = "sha256:"@ + d;
    assert(s.take(7) =~= "sha256:"@);
    assert(s.skip(7) =~= d);
}

} // verus!
