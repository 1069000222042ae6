//! `import`: an image with one layer from the archive of a file system.

use vstd::prelude::*;

use crate::commands::commit;
use crate::commands::commit::shell_value;
use crate::digest;
use crate::gzip;
use crate::gzip::{gunzip, gzip};
use crate::json;
use crate::json::{
    as_list, as_members, get_member, insert_member, list_value, new_members, object_value, parse_texts, put, put_object,
    put_text, single, text_value, texts_value, JsonView,
};
use crate::oci;
use crate::oci::{image_layout, rootfs_section, Layout};
use crate::split;
use crate::split::{split_once, split_once_white, to_ascii_uppercase, trim};
use crate::state::Timestamp;
use crate::text;
use crate::text::{cat2, cat3, cat5, starts_with, str_eq};
use crate::time;
use crate::time::to_rfc3339;

verus! {

/// The arguments of `import`.
#[derive(Debug)]
pub struct ImportArgs {
    pub file: String,
    pub reference: Option<String>,
    pub change: Vec<String>,
    pub message: Option<String>,
}

/// The uncompressed archive that a file holds: what a gzip stream holds, or the
/// file as it is.
pub open spec fn archive_of(raw: Seq<u8>) -> Result<Seq<u8>, Seq<char>> {
    if gzip::looks_gzipped(raw) {
        match gzip::gunzipped(raw) {
            Ok(tar) => Ok(tar),
            Err(e) => Err("Failed to decompress import source: "@ + e),
        }
    } else {
        Ok(raw)
    }
}

/// The uncompressed archive that a file holds.
pub fn uncompressed(raw: Vec<u8>) -> (r: Result<Vec<u8>, String>)
    ensures
        match r {
            Ok(tar) => archive_of(raw@) == Ok::<Seq<u8>, Seq<char>>(tar@),
            Err(e) => archive_of(raw@) == Err::<Seq<u8>, Seq<char>>(e@),
        },
{
    if raw.len() >= 2 && raw[0] == 0x1f && raw[1] == 0x8b {
        match gunzip(&raw) {
            Ok(tar) => Ok(tar),
            Err(e) => Err(cat2("Failed to decompress import source: ", &e)),
        }
    } else {
        Ok(raw)
    }
}

/// The reference that an image is imported under.
pub fn import_reference(reference: &Option<String>) -> (r: String)
    ensures
        r@ == (match text::opt_str(*reference) {
            Some(s) => s,
            None => "a3s-import:latest"@,
        }),
{
    match reference {
        Some(s) => s.clone(),
        None => "a3s-import:latest".to_string(),
    }
}

/// The line that says what is imported, with its size in words.
pub fn imported_line(reference: &str, size: &str) -> (r: String)
    ensures
        r@ == "Imported "@ + reference@ + " ("@ + size@ + ")"@,
{
    cat5("Imported ", reference, " (", size, ")")
}

/// A command as a list of words where it is written as one, and otherwise for
/// the shell of the image.
pub open spec fn command_of(rest: Seq<char>) -> JsonView {
    let t = split::trimmed(rest);
    if text::has_prefix(t, "["@) && json::parsed_texts(t) is Some {
        json::texts(json::parsed_texts(t)->0)
    } else {
        commit::shell(t)
    }
}

/// A command as a list of words where it is written as one, and otherwise for
/// the shell of the image.
pub fn parse_exec_or_shell(rest: &str) -> (r: serde_json::Value)
    ensures
        json::contents(r) == command_of(rest@),
{
    let t = trim(rest);
    if starts_with(t, "[") {
        if let Some(words) = parse_texts(t) {
            return texts_value(&words);
        }
    }
    shell_value(t)
}

/// A key and a value: on both sides of the first `=`, or else of the first white
/// space.
pub open spec fn key_value(rest: Seq<char>) -> Option<(Seq<char>, Seq<char>)> {
    let parts = if split::cut(rest, '=') is Some {
        split::cut(rest, '=')
    } else {
        split::cut_white(rest)
    };
    match parts {
        Some((k, v)) => Some((split::trimmed(k), split::trimmed(v))),
        None => None,
    }
}

/// What is said of a directive without a key and a value.
pub open spec fn invalid_pair(rest: Seq<char>) -> Seq<char> {
    "Invalid key/value in --change: '"@ + rest + "'"@
}

/// A key and a value: on both sides of the first `=`, or else of the first white
/// space.
pub fn parse_key_value(rest: &str) -> (r: Result<(String, String), String>)
    ensures
        match key_value(rest@) {
            Some((k, v)) => r is Ok && (r->Ok_0).0@ == k && (r->Ok_0).1@ == v,
            None => r matches Err(e) && e@ == invalid_pair(rest@),
        },
{
    if let Some((k, v)) = split_once(rest, '=') {
        return Ok((trim(k).to_string(), trim(v).to_string()));
    }
    if let Some((k, v)) = split_once_white(rest) {
        return Ok((trim(k).to_string(), trim(v).to_string()));
    }
    Err(cat3("Invalid key/value in --change: '", rest, "'"))
}

/// The instruction of a directive in capital letters, and what follows it.
pub open spec fn instruction(change: Seq<char>) -> (Seq<char>, Seq<char>) {
    let t = split::trimmed(change);
    match split::cut_white(t) {
        Some((i, rest)) => (split::uppered(i), split::trimmed(rest)),
        None => (split::uppered(t), Seq::empty()),
    }
}

/// Members after a text is added to the list under a key. The list is made
/// where there is none; anything else under the key stays.
pub open spec fn list_extended(m: Map<Seq<char>, JsonView>, key: Seq<char>, entry: Seq<char>) -> Map<Seq<char>, JsonView> {
    let list = if m.contains_key(key) { m[key] } else { JsonView::List(Seq::empty()) };
    match list {
        JsonView::List(l) => m.insert(key, JsonView::List(l.push(JsonView::Text(entry)))),
        _ => m,
    }
}

/// Members after a member is added to the object under a key. The object is
/// made where there is none; anything else under the key stays.
pub open spec fn object_extended(
    m: Map<Seq<char>, JsonView>,
    key: Seq<char>,
    name: Seq<char>,
    value: JsonView,
) -> Map<Seq<char>, JsonView> {
    let object = if m.contains_key(key) { m[key] } else { JsonView::Object(json::nothing()) };
    match object {
        JsonView::Object(o) => m.insert(key, JsonView::Object(o.insert(name, value))),
        _ => m,
    }
}

/// What is said of an instruction that is not known.
pub open spec fn unsupported(instr: Seq<char>) -> Seq<char> {
    "Unsupported --change instruction '"@ + instr
        + "' (supported: CMD, ENTRYPOINT, ENV, WORKDIR, USER, EXPOSE, LABEL, VOLUME)"@
}

/// The `config` section of an image after one directive, or why it cannot be
/// applied.
pub open spec fn changed_by(m: Map<Seq<char>, JsonView>, change: Seq<char>) -> Result<Map<Seq<char>, JsonView>, Seq<char>> {
    let (instr, rest) = instruction(change);
    if instr == "CMD"@ {
        Ok(m.insert("Cmd"@, command_of(rest)))
    } else if instr == "ENTRYPOINT"@ {
        Ok(m.insert("Entrypoint"@, command_of(rest)))
    } else if instr == "WORKDIR"@ {
        Ok(m.insert("WorkingDir"@, JsonView::Text(rest)))
    } else if instr == "USER"@ {
        Ok(m.insert("User"@, JsonView::Text(rest)))
    } else if instr == "ENV"@ {
        match key_value(rest) {
            Some((k, v)) => Ok(list_extended(m, "Env"@, k + "="@ + v)),
            None => Err(invalid_pair(rest)),
        }
    } else if instr == "LABEL"@ {
        match key_value(rest) {
            Some((k, v)) => Ok(object_extended(m, "Labels"@, k, JsonView::Text(v))),
            None => Err(invalid_pair(rest)),
        }
    } else if instr == "EXPOSE"@ {
        Ok(object_extended(m, "ExposedPorts"@, rest + "/tcp"@, JsonView::Object(json::nothing())))
    } else if instr == "VOLUME"@ {
        Ok(object_extended(m, "Volumes"@, rest, JsonView::Object(json::nothing())))
    } else {
        Err(unsupported(instr))
    }
}

/// The `config` section of an image after directives, up to the first that
/// cannot be applied, and why that cannot be applied.
pub open spec fn changed(m: Map<Seq<char>, JsonView>, changes: Seq<Seq<char>>) -> (
    Map<Seq<char>, JsonView>,
    Option<Seq<char>>,
)
    decreases changes.len(),
{
    if changes.len() == 0 {
        (m, None)
    } else {
        let (before, failed) = changed(m, changes.drop_last());
        match failed {
            Some(e) => (before, Some(e)),
            None => match changed_by(before, changes.last()) {
                Ok(after) => (after, None),
                Err(e) => (before, Some(e)),
            },
        }
    }
}

/// Directives behind one that cannot be applied change nothing.
proof fn lemma_changed_failed(m: Map<Seq<char>, JsonView>, changes: Seq<Seq<char>>, n: int)
    requires
        0 <= n <= changes.len(),
        changed(m, changes.take(n)).1 is Some,
    ensures
        changed(m, changes) == changed(m, changes.take(n)),
    decreases changes.len() - n,
{
    if n < changes.len() {
        assert(changes.take(n + 1).drop_last() =~= changes.take(n));
        lemma_changed_failed(m, changes, n + 1);
    } else {
        assert(changes.take(n) =~= changes);
    }
}

/// Adds a text to the list under a key.
fn extend_list(m: &mut serde_json::Map<String, serde_json::Value>, key: &str, entry: &str)
    ensures
        json::members(*final(m)) == list_extended(json::members(*old(m)), key@, entry@),
{
    let current = match get_member(m, key) {
        Some(v) => as_list(&v),
        None => {
            let none: Vec<serde_json::Value> = Vec::new();
            assert(json::all_contents(none@) =~= Seq::empty());
            Some(none)
        },
    };
    if let Some(mut list) = current {
        let ghost before = list@;
        let one = text_value(entry);
        list.push(one);
        assert(json::all_contents(list@) =~= json::all_contents(before).push(json::contents(one)));
        insert_member(m, key, list_value(list));
    }
}

/// Adds a member to the object under a key.
fn extend_object(
    m: &mut serde_json::Map<String, serde_json::Value>,
    key: &str,
    name: &str,
    value: serde_json::Value,
)
    ensures
        json::members(*final(m)) == object_extended(json::members(*old(m)), key@, name@, json::contents(value)),
{
    let current = match get_member(m, key) {
        Some(v) => as_members(&v),
        None => Some(new_members()),
    };
    if let Some(mut object) = current {
        insert_member(&mut object, name, value);
        insert_member(m, key, object_value(object));
    }
}

/// Applies one directive to the `config` section of an image.
fn apply_change(change: &str, config: &mut serde_json::Map<String, serde_json::Value>) -> (r: Result<(), String>)
    ensures
        match changed_by(json::members(*old(config)), change@) {
            Ok(after) => r is Ok && json::members(*final(config)) == after,
            Err(e) => r matches Err(x) && x@ == e && json::members(*final(config)) == json::members(*old(config)),
        },
{
    let t = trim(change);
    let (instr, rest) = match split_once_white(t) {
        Some((i, more)) => (to_ascii_uppercase(i), trim(more)),
        None => {
            proof {
                reveal_strlit("");
                assert(""@ =~= Seq::<char>::empty());
            }
            (to_ascii_uppercase(t), "")
        },
    };
    if str_eq(&instr, "CMD") {
        insert_member(config, "Cmd", parse_exec_or_shell(rest));
    } else if str_eq(&instr, "ENTRYPOINT") {
        insert_member(config, "Entrypoint", parse_exec_or_shell(rest));
    } else if str_eq(&instr, "WORKDIR") {
        insert_member(config, "WorkingDir", text_value(rest));
    } else if str_eq(&instr, "USER") {
        insert_member(config, "User", text_value(rest));
    } else if str_eq(&instr, "ENV") {
        match parse_key_value(rest) {
            Ok((k, v)) => {
                let entry = cat3(&k, "=", &v);
                extend_list(config, "Env", &entry);
            },
            Err(e) => {
                return Err(e);
            },
        }
    } else if str_eq(&instr, "LABEL") {
        match parse_key_value(rest) {
            Ok((k, v)) => {
                extend_object(config, "Labels", &k, text_value(&v));
            },
            Err(e) => {
                return Err(e);
            },
        }
    } else if str_eq(&instr, "EXPOSE") {
        let port = cat2(rest, "/tcp");
        extend_object(config, "ExposedPorts", &port, object_value(new_members()));
    } else if str_eq(&instr, "VOLUME") {
        extend_object(config, "Volumes", rest, object_value(new_members()));
    } else {
        return Err(
            cat3(
                "Unsupported --change instruction '",
                &instr,
                "' (supported: CMD, ENTRYPOINT, ENV, WORKDIR, USER, EXPOSE, LABEL, VOLUME)",
            ),
        );
    }
    Ok(())
}

/// Applies directives to the `config` section of an image, up to the first that
/// cannot be applied.
pub fn apply_changes(changes: &Vec<String>, config: &mut serde_json::Map<String, serde_json::Value>) -> (r: Result<
    (),
    String,
>)
    ensures
        json::members(*final(config)) == changed(json::members(*old(config)), text::strs(changes@)).0,
        match changed(json::members(*old(config)), text::strs(changes@)).1 {
            Some(e) => r matches Err(x) && x@ == e,
            None => r is Ok,
        },
{
    let ghost start = json::members(*config);
    let ghost all = text::strs(changes@);
    for i in 0..changes.len()
        invariant
            all == text::strs(changes@),
            start == json::members(*old(config)),
            changed(start, all.take(i as int)) == (json::members(*config), None::<Seq<char>>),
    {
        proof {
            assert(all.take(i + 1).drop_last() =~= all.take(i as int));
            assert(all.take(i + 1).last() == changes@[i as int]@);
        }
        if let Err(e) = apply_change(&changes[i], config) {
            proof {
                lemma_changed_failed(start, all, i + 1);
            }
            return Err(e);
        }
    }
    assert(all.take(changes@.len() as int) =~= all);
    Ok(())
}

/// The configuration of an imported image.
pub open spec fn config_doc(
    tar: Seq<u8>,
    arch: Seq<char>,
    created: Seq<char>,
    message: Option<Seq<char>>,
    section: Map<Seq<char>, JsonView>,
) -> JsonView {
    let by = match message {
        Some(s) => s,
        None => "Imported from tarball"@,
    };
    JsonView::Object(
        json::nothing().insert("architecture"@, JsonView::Text(arch)).insert("os"@, JsonView::Text("linux"@)).insert(
            "created"@,
            JsonView::Text(created),
        ).insert("config"@, JsonView::Object(section)).insert("rootfs"@, JsonView::Object(oci::rootfs_doc(tar))).insert(
            "history"@,
            JsonView::List(
                seq![
                    JsonView::Object(
                        json::nothing().insert("created"@, JsonView::Text(created)).insert(
                            "created_by"@,
                            JsonView::Text(by),
                        ),
                    ),
                ],
            ),
        ),
    )
}

/// The configuration of an imported image.
pub fn image_config(
    tar: &Vec<u8>,
    arch: &str,
    created: &str,
    message: &Option<String>,
    section: serde_json::Map<String, serde_json::Value>,
) -> (r: serde_json::Value)
    ensures
        json::contents(r) == config_doc(tar@, arch@, created@, text::opt_str(*message), json::members(section)),
{
    let entry = put_text(new_members(), "created", created);
    let entry = match message {
        Some(s) => put_text(entry, "created_by", s),
        None => put_text(entry, "created_by", "Imported from tarball"),
    };
    let m = put_text(new_members(), "architecture", arch);
    let m = put_text(m, "os", "linux");
    let m = put_text(m, "created", created);
    let m = put_object(m, "config", section);
    let m = put_object(m, "rootfs", rootfs_section(tar));
    object_value(put(m, "history", single(object_value(entry))))
}

/// The layout of an image imported from a file: its layer is the archive in the
/// file, compressed anew, and its configuration names the uncompressed archive.
pub open spec fn imported_layout(
    raw: Seq<u8>,
    arch: Seq<char>,
    created: Seq<char>,
    message: Option<Seq<char>>,
    changes: Seq<Seq<char>>,
) -> Result<oci::LayoutView, Seq<char>> {
    match archive_of(raw) {
        Err(e) => Err(e),
        Ok(tar) => match gzip::gzipped(tar) {
            Err(e) => Err(e),
            Ok(layer) => {
                let (section, failed) = changed(json::nothing(), changes);
                match failed {
                    Some(e) => Err(e),
                    None => oci::layout_of(layer, config_doc(tar, arch, created, message, section), Some(arch)),
                }
            },
        },
    }
}

/// The files of an image imported from a file at a point in time. The layer,
/// which comes first, decompresses to the archive that the configuration names.
pub fn import_image(
    raw: Vec<u8>,
    arch: &str,
    now: Timestamp,
    message: &Option<String>,
    changes: &Vec<String>,
) -> (r: Result<Layout, String>)
    requires
        time::representable(now),
    ensures
        ({
            let expected = imported_layout(
                raw@,
                arch@,
                time::rfc3339_text(now.secs, now.nanos),
                text::opt_str(*message),
                text::strs(changes@),
            );
            match r {
                Ok(l) => expected == Ok::<oci::LayoutView, Seq<char>>(
                    (oci::LayoutView { files: oci::file_views(l.files@), manifest: l.manifest@ }),
                ) && l.digest@ == oci::tagged(l.manifest@) && gzip::gunzipped(oci::file_views(l.files@)[0].1)
                    == archive_of(raw@),
                Err(e) => expected == Err::<oci::LayoutView, Seq<char>>(e@),
            }
        }),
{
    let tar = uncompressed(raw)?;
    let layer = gzip(&tar)?;
    let created = to_rfc3339(now);
    let mut section = new_members();
    apply_changes(changes, &mut section)?;
    let config = image_config(&tar, arch, &created, message, section);
    image_layout(&layer, &config, Some(arch))
}

// ---------------------------------------------------------------------------
// What a directive changes
// ---------------------------------------------------------------------------

/// A directive is this word, a space and this rest, with white space before and
/// after passed over.
pub open spec fn directive(change: Seq<char>, word: Seq<char>, rest: Seq<char>) -> bool {
    split::trimmed(change) == word + seq![' '] + rest
}

/// The word of a directive counts in capitals, so its case does not matter, and
/// what follows it counts without the white space around it.
pub proof fn lemma_directive_read(change: Seq<char>, word: Seq<char>, rest: Seq<char>)
    requires
        directive(change, word, rest),
        forall|i: int| 0 <= i < word.len() ==> !split::is_white(#[trigger] word[i]),
    ensures
        instruction(change).0 == split::uppered(word),
        instruction(change).1 == split::trimmed(rest),
{
    let t = split::trimmed(change);
    let n = word.len() as int;
    assert forall|j: int| 0 <= j < n implies !split::is_white(t[j]) by {
        assert(t[j] == word[j]);
    }
    assert(t[n] == ' ');
    split::lemma_word_len(t, n);
    assert(t.take(n) =~= word);
    assert(t.skip(n + 1) =~= rest);
}

/// The members of `after` are those of `before`, but for this one.
pub open spec fn only_changes(
    before: Map<Seq<char>, JsonView>,
    after: Map<Seq<char>, JsonView>,
    key: Seq<char>,
) -> bool {
    forall|k: Seq<char>|
        k != key ==> (#[trigger] after.contains_key(k) <==> before.contains_key(k)) && (
        before.contains_key(k) ==> after[k] == before[k])
}

/// The words of the directives are what they are in capitals, and no two of them
/// are the same.
proof fn lemma_words()
    ensures
        split::uppered("CMD"@) == "CMD"@,
        split::uppered("ENTRYPOINT"@) == "ENTRYPOINT"@,
        split::uppered("WORKDIR"@) == "WORKDIR"@,
        split::uppered("USER"@) == "USER"@,
        split::uppered("ENV"@) == "ENV"@,
        split::uppered("LABEL"@) == "LABEL"@,
        split::uppered("EXPOSE"@) == "EXPOSE"@,
        split::uppered("VOLUME"@) == "VOLUME"@,
        "CMD"@.len() == 3 && "ENTRYPOINT"@.len() == 10 && "WORKDIR"@.len() == 7 && "USER"@.len() == 4,
        "ENV"@.len() == 3 && "LABEL"@.len() == 5 && "EXPOSE"@.len() == 6 && "VOLUME"@.len() == 6,
        "CMD"@[0] == 'C' && "ENV"@[0] == 'E' && "EXPOSE"@[0] == 'E' && "VOLUME"@[0] == 'V',
        forall|i: int| 0 <= i < 3 ==> !split::is_white(#[trigger] "CMD"@[i]),
        forall|i: int| 0 <= i < 10 ==> !split::is_white(#[trigger] "ENTRYPOINT"@[i]),
        forall|i: int| 0 <= i < 7 ==> !split::is_white(#[trigger] "WORKDIR"@[i]),
        forall|i: int| 0 <= i < 4 ==> !split::is_white(#[trigger] "USER"@[i]),
        forall|i: int| 0 <= i < 3 ==> !split::is_white(#[trigger] "ENV"@[i]),
        forall|i: int| 0 <= i < 5 ==> !split::is_white(#[trigger] "LABEL"@[i]),
        forall|i: int| 0 <= i < 6 ==> !split::is_white(#[trigger] "EXPOSE"@[i]),
        forall|i: int| 0 <= i < 6 ==> !split::is_white(#[trigger] "VOLUME"@[i]),
{
    reveal_strlit("CMD");
    reveal_strlit("ENTRYPOINT");
    reveal_strlit("WORKDIR");
    reveal_strlit("USER");
    reveal_strlit("ENV");
    reveal_strlit("LABEL");
    reveal_strlit("EXPOSE");
    reveal_strlit("VOLUME");
    assert(split::uppered("CMD"@) =~= "CMD"@);
    assert(split::uppered("ENTRYPOINT"@) =~= "ENTRYPOINT"@);
    assert(split::uppered("WORKDIR"@) =~= "WORKDIR"@);
    assert(split::uppered("USER"@) =~= "USER"@);
    assert(split::uppered("ENV"@) =~= "ENV"@);
    assert(split::uppered("LABEL"@) =~= "LABEL"@);
    assert(split::uppered("EXPOSE"@) =~= "EXPOSE"@);
    assert(split::uppered("VOLUME"@) =~= "VOLUME"@);
}

/// One change is what it is alone.
proof fn lemma_single_change(m: Map<Seq<char>, JsonView>, change: Seq<char>)
    ensures
        changed_by(m, change) matches Ok(after) ==> changed(m, seq![change]) == (
            after,
            None::<Seq<char>>,
        ),
        changed_by(m, change) matches Err(e) ==> changed(m, seq![change]) == (m, Some(e)),
{
    let one = seq![change];
    assert(one.drop_last() =~= Seq::<Seq<char>>::empty());
    assert(one.last() == change);
    reveal_with_fuel(changed, 2);
}

/// `CMD` and `ENTRYPOINT` set a command each, and neither touches the other's: what
/// is set is what the rest of the directive stands for.
pub proof fn lemma_cmd_and_entrypoint_apart(
    m: Map<Seq<char>, JsonView>,
    change: Seq<char>,
    rest: &str,
    command: serde_json::Value,
)
    requires
        split::trimmed(rest@) == rest@,
        call_ensures(parse_exec_or_shell, (rest,), command),
    ensures
        directive(change, "CMD"@, rest@) ==> {
            let (after, failed) = changed(m, seq![change]);
            &&& failed is None
            &&& after.contains_key("Cmd"@) && after["Cmd"@] == json::contents(command)
            &&& only_changes(m, after, "Cmd"@)
            &&& after.contains_key("Entrypoint"@) <==> m.contains_key("Entrypoint"@)
        },
        directive(change, "ENTRYPOINT"@, rest@) ==> {
            let (after, failed) = changed(m, seq![change]);
            &&& failed is None
            &&& after.contains_key("Entrypoint"@) && after["Entrypoint"@] == json::contents(command)
            &&& only_changes(m, after, "Entrypoint"@)
            &&& after.contains_key("Cmd"@) <==> m.contains_key("Cmd"@)
        },
{
    lemma_words();
    reveal_strlit("Cmd");
    reveal_strlit("Entrypoint");
    assert("Cmd"@.len() == 3 && "Entrypoint"@.len() == 10);
    lemma_single_change(m, change);
    if directive(change, "CMD"@, rest@) {
        lemma_directive_read(change, "CMD"@, rest@);
        assert(changed_by(m, change) is Ok);
    }
    if directive(change, "ENTRYPOINT"@, rest@) {
        lemma_directive_read(change, "ENTRYPOINT"@, rest@);
        assert(changed_by(m, change) is Ok);
    }
}

/// `WORKDIR` and `USER` set a text each, `EXPOSE` and `VOLUME` list a port and a
/// path, and nothing else changes.
pub proof fn lemma_text_directives(m: Map<Seq<char>, JsonView>, change: Seq<char>, rest: Seq<char>)
    requires
        split::trimmed(rest) == rest,
    ensures
        directive(change, "WORKDIR"@, rest) ==> {
            let (after, failed) = changed(m, seq![change]);
            &&& failed is None
            &&& after.contains_key("WorkingDir"@) && after["WorkingDir"@] == JsonView::Text(rest)
            &&& only_changes(m, after, "WorkingDir"@)
        },
        directive(change, "USER"@, rest) ==> {
            let (after, failed) = changed(m, seq![change]);
            &&& failed is None
            &&& after.contains_key("User"@) && after["User"@] == JsonView::Text(rest)
            &&& only_changes(m, after, "User"@)
        },
        directive(change, "EXPOSE"@, rest) && !m.contains_key("ExposedPorts"@) ==> {
            let (after, failed) = changed(m, seq![change]);
            &&& failed is None
            &&& after["ExposedPorts"@] matches JsonView::Object(ports) && ports.dom() =~= set![
                rest + "/tcp"@,
            ]
            &&& only_changes(m, after, "ExposedPorts"@)
        },
        directive(change, "VOLUME"@, rest) && !m.contains_key("Volumes"@) ==> {
            let (after, failed) = changed(m, seq![change]);
            &&& failed is None
            &&& after["Volumes"@] matches JsonView::Object(volumes) && volumes.dom() =~= set![rest]
            &&& only_changes(m, after, "Volumes"@)
        },
{
    lemma_words();
    lemma_single_change(m, change);
    if directive(change, "WORKDIR"@, rest) {
        lemma_directive_read(change, "WORKDIR"@, rest);
        assert(changed_by(m, change) is Ok);
    }
    if directive(change, "USER"@, rest) {
        lemma_directive_read(change, "USER"@, rest);
        assert(changed_by(m, change) is Ok);
    }
    if directive(change, "EXPOSE"@, rest) {
        lemma_directive_read(change, "EXPOSE"@, rest);
        assert(changed_by(m, change) is Ok);
    }
    if directive(change, "VOLUME"@, rest) {
        lemma_directive_read(change, "VOLUME"@, rest);
        assert(changed_by(m, change) is Ok);
    }
}

/// `ENV` puts the variable, as `KEY=VALUE`, behind those that are there, and
/// `LABEL` sets the label beside those that are there. Without a key and a value
/// both are refused, and nothing changes.
pub proof fn lemma_pair_directives(
    m: Map<Seq<char>, JsonView>,
    change: Seq<char>,
    rest: &str,
    pair: Result<(String, String), String>,
)
    requires
        split::trimmed(rest@) == rest@,
        directive(change, "ENV"@, rest@) || directive(change, "LABEL"@, rest@),
        call_ensures(parse_key_value, (rest,), pair),
    ensures
        pair is Err ==> changed(m, seq![change]).0 == m && changed(m, seq![change]).1 == Some(
            pair->Err_0@,
        ),
        pair is Ok ==> changed(m, seq![change]).1 is None,
        pair is Ok && directive(change, "ENV"@, rest@) ==> {
            let after = changed(m, seq![change]).0;
            let entry = JsonView::Text((pair->Ok_0).0@ + "="@ + (pair->Ok_0).1@);
            &&& only_changes(m, after, "Env"@)
            &&& m.contains_key("Env"@) && m["Env"@] is List ==> after["Env"@] == JsonView::List(
                m["Env"@]->List_0.push(entry),
            )
            &&& !m.contains_key("Env"@) ==> after["Env"@] == JsonView::List(seq![entry])
        },
        pair is Ok && directive(change, "LABEL"@, rest@) ==> {
            let after = changed(m, seq![change]).0;
            let (k, v) = ((pair->Ok_0).0@, JsonView::Text((pair->Ok_0).1@));
            &&& only_changes(m, after, "Labels"@)
            &&& m.contains_key("Labels"@) && m["Labels"@] is Object ==> after["Labels"@] is Object
                && after["Labels"@]->Object_0 == m["Labels"@]->Object_0.insert(k, v)
            &&& !m.contains_key("Labels"@) ==> after["Labels"@] is Object
                && after["Labels"@]->Object_0.dom() =~= set![k] && after["Labels"@]->Object_0[k] == v
        },
{
    lemma_words();
    lemma_single_change(m, change);
    if directive(change, "ENV"@, rest@) {
        lemma_directive_read(change, "ENV"@, rest@);
        assert(Seq::<JsonView>::empty().push(
            JsonView::Text((pair->Ok_0).0@ + "="@ + (pair->Ok_0).1@),
        ) =~= seq![JsonView::Text((pair->Ok_0).0@ + "="@ + (pair->Ok_0).1@)]);
    } else {
        lemma_directive_read(change, "LABEL"@, rest@);
    }
}

/// The command of a directive that does not begin with a bracket is run by a shell,
/// as one text.
pub proof fn lemma_shell_form(rest: &str, command: serde_json::Value)
    requires
        call_ensures(parse_exec_or_shell, (rest,), command),
        split::trimmed(rest@).len() == 0 || split::trimmed(rest@)[0] != '[',
    ensures
        json::item_of(json::contents(command), 0) == JsonView::Text("/bin/sh"@),
        json::item_of(json::contents(command), 1) == JsonView::Text("-c"@),
        json::item_of(json::contents(command), 2) == JsonView::Text(split::trimmed(rest@)),
        json::item_of(json::contents(command), 3) is Null,
{
    reveal_strlit("[");
    let t = split::trimmed(rest@);
    if text::has_prefix(t, "["@) {
        assert(t.take(1)[0] == t[0]);
    }
}

/// A key and its value are parted at the first `=`, and at the first white space
/// where there is none; the value may hold `=` itself.
pub proof fn lemma_key_value_parts(
    rest: &str,
    key: Seq<char>,
    value: Seq<char>,
    pair: Result<(String, String), String>,
)
    requires
        call_ensures(parse_key_value, (rest,), pair),
        rest@ == key + seq!['='] + value,
        !key.contains('='),
    ensures
        pair is Ok,
        (pair->Ok_0).0@ == split::trimmed(key),
        (pair->Ok_0).1@ == split::trimmed(value),
{
    let n = key.len() as int;
    assert(rest@[n] == '=');
    assert forall|j: int| 0 <= j < n implies rest@[j] != '=' by {
        assert(rest@[j] == key[j]);
        assert(key.contains(key[j]));
    }
    split::lemma_cut_at(rest@, '=', n);
    assert(rest@.contains('='));
    assert(rest@.take(n) =~= key);
    assert(rest@.skip(n + 1) =~= value);
}

/// Changes are made one after the other: those that are read first are what the
/// later ones find, and after one that fails nothing changes any more.
pub proof fn lemma_changes_in_turn(
    m: Map<Seq<char>, JsonView>,
    first: Seq<Seq<char>>,
    second: Seq<Seq<char>>,
)
    ensures
        changed(m, first).1 is Some ==> changed(m, first + second) == changed(m, first),
        changed(m, first).1 is None ==> changed(m, first + second) == changed(
            changed(m, first).0,
            second,
        ),
    decreases second.len(),
{
    if second.len() == 0 {
        assert(first + second =~= first);
    } else {
        let all = first + second;
        assert(all.drop_last() =~= first + second.drop_last());
        assert(all.last() == second.last());
        lemma_changes_in_turn(m, first, second.drop_last());
    }
}

/// An image is imported as it was asked for: its configuration names the machine
/// that was given and the archive's own digest, tells the message in its history,
/// and holds what the changes come to. No image comes of a change that is refused.
pub proof fn lemma_imported_as_asked(
    raw: Vec<u8>,
    arch: &str,
    now: Timestamp,
    message: Option<String>,
    changes: Vec<String>,
    tar: Vec<u8>,
    r: Result<Layout, String>,
)
    requires
        call_ensures(uncompressed, (raw,), Ok::<Vec<u8>, String>(tar)),
        call_ensures(import_image, (raw, arch, now, &message, &changes), r),
    ensures
        changed(json::nothing(), text::strs(changes@)).1 is Some ==> r is Err,
        r is Ok ==> exists|doc: JsonView|
            {
                let history = json::item_of(json::member_of(doc, "history"@), 0);
                &&& #[trigger] json::printed_bytes(doc) == Ok::<Seq<u8>, Seq<char>>(
                    (r->Ok_0).files@[1].bytes@,
                )
                &&& json::member_of(doc, "architecture"@) == JsonView::Text(arch@)
                &&& json::member_of(doc, "os"@) == JsonView::Text("linux"@)
                &&& json::member_of(doc, "config"@) == JsonView::Object(
                    changed(json::nothing(), text::strs(changes@)).0,
                )
                &&& json::member_of(history, "created_by"@) == JsonView::Text(
                    if message is Some {
                        message->0@
                    } else {
                        "Imported from tarball"@
                    },
                )
                &&& json::item_of(json::member_of(json::member_of(doc, "rootfs"@), "diff_ids"@), 0)
                    == JsonView::Text("sha256:"@ + digest::digest_of(tar@))
            },
{
    if r is Ok {
        let l = r->Ok_0;
        let created = time::rfc3339_text(now.secs, now.nanos);
        let section = changed(json::nothing(), text::strs(changes@)).0;
        let doc = config_doc(tar@, arch@, created, text::opt_str(message), section);
        assert(archive_of(raw@) == Ok::<Seq<u8>, Seq<char>>(tar@));
        reveal_strlit("architecture");
        reveal_strlit("os");
        reveal_strlit("created");
        reveal_strlit("config");
        reveal_strlit("rootfs");
        reveal_strlit("history");
        reveal_strlit("created_by");
        reveal_strlit("type");
        reveal_strlit("diff_ids");
        assert("architecture"@.len() == 12 && "os"@.len() == 2 && "created"@.len() == 7);
        assert("config"@.len() == 6 && "rootfs"@.len() == 6 && "history"@.len() == 7);
        assert("config"@[0] == 'c' && "rootfs"@[0] == 'r' && "created"@[0] == 'c' && "history"@[0]
            == 'h');
        assert("created_by"@.len() == 10 && "type"@.len() == 4 && "diff_ids"@.len() == 8);
        assert(oci::file_views(l.files@).len() == 5);
        assert(oci::file_views(l.files@)[1].1 == l.files@[1].bytes@);
        assert(json::printed_bytes(doc) == Ok::<Seq<u8>, Seq<char>>(l.files@[1].bytes@));
    }
}

/// A list of one `ENTRYPOINT`, or of one `CMD`, sets that member of a configuration to
/// what its rest stands for, and leaves the other as it was.
pub proof fn lemma_one_directive_applied(
    changes: Vec<String>,
    config: &mut serde_json::Map<String, serde_json::Value>,
    rest: &str,
    command: serde_json::Value,
    r: Result<(), String>,
)
    requires
        changes@.len() == 1,
        split::trimmed(rest@) == rest@,
        call_ensures(parse_exec_or_shell, (rest,), command),
        call_ensures(apply_changes, (&changes, config), r),
    ensures
        directive(changes@[0]@, "ENTRYPOINT"@, rest@) ==> {
            let before = json::members(*old(config));
            let after = json::members(*final(config));
            &&& r is Ok
            &&& after.contains_key("Entrypoint"@) && after["Entrypoint"@] == json::contents(command)
            &&& after.contains_key("Cmd"@) <==> before.contains_key("Cmd"@)
            &&& before.contains_key("Cmd"@) ==> after["Cmd"@] == before["Cmd"@]
        },
        directive(changes@[0]@, "CMD"@, rest@) ==> {
            let before = json::members(*old(config));
            let after = json::members(*final(config));
            &&& r is Ok
            &&& after.contains_key("Cmd"@) && after["Cmd"@] == json::contents(command)
            &&& after.contains_key("Entrypoint"@) <==> before.contains_key("Entrypoint"@)
            &&& before.contains_key("Entrypoint"@) ==> after["Entrypoint"@] == before["Entrypoint"@]
        },
{
    let change = changes@[0]@;
    assert(text::strs(changes@) =~= seq![change]);
    lemma_cmd_and_entrypoint_apart(json::members(*old(config)), change, rest, command);
    reveal_strlit("Cmd");
    reveal_strlit("Entrypoint");
    assert("Cmd"@.len() == 3 && "Entrypoint"@.len() == 10);
    let after = json::members(*final(config));
    assert(after.contains_key("Cmd"@) || !after.contains_key("Cmd"@));
    assert(after.contains_key("Entrypoint"@) || !after.contains_key("Entrypoint"@));
}

/// Without changes a configuration stays as it is.
pub proof fn lemma_no_change(
    changes: Vec<String>,
    config: &mut serde_json::Map<String, serde_json::Value>,
    r: Result<(), String>,
)
    requires
        changes@.len() == 0,
        call_ensures(apply_changes, (&changes, config), r),
    ensures
        r is Ok,
        json::members(*final(config)) == json::members(*old(config)),
{
    assert(text::strs(changes@).len() == 0);
}

/// An image is imported under the name that is given, and else under the usual one.
pub proof fn lemma_import_name(reference: Option<String>, r: String)
    requires
        call_ensures(import_reference, (&reference,), r),
    ensures
        reference is Some ==> r@ == reference->0@,
        reference is None ==> r@ == "a3s-import:latest"@,
{
}

/// An archive that is not compressed is taken as it is.
pub proof fn lemma_plain_archive(raw: Vec<u8>, r: Result<Vec<u8>, String>)
    requires
        call_ensures(uncompressed, (raw,), r),
        raw@.len() < 2 || raw@[0] != 0x1f || raw@[1] != 0x8b,
    ensures
        r is Ok,
        r->Ok_0@ == raw@,
{
}

} // verus!
