//! Images: their listings, their configurations and the files that hold them.

use a3s_box::commands::commit::{
    bare_digest, build_oci_image, commit_reference, committed_line, compute_diff_id, find_manifest_blob,
    rootfs_missing, BlobError,
};
use a3s_box::commands::history::{
    blob_path, config_path, format_timestamp, get_layer_sizes, history_rows, load_image_configuration, manifest_path,
    truncate_str, Created, HistoryEntry,
};
use a3s_box::commands::image_build::{
    explicit_build_file, not_a_directory, parse_build_args, resolve_build_file, validate_build_platforms, BuildFiles,
};
use a3s_box::commands::common::Platform;
use a3s_box::commands::image_inspect::{build_image_inspect_json, ImageConfig, ImageHealth};
use a3s_box::commands::image_prune::{
    empty_message, prune_mode, prune_warning, pruned_line, tally, ImagePruneMode, Prunable,
};
use a3s_box::commands::image_tag::{image_not_found, validate_tag_target};
use a3s_box::commands::images::{
    image_matches, list_images, matches_all, reference_candidates, ImageEntry, ImageFilter, ImageRow, ImagesArgs,
    ImagesOutput,
};
use a3s_box::commands::import::{import_image, import_reference, parse_exec_or_shell, parse_key_value, uncompressed};
use a3s_box::commands::inspect::{inspect_image, inspect_step, BoxLookup, InspectStep};
use a3s_box::commands::load::{load_reference, loaded_line, read_index};
use a3s_box::commands::push::{
    push_not_found, pushed_line, pushing_line, signed_line, signing_line, PushArgs,
};
use a3s_box::commands::rmi::{found_image, rmi_outcome, rmi_result, rmi_step, Found, RmiStep};
use a3s_box::commands::save::{saved_line, stamp_ref_annotation};
use a3s_box::commands::{commit, import};
use a3s_box::glob::glob_match;
use a3s_box::image::{short_digest, ImageReference, StoredImage};
use a3s_box::image_usage::is_protected_reference;
use a3s_box::oci::Layout;
use a3s_box::state::Timestamp;
use a3s_box::strmap::StrMap;

fn strings(l: &[&str]) -> Vec<String> {
    l.iter().map(|s| s.to_string()).collect()
}

fn json(text: &str) -> serde_json::Value {
    serde_json::from_str(text).unwrap()
}

fn moment(secs: i64) -> Timestamp {
    Timestamp { secs, nanos: 0 }
}

fn sample_stored(reference: &str, digest: &str, size: u64) -> StoredImage {
    StoredImage {
        reference: reference.to_string(),
        digest: digest.to_string(),
        size_bytes: size,
        pulled_at: moment(1_700_000_000),
        last_used: moment(1_700_000_000),
        path: "/tmp/test".to_string(),
    }
}

fn parsed(registry: &str, repository: &str, tag: Option<&str>) -> Option<ImageReference> {
    Some(ImageReference {
        registry: registry.to_string(),
        repository: repository.to_string(),
        tag: tag.map(|t| t.to_string()),
    })
}

fn entry(image: StoredImage, parsed: Option<ImageReference>) -> ImageEntry {
    ImageEntry { image, parsed, labels: None, size: "1.0 KB".to_string(), pulled: "5 minutes ago".to_string() }
}

/// The uncompressed archive of one file.
fn archive(name: &str, content: &str) -> Vec<u8> {
    let mut builder = tar::Builder::new(Vec::new());
    let mut header = tar::Header::new_gnu();
    header.set_size(content.len() as u64);
    header.set_mode(0o644);
    header.set_cksum();
    builder.append_data(&mut header, name, content.as_bytes()).unwrap();
    builder.into_inner().unwrap()
}

fn file_of<'a>(layout: &'a Layout, path: &str) -> &'a Vec<u8> {
    &layout.files.iter().find(|f| f.path == path).unwrap().bytes
}

// Changes that `commit` makes to a configuration.

#[test]
fn test_apply_changes_cmd() {
    let mut config = json(r#"{"config": {}}"#);
    commit::apply_changes(&mut config, &vec!["CMD /bin/bash".to_string()]);
    assert_eq!(config["config"]["Cmd"], json(r#"["/bin/sh", "-c", "/bin/bash"]"#));
}

#[test]
fn test_apply_changes_entrypoint() {
    let mut config = json(r#"{"config": {}}"#);
    commit::apply_changes(&mut config, &vec!["ENTRYPOINT /app/start".to_string()]);
    assert_eq!(config["config"]["Entrypoint"], json(r#"["/bin/sh", "-c", "/app/start"]"#));
}

#[test]
fn test_apply_changes_env() {
    let mut config = json(r#"{"config": {}}"#);
    commit::apply_changes(&mut config, &vec!["ENV FOO=bar".to_string()]);
    let env = config["config"]["Env"].as_array().unwrap();
    assert_eq!(env.len(), 1);
    assert_eq!(env[0], "FOO=bar");
}

#[test]
fn test_apply_changes_workdir() {
    let mut config = json(r#"{"config": {}}"#);
    commit::apply_changes(&mut config, &vec!["WORKDIR /app".to_string()]);
    assert_eq!(config["config"]["WorkingDir"], "/app");
}

#[test]
fn test_apply_changes_user() {
    let mut config = json(r#"{"config": {}}"#);
    commit::apply_changes(&mut config, &vec!["USER nobody".to_string()]);
    assert_eq!(config["config"]["User"], "nobody");
}

#[test]
fn test_apply_changes_label() {
    let mut config = json(r#"{"config": {}}"#);
    commit::apply_changes(&mut config, &vec!["LABEL version=1.0".to_string()]);
    assert_eq!(config["config"]["Labels"]["version"], "1.0");
}

#[test]
fn test_apply_changes_expose() {
    let mut config = json(r#"{"config": {}}"#);
    commit::apply_changes(&mut config, &vec!["EXPOSE 8080".to_string()]);
    assert!(config["config"]["ExposedPorts"]["8080/tcp"].is_object());
}

#[test]
fn test_apply_changes_multiple() {
    let mut config = json(r#"{"config": {}}"#);
    commit::apply_changes(
        &mut config,
        &vec!["CMD /start".to_string(), "ENV APP=test".to_string(), "WORKDIR /opt".to_string()],
    );
    assert!(config["config"]["Cmd"].is_array());
    assert!(config["config"]["Env"].is_array());
    assert_eq!(config["config"]["WorkingDir"], "/opt");
}

#[test]
fn test_apply_changes_empty() {
    let mut config = json(r#"{"config": {}}"#);
    commit::apply_changes(&mut config, &vec![]);
    assert_eq!(config["config"], json("{}"));
}

#[test]
fn a_later_command_replaces_an_earlier_one() {
    let mut config = json(r#"{"config": {}}"#);
    commit::apply_changes(&mut config, &strings(&["CMD first", "ENV A=1", "ENV B=2", "CMD second"]));
    assert_eq!(config["config"]["Cmd"], json(r#"["/bin/sh", "-c", "second"]"#));
    assert_eq!(config["config"]["Env"], json(r#"["A=1", "B=2"]"#));
}

#[test]
fn changes_that_say_nothing_are_passed_over() {
    let mut config = json(r#"{"config": {}}"#);
    commit::apply_changes(&mut config, &strings(&["CMD", "LABEL plain", "BOGUS x", "EXPOSE 53"]));
    assert!(config["config"].get("Cmd").is_none());
    assert!(config["config"]["ExposedPorts"]["53/tcp"].is_object());
}

#[test]
fn test_compute_diff_id() {
    let id = compute_diff_id(&archive("hello.txt", "world"));
    assert!(!id.is_empty());
    assert_eq!(id.len(), 64);
}

#[test]
fn diff_ids_are_sha256_in_lower_case_digits() {
    assert_eq!(
        compute_diff_id(&b"abc".to_vec()),
        "ba7816bf8f01cfea414140de5dae2223b00361a396177a9cb410ff61f20015ad"
    );
}

#[test]
fn test_build_oci_image() {
    let layout = build_oci_image(
        &archive("test.txt", "data"),
        "amd64",
        moment(1_700_000_000),
        &Some("test commit".to_string()),
        &Some("tester".to_string()),
        &vec![],
    )
    .unwrap();

    assert!(layout.files.iter().any(|f| f.path == "oci-layout"));
    assert!(layout.files.iter().any(|f| f.path == "index.json"));
    assert!(layout.files.iter().any(|f| f.path.starts_with("blobs/sha256/")));

    let index: serde_json::Value = serde_json::from_slice(file_of(&layout, "index.json")).unwrap();
    assert_eq!(index["schemaVersion"], 2);
    assert!(index["manifests"][0]["digest"].as_str().unwrap().starts_with("sha256:"));
}

#[test]
fn committed_images_hold_together() {
    let tar = archive("test.txt", "data");
    let layout = build_oci_image(
        &tar,
        "arm64",
        Timestamp { secs: 1_700_000_000, nanos: 500_000_000 },
        &Some("note".to_string()),
        &None,
        &strings(&["USER nobody"]),
    )
    .unwrap();
    let index: serde_json::Value = serde_json::from_slice(file_of(&layout, "index.json")).unwrap();
    let digest = index["manifests"][0]["digest"].as_str().unwrap();
    assert_eq!(digest, layout.digest);
    let blob = |d: &str| file_of(&layout, &format!("blobs/sha256/{}", bare_digest(d))).clone();
    let manifest_bytes = blob(digest);
    assert_eq!(manifest_bytes, layout.manifest);
    assert_eq!(&manifest_bytes, &layout.files.last().unwrap().bytes);
    let manifest: serde_json::Value = serde_json::from_slice(&manifest_bytes).unwrap();
    let layer = blob(manifest["layers"][0]["digest"].as_str().unwrap());
    assert_eq!(manifest["layers"][0]["size"], layer.len());
    assert_eq!(uncompressed(layer).unwrap(), tar);
    let config_bytes = blob(manifest["config"]["digest"].as_str().unwrap());
    let config: serde_json::Value = serde_json::from_slice(&config_bytes).unwrap();
    assert_eq!(config["architecture"], "arm64");
    assert_eq!(config["history"][0]["created"], "2023-11-14T22:13:20.500+00:00");
    assert_eq!(config["history"][0]["comment"], "note");
    assert_eq!(config["history"][0]["author"], "");
    assert_eq!(config["config"]["User"], "nobody");
    assert_eq!(config["rootfs"]["diff_ids"][0], format!("sha256:{}", compute_diff_id(&tar)));
}

#[test]
fn manifests_are_found_by_digest() {
    assert_eq!(
        find_manifest_blob(r#"{"manifests":[{"digest":"sha256:abc"}]}"#).unwrap(),
        "blobs/sha256/abc"
    );
    assert!(matches!(find_manifest_blob("{"), Err(BlobError::InvalidData(_))));
    assert!(matches!(find_manifest_blob("{}"), Err(BlobError::NotFound(_))));
}

#[test]
fn words_of_commit() {
    assert_eq!(commit_reference(&Some("app:1".to_string()), "alpine"), "app:1");
    assert_eq!(bare_digest("sha256:abc"), "abc");
    assert_eq!(bare_digest("abc"), "abc");
    assert!(rootfs_missing("web", "/tmp/web").contains("web"));
    assert!(committed_line("abc").contains("abc"));
}

// Imported archives.

#[test]
fn test_apply_changes_cmd_entrypoint_env() {
    let mut cfg = serde_json::Map::new();
    import::apply_changes(
        &vec!["CMD [\"/bin/sh\"]".into(), "ENV FOO=bar".into(), "WORKDIR /app".into(), "USER 1000".into()],
        &mut cfg,
    )
    .unwrap();
    assert_eq!(cfg["Cmd"], json(r#"["/bin/sh"]"#));
    assert_eq!(cfg["Env"], json(r#"["FOO=bar"]"#));
    assert_eq!(cfg["WorkingDir"], json(r#""/app""#));
    assert_eq!(cfg["User"], json(r#""1000""#));
}

#[test]
fn test_apply_changes_shell_form_cmd() {
    let mut cfg = serde_json::Map::new();
    import::apply_changes(&vec!["CMD echo hi".into()], &mut cfg).unwrap();
    assert_eq!(cfg["Cmd"], json(r#"["/bin/sh", "-c", "echo hi"]"#));
}

#[test]
fn test_apply_changes_rejects_unknown() {
    let mut cfg = serde_json::Map::new();
    let err = import::apply_changes(&vec!["FROM scratch".into()], &mut cfg).unwrap_err();
    assert!(err.contains("Unsupported --change instruction 'FROM'"));
}

#[test]
fn test_parse_exec_or_shell() {
    assert_eq!(parse_exec_or_shell("[\"a\",\"b\"]"), json(r#"["a", "b"]"#));
    assert_eq!(parse_exec_or_shell("run me"), json(r#"["/bin/sh", "-c", "run me"]"#));
}

#[test]
fn lists_that_hold_more_than_texts_are_shell_commands() {
    assert_eq!(parse_exec_or_shell("[1]"), json(r#"["/bin/sh", "-c", "[1]"]"#));
}

#[test]
fn imported_pairs_need_a_name_and_a_value() {
    assert_eq!(parse_key_value("A=b=c").unwrap(), ("A".to_string(), "b=c".to_string()));
    assert!(parse_key_value("").is_err());
}

#[test]
fn imported_images_hold_together() {
    let tar = archive("data.txt", "test content");
    let packed = {
        let made = build_oci_image(&tar, "amd64", moment(0), &None, &None, &vec![]).unwrap();
        made.files[0].bytes.clone()
    };
    assert_ne!(packed, tar);
    assert_eq!(&packed[..2], &[0x1f, 0x8b]);
    let plain = import_image(tar.clone(), "amd64", moment(0), &None, &vec![]).unwrap();
    let unpacked = import_image(packed, "amd64", moment(0), &None, &vec![]).unwrap();
    assert_eq!(plain.digest, unpacked.digest);
    assert_eq!(uncompressed(tar.clone()).unwrap(), tar);
    assert!(uncompressed(vec![0x1f, 0x8b, 0, 0]).is_err());
    assert_eq!(import_reference(&Some("a:1".to_string())), "a:1");
    assert!(import_image(tar, "amd64", moment(0), &None, &strings(&["FROM x"])).is_err());
}

// The history of an image.

#[test]
fn test_truncate_str_short() {
    assert_eq!(truncate_str("hello", 10), "hello");
}

#[test]
fn test_truncate_str_exact() {
    assert_eq!(truncate_str("hello", 5), "hello");
}

#[test]
fn test_truncate_str_long() {
    assert_eq!(truncate_str("hello world", 8), "hello...");
}

#[test]
fn test_truncate_str_very_short_limit() {
    assert_eq!(truncate_str("hello world", 3), "...");
}

#[test]
fn test_blob_path_with_prefix() {
    assert_eq!(blob_path("/images/test", "sha256:abc123"), "/images/test/blobs/sha256/abc123");
}

#[test]
fn test_blob_path_without_prefix() {
    assert_eq!(blob_path("/images/test", "abc123"), "/images/test/blobs/sha256/abc123");
}

#[test]
fn test_format_timestamp_valid() {
    let result = format_timestamp("2024-01-01T00:00:00Z");
    assert!(matches!(result, Created::At(t) if t.secs == 1_704_067_200 && t.nanos == 0));
}

#[test]
fn test_format_timestamp_invalid() {
    assert!(matches!(format_timestamp("not-a-date"), Created::Words(w) if w == "not-a-date"));
}

fn step(by: &str, empty: Option<bool>) -> HistoryEntry {
    HistoryEntry { created: None, created_by: Some(by.to_string()), empty_layer: empty, comment: None }
}

#[test]
fn history_gives_layers_their_sizes() {
    let long = "x".repeat(61);
    let rows = history_rows(&vec![step("a", None), step("b", Some(true)), step(&long, Some(false))], &vec![10, 20], false);
    assert_eq!(rows.len(), 3);
    let sizes: Vec<Option<u64>> = rows.iter().map(|r| r.size).collect();
    assert!(sizes.contains(&Some(10)) && sizes.contains(&Some(20)));
    assert!(rows.iter().any(|r| r.created_by.ends_with("...") && r.created_by.len() == 60));
    let whole = history_rows(&vec![step(&long, None)], &vec![], true);
    assert_eq!(whole[0].created_by, long);
}

#[test]
fn history_follows_the_documents() {
    assert_eq!(
        manifest_path("/i", r#"{"manifests":[{"digest":"sha256:m"}]}"#).unwrap(),
        "/i/blobs/sha256/m"
    );
    assert!(manifest_path("/i", "{}").is_err());
    assert!(manifest_path("/i", "nonsense").is_err());
    assert_eq!(config_path("/i", r#"{"config":{"digest":"sha256:c"}}"#).unwrap(), "/i/blobs/sha256/c");
    assert!(config_path("/i", "{}").is_err());
    assert_eq!(get_layer_sizes(r#"{"layers":[{"size":7},{"size":9}]}"#).unwrap(), vec![7, 9]);
    assert_eq!(get_layer_sizes("{}").unwrap(), Vec::<u64>::new());
    assert!(get_layer_sizes("[").is_err());
}

// Saved and loaded images.

#[test]
fn test_load_reference_prefers_explicit_tag() {
    let index = json(
        r#"{"manifests": [{"digest": "sha256:abc",
            "annotations": {"org.opencontainers.image.ref.name": "from-index:latest"}}]}"#,
    );
    assert_eq!(load_reference(&index, Some("loaded:latest"), "sha256:abc").unwrap(), "loaded:latest");
}

#[test]
fn test_load_reference_uses_annotation_before_digest() {
    let index = json(
        r#"{"manifests": [{"digest": "sha256:abc",
            "annotations": {"org.opencontainers.image.ref.name": "from-index:latest"}}]}"#,
    );
    assert_eq!(load_reference(&index, None, "sha256:abc").unwrap(), "from-index:latest");
}

#[test]
fn test_load_reference_falls_back_to_digest() {
    let index = json(r#"{"manifests": [{"digest": "sha256:abc"}]}"#);
    assert_eq!(load_reference(&index, None, "sha256:abc").unwrap(), "sha256:abc");
}

#[test]
fn test_stamp_ref_annotation_adds_ref_name() {
    let index = br#"{"schemaVersion":2,"manifests":[{"mediaType":"application/vnd.oci.image.manifest.v1+json","digest":"sha256:abc","size":1}]}"#.to_vec();
    let stamped = stamp_ref_annotation(&index, "docker.io/library/rt:9").unwrap();
    let v: serde_json::Value = serde_json::from_slice(&stamped).unwrap();
    assert_eq!(
        v["manifests"][0]["annotations"]["org.opencontainers.image.ref.name"],
        json(r#""docker.io/library/rt:9""#)
    );
}

#[test]
fn a_saved_image_loads_under_its_reference() {
    let index = br#"{"manifests":[{"digest":"sha256:abc"}],"extra":[1,2.5,null,true]}"#.to_vec();
    let stamped = stamp_ref_annotation(&index, "app:\"7\"").unwrap();
    let loaded = read_index(std::str::from_utf8(&stamped).unwrap(), None).unwrap();
    assert_eq!(loaded.reference, "app:\"7\"");
    assert_eq!(loaded.digest, "sha256:abc");
    let v: serde_json::Value = serde_json::from_slice(&stamped).unwrap();
    assert_eq!(v["extra"], json("[1,2.5,null,true]"));
    assert!(stamp_ref_annotation(&b"{".to_vec(), "a").is_err());
    assert!(read_index("{}", None).is_err());
    assert!(read_index("{", Some("a")).is_err());
    assert!(saved_line("a", "b.tar", "1 KB").contains("b.tar"));
    assert!(loaded_line("a:1", "1 KB").contains("a:1"));
}

// Listings.

#[test]
fn test_glob_match() {
    assert!(glob_match("webapp", "webapp"));
    assert!(glob_match("web*", "webapp"));
    assert!(glob_match("web*:2", "webapp:2"));
    assert!(!glob_match("web*:2", "webapp:1"));
    assert!(glob_match("*", "anything"));
    assert!(!glob_match("db", "webapp"));
}

#[test]
fn stars_match_any_run() {
    assert!(glob_match("*", ""));
    assert!(glob_match("a*b*c", "aXbYbZc"));
    assert!(glob_match("*x", "a*x"));
    assert!(!glob_match("a*b*c", "aXc"));
    assert!(glob_match("", ""));
    assert!(!glob_match("", "a"));
}

#[test]
fn test_image_filter_parse() {
    assert!(matches!(
        ImageFilter::parse("reference=alpine").unwrap(),
        ImageFilter::Reference(p) if p == "alpine"
    ));
    assert!(matches!(
        ImageFilter::parse("label=tier=web").unwrap(),
        ImageFilter::Label(k, Some(v)) if k == "tier" && v == "web"
    ));
    assert!(matches!(
        ImageFilter::parse("label=tier").unwrap(),
        ImageFilter::Label(k, None) if k == "tier"
    ));
    assert!(ImageFilter::parse("nocolon").is_err());
    assert!(ImageFilter::parse("dangling=true").is_err());
}

#[test]
fn test_image_matches_reference() {
    let img = entry(
        sample_stored("docker.io/library/webapp:2", "sha256:abc", 100),
        parsed("docker.io", "library/webapp", Some("2")),
    );
    assert!(image_matches(&img, &ImageFilter::Reference("webapp".into())));
    assert!(image_matches(&img, &ImageFilter::Reference("web*:2".into())));
    assert!(image_matches(&img, &ImageFilter::Reference("docker.io/library/webapp:2".into())));
    assert!(!image_matches(&img, &ImageFilter::Reference("db".into())));
}

#[test]
fn image_labels_match_by_name_and_value() {
    let mut img = entry(sample_stored("a:1", "sha256:abc", 100), parsed("docker.io", "library/a", Some("1")));
    let by_name = ImageFilter::Label("tier".into(), None);
    let by_value = ImageFilter::Label("tier".into(), Some("web".into()));
    assert!(!image_matches(&img, &by_name));
    let mut labels = StrMap::new();
    labels.insert("tier".to_string(), "web".to_string());
    img.labels = Some(labels);
    assert!(image_matches(&img, &by_name));
    assert!(image_matches(&img, &by_value));
    assert!(!image_matches(&img, &ImageFilter::Label("tier".into(), Some("db".into()))));
    assert!(matches_all(&img, &vec![by_name, by_value]));
    assert!(reference_candidates("a:1", &None).contains(&"a:1".to_string()));
}

#[test]
fn test_from_stored_simple_name() {
    let stored = sample_stored("nginx:1.25", "sha256:abcdef1234567890abcdef", 1024);
    let row = ImageRow::from_stored(&entry(stored, parsed("docker.io", "library/nginx", Some("1.25"))));

    assert_eq!(row.repository, "docker.io/library/nginx");
    assert_eq!(row.tag, "1.25");
    assert_eq!(row.digest, "sha256:abcdef123456");
    assert_eq!(row.reference, "nginx:1.25");
}

#[test]
fn test_from_stored_custom_registry() {
    let stored = sample_stored("ghcr.io/a3s-box/code:v0.1.0", "sha256:aabbccdd11223344aabbccdd", 2048);
    let row = ImageRow::from_stored(&entry(stored, parsed("ghcr.io", "a3s-box/code", Some("v0.1.0"))));

    assert_eq!(row.repository, "ghcr.io/a3s-box/code");
    assert_eq!(row.tag, "v0.1.0");
    assert_eq!(row.digest, "sha256:aabbccdd1122");
}

#[test]
fn test_from_stored_no_tag_defaults_latest() {
    let stored = sample_stored("alpine", "sha256:1234567890ab", 512);
    let row = ImageRow::from_stored(&entry(stored, parsed("docker.io", "library/alpine", Some("latest"))));

    assert_eq!(row.repository, "docker.io/library/alpine");
    assert_eq!(row.tag, "latest");
}

#[test]
fn test_from_stored_digest_short() {
    let stored = sample_stored("nginx:latest", "sha256:abcd", 100);
    let row = ImageRow::from_stored(&entry(stored, parsed("docker.io", "library/nginx", Some("latest"))));

    assert_eq!(row.digest, "sha256:abcd");
}

#[test]
fn test_from_stored_digest_no_prefix() {
    let stored = sample_stored("nginx:latest", "abcdef1234567890", 100);
    let row = ImageRow::from_stored(&entry(stored, parsed("docker.io", "library/nginx", Some("latest"))));

    assert_eq!(row.digest, "abcdef123456");
}

#[test]
fn test_from_stored_digest_exactly_12() {
    let stored = sample_stored("nginx:latest", "sha256:abcdef123456", 100);
    let row = ImageRow::from_stored(&entry(stored, parsed("docker.io", "library/nginx", Some("latest"))));

    assert_eq!(row.digest, "sha256:abcdef123456");
}

#[test]
fn test_from_stored_invalid_reference_fallback() {
    let stored = sample_stored("", "sha256:abc", 100);
    let row = ImageRow::from_stored(&entry(stored, None));

    assert_eq!(row.repository, "");
    assert_eq!(row.tag, "<none>");
}

fn nginx_row() -> ImageRow {
    ImageRow {
        reference: "nginx:1.25".to_string(),
        repository: "docker.io/library/nginx".to_string(),
        tag: "1.25".to_string(),
        digest: "sha256:abcdef123456".to_string(),
        size: "1.0 KB".to_string(),
        pulled: "5 minutes ago".to_string(),
    }
}

#[test]
fn test_apply_format_repository() {
    assert_eq!(nginx_row().apply_format("{{.Repository}}:{{.Tag}}"), "docker.io/library/nginx:1.25");
}

#[test]
fn test_apply_format_all_fields() {
    let result = nginx_row().apply_format("{{.Reference}} {{.Digest}} {{.Size}} {{.Pulled}}");
    assert_eq!(result, "nginx:1.25 sha256:abcdef123456 1.0 KB 5 minutes ago");
}

#[test]
fn test_apply_format_no_placeholders() {
    assert_eq!(nginx_row().apply_format("plain text"), "plain text");
}

#[test]
fn test_apply_format_repeated_placeholder() {
    assert_eq!(nginx_row().apply_format("{{.Tag}}-{{.Tag}}"), "1.25-1.25");
}

fn listing(quiet: bool, format: Option<&str>, filter: &[&str]) -> ImagesArgs {
    ImagesArgs {
        quiet,
        format: format.map(|f| f.to_string()),
        filter: strings(filter),
        all: false,
        digests: false,
        no_trunc: false,
    }
}

#[test]
fn listings_filter_before_they_show() {
    let entries = vec![
        entry(sample_stored("a:1", "sha256:aa", 1), parsed("docker.io", "library/a", Some("1"))),
        entry(sample_stored("b:2", "sha256:bb", 2), parsed("docker.io", "library/b", Some("2"))),
    ];
    match list_images(&listing(true, None, &["reference=b"]), &entries).unwrap() {
        ImagesOutput::Lines(l) => assert_eq!(l.len(), 1),
        ImagesOutput::Table(_) => panic!("expected lines"),
    }
    match list_images(&listing(false, Some("{{.Tag}}"), &[]), &entries).unwrap() {
        ImagesOutput::Lines(l) => assert_eq!(l, vec!["1", "2"]),
        ImagesOutput::Table(_) => panic!("expected lines"),
    }
    match list_images(&listing(false, None, &[]), &entries).unwrap() {
        ImagesOutput::Table(rows) => assert_eq!(rows.len(), 2),
        ImagesOutput::Lines(_) => panic!("expected a table"),
    }
    assert!(list_images(&listing(false, None, &["size=1"]), &entries).is_err());
}

#[test]
fn digests_are_shortened() {
    assert_eq!(short_digest("sha256:0123456789abcdef"), "sha256:0123456789ab");
    assert_eq!(short_digest(""), "");
}

// Inspection.

#[test]
fn inspected_images_show_their_configuration() {
    let mut env = StrMap::new();
    env.insert("PATH".to_string(), "/bin".to_string());
    let config = ImageConfig {
        entrypoint: None,
        cmd: Some(strings(&["sh"])),
        env,
        working_dir: Some("/app".to_string()),
        user: None,
        exposed_ports: strings(&["80/tcp"]),
        volumes: vec![],
        stop_signal: None,
        health_check: Some(ImageHealth {
            test: strings(&["CMD", "true"]),
            interval: Some(30),
            timeout: None,
            retries: None,
            start_period: None,
        }),
        onbuild: vec![],
        labels: StrMap::new(),
    };
    let text = build_image_inspect_json(&sample_stored("a:1", "sha256:abc", 77), &config, 3).unwrap();
    let v = json(&text);
    let found = if v.is_array() { v[0].clone() } else { v };
    assert!(text.contains("sha256:abc"));
    assert!(text.contains("2023-11-14T22:13:20"));
    assert!(found.to_string().contains("77"));
    assert!(text.contains("\"80/tcp\""));
}

#[test]
fn inspection_looks_for_an_image_where_no_box_is_found() {
    assert!(matches!(inspect_step(BoxLookup::NotFound), InspectStep::LookForImage));
    assert!(matches!(inspect_step(BoxLookup::Found("{}".into())), InspectStep::Print(t) if t == "{}"));
    assert!(matches!(inspect_step(BoxLookup::Failed("two".into())), InspectStep::Fail(t) if t == "two"));
    assert_eq!(inspect_image("a", Some("[]".to_string())).unwrap(), "[]");
    assert!(inspect_image("a", None).unwrap_err().contains("a"));
}

// Removal, tags and pushes.

#[test]
fn test_prune_mode_defaults_to_dangling() {
    assert_eq!(prune_mode(false), ImagePruneMode::Dangling);
    assert_eq!(prune_mode(true), ImagePruneMode::Unused);
}

#[test]
fn test_empty_message_matches_mode() {
    assert_eq!(empty_message(ImagePruneMode::Dangling), "No dangling images to remove.");
    assert_eq!(empty_message(ImagePruneMode::Unused), "No unused images to remove.");
}

#[test]
fn pruning_counts_what_went() {
    let images = vec![
        Prunable { reference: "a".into(), size_bytes: 10, size: "10 B".into() },
        Prunable { reference: "b".into(), size_bytes: 20, size: "20 B".into() },
    ];
    let t = tally(&images, &vec![Ok(()), Err("busy".to_string())]);
    assert_eq!(t.freed, 10);
    assert_eq!(t.count, 1);
    assert_eq!(t.errors.len(), 1);
    assert!(prune_warning(&images).iter().any(|l| l.contains("b")));
    assert!(pruned_line(1, "10 B").contains("10 B"));
}

#[test]
fn test_validate_tag_target_rejects_uppercase_repo() {
    assert!(validate_tag_target("BadRepo:Tag").is_err());
    assert!(validate_tag_target("myrepo:V1").is_ok());
    assert!(validate_tag_target("localhost:5000/myrepo:tag").is_ok());
    assert!(validate_tag_target("alpine:latest").is_ok());
    assert!(validate_tag_target("ns/Sub:tag").is_err());
    assert!(image_not_found("a").contains("a"));
}

#[test]
fn test_protected_alias_blocks_rmi_target() {
    let protected = vec!["docker.io/library/alpine:latest".to_string()];
    assert!(is_protected_reference("alpine:latest", Some("docker.io/library/alpine:latest"), &protected));
    assert!(!is_protected_reference("alpine:latest", None, &protected));
}

#[test]
fn images_in_use_stay_unless_forced() {
    assert!(matches!(rmi_step("a", Found::Image("a:1".into(), false), false), RmiStep::Remove(r) if r == "a:1"));
    assert!(matches!(rmi_step("a", Found::Image("a:1".into(), true), false), RmiStep::Fail(_)));
    assert!(matches!(rmi_step("a", Found::Missing, true), RmiStep::Skip));
    let used = vec!["docker.io/library/a:1".to_string()];
    let found = found_image("a:1".to_string(), Some("docker.io/library/a:1"), &used);
    assert!(matches!(rmi_step("a", found, true), RmiStep::Fail(_)));
    assert!(matches!(found_image("b:1".to_string(), None, &used), Found::Image(_, false)));
    assert!(matches!(rmi_step("a", Found::Missing, false), RmiStep::Fail(_)));
    assert!(matches!(rmi_step("a", Found::Failed("x".into()), false), RmiStep::Fail(_)));
    assert!(rmi_outcome("a:1", Ok(()), false).unwrap().contains("a:1"));
    assert!(rmi_outcome("a:1", Err("busy".to_string()), false).unwrap_err().unwrap().contains("busy"));
    assert!(rmi_result(&vec![]).is_ok());
    assert!(rmi_result(&strings(&["one"])).is_err());
}

#[test]
fn test_push_args_defaults() {
    let args = PushArgs { image: "ghcr.io/org/app:latest".to_string(), quiet: false, sign_key: None };
    assert!(!args.quiet);
    assert!(args.sign_key.is_none());
    assert!(pushing_line(&args).is_some());
    assert!(signing_line(&args).is_none());
    assert!(signed_line(&args, "sha256-x.sig").is_none());
}

#[test]
fn test_push_args_with_sign_key() {
    let args = PushArgs {
        image: "ghcr.io/org/app:latest".to_string(),
        quiet: false,
        sign_key: Some("/path/to/cosign.key".to_string()),
    };
    assert_eq!(args.sign_key.as_deref(), Some("/path/to/cosign.key"));
    assert!(signing_line(&args).is_some());
    assert!(signed_line(&args, "sha256-x.sig").unwrap().contains("sha256-x.sig"));
    assert!(pushed_line(&args, "https://r/x").len() > 0);
    assert!(push_not_found("a").contains("a"));
}

// Builds.

#[test]
fn test_parse_build_args_valid() {
    let args = vec!["VERSION=1.0".to_string(), "DEBUG=true".to_string()];
    let result = parse_build_args(&args).unwrap();
    assert_eq!(result.get("VERSION"), Some(&"1.0".to_string()));
    assert_eq!(result.get("DEBUG"), Some(&"true".to_string()));
}

#[test]
fn test_parse_build_args_empty() {
    let result = parse_build_args(&vec![]).unwrap();
    assert!(result.is_empty());
}

#[test]
fn test_parse_build_args_invalid() {
    let args = vec!["NOEQUALS".to_string()];
    assert!(parse_build_args(&args).is_err());
}

#[test]
fn test_parse_build_args_value_with_equals() {
    let args = vec!["URL=http://example.com?a=1".to_string()];
    let result = parse_build_args(&args).unwrap();
    assert_eq!(result.get("URL"), Some(&"http://example.com?a=1".to_string()));
}

#[test]
fn test_resolve_build_file_prefers_dockerfile() {
    let exist = BuildFiles { explicit: false, dockerfile: true, containerfile: true };
    assert_eq!(resolve_build_file("/ctx", None, exist).unwrap(), "/ctx/Dockerfile");
}

#[test]
fn test_resolve_build_file_falls_back_to_containerfile() {
    let exist = BuildFiles { explicit: false, dockerfile: false, containerfile: true };
    assert_eq!(resolve_build_file("/ctx", None, exist).unwrap(), "/ctx/Containerfile");
}

#[test]
fn test_resolve_build_file_explicit_file() {
    let exist = BuildFiles { explicit: true, dockerfile: false, containerfile: false };
    assert_eq!(resolve_build_file("/ctx", Some("Customfile"), exist).unwrap(), "/ctx/Customfile");
    assert_eq!(explicit_build_file("/ctx", "/abs/File"), "/abs/File");
}

#[test]
fn test_resolve_build_file_missing() {
    let exist = BuildFiles { explicit: false, dockerfile: false, containerfile: false };
    let err = resolve_build_file("/ctx", None, exist).unwrap_err();
    assert!(err.contains("Dockerfile or Containerfile"));
    assert!(resolve_build_file("/ctx", Some("X"), exist).is_err());
    assert!(not_a_directory("/ctx").contains("/ctx"));
}

fn platform(os: &str, architecture: &str) -> Platform {
    Platform { os: os.to_string(), architecture: architecture.to_string(), label: format!("{os}/{architecture}") }
}

#[test]
fn test_validate_build_platforms_rejects_multiple() {
    let platforms = vec![platform("linux", "amd64"), platform("linux", "arm64")];
    let err = validate_build_platforms(&platforms, "amd64").unwrap_err();
    assert!(err.contains("multi-platform"));
}

#[test]
fn test_validate_build_platforms_rejects_non_linux() {
    let platforms = vec![platform("darwin", "arm64")];
    let err = validate_build_platforms(&platforms, "amd64").unwrap_err();
    assert!(err.contains("Linux images only"));
    assert!(validate_build_platforms(&vec![platform("linux", "arm64")], "amd64").is_err());
    assert!(validate_build_platforms(&vec![platform("linux", "amd64")], "amd64").is_ok());
    assert!(validate_build_platforms(&vec![], "amd64").is_ok());
}

#[test]
fn configurations_hold_diff_ids_and_history() {
    let config = r#"{
        "architecture": "amd64",
        "os": "linux",
        "rootfs": { "type": "layers", "diff_ids": ["sha256:aa", "sha256:bb"] },
        "history": [
            { "created": "2024-01-01T00:00:00Z", "created_by": "ADD rootfs", "comment": "base" },
            { "created_by": "CMD sh", "empty_layer": true }
        ]
    }"#;
    let (ids, entries) = load_image_configuration(&Ok(config.to_string())).unwrap();
    assert_eq!(ids, vec!["sha256:aa", "sha256:bb"]);
    assert_eq!(entries.len(), 2);
    assert_eq!(entries[0].created.as_deref(), Some("2024-01-01T00:00:00Z"));
    assert_eq!(entries[0].comment.as_deref(), Some("base"));
    assert_eq!(entries[0].empty_layer, None);
    assert_eq!(entries[1].empty_layer, Some(true));
    let rows = history_rows(&entries, &vec![7], false);
    assert_eq!((rows[0].size, rows[1].size), (Some(7), None));
    let err = load_image_configuration(&Ok("{}".to_string())).unwrap_err();
    assert!(err.starts_with("Failed to parse config: missing field"), "{err}");
    let err = load_image_configuration(&Err("gone".to_string())).unwrap_err();
    assert_eq!(err, "Failed to read config: gone");
}

#[test]
fn objects_with_the_key_of_raw_values_are_not_read_as_objects() {
    let text = format!("{{\"{}\": \"5\"}}", a3s_box::json::RAW_KEY);
    let read: serde_json::Value = serde_json::from_str(&text).unwrap();
    assert_eq!(read, serde_json::Value::from(5));
}
