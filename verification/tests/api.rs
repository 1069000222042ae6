//! The answers of the API.

use a3s_box::api::containers;
use a3s_box::api::error::ApiError;
use a3s_box::api::images;
use a3s_box::api::models::{
    ContainerCreateRequest, HostConfig, PortBinding, RestartPolicy,
};
use a3s_box::api::networks;
use a3s_box::api::server::ApiServer;
use a3s_box::api::system;
use a3s_box::api::volumes;
use a3s_box::state::{BoxRecord, LogConfig, NetworkMode, ResourceLimits, StateFile, Timestamp};
use a3s_box::strmap::StrMap;

fn make_record(id: &str, name: &str, status: &str, pid: Option<u32>) -> BoxRecord {
    BoxRecord {
        id: id.to_string(),
        short_id: id.chars().filter(|c| *c != '-').take(12).collect(),
        name: name.to_string(),
        image: "alpine:latest".to_string(),
        status: status.to_string(),
        pid,
        cpus: 2,
        memory_mb: 512,
        volumes: vec![],
        env: StrMap::new(),
        cmd: vec![],
        entrypoint: None,
        box_dir: format!("/tmp/{id}"),
        exec_socket_path: format!("/tmp/{id}/sockets/exec.sock"),
        console_log: format!("/tmp/{id}/console.log"),
        created_at: Timestamp { secs: 1_700_000_000, nanos: 0 },
        started_at: None,
        auto_remove: false,
        hostname: None,
        user: None,
        workdir: None,
        restart_policy: "no".to_string(),
        port_map: vec![],
        labels: StrMap::new(),
        stopped_by_user: false,
        restart_count: 0,
        max_restart_count: 0,
        exit_code: None,
        health_check: None,
        healthcheck_disabled: false,
        health_status: "none".to_string(),
        health_retries: 0,
        health_last_check: None,
        network_mode: NetworkMode::Tsi,
        network_name: None,
        volume_names: vec![],
        tmpfs: vec![],
        anonymous_volumes: vec![],
        resource_limits: ResourceLimits::default(),
        log_config: LogConfig::default(),
        add_host: vec![],
        platform: None,
        init: false,
        read_only: false,
        cap_add: vec![],
        cap_drop: vec![],
        security_opt: vec![],
        privileged: false,
        devices: vec![],
        gpus: None,
        shm_size: None,
        stop_signal: None,
        stop_timeout: None,
        oom_kill_disable: false,
        oom_score_adj: None,
    }
}

fn strings(l: &[&str]) -> Vec<String> {
    l.iter().map(|s| s.to_string()).collect()
}

fn moment(secs: i64) -> Timestamp {
    Timestamp { secs, nanos: 0 }
}

fn build_facts() -> system::BuildFacts {
    system::BuildFacts {
        version: "1.2.3".to_string(),
        git_sha: "0123456789".to_string(),
        os: "linux".to_string(),
        arch: "x86_64".to_string(),
        build_time: "now".to_string(),
    }
}

fn system_facts() -> system::SystemFacts {
    system::SystemFacts {
        id: "ID".to_string(),
        images: 3,
        now: moment(1_700_000_000),
        os: "linux".to_string(),
        arch: "x86_64".to_string(),
        cpus: 8,
        memory: 1024,
        home: "/h".to_string(),
        hostname: "host".to_string(),
        version: "1.2.3".to_string(),
    }
}

#[test]
fn test_system_endpoints() {
    assert_eq!(system::ping(), "OK");
    let version = system::version(&build_facts());
    assert_eq!(version["Version"], "1.2.3");
    let state = StateFile::new(vec![
        make_record("a", "a", "running", Some(1)),
        make_record("b", "b", "stopped", None),
    ]);
    let info = system::info(&state, &system_facts());
    assert_eq!(info["Containers"], 2);
    assert_eq!(info["ContainersRunning"], 1);
    assert_eq!(info["Images"], 3);
    assert_eq!(system::container_counts(&state).0, 2);
}

#[test]
fn test_network_list() {
    let json = networks::list();
    assert!(json.is_array());
    let networks = json.as_array().unwrap();
    assert_eq!(networks.len(), 3);
}

#[test]
fn test_network_inspect_bridge() {
    let json = networks::inspect("bridge").unwrap();
    assert_eq!(json["Name"], "bridge");
}

#[test]
fn test_network_inspect_nonexistent() {
    let result = networks::inspect("nonexistent");
    assert!(matches!(result, Err(ApiError::NotFound(_))));
}

#[test]
fn networks_are_not_changed_over_the_api() {
    assert!(matches!(networks::create(), ApiError::NotImplemented(_)));
    assert!(matches!(networks::remove(), ApiError::NotImplemented(_)));
    assert!(matches!(networks::connect(), ApiError::NotImplemented(_)));
    assert!(matches!(networks::disconnect(), ApiError::NotImplemented(_)));
    assert!(matches!(images::history(), ApiError::NotImplemented(_)));
    assert!(matches!(images::push(), ApiError::NotImplemented(_)));
    assert!(matches!(images::tag(), ApiError::NotImplemented(_)));
}

#[test]
fn test_container_list() {
    let state = StateFile::new(vec![
        make_record("a", "web", "running", Some(1)),
        make_record("b", "db", "stopped", None),
    ]);
    let modes = || vec![serde_json::Value::from("tsi"), serde_json::Value::from("tsi")];
    let mut query = containers::ListQuery { all: false, limit: None, size: None, filters: None };
    let running = containers::list(&query, &state, modes());
    assert_eq!(running.as_array().unwrap().len(), 1);
    assert_eq!(running[0]["Id"], "a");
    query.all = true;
    assert_eq!(containers::list(&query, &state, modes()).as_array().unwrap().len(), 2);
    query.limit = Some(1);
    assert_eq!(containers::list(&query, &state, modes()).as_array().unwrap().len(), 1);
}

#[test]
fn a_limit_lists_the_last_created_of_any_status() {
    let made = |id: &str, status: &str, secs: i64| {
        let mut r = make_record(id, id, status, None);
        r.created_at = Timestamp { secs, nanos: 0 };
        r
    };
    let state = StateFile::new(vec![
        made("a", "running", 30),
        made("b", "stopped", 50),
        made("c", "running", 10),
        made("d", "created", 30),
    ]);
    let ids = |limit: usize| -> Vec<String> {
        let query = containers::ListQuery { all: false, limit: Some(limit), size: None, filters: None };
        let modes = (0..4).map(|_| serde_json::Value::from("tsi")).collect();
        let listed = containers::list(&query, &state, modes);
        listed.as_array().unwrap().iter().map(|c| c["Id"].as_str().unwrap().to_string()).collect()
    };
    assert_eq!(ids(0), Vec::<String>::new());
    assert_eq!(ids(1), vec!["b"]);
    assert_eq!(ids(2), vec!["b", "d"]);
    assert_eq!(ids(3), vec!["a", "b", "d"]);
    assert_eq!(ids(9), vec!["a", "b", "c", "d"]);
}

fn create_request() -> ContainerCreateRequest {
    let mut ports = StrMap::new();
    ports.insert("80/tcp".to_string(), vec![PortBinding { host_ip: None, host_port: "8080".to_string() }]);
    ContainerCreateRequest {
        image: "nginx".to_string(),
        cmd: Some(strings(&["run"])),
        entrypoint: None,
        env: Some(strings(&["A=1"])),
        working_dir: None,
        user: None,
        hostname: None,
        labels: None,
        host_config: Some(HostConfig {
            binds: Some(strings(&["/a:/b"])),
            network_mode: None,
            port_bindings: Some(ports),
            restart_policy: Some(RestartPolicy { name: "always".to_string(), maximum_retry_count: None }),
            auto_remove: Some(true),
            memory: Some(512 * 1024 * 1024),
            cpu_shares: None,
            privileged: None,
            readonly_rootfs: None,
        }),
    }
}

#[test]
fn create_requests_become_runs() {
    let run = containers::run_request(&create_request(), &Some("web".to_string()));
    assert_eq!(run.image, "nginx");
    assert_eq!(run.name.as_deref(), Some("web"));
    assert_eq!(run.env, strings(&["A=1"]));
    assert_eq!(run.restart, "always");
    assert_eq!(run.memory, Some(512));
    assert!(run.rm);
    assert_eq!(containers::created_value("id-1")["Id"], "id-1");
}

#[test]
fn megabytes_are_cut_to_32_bits() {
    for bytes in [0i64, 1, -1, 1_048_575, 1_048_576, -1_048_577, i64::MAX, i64::MIN] {
        assert_eq!(containers::to_megabytes(bytes), (bytes / 1024 / 1024) as u32);
    }
}

fn image(digest: &str, tags: &[&str]) -> images::StoredImage {
    images::StoredImage {
        digest: digest.to_string(),
        tags: strings(tags),
        created_at: moment(1_700_000_000),
        size: 77,
    }
}

#[test]
fn test_image_list() {
    let json = images::list(&vec![image("sha256:abc", &["a:1"])]);
    assert!(json.is_array());
    assert_eq!(json[0]["Size"], 77);
    assert_eq!(json[0]["RepoTags"][0], "a:1");
}

#[test]
fn test_image_inspect_nonexistent() {
    let result = images::inspect(&vec![image("sha256:abc", &["a:1"])], "nonexistent:latest");
    assert!(result.is_err());
    let found = images::inspect(&vec![image("sha256:abc", &["a:1"])], "a:1").unwrap();
    assert!(found.to_string().contains("sha256:abc"));
    assert!(found.to_string().contains("2023-11-14T22:13:20+00:00"));
}

#[test]
fn builds_read_their_arguments() {
    let query = |args: Option<&str>| images::BuildQuery {
        tag: Some("a:1".to_string()),
        dockerfile: None,
        q: false,
        build_args: args.map(|s| s.to_string()),
        platform: None,
    };
    assert_eq!(images::build_request(query(Some(r#"{"A":"1"}"#))).unwrap().build_arg, strings(&["A=1"]));
    assert!(images::build_request(query(None)).unwrap().build_arg.is_empty());
    assert!(matches!(images::build_request(query(Some("{"))), Err(ApiError::BadRequest(_))));
    assert_eq!(
        images::pull_reference(&images::PullQuery { from_image: "a".to_string(), tag: Some("2".to_string()) }),
        "a:2"
    );
    assert!(images::removed_value("a").to_string().contains("a"));
    assert!(images::pulled_value("a:2").to_string().contains("a:2"));
    assert!(images::built_value().is_object());
}

fn volume(name: &str) -> volumes::Volume {
    volumes::Volume {
        name: name.to_string(),
        driver: "local".to_string(),
        mount_point: format!("/v/{name}"),
        created_at: moment(1_700_000_000),
        labels: StrMap::new(),
    }
}

#[test]
fn test_volume_list() {
    let json = volumes::list(&vec![volume("data")]);
    assert!(json["Volumes"].is_array());
    assert_eq!(json["Volumes"][0]["Name"], "data");
}

#[test]
fn volumes_are_made_and_found() {
    let made = volumes::volume_config(
        volumes::VolumeCreateRequest { name: "v".to_string(), driver: None, driver_opts: None, labels: None },
        StrMap::new(),
    );
    assert_eq!((made.name.as_str(), made.driver.as_str()), ("v", "local"));
    assert!(volumes::inspect(&Some(volume("data")), "data").is_ok());
    assert!(matches!(volumes::inspect(&None, "data"), Err(ApiError::NotFound(_))));
}

#[test]
fn test_events_endpoint() {
    let json = system::events(moment(1_700_000_000));
    assert!(json.to_string().contains("1700000000"));
}

#[test]
fn revisions_are_shortened() {
    assert_eq!(system::git_commit("0123456789"), "0123456");
    assert_eq!(system::git_commit("012"), "unknown");
}

#[test]
fn servers_clear_their_socket() {
    let server = ApiServer::new("/run/a3s/api.sock".to_string());
    assert_eq!(server.socket_path(), "/run/a3s/api.sock");
    let p = server.preparation(true);
    assert!(p.remove_socket);
    assert_eq!(p.make_dir.as_deref(), Some("/run/a3s"));
    assert!(!server.preparation(false).remove_socket);
}
