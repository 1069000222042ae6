//! Boots, events, logs, the monitor and commands run in boxes.

use a3s_box::boot::{
    apply_boot_result, boot_health_checker, boot_network_name, boot_result, boot_step, config_from_record,
    ensure_network_connected_with_store, first_boot_stage, health_checker, health_socket, log_processor, BootResourceGuard, BootResult, BootStage,
    RecordChecks, RestartCountUpdate, StartedFacts,
};
use a3s_box::cleanup::CleanupStep;
use a3s_box::commands::compose_service::{boot_config, service_setup};
use a3s_box::commands::events::{
    deadline_passed, detect_events, matches_filters, note_actors, parse_filters, parse_time_arg, status_to_action,
    take_snapshot, Actor, Event,
};
use a3s_box::commands::exec::{
    check_exec, connect_pty_with_retry, exec_request, exec_timeout, execute_pty, relay_user_input, run_pty_session,
    ExecArgs, PtyInput, PtyStep, UserInput, UserStep,
};
use a3s_box::commands::logs::{
    check_logging, extract_line_timestamp, line_in_range, parse_duration, parse_tail, parse_time_filter,
    print_json_line, print_line, resolve_log_source, stream_logs, wait_for_log_source, waits_for_log, LogEntry,
    LogFilter, RawLine, WaitForLog,
};
use a3s_box::commands::monitor::{
    backoff_log_line, consider_candidate, due_probes, format_exit_code, is_unhealthy_restart_candidate,
    mark_unhealthy_dead, note_active, note_attempt, pending_restarts, restart_candidates, restart_log_line,
    BackoffEntry, BackoffTracker, CandidateAction, RestartReason, MAX_BACKOFF, MIN_BACKOFF, STABLE_THRESHOLD,
};
use a3s_box::commands::network::{IsolationMode, NetworkConfig, NetworkEndpoint};
use a3s_box::duration::parse_duration_secs;
use a3s_box::state::{
    BoxRecord, HealthCheck, LogConfig, LogDriver, NetworkMode, ResourceLimits, StateFile, Timestamp,
};
use a3s_box::strmap::StrMap;
use a3s_box::time::{FIRST_SECOND, LAST_SECOND};

fn make_record(id: &str, name: &str, status: &str, pid: Option<u32>) -> BoxRecord {
    BoxRecord {
        id: id.to_string(),
        short_id: id.chars().filter(|c| *c != '-').take(12).collect(),
        name: name.to_string(),
        image: "alpine:latest".to_string(),
        status: status.to_string(),
        pid,
        cpus: 2,
        memory_mb: 512,
        volumes: vec![],
        env: StrMap::new(),
        cmd: vec![],
        entrypoint: None,
        box_dir: format!("/tmp/{id}"),
        exec_socket_path: format!("/tmp/{id}/sockets/exec.sock"),
        console_log: format!("/tmp/{id}/console.log"),
        created_at: Timestamp { secs: 1_700_000_000, nanos: 0 },
        started_at: None,
        auto_remove: false,
        hostname: None,
        user: None,
        workdir: None,
        restart_policy: "no".to_string(),
        port_map: vec![],
        labels: StrMap::new(),
        stopped_by_user: false,
        restart_count: 0,
        max_restart_count: 0,
        exit_code: None,
        health_check: None,
        healthcheck_disabled: false,
        health_status: "none".to_string(),
        health_retries: 0,
        health_last_check: None,
        network_mode: NetworkMode::Tsi,
        network_name: None,
        volume_names: vec![],
        tmpfs: vec![],
        anonymous_volumes: vec![],
        resource_limits: ResourceLimits::default(),
        log_config: LogConfig::default(),
        add_host: vec![],
        platform: None,
        init: false,
        read_only: false,
        cap_add: vec![],
        cap_drop: vec![],
        security_opt: vec![],
        privileged: false,
        devices: vec![],
        gpus: None,
        shm_size: None,
        stop_signal: None,
        stop_timeout: None,
        oom_kill_disable: false,
        oom_score_adj: None,
    }
}

fn strings(l: &[&str]) -> Vec<String> {
    l.iter().map(|s| s.to_string()).collect()
}

fn moment(secs: i64) -> Timestamp {
    Timestamp { secs, nanos: 0 }
}

/// The present, as the tests have it: 2023-11-14T22:13:20Z.
fn present() -> Timestamp {
    moment(1_700_000_000)
}

// Boots.

fn sample_record() -> BoxRecord {
    let mut record = make_record("test-boot-id", "test_box", "stopped", None);
    record.cpus = 4;
    record.memory_mb = 2048;
    record.volumes = vec!["/host:/guest".to_string()];
    record.env.insert("FOO".to_string(), "bar".to_string());
    record.cmd = strings(&["sh", "-c", "echo hi"]);
    record.entrypoint = Some(vec!["/bin/sh".to_string()]);
    record.box_dir = "/tmp/boxes/test-boot-id".to_string();
    record.exec_socket_path = "/tmp/boxes/test-boot-id/sockets/exec.sock".to_string();
    record.console_log = "/tmp/boxes/test-boot-id/console.log".to_string();
    record.hostname = Some("myhost".to_string());
    record.user = Some("root".to_string());
    record.workdir = Some("/app".to_string());
    record.restart_policy = "always".to_string();
    record.port_map = vec!["8080:80".to_string()];
    record.tmpfs = vec!["/tmp".to_string()];
    record
}

fn checks() -> RecordChecks {
    RecordChecks { workdir: Ok(()), hostname: Ok(()), add_host: Ok(()) }
}

#[test]
fn test_config_from_record_image() {
    let record = sample_record();
    let config = config_from_record(&record, &checks()).unwrap();
    assert_eq!(config.image, "alpine:latest");
}

#[test]
fn test_config_from_record_resources() {
    let record = sample_record();
    let config = config_from_record(&record, &checks()).unwrap();

    assert_eq!(config.resources.vcpus, 4);
    assert_eq!(config.resources.memory_mb, 2048);
}

#[test]
fn test_config_from_record_cmd_and_entrypoint() {
    let record = sample_record();
    let config = config_from_record(&record, &checks()).unwrap();

    assert_eq!(config.cmd, vec!["sh", "-c", "echo hi"]);
    assert_eq!(config.entrypoint_override, Some(vec!["/bin/sh".to_string()]));
}

#[test]
fn test_config_from_record_volumes() {
    let record = sample_record();
    let config = config_from_record(&record, &checks()).unwrap();

    assert_eq!(config.volumes, vec!["/host:/guest"]);
    assert_eq!(config.tmpfs, vec!["/tmp"]);
}

#[test]
fn test_config_from_record_shm_size_appends_tmpfs() {
    let mut record = sample_record();
    record.shm_size = Some(64 * 1024 * 1024);
    let config = config_from_record(&record, &checks()).unwrap();

    assert!(config.tmpfs.contains(&"/tmp".to_string()));
    assert!(config.tmpfs.iter().any(|t| t == "/dev/shm:size=67108864"));
}

#[test]
fn test_config_from_record_shm_size_none() {
    let record = sample_record();
    let config = config_from_record(&record, &checks()).unwrap();

    assert!(!config.tmpfs.iter().any(|t| t.contains("/dev/shm")));
}

#[test]
fn test_config_from_record_read_only() {
    let mut record = sample_record();
    record.read_only = true;
    let config = config_from_record(&record, &checks()).unwrap();
    assert!(config.read_only);
}

#[test]
fn test_config_from_record_security_options() {
    let mut record = sample_record();
    record.cap_add = vec!["NET_ADMIN".to_string()];
    record.cap_drop = vec!["NET_RAW".to_string()];
    record.security_opt = vec!["seccomp=unconfined".to_string()];
    record.privileged = true;

    let config = config_from_record(&record, &checks()).unwrap();

    assert_eq!(config.cap_add, vec!["NET_ADMIN"]);
    assert_eq!(config.cap_drop, vec!["NET_RAW"]);
    assert_eq!(config.security_opt, vec!["seccomp=unconfined"]);
    assert!(config.privileged);
}

#[test]
fn test_config_from_record_user_and_workdir() {
    let record = sample_record();
    let config = config_from_record(&record, &checks()).unwrap();

    assert_eq!(config.user.as_deref(), Some("0"));
    assert_eq!(config.workdir.as_deref(), Some("/app"));
}

#[test]
fn test_config_from_record_hostname_and_add_hosts() {
    let mut record = sample_record();
    record.hostname = Some("web".to_string());
    record.add_host = vec!["db.local:10.88.0.10".to_string()];

    let config = config_from_record(&record, &checks()).unwrap();

    assert_eq!(config.hostname.as_deref(), Some("web"));
    assert_eq!(config.add_hosts, vec!["db.local:10.88.0.10"]);
}

#[test]
fn test_config_from_record_rejects_invalid_add_host() {
    let mut record = sample_record();
    record.add_host = vec!["db.local:not-an-ip".to_string()];
    let mut checks = checks();
    checks.add_host = Err("invalid IP address".to_string());

    let err = config_from_record(&record, &checks).unwrap_err();

    assert!(err.contains("Invalid persisted add-host"));
}

#[test]
fn test_config_from_record_rejects_invalid_user() {
    let mut record = sample_record();
    record.user = Some("node".to_string());

    let err = config_from_record(&record, &checks()).unwrap_err();

    assert!(err.contains("Named user"));
}

#[test]
fn test_config_from_record_env() {
    let record = sample_record();
    let config = config_from_record(&record, &checks()).unwrap();

    assert!(config.extra_env.contains(&("FOO".to_string(), "bar".to_string())));
}

#[test]
fn test_config_from_record_port_map() {
    let record = sample_record();
    let config = config_from_record(&record, &checks()).unwrap();

    assert_eq!(config.port_map, vec!["8080:80"]);
}

#[test]
fn test_config_from_record_normalizes_tcp_port_suffix() {
    let mut record = sample_record();
    record.port_map = vec!["8080:80/tcp".to_string()];

    let config = config_from_record(&record, &checks()).unwrap();

    assert_eq!(config.port_map, vec!["8080:80"]);
}

#[test]
fn test_config_from_record_rejects_udp_port_map() {
    let mut record = sample_record();
    record.port_map = vec!["8080:80/udp".to_string()];

    let err = config_from_record(&record, &checks()).unwrap_err();

    assert!(err.contains("only TCP is supported"));
}

#[test]
fn test_config_from_record_network_mode() {
    let record = sample_record();
    let config = config_from_record(&record, &checks()).unwrap();

    assert!(matches!(config.network, NetworkMode::Tsi));
}

#[test]
fn records_that_fail_a_check_do_not_boot() {
    let record = sample_record();
    let mut bad = checks();
    bad.workdir = Err("relative".to_string());
    assert!(config_from_record(&record, &bad).is_err());
    let mut bad = checks();
    bad.hostname = Err("too long".to_string());
    assert!(config_from_record(&record, &bad).is_err());
}

#[test]
fn test_boot_network_name_falls_back_to_network_mode() {
    let mut record = sample_record();
    record.network_mode = NetworkMode::Bridge { network: "dev".to_string() };
    record.network_name = None;

    assert_eq!(boot_network_name(&record), Some(&"dev".to_string()));
}

fn dev_network() -> NetworkConfig {
    NetworkConfig {
        name: "dev".to_string(),
        driver: "bridge".to_string(),
        subnet: "10.88.0.0/24".to_string(),
        gateway: "10.88.0.1".to_string(),
        isolation: IsolationMode::Open,
        labels: StrMap::new(),
        endpoints: StrMap::new(),
    }
}

fn allocation(id: &str, name: &str, ip: &str) -> Result<NetworkEndpoint, String> {
    Ok(NetworkEndpoint { box_id: id.to_string(), box_name: name.to_string(), ip_address: ip.to_string() })
}

#[test]
fn test_ensure_network_connected_with_store_is_idempotent() {
    let mut network = dev_network();
    let mut record = sample_record();
    record.network_mode = NetworkMode::Bridge { network: "dev".to_string() };

    let first = allocation(&record.id, &record.name, "10.88.0.2");
    assert!(ensure_network_connected_with_store(&mut network, &Ok(()), &record, first).unwrap());
    let second = allocation(&record.id, &record.name, "10.88.0.3");
    assert!(!ensure_network_connected_with_store(&mut network, &Ok(()), &record, second).unwrap());

    assert_eq!(network.endpoints.len(), 1);
    assert!(network.endpoints.contains_key(&record.id));
    assert_eq!(network.endpoints.get(&record.id).unwrap().ip_address, "10.88.0.2");
}

fn sample_boot_result() -> BootResult {
    BootResult {
        pid: Some(1234),
        exec_socket_path: Some("/tmp/new-exec.sock".to_string()),
        pty_socket_path: Some("/tmp/new-pty.sock".to_string()),
        health_check: Some(health_check()),
        stop_signal: Some("SIGINT".to_string()),
        anonymous_volumes: vec!["old-anon".to_string(), "new-anon".to_string()],
    }
}

#[test]
fn test_apply_boot_result_updates_running_state_and_merges_anonymous_volumes() {
    let mut record = sample_record();
    record.status = "dead".to_string();
    record.restart_count = 7;
    record.stopped_by_user = true;
    record.exit_code = Some(137);
    record.health_status = "unhealthy".to_string();
    record.health_retries = 2;
    record.health_last_check = Some(present());
    record.anonymous_volumes = vec!["old-anon".to_string()];

    apply_boot_result(&mut record, sample_boot_result(), RestartCountUpdate::Reset, present());

    assert_eq!(record.status, "running");
    assert_eq!(record.pid, Some(1234));
    assert_eq!(record.exec_socket_path, "/tmp/new-exec.sock");
    assert_eq!(record.health_status, "starting");
    assert_eq!(record.health_retries, 0);
    assert!(record.health_last_check.is_none());
    assert_eq!(record.stop_signal.as_deref(), Some("SIGINT"));
    assert!(record.started_at.is_some());
    assert!(!record.stopped_by_user);
    assert!(record.exit_code.is_none());
    assert_eq!(record.restart_count, 0);
    assert_eq!(record.anonymous_volumes, vec!["old-anon".to_string(), "new-anon".to_string()]);
}

#[test]
fn test_apply_boot_result_preserves_manual_restart_count() {
    let mut record = sample_record();
    record.restart_count = 4;
    let mut result = sample_boot_result();
    result.health_check = None;

    apply_boot_result(&mut record, result, RestartCountUpdate::Preserve, present());

    assert_eq!(record.restart_count, 4);
    assert_eq!(record.health_status, "none");
}

#[test]
fn test_apply_boot_result_increments_monitor_restart_count() {
    let mut record = sample_record();
    record.restart_count = 4;

    apply_boot_result(&mut record, sample_boot_result(), RestartCountUpdate::Increment, present());

    assert_eq!(record.restart_count, 5);
}

#[test]
fn boots_go_through_their_stages() {
    let mut record = sample_record();
    assert_eq!(first_boot_stage(&record), BootStage::Boot);
    record.network_mode = NetworkMode::Bridge { network: "dev".to_string() };
    record.volume_names = strings(&["data"]);
    assert_eq!(first_boot_stage(&record), BootStage::EnsureNetwork);
    assert_eq!(boot_step(&record, BootStage::EnsureNetwork, true).unwrap(), BootStage::OpenVolumes);
    assert_eq!(boot_step(&record, BootStage::OpenVolumes, true).unwrap(), BootStage::AttachVolumes);
    assert!(boot_step(&record, BootStage::OpenVolumes, false).unwrap_err().is_empty());
    assert!(!boot_step(&record, BootStage::AttachVolumes, false).unwrap_err().is_empty());
    assert_eq!(boot_step(&record, BootStage::Boot, true).unwrap(), BootStage::Done);
    let undo = boot_step(&record, BootStage::Boot, false).unwrap_err();
    assert!(undo.iter().any(|s| matches!(s, CleanupStep::Disconnect { network, .. } if network == "dev")));
    let mut guard = BootResourceGuard::new(&record);
    assert!(!guard.rollback().is_empty());
    assert!(guard.rollback().is_empty());
    assert!(BootResourceGuard::new(&record).disarm().rollback().is_empty());
    let facts = StartedFacts {
        pid: Some(3),
        exec_socket_path: None,
        pty_socket_path: None,
        anonymous_volumes: vec![],
        image_health_check: Some(health_check()),
        image_stop_signal: Some("SIGQUIT".to_string()),
    };
    let result = boot_result(&record, facts);
    assert_eq!(result.stop_signal.as_deref(), Some("SIGQUIT"));
    assert!(result.health_check.is_some());
    assert_eq!(health_socket(&record, &result), record.exec_socket_path);
    assert!(health_checker(&record).is_none());
    let checker = boot_health_checker(&record, &result).unwrap();
    assert_eq!((checker.box_id, checker.exec_socket_path), (record.id.clone(), record.exec_socket_path.clone()));
    apply_boot_result(&mut record, result, RestartCountUpdate::Preserve, present());
    let checker = health_checker(&record).unwrap();
    assert_eq!(checker.health_check.cmd, health_check().cmd);
    let processor = log_processor(&record);
    assert_eq!(processor.console_log, record.console_log);
    assert_eq!(processor.log_dir, format!("{}/logs", record.box_dir));
}

#[test]
fn anonymous_volumes_are_merged_once() {
    let mut record = sample_record();
    record.anonymous_volumes = strings(&["a"]);
    for _ in 0..2 {
        let mut result = sample_boot_result();
        result.anonymous_volumes = strings(&["c", "a", "b", "c"]);
        apply_boot_result(&mut record, result, RestartCountUpdate::Increment, present());
        assert_eq!(record.anonymous_volumes, strings(&["a", "c", "b"]));
    }
}

#[test]
fn services_boot_with_their_resolved_mounts() {
    let record = sample_record();
    let config = config_from_record(&record, &checks()).unwrap();
    let (image, cmd) = (config.image.clone(), config.cmd.clone());
    let config = boot_config(config, &strings(&["/var/v:/data"]));
    assert_eq!(config.volumes, vec!["/var/v:/data"]);
    assert_eq!((&config.image, &config.cmd), (&image, &cmd));
    let setup = service_setup(&config, &strings(&["v"]), Some(64), &None, true);
    assert_eq!(setup.volumes, config.volumes);
    assert_eq!(setup.volume_names, vec!["v"]);
    assert_eq!(setup.extra_env, config.extra_env);
    assert_eq!((setup.memory_mb, setup.healthcheck_disabled), (Some(64), true));
}

// Events.

#[test]
fn test_status_to_action_create() {
    assert_eq!(status_to_action(None, "created"), Some("create"));
}

#[test]
fn test_status_to_action_start() {
    assert_eq!(status_to_action(Some("created"), "running"), Some("start"));
    assert_eq!(status_to_action(None, "running"), Some("start"));
    assert_eq!(status_to_action(Some("exited"), "running"), Some("start"));
    assert_eq!(status_to_action(Some("stopped"), "running"), Some("start"));
}

#[test]
fn test_status_to_action_stop() {
    assert_eq!(status_to_action(Some("running"), "stopped"), Some("stop"));
    assert_eq!(status_to_action(Some("running"), "exited"), Some("die"));
}

#[test]
fn test_status_to_action_dead_transitions() {
    assert_eq!(status_to_action(Some("running"), "dead"), Some("die"));
    assert_eq!(status_to_action(Some("paused"), "dead"), Some("die"));
    assert_eq!(status_to_action(Some("created"), "dead"), Some("die"));
    assert_eq!(status_to_action(None, "dead"), Some("die"));
    assert_eq!(status_to_action(Some("dead"), "running"), Some("restart"));
    assert_eq!(status_to_action(Some("dead"), "dead"), None);
}

#[test]
fn test_status_to_action_pause_unpause() {
    assert_eq!(status_to_action(Some("running"), "paused"), Some("pause"));
    assert_eq!(status_to_action(Some("paused"), "running"), Some("unpause"));
}

#[test]
fn test_status_to_action_no_change() {
    assert_eq!(status_to_action(Some("running"), "running"), None);
}

#[test]
fn an_unchanged_status_is_no_event() {
    for status in ["created", "running", "paused", "stopped", "exited", "dead", "odd"] {
        assert_eq!(status_to_action(Some(status), status), None);
        assert_eq!(status_to_action(Some("else"), status).is_some(), true);
    }
    assert_eq!(status_to_action(Some("paused"), "exited"), Some("die"));
    assert_eq!(status_to_action(Some("created"), "stopped"), Some("stop"));
    assert_eq!(status_to_action(Some("stopped"), "created"), Some("update"));
}

#[test]
fn test_parse_time_arg_relative_and_rfc3339() {
    let now = present();
    assert_eq!(parse_time_arg("1s", now).unwrap(), moment(1_699_999_999));
    assert_eq!(parse_time_arg("5m", now).unwrap(), moment(1_700_000_000 - 300));
    assert_eq!(parse_time_arg("2h", now).unwrap(), moment(1_700_000_000 - 7200));
    assert_eq!(parse_time_arg("1d", now).unwrap(), moment(1_700_000_000 - 86400));
    assert_eq!(parse_time_arg("30", now).unwrap(), moment(1_700_000_000 - 30));
    let exact = chrono::DateTime::parse_from_rfc3339("2024-01-15T10:30:00Z").unwrap();
    assert_eq!(parse_time_arg("2024-01-15T10:30:00Z", now).unwrap(), moment(exact.timestamp()));
    assert!(parse_time_arg("nonsense", now).is_none());
}

#[test]
fn test_parse_filters() {
    let filters = parse_filters(&vec!["type=container".to_string(), "event=start".to_string()]);
    assert_eq!(filters.get("type").unwrap(), "container");
    assert_eq!(filters.get("event").unwrap(), "start");
}

#[test]
fn test_parse_filters_empty() {
    let filters = parse_filters(&vec![]);
    assert!(filters.is_empty());
}

fn event(action: &str, id: &str, name: &str, image: &str) -> Event {
    Event {
        time: present(),
        event_type: "container".to_string(),
        action: action.to_string(),
        actor: Actor { id: id.to_string(), name: name.to_string(), image: image.to_string() },
    }
}

#[test]
fn test_matches_filters_all_match() {
    let event = event("start", "abc123", "mybox", "alpine");
    let mut filters = StrMap::new();
    filters.insert("type".to_string(), "container".to_string());
    filters.insert("event".to_string(), "start".to_string());
    assert!(matches_filters(&event, &filters));
}

#[test]
fn test_matches_filters_no_match() {
    let event = event("stop", "abc123", "mybox", "alpine");
    let mut filters = StrMap::new();
    filters.insert("event".to_string(), "start".to_string());
    assert!(!matches_filters(&event, &filters));
}

#[test]
fn test_matches_filters_empty() {
    let event = event("start", "abc123", "mybox", "alpine");
    let filters = StrMap::new();
    assert!(matches_filters(&event, &filters));
}

#[test]
fn test_event_display() {
    let mut event = event("start", "abc123def456", "mybox", "alpine:latest");
    event.time = moment(chrono::DateTime::parse_from_rfc3339("2024-01-15T10:30:00Z").unwrap().timestamp());
    let s = event.line().unwrap();
    assert!(s.contains("container"));
    assert!(s.contains("start"));
    assert!(s.contains("abc123def456"));
    assert!(s.contains("mybox"));
    assert!(s.contains("alpine:latest"));
    assert!(s.starts_with("2024-01-15T10:30:00.000000Z"));
}

#[test]
fn test_matches_filters_by_name() {
    let event = event("start", "abc", "web", "nginx");
    let mut filters = StrMap::new();
    filters.insert("name".to_string(), "web".to_string());
    assert!(matches_filters(&event, &filters));

    filters.insert("name".to_string(), "other".to_string());
    assert!(!matches_filters(&event, &filters));
}

#[test]
fn events_come_from_what_changed() {
    let before = StateFile::new(vec![
        make_record("a", "one", "created", None),
        make_record("b", "two", "running", Some(1)),
        make_record("c", "three", "running", Some(2)),
    ]);
    let after = StateFile::new(vec![
        make_record("a", "one", "running", Some(3)),
        make_record("b", "two", "running", Some(1)),
    ]);
    let mut actors = StrMap::new();
    note_actors(&mut actors, &before);
    note_actors(&mut actors, &after);
    let found = detect_events(
        &take_snapshot(&before),
        &take_snapshot(&after),
        &actors,
        &StrMap::new(),
        &None,
        present(),
    );
    let told: Vec<(String, String)> = found.iter().map(|e| (e.actor.name.clone(), e.action.clone())).collect();
    assert!(told.contains(&("one".to_string(), "start".to_string())));
    assert!(told.contains(&("three".to_string(), "destroy".to_string())));
    assert_eq!(told.len(), 2);
    let none = detect_events(
        &take_snapshot(&before),
        &take_snapshot(&after),
        &actors,
        &StrMap::new(),
        &Some(moment(1_700_000_001)),
        present(),
    );
    assert!(none.is_empty());
    assert!(deadline_passed(&Some(moment(1)), &moment(2)));
    assert!(!deadline_passed(&None, &moment(2)));
}

#[test]
fn times_end_where_the_calendar_does() {
    let mut last = event("start", "a", "b", "c");
    last.time = moment(LAST_SECOND);
    assert!(last.line().is_some());
    assert!(chrono::DateTime::from_timestamp(LAST_SECOND, 0).is_some());
    assert!(chrono::DateTime::from_timestamp(LAST_SECOND + 1, 0).is_none());
    last.time = moment(LAST_SECOND + 1);
    assert!(last.line().is_none());
    last.time = moment(FIRST_SECOND);
    assert!(last.line().is_some());
    assert!(chrono::DateTime::from_timestamp(FIRST_SECOND - 1, 0).is_none());
    last.time = moment(FIRST_SECOND - 1);
    assert!(last.line().is_none());
}

// Logs.

#[test]
fn test_parse_duration_seconds() {
    assert_eq!(parse_duration("30s").unwrap(), 30);
}

#[test]
fn test_parse_duration_minutes() {
    assert_eq!(parse_duration("5m").unwrap(), 300);
}

#[test]
fn test_parse_duration_hours() {
    assert_eq!(parse_duration("2h").unwrap(), 7200);
}

#[test]
fn test_parse_duration_days() {
    assert_eq!(parse_duration("1d").unwrap(), 86400);
}

#[test]
fn test_parse_duration_combined() {
    assert_eq!(parse_duration("1h30m").unwrap(), 5400);
}

#[test]
fn test_parse_duration_bare_number_as_seconds() {
    assert_eq!(parse_duration("60").unwrap(), 60);
    assert_eq!(parse_duration_secs("60").unwrap(), 60);
}

#[test]
fn test_parse_duration_invalid() {
    assert!(parse_duration("abc").is_err());
}

#[test]
fn test_parse_time_filter_iso8601() {
    let dt = parse_time_filter("2024-06-15T12:00:00Z", present()).unwrap();
    let shown = chrono::DateTime::from_timestamp(dt.secs, dt.nanos).unwrap().to_rfc3339();
    assert_eq!(shown, "2024-06-15T12:00:00+00:00");
}

#[test]
fn test_parse_time_filter_relative() {
    let dt = parse_time_filter("1h", present()).unwrap();
    assert_eq!(dt, moment(1_700_000_000 - 3600));
    assert!(dt.is_before(&present()));
    assert!(parse_time_filter("soon", present()).is_err());
}

#[test]
fn test_line_in_range_no_filter() {
    assert!(line_in_range("some log line", &None, &None));
}

#[test]
fn test_line_in_range_no_timestamp_permissive() {
    assert!(line_in_range("no timestamp here", &Some(present()), &None));
}

#[test]
fn test_extract_line_timestamp_valid() {
    let ts = extract_line_timestamp("2024-06-15T12:00:00Z some log message");
    assert!(ts.is_some());
    let ts = ts.unwrap();
    let shown = chrono::DateTime::from_timestamp(ts.secs, ts.nanos).unwrap().to_rfc3339();
    assert_eq!(shown, "2024-06-15T12:00:00+00:00");
}

#[test]
fn test_extract_line_timestamp_none() {
    let ts = extract_line_timestamp("just a regular log line");
    assert!(ts.is_none());
}

fn logged_record() -> BoxRecord {
    let mut record = make_record("log-id", "logs", "stopped", None);
    record.box_dir = "/b/box".to_string();
    record.console_log = "/b/box/logs/console.log".to_string();
    record
}

#[test]
fn test_resolve_log_source_prefers_structured_json() {
    let record = logged_record();
    let source = resolve_log_source(&record, "/b/box/logs/container.json", true, true).unwrap();
    assert!(source.structured);
    assert_eq!(source.path, "/b/box/logs/container.json");
}

#[test]
fn test_resolve_log_source_falls_back_to_console_log() {
    let record = logged_record();
    let source = resolve_log_source(&record, "/b/box/logs/container.json", false, true).unwrap();
    assert!(!source.structured);
    assert_eq!(source.path, record.console_log);
}

#[test]
fn test_resolve_log_source_missing_is_empty() {
    let record = logged_record();
    assert!(resolve_log_source(&record, "/b/box/logs/container.json", false, false).is_none());
}

fn raw(text: &str) -> RawLine {
    RawLine { text: text.to_string(), entry: None }
}

#[test]
fn log_lines_are_cut_and_filtered() {
    let plain = LogFilter { timestamps: false, since: None, until: None, now: "NOW".to_string() };
    let lines = vec![raw("a"), raw("b"), raw("c")];
    assert_eq!(stream_logs(&lines, false, Some(2), false, &plain), vec!["b\n", "c\n"]);
    assert_eq!(stream_logs(&lines, false, None, false, &plain), vec!["a\n", "b\n", "c\n"]);
    let wide = format!("{}\u{fc} early", "x".repeat(34));
    let recent = LogFilter { timestamps: false, since: Some(moment(1)), until: None, now: "NOW".to_string() };
    let lines = vec![raw(&wide), raw("b")];
    let last = stream_logs(&vec![raw("b")], false, None, false, &recent);
    assert_eq!(stream_logs(&lines, false, Some(1), false, &recent), last);
    assert!(stream_logs(&lines, false, Some(0), false, &recent).is_empty());
    assert!(stream_logs(&lines, false, None, true, &recent).is_empty());
    let stamped = LogFilter { timestamps: true, since: None, until: None, now: "NOW".to_string() };
    assert_eq!(stream_logs(&vec![raw("a")], false, None, false, &stamped), vec!["NOW a\n"]);
    assert_eq!(print_line("a", false, "NOW"), "a\n");
    assert_eq!(parse_tail("all"), Some(usize::MAX));
    assert_eq!(parse_tail("some"), None);
    assert_eq!(parse_tail("12"), Some(12));
    let entry = Some(LogEntry { time: "2024-06-15T12:00:00Z".to_string(), log: "hi\n".to_string() });
    assert_eq!(print_json_line("{}", &entry, false, &None, &None).unwrap().trim_end(), "hi");
    assert!(print_json_line("{}", &entry, true, &None, &None).unwrap().contains("2024-06-15T12:00:00Z"));
    let early = print_json_line("{}", &entry, false, &Some(moment(1_800_000_000)), &None);
    assert!(early.is_none());
    assert!(!line_in_range("2024-06-15T12:00:00Z x", &Some(moment(1_800_000_000)), &None));
}

#[test]
fn missing_logs_are_waited_for() {
    let mut record = logged_record();
    assert!(check_logging(&record).is_ok());
    record.log_config.driver = LogDriver::Disabled;
    assert!(check_logging(&record).is_err());
    assert!(!waits_for_log(true, &record));
    record.status = "running".to_string();
    assert!(waits_for_log(true, &record));
    assert!(!waits_for_log(false, &record));
    assert!(matches!(wait_for_log_source(None, None), WaitForLog::GiveUp));
    assert!(matches!(wait_for_log_source(Some(&record), None), WaitForLog::GiveUp));
    record.log_config.driver = LogDriver::JsonFile;
    assert!(matches!(wait_for_log_source(Some(&record), None), WaitForLog::Again));
}

// The monitor.

#[test]
fn test_backoff_tracker_new_box_is_ready() {
    let tracker = BackoffTracker::new();
    assert!(tracker.ready("box-1", 0));
}

#[test]
fn test_backoff_tracker_not_ready_after_attempt() {
    let mut tracker = BackoffTracker::new();
    tracker.record_attempt("box-1", 5);
    assert!(!tracker.ready("box-1", 5));
}

#[test]
fn test_backoff_tracker_exponential_increase() {
    let mut tracker = BackoffTracker::new();

    tracker.record_attempt("box-1", 0);
    let d1 = tracker.current_delay("box-1");

    tracker.record_attempt("box-1", 0);
    let d2 = tracker.current_delay("box-1");

    tracker.record_attempt("box-1", 0);
    let d3 = tracker.current_delay("box-1");

    assert!(d2 > d1, "d2={d2:?} should be > d1={d1:?}");
    assert!(d3 > d2, "d3={d3:?} should be > d2={d2:?}");
}

#[test]
fn test_backoff_tracker_caps_at_max() {
    let mut tracker = BackoffTracker::new();

    for _ in 0..20 {
        tracker.record_attempt("box-1", 0);
    }

    let delay = tracker.current_delay("box-1");
    assert!(delay <= MAX_BACKOFF, "delay={delay:?} should be <= {MAX_BACKOFF:?}");
}

#[test]
fn test_backoff_tracker_default_delay() {
    let tracker = BackoffTracker::new();
    assert_eq!(tracker.current_delay("unknown"), MIN_BACKOFF);
}

#[test]
fn test_backoff_tracker_remove() {
    let mut tracker = BackoffTracker::new();
    tracker.record_attempt("box-1", 0);
    assert!(!tracker.ready("box-1", 0));

    tracker.entries.remove("box-1");
    assert!(tracker.ready("box-1", 0));
    assert_eq!(tracker.current_delay("box-1"), MIN_BACKOFF);
}

#[test]
fn test_backoff_tracker_independent_boxes() {
    let mut tracker = BackoffTracker::new();
    tracker.record_attempt("box-1", 0);

    assert!(tracker.ready("box-2", 0));
}

#[test]
fn test_backoff_entry_mark_dead_resets_running_tracker() {
    let mut entry = BackoffEntry::new(0);
    entry.mark_running(1);
    assert!(entry.last_seen_running.is_some());

    entry.mark_dead();
    assert!(entry.last_seen_running.is_none());
}

#[test]
fn boxes_that_stay_up_start_over() {
    let mut tracker = BackoffTracker::new();
    for _ in 0..4 {
        tracker.record_attempt("box-1", 0);
    }
    assert!(tracker.current_delay("box-1") > MIN_BACKOFF);
    tracker.mark_running("box-1", 10);
    tracker.mark_running("box-1", 10 + STABLE_THRESHOLD);
    assert_eq!(tracker.current_delay("box-1"), MIN_BACKOFF);
}

fn health_check() -> HealthCheck {
    HealthCheck {
        cmd: vec!["true".to_string()],
        interval_secs: 30,
        timeout_secs: 5,
        retries: 3,
        start_period_secs: 0,
    }
}

#[test]
fn test_unhealthy_restart_candidate_respects_restart_policy() {
    let mut record = make_record("id-1", "box", "running", Some(1));
    record.health_check = Some(health_check());
    record.health_status = "unhealthy".to_string();
    record.restart_policy = "no".to_string();
    assert!(!is_unhealthy_restart_candidate(&record));

    record.restart_policy = "on-failure:2".to_string();
    record.restart_count = 2;
    assert!(!is_unhealthy_restart_candidate(&record));

    record.restart_count = 1;
    assert!(is_unhealthy_restart_candidate(&record));
}

#[test]
fn test_restart_log_line_for_dead_includes_policy_and_exit_code() {
    let mut record = make_record("id-1", "box", "dead", None);
    record.short_id = "id1".to_string();
    record.restart_policy = "always".to_string();
    record.exit_code = Some(137);

    let line = restart_log_line(&record, RestartReason::Dead);

    assert!(line.contains("restarting dead box box (id1"));
    assert!(line.contains("policy: always"));
    assert!(line.contains("exit: 137"));
}

#[test]
fn test_backoff_log_line_includes_name_and_short_id() {
    let mut record = make_record("id-1", "box", "dead", None);
    record.short_id = "id1".to_string();

    let line = backoff_log_line(&record, 4_000_000_000);

    assert!(line.contains("box box (id1)"));
    assert!(line.contains("4s remaining"));
}

#[test]
fn the_monitor_restarts_what_died() {
    let mut dead = make_record("id-1", "web", "dead", None);
    dead.restart_policy = "always".to_string();
    let mut sick = make_record("id-2", "db", "running", Some(4));
    sick.restart_policy = "always".to_string();
    sick.health_check = Some(health_check());
    sick.health_status = "unhealthy".to_string();
    let mut state = StateFile::new(vec![dead, sick]);
    let mut tracker = BackoffTracker::new();
    note_active(&mut tracker, &state, 0);
    assert_eq!(pending_restarts(&state), vec!["id-1"]);
    assert_eq!(restart_candidates(&state), vec!["id-1", "id-2"]);
    match consider_candidate(&mut tracker, &state, "id-1", 0) {
        CandidateAction::Restart { record, reason, .. } => {
            assert_eq!(record.id, "id-1");
            assert_eq!(reason, RestartReason::Dead);
            assert!(matches!(
                consider_candidate(&mut tracker, &state, "id-2", 0),
                CandidateAction::Restart { reason: RestartReason::Unhealthy, stop: Some(s), .. }
                    if s.pid == 4 && s.settings.signal == 15 && s.settings.timeout == 10
            ));
            let line = note_attempt(&mut tracker, &record, &Ok(9), 0);
            assert!(line.contains("web"));
        }
        _ => panic!("expected a restart"),
    }
    assert!(matches!(consider_candidate(&mut tracker, &state, "id-1", 1), CandidateAction::BackOff { .. }));
    assert!(matches!(consider_candidate(&mut tracker, &state, "gone", 1), CandidateAction::Gone));
    mark_unhealthy_dead(&mut state, "id-2");
    assert_eq!(state.get(1).status, "dead");
    assert_eq!(format_exit_code(None), "unknown");
    assert_eq!(format_exit_code(Some(3)), "3");
    let due = due_probes(&state, &vec![false, false]);
    assert!(due.is_empty());
}

// Commands run in boxes.

fn exec_args() -> ExecArgs {
    ExecArgs {
        box_name: "web".to_string(),
        timeout: 0,
        envs: strings(&["A=1"]),
        workdir: None,
        interactive: false,
        tty: false,
        user: Some("root".to_string()),
        cmd: strings(&["ls", "-l"]),
    }
}

#[test]
fn commands_become_requests() {
    let args = exec_args();
    let user = check_exec(&args, &Ok(())).unwrap();
    assert_eq!(user.as_deref(), Some("0"));
    assert!(check_exec(&args, &Err("relative".to_string())).is_err());
    assert_eq!(exec_timeout(0, 5), 5);
    assert_eq!(exec_timeout(2, 5), 2_000_000_000);
    let request = exec_request(exec_args(), user.clone(), b"in".to_vec(), 5);
    assert_eq!(request.cmd, strings(&["ls", "-l"]));
    assert_eq!(request.timeout_ns, 5);
    let pty = execute_pty(args, user, Some((100, 40)));
    assert_eq!((pty.cols, pty.rows), (100, 40));
}

#[test]
fn terminals_end_when_the_box_says_so() {
    assert!(matches!(run_pty_session(PtyInput::Data { written: true }), PtyStep::Continue));
    assert!(matches!(
        run_pty_session(PtyInput::Exit { exit_code: Some(3) }),
        PtyStep::End { exit_code: 3, .. }
    ));
    assert!(matches!(
        run_pty_session(PtyInput::Error { message: "no shell".to_string() }),
        PtyStep::End { notice: Some(_), .. }
    ));
    assert!(matches!(
        relay_user_input(UserInput::Keys { bytes: vec![3] }),
        UserStep::SendData { bytes } if bytes == vec![3]
    ));
    assert!(matches!(relay_user_input(UserInput::Ended), UserStep::Stop));
    assert!(matches!(
        relay_user_input(UserInput::Resized { size: Some((9, 8)) }),
        UserStep::SendResize { cols: 9, rows: 8 }
    ));
    assert!(matches!(relay_user_input(UserInput::Resized { size: None }), UserStep::Skip));
    assert!(connect_pty_with_retry("/s", "refused", 1, 10, "10ns").is_none());
    assert!(connect_pty_with_retry("/s", "refused", 10, 10, "10ns").unwrap().contains("refused"));
}
