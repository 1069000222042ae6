//! The options of boxes.

use a3s_box::cleanup::{cleanup_stopped_box, CleanupStep};
use a3s_box::commands::common::{
    build_resource_limits, checked_memory_bytes, checked_resource_limits, effective_stop_signal, merge_env,
    normalize_port_maps, normalize_user_option, parse_env_file, parse_env_vars, parse_memory_bytes, parse_pairs_as, validate_common_args,
    validate_runtime_platform, CommonBoxArgs, Platform,
};
use a3s_box::commands::compose_service::BootFacts;
use a3s_box::commands::create::{
    create_record, create_step, try_begin_create, try_create_shm, CreateArgs, CreateFacts, CreateInputs, CreateStage,
};
use a3s_box::commands::run::{
    build_box_config, build_tee_config, exit_with, foreground_completion_message, foreground_exit_code,
    foreground_step, interactive_keepalive_entrypoint, mark_record_stopped, parse_health_check, pty_request,
    pty_socket, pull_progress, read_maps, resolve_volumes, run_phase, run_record, run_teardown, setup_step,
    stop_options, stop_timeout_ms, try_begin_run, try_finish_run, validate_run_mode, with_shm, ForegroundEvent,
    ForegroundStopReason, RunArgs, RunBasics, RunInputs, RunMaps, RunPhase, SetupStage, SetupUndo,
    StopOptions,
};
use a3s_box::config::TeeConfig;
use a3s_box::state::{BoxRecord, LogConfig, LogDriver, NetworkMode, ResourceLimits, StateFile, Timestamp};
use a3s_box::strmap::StrMap;

fn default_common_args() -> CommonBoxArgs {
    CommonBoxArgs {
        image: "test".to_string(),
        name: None,
        cpus: 2,
        memory: "512m".to_string(),
        volumes: vec![],
        env: vec![],
        publish: vec![],
        dns: vec![],
        entrypoint: None,
        hostname: None,
        user: None,
        workdir: None,
        restart: "no".to_string(),
        labels: vec![],
        tmpfs: vec![],
        network: None,
        health_cmd: None,
        health_interval: 30,
        health_timeout: 5,
        health_retries: 3,
        health_start_period: 0,
        pids_limit: None,
        cpuset_cpus: None,
        ulimits: vec![],
        cpu_shares: None,
        cpu_quota: None,
        cpu_period: None,
        memory_reservation: None,
        memory_swap: None,
        env_file: vec![],
        add_host: vec![],
        platform: None,
        init: false,
        read_only: false,
        cap_add: vec![],
        cap_drop: vec![],
        security_opt: vec![],
        privileged: false,
        device: vec![],
        gpus: None,
        shm_size: None,
        stop_signal: None,
        stop_timeout: None,
        no_healthcheck: false,
        oom_kill_disable: false,
        oom_score_adj: None,
        persistent: false,
    }
}

fn default_run_args() -> RunArgs {
    RunArgs {
        common: default_common_args(),
        detach: false,
        interactive: false,
        tty: false,
        rm: false,
        cmd: vec![],
        log_driver: "json-file".to_string(),
        log_opts: vec![],
        tee: false,
        tee_workload_id: None,
        tee_simulate: false,
        sidecar: None,
        sidecar_vsock_port: 4092,
    }
}

fn make_record(id: &str, name: &str, status: &str, pid: Option<u32>) -> BoxRecord {
    BoxRecord {
        id: id.to_string(),
        short_id: id.chars().filter(|c| *c != '-').take(12).collect(),
        name: name.to_string(),
        image: "alpine:latest".to_string(),
        status: status.to_string(),
        pid,
        cpus: 2,
        memory_mb: 512,
        volumes: vec![],
        env: StrMap::new(),
        cmd: vec![],
        entrypoint: None,
        box_dir: format!("/tmp/{id}"),
        exec_socket_path: format!("/tmp/{id}/sockets/exec.sock"),
        console_log: format!("/tmp/{id}/console.log"),
        created_at: Timestamp { secs: 1_700_000_000, nanos: 0 },
        started_at: None,
        auto_remove: false,
        hostname: None,
        user: None,
        workdir: None,
        restart_policy: "no".to_string(),
        port_map: vec![],
        labels: StrMap::new(),
        stopped_by_user: false,
        restart_count: 0,
        max_restart_count: 0,
        exit_code: None,
        health_check: None,
        healthcheck_disabled: false,
        health_status: "none".to_string(),
        health_retries: 0,
        health_last_check: None,
        network_mode: NetworkMode::Tsi,
        network_name: None,
        volume_names: vec![],
        tmpfs: vec![],
        anonymous_volumes: vec![],
        resource_limits: ResourceLimits::default(),
        log_config: LogConfig::default(),
        add_host: vec![],
        platform: None,
        init: false,
        read_only: false,
        cap_add: vec![],
        cap_drop: vec![],
        security_opt: vec![],
        privileged: false,
        devices: vec![],
        gpus: None,
        shm_size: None,
        stop_signal: None,
        stop_timeout: None,
        oom_kill_disable: false,
        oom_score_adj: None,
    }
}

fn strings(l: &[&str]) -> Vec<String> {
    l.iter().map(|s| s.to_string()).collect()
}

/// What a file of variables gives that holds some text.
fn read_env_file(content: &str) -> Result<StrMap<String>, String> {
    parse_env_file("env", &Ok(content.to_string()))
}

#[test]
fn test_parse_env_vars_valid() {
    let vars = vec!["FOO=bar".to_string(), "BAZ=qux".to_string()];
    let map = parse_env_vars(&vars).unwrap();
    assert_eq!(map.get("FOO").unwrap(), "bar");
    assert_eq!(map.get("BAZ").unwrap(), "qux");
}

#[test]
fn test_parse_env_vars_empty() {
    let map = parse_env_vars(&vec![]).unwrap();
    assert!(map.is_empty());
}

#[test]
fn test_parse_env_vars_value_with_equals() {
    let vars = vec!["KEY=val=ue".to_string()];
    let map = parse_env_vars(&vars).unwrap();
    assert_eq!(map.get("KEY").unwrap(), "val=ue");
}

#[test]
fn test_parse_env_vars_invalid_no_equals() {
    let vars = vec!["INVALID".to_string()];
    let result = parse_env_vars(&vars);
    assert!(result.is_err());
    assert!(result.unwrap_err().contains("KEY=VALUE"));
}

#[test]
fn test_parse_env_vars_empty_value() {
    let vars = vec!["KEY=".to_string()];
    let map = parse_env_vars(&vars).unwrap();
    assert_eq!(map.get("KEY").unwrap(), "");
}

#[test]
fn test_parse_memory_bytes_raw_number() {
    assert_eq!(parse_memory_bytes("1073741824").unwrap(), 1073741824);
    assert_eq!(parse_memory_bytes("512").unwrap(), 512);
}

#[test]
fn test_parse_memory_bytes_kilobytes() {
    assert_eq!(parse_memory_bytes("1k").unwrap(), 1024);
    assert_eq!(parse_memory_bytes("100k").unwrap(), 100 * 1024);
    assert_eq!(parse_memory_bytes("512kb").unwrap(), 512 * 1024);
    assert_eq!(parse_memory_bytes("2K").unwrap(), 2048);
}

#[test]
fn test_parse_memory_bytes_megabytes() {
    assert_eq!(parse_memory_bytes("1m").unwrap(), 1024 * 1024);
    assert_eq!(parse_memory_bytes("512m").unwrap(), 512 * 1024 * 1024);
    assert_eq!(parse_memory_bytes("512mb").unwrap(), 512 * 1024 * 1024);
    assert_eq!(parse_memory_bytes("512M").unwrap(), 512 * 1024 * 1024);
    assert_eq!(parse_memory_bytes("2M").unwrap(), 2 * 1024 * 1024);
}

#[test]
fn test_parse_memory_bytes_gigabytes() {
    assert_eq!(parse_memory_bytes("1g").unwrap(), 1024 * 1024 * 1024);
    assert_eq!(parse_memory_bytes("2g").unwrap(), 2 * 1024 * 1024 * 1024);
    assert_eq!(parse_memory_bytes("2gb").unwrap(), 2 * 1024 * 1024 * 1024);
    assert_eq!(parse_memory_bytes("4G").unwrap(), 4 * 1024 * 1024 * 1024);
}

#[test]
fn test_parse_memory_bytes_bytes_suffix() {
    assert_eq!(parse_memory_bytes("4096b").unwrap(), 4096);
    assert_eq!(parse_memory_bytes("1024b").unwrap(), 1024);
    assert_eq!(parse_memory_bytes("512B").unwrap(), 512);
}

#[test]
fn test_parse_memory_bytes_empty() {
    assert!(parse_memory_bytes("").is_err());
    assert!(parse_memory_bytes("   ").is_err());
}

#[test]
fn test_parse_memory_bytes_invalid_format() {
    assert!(parse_memory_bytes("abc").is_err());
    assert!(parse_memory_bytes("12x").is_err());
    assert!(parse_memory_bytes("123x").is_err());
    assert!(parse_memory_bytes("m512").is_err());
}

#[test]
fn test_parse_memory_bytes_invalid_number() {
    assert!(parse_memory_bytes("abcm").is_err());
    assert!(parse_memory_bytes("12.5g").is_err());
}

#[test]
fn test_parse_memory_bytes_whitespace() {
    assert_eq!(parse_memory_bytes("  512m  ").unwrap(), 512 * 1024 * 1024);
    assert_eq!(parse_memory_bytes("\t1g\n").unwrap(), 1024 * 1024 * 1024);
}

#[test]
fn sizes_beyond_64_bits_are_told_apart() {
    assert!(checked_memory_bytes("17179869184g").is_none());
    assert_eq!(checked_memory_bytes("17179869183g").unwrap().unwrap(), 17179869183 * 1024 * 1024 * 1024);
    assert!(checked_memory_bytes("12x").unwrap().is_err());
}

#[test]
fn test_parse_env_file_basic() {
    let map = read_env_file("FOO=bar\nBAZ=qux\n").unwrap();
    assert_eq!(map.get("FOO").unwrap(), "bar");
    assert_eq!(map.get("BAZ").unwrap(), "qux");
}

#[test]
fn test_parse_env_file_comments_and_blanks() {
    let map = read_env_file("# comment\n\nKEY=val\n  \n# another\n").unwrap();
    assert_eq!(map.len(), 1);
    assert_eq!(map.get("KEY").unwrap(), "val");
}

#[test]
fn test_parse_env_file_key_without_value() {
    let map = read_env_file("STANDALONE\n").unwrap();
    assert_eq!(map.get("STANDALONE").unwrap(), "");
}

#[test]
fn test_parse_env_file_value_with_equals() {
    let map = read_env_file("CONN=postgres://host?opt=1\n").unwrap();
    assert_eq!(map.get("CONN").unwrap(), "postgres://host?opt=1");
}

#[test]
fn test_parse_env_file_missing_file() {
    let read = Err("No such file or directory (os error 2)".to_string());
    let result = parse_env_file("/nonexistent/path/env", &read);
    assert!(result.is_err());
}

#[test]
fn test_parse_env_file_empty() {
    let map = read_env_file("").unwrap();
    assert!(map.is_empty());
}

#[test]
fn common_test_build_resource_limits_defaults() {
    let args = default_common_args();
    let limits = build_resource_limits(&args).unwrap();
    assert!(limits.pids_limit.is_none());
    assert!(limits.cpuset_cpus.is_none());
    assert!(limits.cpu_shares.is_none());
    assert!(limits.memory_reservation.is_none());
    assert!(limits.memory_swap.is_none());
}

#[test]
fn common_test_build_resource_limits_with_values() {
    let mut args = default_common_args();
    args.pids_limit = Some(100);
    args.cpuset_cpus = Some("0-3".to_string());
    args.ulimits = vec!["nofile=1024:4096".to_string()];
    args.cpu_shares = Some(512);
    args.cpu_quota = Some(50000);
    args.cpu_period = Some(100000);
    args.memory_reservation = Some("256m".to_string());
    args.memory_swap = Some("-1".to_string());

    let limits = build_resource_limits(&args).unwrap();
    assert_eq!(limits.pids_limit, Some(100));
    assert_eq!(limits.cpuset_cpus, Some("0-3".to_string()));
    assert_eq!(limits.cpu_shares, Some(512));
    assert_eq!(limits.cpu_quota, Some(50000));
    assert_eq!(limits.cpu_period, Some(100000));
    assert_eq!(limits.memory_reservation, Some(256 * 1024 * 1024));
    assert_eq!(limits.memory_swap, Some(-1));
}

#[test]
fn common_test_build_resource_limits_memory_swap_value() {
    let mut args = default_common_args();
    args.memory_swap = Some("1g".to_string());

    let limits = build_resource_limits(&args).unwrap();
    assert_eq!(limits.memory_swap, Some(1024 * 1024 * 1024));
}

#[test]
fn limits_name_the_option_that_cannot_be_read() {
    let mut args = default_common_args();
    args.memory_reservation = Some("lots".to_string());
    let err = checked_resource_limits(&args).unwrap().unwrap_err();
    assert!(err.starts_with("Invalid --memory-reservation: "));
    let mut args = default_common_args();
    args.memory_swap = Some("17179869184g".to_string());
    assert!(checked_resource_limits(&args).is_none());
}

#[test]
fn run_test_build_resource_limits_defaults() {
    let args = default_run_args();
    let limits = build_resource_limits(&args.common).unwrap();
    assert!(limits.pids_limit.is_none());
    assert!(limits.cpuset_cpus.is_none());
    assert!(limits.cpu_shares.is_none());
    assert!(limits.memory_reservation.is_none());
    assert!(limits.memory_swap.is_none());
}

#[test]
fn run_test_build_resource_limits_with_values() {
    let mut args = default_run_args();
    args.common.pids_limit = Some(100);
    args.common.cpuset_cpus = Some("0-3".to_string());
    args.common.ulimits = vec!["nofile=1024:4096".to_string()];
    args.common.cpu_shares = Some(512);
    args.common.cpu_quota = Some(50000);
    args.common.cpu_period = Some(100000);
    args.common.memory_reservation = Some("256m".to_string());
    args.common.memory_swap = Some("-1".to_string());

    let limits = build_resource_limits(&args.common).unwrap();
    assert_eq!(limits.pids_limit, Some(100));
    assert_eq!(limits.cpuset_cpus, Some("0-3".to_string()));
    assert_eq!(limits.cpu_shares, Some(512));
    assert_eq!(limits.cpu_quota, Some(50000));
    assert_eq!(limits.cpu_period, Some(100000));
    assert_eq!(limits.memory_reservation, Some(256 * 1024 * 1024));
    assert_eq!(limits.memory_swap, Some(-1));
}

#[test]
fn run_test_build_resource_limits_memory_swap_value() {
    let mut args = default_run_args();
    args.common.memory_swap = Some("1g".to_string());

    let limits = build_resource_limits(&args.common).unwrap();
    assert_eq!(limits.memory_swap, Some(1024 * 1024 * 1024));
}

#[test]
fn test_parse_health_check_none() {
    let args = default_run_args();
    assert!(parse_health_check(&args.common).is_none());
}

#[test]
fn test_parse_health_check_disabled() {
    let mut args = default_run_args();
    args.common.health_cmd = Some("curl localhost".to_string());
    args.common.no_healthcheck = true;
    assert!(parse_health_check(&args.common).is_none());
}

#[test]
fn test_parse_health_check_configured() {
    let mut args = default_run_args();
    args.common.health_cmd = Some("curl localhost".to_string());
    args.common.health_interval = 10;
    args.common.health_retries = 5;
    let hc = parse_health_check(&args.common).unwrap();
    assert_eq!(hc.cmd, vec!["sh", "-c", "curl localhost"]);
    assert_eq!(hc.interval_secs, 10);
    assert_eq!(hc.retries, 5);
}

#[test]
fn test_validate_run_mode_rejects_detached_tty_before_boot() {
    let mut args = default_run_args();
    args.detach = true;
    args.tty = true;

    let err = validate_run_mode(&args, true).unwrap_err();
    assert!(err.contains("Cannot use -t"));
}

#[test]
fn test_validate_run_mode_rejects_tty_without_terminal_before_boot() {
    let mut args = default_run_args();
    args.tty = true;

    let err = validate_run_mode(&args, false).unwrap_err();
    assert!(err.contains("requires a terminal"));
}

#[test]
fn test_validate_run_mode_allows_detached_without_tty() {
    let mut args = default_run_args();
    args.detach = true;

    assert!(validate_run_mode(&args, false).is_ok());
}

#[test]
fn test_build_box_config_uses_keepalive_for_interactive_tty_boot() {
    let mut args = default_run_args();
    args.tty = true;
    args.cmd = vec!["/bin/echo".to_string(), "hello".to_string()];

    let config = build_box_config(
        &args,
        512,
        Default::default(),
        None,
        vec![],
        vec![],
        vec![],
        NetworkMode::Tsi,
        vec![],
        TeeConfig::Off,
    )
    .unwrap();

    assert_eq!(config.cmd, vec!["a3s-box-pty-keepalive"]);
    assert_eq!(config.entrypoint_override, Some(interactive_keepalive_entrypoint()));
}

#[test]
fn test_build_box_config_preserves_non_tty_command() {
    let mut args = default_run_args();
    args.cmd = vec!["/bin/echo".to_string(), "hello".to_string()];
    let entrypoint = Some(vec!["/custom-entrypoint".to_string()]);

    let config = build_box_config(
        &args,
        512,
        Default::default(),
        entrypoint.clone(),
        vec![],
        vec![],
        vec![],
        NetworkMode::Tsi,
        vec![],
        TeeConfig::Off,
    )
    .unwrap();

    assert_eq!(config.cmd, args.cmd);
    assert_eq!(config.entrypoint_override, entrypoint);
}

#[test]
fn test_mark_record_stopped_persists_exit_context() {
    let record = make_record("550e8400-e29b-41d4-a716-446655440000", "run-exit", "running", Some(1234));
    let mut state = StateFile::new(vec![record]);

    mark_record_stopped(&mut state, "550e8400-e29b-41d4-a716-446655440000", Some(42), true);

    let record = state.find_by_id("550e8400-e29b-41d4-a716-446655440000").unwrap();
    assert_eq!(record.status, "stopped");
    assert_eq!(record.pid, None);
    assert_eq!(record.exit_code, Some(42));
    assert!(record.stopped_by_user);
}

#[test]
fn test_foreground_exit_code_preserves_vm_code() {
    assert_eq!(foreground_exit_code(ForegroundStopReason::UserInterrupted, Some(143)), Some(143));
    assert_eq!(foreground_exit_code(ForegroundStopReason::VmUnhealthy, Some(2)), Some(2));
}

#[test]
fn test_foreground_exit_code_has_deterministic_fallbacks() {
    assert_eq!(foreground_exit_code(ForegroundStopReason::ProcessExited, None), None);
    assert_eq!(foreground_exit_code(ForegroundStopReason::UserInterrupted, None), Some(130));
    assert_eq!(foreground_exit_code(ForegroundStopReason::VmUnhealthy, None), Some(1));
}

#[test]
fn test_foreground_stop_reason_user_flag() {
    assert!(ForegroundStopReason::UserInterrupted.stopped_by_user());
    assert!(!ForegroundStopReason::ProcessExited.stopped_by_user());
    assert!(!ForegroundStopReason::VmUnhealthy.stopped_by_user());
}

#[test]
fn test_foreground_completion_messages() {
    assert_eq!(
        foreground_completion_message(ForegroundStopReason::ProcessExited, true, "box"),
        "Box box exited and was removed."
    );
    assert_eq!(
        foreground_completion_message(ForegroundStopReason::UserInterrupted, false, "box"),
        "Box box stopped."
    );
    assert_eq!(
        foreground_completion_message(ForegroundStopReason::VmUnhealthy, true, "box"),
        "Box box stopped after VM health check failed and was removed."
    );
}

#[test]
fn test_build_box_config_passes_security_options() {
    let mut args = default_run_args();
    args.common.cap_add = vec!["NET_ADMIN".to_string()];
    args.common.cap_drop = vec!["NET_RAW".to_string()];
    args.common.security_opt = vec!["seccomp=unconfined".to_string()];
    args.common.privileged = true;

    let config = build_box_config(
        &args,
        512,
        ResourceLimits::default(),
        None,
        vec![],
        vec![],
        vec![],
        NetworkMode::Tsi,
        vec![],
        TeeConfig::Off,
    )
    .unwrap();

    assert_eq!(config.cap_add, vec!["NET_ADMIN"]);
    assert_eq!(config.cap_drop, vec!["NET_RAW"]);
    assert_eq!(config.security_opt, vec!["seccomp=unconfined"]);
    assert!(config.privileged);
}

#[test]
fn test_build_box_config_passes_user_and_workdir() {
    let mut args = default_run_args();
    args.common.user = Some("root:root".to_string());
    args.common.workdir = Some("/app".to_string());

    let config = build_box_config(
        &args,
        512,
        ResourceLimits::default(),
        None,
        vec![],
        vec![],
        vec![],
        NetworkMode::Tsi,
        vec![],
        TeeConfig::Off,
    )
    .unwrap();

    assert_eq!(config.user.as_deref(), Some("0:0"));
    assert_eq!(config.workdir.as_deref(), Some("/app"));
}

#[test]
fn test_build_box_config_passes_hostname_and_add_hosts() {
    let mut args = default_run_args();
    args.common.hostname = Some("web".to_string());
    args.common.add_host = vec!["db.local:10.88.0.10".to_string()];

    let config = build_box_config(
        &args,
        512,
        ResourceLimits::default(),
        None,
        vec![],
        vec![],
        vec![],
        NetworkMode::Tsi,
        vec![],
        TeeConfig::Off,
    )
    .unwrap();

    assert_eq!(config.hostname.as_deref(), Some("web"));
    assert_eq!(config.add_hosts, vec!["db.local:10.88.0.10"]);
}

#[test]
fn test_resolve_volumes_empty() {
    let (resolved, names) = resolve_volumes(vec![]).unwrap();
    assert!(resolved.is_empty());
    assert!(names.is_empty());
}

#[test]
fn volumes_stop_at_the_first_failure() {
    let (resolved, names) = resolve_volumes(vec![
        Ok(("/data:/data".to_string(), None)),
        Ok(("/store/v1:/v".to_string(), Some("v1".to_string()))),
    ])
    .unwrap();
    assert_eq!(resolved, vec!["/data:/data", "/store/v1:/v"]);
    assert_eq!(names, vec!["v1"]);
    let err = resolve_volumes(vec![Err("first".to_string()), Err("second".to_string())]).unwrap_err();
    assert_eq!(err, "first");
}

#[test]
fn labels_name_their_kind_in_errors() {
    let err = parse_pairs_as(&strings(&["broken"]), "label").unwrap_err();
    assert_eq!(err, "Invalid label (expected KEY=VALUE): broken");
}

#[test]
fn users_are_taken_by_number_or_root() {
    assert_eq!(normalize_user_option(&Some("root".to_string())).unwrap().as_deref(), Some("0"));
    assert_eq!(normalize_user_option(&Some("1000:1000".to_string())).unwrap().as_deref(), Some("1000:1000"));
    assert_eq!(normalize_user_option(&None).unwrap(), None);
    assert!(normalize_user_option(&Some("alice".to_string())).is_err());
}

#[test]
fn ports_are_normalized() {
    assert_eq!(normalize_port_maps(&strings(&["8080:80"])).unwrap(), vec!["8080:80"]);
    assert_eq!(normalize_port_maps(&strings(&["8080:80/tcp"])).unwrap(), vec!["8080:80"]);
    assert!(normalize_port_maps(&strings(&["8080:80", "53:53/udp"])).is_err());
}

#[test]
fn stop_signal_of_the_command_comes_first() {
    let asked = Some("SIGINT".to_string());
    let image = Some("SIGQUIT".to_string());
    assert_eq!(effective_stop_signal(&asked, &image).as_deref(), Some("SIGINT"));
    assert_eq!(effective_stop_signal(&None, &image).as_deref(), Some("SIGQUIT"));
    assert_eq!(effective_stop_signal(&None, &None), None);
}

#[test]
fn options_that_cannot_be_met_are_refused() {
    let platform = Ok(Platform {
        os: "linux".to_string(),
        architecture: "amd64".to_string(),
        label: "linux/amd64".to_string(),
    });
    let mut args = default_common_args();
    assert!(validate_common_args(&args, &Ok(()), &platform, "amd64").is_ok());
    args.cpus = 0;
    assert_eq!(
        validate_common_args(&args, &Ok(()), &platform, "amd64").unwrap_err(),
        "--cpus must be greater than 0"
    );
    args.cpus = 256;
    assert_eq!(
        validate_common_args(&args, &Ok(()), &platform, "amd64").unwrap_err(),
        "--cpus=256 exceeds the libkrun backend limit of 255"
    );
    assert!(validate_runtime_platform(&platform, "arm64").unwrap_err().contains("CPU emulation"));
    assert_eq!(validate_runtime_platform(&Err("bad".to_string()), "arm64").unwrap_err(), "bad");
}

#[test]
fn phases_follow_the_flags() {
    let mut args = default_run_args();
    assert_eq!(run_phase(&args), RunPhase::Foreground);
    args.tty = true;
    assert_eq!(run_phase(&args), RunPhase::Tty);
    args.detach = true;
    assert_eq!(run_phase(&args), RunPhase::Detached);
}

#[test]
fn trusted_execution_names_the_image_where_nothing_else_is_named() {
    let mut args = default_run_args();
    assert!(matches!(build_tee_config(&args), TeeConfig::Off));
    args.tee_simulate = true;
    match build_tee_config(&args) {
        TeeConfig::SevSnp { workload_id, simulate } => {
            assert_eq!(workload_id, "test");
            assert!(simulate);
        }
        TeeConfig::Off => panic!("expected trusted execution"),
    }
}

#[test]
fn shared_memory_becomes_a_mount() {
    let out = with_shm(&strings(&["/tmp"]), Some(1024));
    assert_eq!(out.len(), 2);
    assert!(out[1].starts_with("/dev/shm"));
    assert_eq!(with_shm(&strings(&["/tmp"]), None), vec!["/tmp"]);
    assert_eq!(stop_timeout_ms(Some(3), 10), 3000);
    assert_eq!(stop_timeout_ms(None, 10), 10);
}

fn run_inputs() -> RunInputs {
    RunInputs {
        options: Ok(()),
        memory: Ok(512),
        log_driver: Ok(LogDriver::JsonFile),
        generated_name: "happy_box".to_string(),
    }
}

#[test]
fn run_reads_its_options_in_order() {
    let args = default_run_args();
    let basics = try_begin_run(&args, &run_inputs()).unwrap().unwrap();
    assert_eq!(basics.name, "happy_box");
    assert_eq!(basics.memory_mb, 512);
    assert_eq!(basics.restart_policy, "no");

    let mut inputs = run_inputs();
    inputs.memory = Err("no number".to_string());
    assert_eq!(try_begin_run(&args, &inputs).unwrap().unwrap_err(), "Invalid --memory: no number");
    inputs.options = Err("cannot".to_string());
    assert_eq!(try_begin_run(&args, &inputs).unwrap().unwrap_err(), "cannot");

    let mut args = default_run_args();
    args.common.restart = "sometimes".to_string();
    assert!(try_begin_run(&args, &run_inputs()).unwrap().is_err());
    let mut args = default_run_args();
    args.common.memory_reservation = Some("17179869184g".to_string());
    assert!(try_begin_run(&args, &run_inputs()).is_none());
}

#[test]
fn run_prepares_the_configuration_of_its_box() {
    let mut args = default_run_args();
    args.common.shm_size = Some("64m".to_string());
    args.common.publish = strings(&["8080:80"]);
    args.common.labels = strings(&["tier=web"]);
    let basics = try_begin_run(&args, &run_inputs()).unwrap().unwrap();
    let maps = read_maps(&args.common).unwrap();
    assert_eq!(maps.labels.get("tier").unwrap(), "web");
    let prepared = try_finish_run(&args, &basics, &maps, &StrMap::new(), &strings(&["/a:/b"])).unwrap().unwrap();
    assert_eq!(prepared.shm_size, Some(64 * 1024 * 1024));
    assert_eq!(prepared.config.volumes, vec!["/a:/b"]);
    args.common.shm_size = Some("17179869184g".to_string());
    assert!(try_finish_run(&args, &basics, &maps, &StrMap::new(), &vec![]).is_none());
}

#[test]
fn setup_undoes_what_it_has_done() {
    let mut record = make_record("id-1", "web", "running", Some(1));
    match setup_step(SetupStage::Connect, true, &record, None, 10_000, "/tmp") {
        Ok(next) => assert_eq!(next, SetupStage::Boot),
        Err(_) => panic!("expected the next stage"),
    }
    assert!(matches!(
        setup_step(SetupStage::Connect, false, &record, None, 10_000, "/tmp"),
        Err(SetupUndo::Nothing)
    ));
    assert!(matches!(
        setup_step(SetupStage::AddRecord, false, &record, None, 10_000, "/tmp"),
        Err(SetupUndo::Destroy { signal: 15, timeout_ms: 10_000, steps })
            if matches!(steps.last().unwrap(), CleanupStep::RemoveRecord { box_id } if box_id == "id-1")
    ));
    record.stop_timeout = Some(3);
    assert!(matches!(
        setup_step(SetupStage::MakeLogDir, false, &record, Some(2), 10_000, "/tmp"),
        Err(SetupUndo::Destroy { signal: 2, timeout_ms: 3_000, .. })
    ));
    assert_eq!(stop_options(&record, None, 10_000), StopOptions { signal: 15, timeout_ms: 3_000 });
}

fn create_inputs() -> CreateInputs {
    let mut env = StrMap::new();
    env.insert("A".to_string(), "1".to_string());
    CreateInputs { options: Ok(()), memory: Ok(256), env: Ok(env), network: Ok(()) }
}

#[test]
fn create_reads_its_options_in_order() {
    let mut args = CreateArgs { common: default_common_args(), cmd: strings(&["sleep", "1"]) };
    args.common.publish = strings(&["8080:80"]);
    args.common.labels = strings(&["a=b"]);
    let basics = try_begin_create(&args, &create_inputs()).unwrap().unwrap();
    assert_eq!(basics.port_map, vec!["8080:80"]);
    assert_eq!(basics.labels.get("a").unwrap(), "b");
    assert_eq!(basics.env.get("A").unwrap(), "1");

    let mut inputs = create_inputs();
    inputs.network = Err("network 'x' not found".to_string());
    assert!(try_begin_create(&args, &inputs).unwrap().is_ok());
    args.common.network = Some("x".to_string());
    assert_eq!(try_begin_create(&args, &inputs).unwrap().unwrap_err(), "network 'x' not found");
    inputs.env = Err("no env".to_string());
    assert_eq!(try_begin_create(&args, &inputs).unwrap().unwrap_err(), "no env");
    args.common.labels = strings(&["broken"]);
    let err = try_begin_create(&args, &create_inputs()).unwrap().unwrap_err();
    assert_eq!(err, "Invalid label (expected KEY=VALUE): broken");
    args.common.publish = strings(&["nope"]);
    assert!(try_begin_create(&args, &inputs).unwrap().is_err());
}

#[test]
fn created_boxes_wait_to_be_started() {
    let mut args = CreateArgs { common: default_common_args(), cmd: strings(&["sleep", "1"]) };
    args.common.shm_size = Some("1k".to_string());
    args.common.entrypoint = Some("/bin/sh -c".to_string());
    args.common.health_cmd = Some("true".to_string());
    let basics = try_begin_create(&args, &create_inputs()).unwrap().unwrap();
    let shm = try_create_shm(&args).unwrap().unwrap();
    assert_eq!(shm, Some(1024));
    let facts = CreateFacts {
        box_id: "id-9".to_string(),
        short_id: "id9".to_string(),
        generated_name: "calm_box".to_string(),
        image_health_check: None,
        image_stop_signal: Some("SIGQUIT".to_string()),
        home: "/home/u/.a3s".to_string(),
        now: Timestamp { secs: 5, nanos: 6 },
    };
    let record = create_record(&args, &basics, shm, &strings(&["/a:/b"]), &vec![], &facts);
    assert_eq!(record.status, "created");
    assert_eq!(record.name, "calm_box");
    assert_eq!(record.box_dir, "/home/u/.a3s/boxes/id-9");
    assert_eq!(record.exec_socket_path, "/home/u/.a3s/boxes/id-9/sockets/exec.sock");
    assert_eq!(record.console_log, "/home/u/.a3s/boxes/id-9/logs/console.log");
    assert_eq!(record.entrypoint, Some(strings(&["/bin/sh", "-c"])));
    assert_eq!(record.stop_signal.as_deref(), Some("SIGQUIT"));
    assert_eq!(record.health_status, "none");
    assert!(record.health_check.is_some());
    assert_eq!(record.started_at, None);
    args.common.shm_size = Some("lots".to_string());
    assert!(try_create_shm(&args).unwrap().unwrap_err().starts_with("Invalid --shm-size: "));
    args.common.shm_size = Some("17179869184g".to_string());
    assert!(try_create_shm(&args).is_none());
}

#[test]
fn run_boxes_are_recorded_as_they_started() {
    let mut args = default_run_args();
    args.rm = true;
    args.cmd = strings(&["sleep", "1"]);
    args.common.network = Some("net".to_string());
    args.common.hostname = Some("h".to_string());
    args.common.stop_signal = Some("SIGINT".to_string());
    let basics = RunBasics {
        restart_policy: "always".to_string(),
        max_restart_count: 3,
        memory_mb: 256,
        resource_limits: ResourceLimits::default(),
        log_config: LogConfig::default(),
        name: "web".to_string(),
    };
    let mut labels = StrMap::new();
    labels.insert("k".to_string(), "v".to_string());
    let maps = RunMaps { port_map: strings(&["80:80"]), labels, entrypoint: Some(strings(&["/init"])) };
    let mut env = StrMap::new();
    env.insert("A".to_string(), "1".to_string());
    let facts = BootFacts {
        box_id: "id-1".to_string(),
        short_id: "id1".to_string(),
        pid: Some(77),
        exec_socket_path: Some("/run/s/exec.sock".to_string()),
        anonymous_volumes: strings(&["anon"]),
        image_health_check: None,
        image_stop_signal: Some("SIGQUIT".to_string()),
        created_at: Timestamp { secs: 1, nanos: 0 },
        started_at: Timestamp { secs: 2, nanos: 0 },
    };
    let r = run_record(&args, &basics, &maps, &env, &strings(&["/a:/b"]), &strings(&["vol"]), Some(64), &facts, "/h");
    assert_eq!((r.id.as_str(), r.name.as_str(), r.status.as_str()), ("id-1", "web", "running"));
    assert_eq!((r.pid, r.memory_mb, r.max_restart_count), (Some(77), 256, 3));
    assert_eq!(r.box_dir, "/h/boxes/id-1");
    assert_eq!(r.exec_socket_path, "/run/s/exec.sock");
    assert_eq!(r.console_log, "/h/boxes/id-1/logs/console.log");
    assert_eq!(r.started_at, Some(Timestamp { secs: 2, nanos: 0 }));
    assert_eq!(r.env.get("A").unwrap(), "1");
    assert_eq!(r.labels.get("k").unwrap(), "v");
    assert_eq!(r.stop_signal.as_deref(), Some("SIGINT"));
    assert_eq!(r.network_name.as_deref(), Some("net"));
    assert!(r.auto_remove && r.health_check.is_none() && r.shm_size == Some(64));

    let gone = run_teardown(&r, &args.common.network, true);
    assert_eq!(gone.detach, vec!["vol"]);
    assert_eq!(gone.network.as_deref(), Some("net"));
    assert!(matches!(&gone.sockets[..], [CleanupStep::TerminatePasst { dir }, CleanupStep::RemoveDir { path }]
        if dir == "/run/s" && path == "/run/s"));
    let removal = gone.removal.unwrap();
    assert!(matches!(&removal[..], [
        CleanupStep::RemoveVolume { name },
        CleanupStep::RemoveRecord { box_id },
        CleanupStep::RemoveDir { path },
    ] if name == "anon" && box_id == "id-1" && path == "/h/boxes/id-1"));
    assert!(run_teardown(&r, &args.common.network, false).removal.is_none());

    let stopped = cleanup_stopped_box(&r);
    assert!(matches!(&stopped[..2], [CleanupStep::DetachVolumes { .. }, CleanupStep::Disconnect { network, .. }]
        if network == "net"));
    assert_eq!(stopped.len(), 4);
}

#[test]
fn interactive_runs_ask_for_a_terminal() {
    let mut args = default_run_args();
    args.cmd = strings(&["sh"]);
    args.common.workdir = Some("/w".to_string());
    args.common.user = Some("root".to_string());
    let mut env = StrMap::new();
    env.insert("A".to_string(), "1".to_string());
    let q = pty_request(&args, &env, None).unwrap();
    assert_eq!(q.cmd, vec!["sh"]);
    assert_eq!(q.env, vec!["A=1"]);
    assert_eq!(q.working_dir.as_deref(), Some("/w"));
    assert_eq!((q.cols, q.rows), (80, 24));
    assert_eq!(pty_request(&args, &env, Some((120, 40))).unwrap().cols, 120);
    args.common.user = Some("nobody".to_string());
    assert!(pty_request(&args, &env, None).is_err());
    assert_eq!(pty_socket(&None, "/h", "id"), "/h/boxes/id/sockets/pty.sock");
    assert_eq!(pty_socket(&Some("/p".to_string()), "/h", "id"), "/p");
}

#[test]
fn foreground_runs_end_for_a_reason() {
    assert_eq!(foreground_step(ForegroundEvent::Interrupt), Some(ForegroundStopReason::UserInterrupted));
    let tick = |exited, healthy| foreground_step(ForegroundEvent::Tick { exited, healthy });
    assert_eq!(tick(true, false), Some(ForegroundStopReason::ProcessExited));
    assert_eq!(tick(false, false), Some(ForegroundStopReason::VmUnhealthy));
    assert_eq!(tick(false, true), None);
    assert_eq!(exit_with(Some(3)), Some(3));
    assert_eq!(exit_with(Some(0)), None);
    assert_eq!(exit_with(None), None);
}

#[test]
fn pulled_layers_are_shown_by_the_end_of_their_digest() {
    let digest = "sha256:00112233445566778899aabbccddeeff";
    assert_eq!(
        pull_progress("nginx", 1, 2, digest, 1_572_864),
        vec!["Pulling nginx...", "  [1/2] aabbccddeeff: Pulling 1.5 MB..."]
    );
    assert_eq!(pull_progress("nginx", 1, 2, digest, -2048), vec!["  [1/2] aabbccddeeff: 2.0 KB \u{2713}"]);
    assert_eq!(pull_progress("nginx", 2, 2, "short", 9), vec!["  [2/2] short: Pulling 9 B..."]);
    assert_eq!(pull_progress("nginx", 1, 1, "s", 0), vec!["  [1/1] s: Pulling 0 B..."]);
}

#[test]
fn boxes_that_cannot_be_kept_leave_nothing() {
    let mut record = make_record("id-1", "web", "created", None);
    record.volume_names = strings(&["vol"]);
    assert_eq!(create_step(CreateStage::AddRecord, true, &record, "/tmp").unwrap(), CreateStage::AttachVolumes);
    assert_eq!(create_step(CreateStage::AttachVolumes, true, &record, "/tmp").unwrap(), CreateStage::Done);
    for stage in [CreateStage::AddRecord, CreateStage::AttachVolumes] {
        let steps = create_step(stage, false, &record, "/tmp").unwrap_err();
        assert!(matches!(&steps[0], CleanupStep::DetachVolumes { volumes, .. } if volumes == &strings(&["vol"])));
        assert!(steps
            .iter()
            .any(|s| matches!(s, CleanupStep::RemoveDirIfPresent { path } if path == &record.box_dir)));
        assert!(matches!(steps.last().unwrap(), CleanupStep::RemoveRecord { box_id } if box_id == "id-1"));
    }
}

#[test]
fn later_variables_take_the_place_of_earlier_ones() {
    let file = |pairs: &[(&str, &str)]| {
        let mut m = StrMap::new();
        for (k, v) in pairs {
            m.insert(k.to_string(), v.to_string());
        }
        m
    };
    let files = vec![file(&[("A", "1"), ("B", "1")]), file(&[("B", "2"), ("C", "2")])];
    let env = merge_env(&files, &strings(&["C=3", "D=x=y"])).unwrap();
    assert_eq!(env.get("A").unwrap(), "1");
    assert_eq!(env.get("B").unwrap(), "2");
    assert_eq!(env.get("C").unwrap(), "3");
    assert_eq!(env.get("D").unwrap(), "x=y");
    assert_eq!(env.len(), 4);
    let err = merge_env(&files, &strings(&["E=1", "bare"])).unwrap_err();
    assert_eq!(err, "Invalid environment variable (expected KEY=VALUE): bare");
}
