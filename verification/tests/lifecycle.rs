//! Boxes over their life: signals, stops, renames, removals and snapshots.

use a3s_box::cleanup::{
    cleanup_anonymous_volumes, cleanup_external_socket_dir, cleanup_partial_box_record, cleanup_record_resources,
    cleanup_removed_box, record_network_name, CleanupStep,
};
use a3s_box::commands::attach::{attach_plan, execute_pty_attach, AttachArgs, AttachPlan};
use a3s_box::commands::batch::batch_result;
use a3s_box::commands::export;
use a3s_box::commands::image_prune::ImagePruneMode;
use a3s_box::commands::info::{
    availability, box_counts, boxes_line, capability_lines, images_line, sum_sizes, virtualization_line, BoxCounts,
    PlatformCapabilities,
};
use a3s_box::commands::inject_secret::{collect_secrets, parse_secret, secret_lines, InjectSecretArgs};
use a3s_box::commands::kill::{
    after_signal, is_stopping_signal, parse_signal, resumes_first, send_failed, signal_status_transition,
    signaled_exit_code, signalled_line, SIGCONT, SIGHUP, SIGINT, SIGKILL, SIGQUIT, SIGSTOP, SIGTERM, SIGUSR1, SIGUSR2,
};
use a3s_box::commands::login::{credentials, password_source, registry_server, LoginArgs, PasswordSource};
use a3s_box::commands::logout::logout_line;
use a3s_box::commands::pause::{check_pause, pause_one};
use a3s_box::commands::port::{port_lines, PortMapping};
use a3s_box::commands::rename::rename_box;
use a3s_box::commands::restart::{mark_stopped, restart_plan, restart_settings, restart_timeout, RestartPlan};
use a3s_box::commands::rm::{rm_one, rm_plan};
use a3s_box::commands::seal::normalize_policy;
use a3s_box::commands::shell::{shell_request, ShellArgs};
use a3s_box::commands::snapshot::{
    format_size, resolve_box, resolve_snapshot, restore_record, snapshot_heading, snapshot_id, snapshot_line,
    snapshot_metadata, snapshot_not_found, timestamp_nanos, RestoreFacts, SnapshotCreateArgs, SnapshotMetadata,
};
use a3s_box::commands::start::{check_start, mark_started, starting_line};
use a3s_box::commands::stats::{build_box_stats, select_targets, stats_step, StatsStep};
use a3s_box::commands::stop::{after_stop, stop_settings, stopped_exit_code, stopped_line, StopOutcome};
use a3s_box::commands::store::{image_cache_size, images_dir, resolve_box_rootfs};
use a3s_box::commands::system_prune::{
    image_prune_mode, is_prunable_box, prunable_boxes, prune_warning, removed_box_line, removed_image_line,
    removed_network_line, summary_line,
};
use a3s_box::image_usage::{
    active_image_references, is_prunable_reference, prunable_images, referenced_images, ImageReferenceScope,
    StoredReference,
};
use a3s_box::policy::{parse_restart_policy, should_restart};
use a3s_box::state::{BoxRecord, LogConfig, NetworkMode, ResourceLimits, StateFile, Timestamp};
use a3s_box::status;
use a3s_box::strmap::StrMap;

fn make_record(id: &str, name: &str, status: &str, pid: Option<u32>) -> BoxRecord {
    BoxRecord {
        id: id.to_string(),
        short_id: id.chars().filter(|c| *c != '-').take(12).collect(),
        name: name.to_string(),
        image: "alpine:latest".to_string(),
        status: status.to_string(),
        pid,
        cpus: 2,
        memory_mb: 512,
        volumes: vec![],
        env: StrMap::new(),
        cmd: vec![],
        entrypoint: None,
        box_dir: format!("/tmp/{id}"),
        exec_socket_path: format!("/tmp/{id}/sockets/exec.sock"),
        console_log: format!("/tmp/{id}/console.log"),
        created_at: Timestamp { secs: 1_700_000_000, nanos: 0 },
        started_at: None,
        auto_remove: false,
        hostname: None,
        user: None,
        workdir: None,
        restart_policy: "no".to_string(),
        port_map: vec![],
        labels: StrMap::new(),
        stopped_by_user: false,
        restart_count: 0,
        max_restart_count: 0,
        exit_code: None,
        health_check: None,
        healthcheck_disabled: false,
        health_status: "none".to_string(),
        health_retries: 0,
        health_last_check: None,
        network_mode: NetworkMode::Tsi,
        network_name: None,
        volume_names: vec![],
        tmpfs: vec![],
        anonymous_volumes: vec![],
        resource_limits: ResourceLimits::default(),
        log_config: LogConfig::default(),
        add_host: vec![],
        platform: None,
        init: false,
        read_only: false,
        cap_add: vec![],
        cap_drop: vec![],
        security_opt: vec![],
        privileged: false,
        devices: vec![],
        gpus: None,
        shm_size: None,
        stop_signal: None,
        stop_timeout: None,
        oom_kill_disable: false,
        oom_score_adj: None,
    }
}

fn strings(l: &[&str]) -> Vec<String> {
    l.iter().map(|s| s.to_string()).collect()
}

fn moment(secs: i64) -> Timestamp {
    Timestamp { secs, nanos: 0 }
}

// Signals.

#[test]
fn test_parse_signal_kill() {
    assert_eq!(parse_signal("KILL").unwrap(), SIGKILL);
    assert_eq!(parse_signal("SIGKILL").unwrap(), SIGKILL);
    assert_eq!(parse_signal("kill").unwrap(), SIGKILL);
    assert_eq!(parse_signal("sigkill").unwrap(), SIGKILL);
}

#[test]
fn test_parse_signal_term() {
    assert_eq!(parse_signal("TERM").unwrap(), SIGTERM);
    assert_eq!(parse_signal("SIGTERM").unwrap(), SIGTERM);
    assert_eq!(parse_signal("term").unwrap(), SIGTERM);
}

#[test]
fn test_parse_signal_int() {
    assert_eq!(parse_signal("INT").unwrap(), SIGINT);
    assert_eq!(parse_signal("SIGINT").unwrap(), SIGINT);
}

#[test]
fn test_parse_signal_hup() {
    assert_eq!(parse_signal("HUP").unwrap(), SIGHUP);
    assert_eq!(parse_signal("SIGHUP").unwrap(), SIGHUP);
}

#[test]
fn test_parse_signal_quit() {
    assert_eq!(parse_signal("QUIT").unwrap(), SIGQUIT);
    assert_eq!(parse_signal("SIGQUIT").unwrap(), SIGQUIT);
}

#[test]
fn test_parse_signal_usr() {
    assert_eq!(parse_signal("USR1").unwrap(), SIGUSR1);
    assert_eq!(parse_signal("SIGUSR1").unwrap(), SIGUSR1);
    assert_eq!(parse_signal("USR2").unwrap(), SIGUSR2);
    assert_eq!(parse_signal("SIGUSR2").unwrap(), SIGUSR2);
}

#[test]
fn test_parse_signal_stop_cont() {
    assert_eq!(parse_signal("STOP").unwrap(), SIGSTOP);
    assert_eq!(parse_signal("CONT").unwrap(), SIGCONT);
}

#[test]
fn test_parse_signal_numeric() {
    assert_eq!(parse_signal("9").unwrap(), 9);
    assert_eq!(parse_signal("15").unwrap(), 15);
}

#[test]
fn test_parse_signal_unknown() {
    assert!(parse_signal("INVALID").is_err());
    assert!(parse_signal("SIGFOO").is_err());
    assert!(parse_signal("").is_err());
}

#[test]
fn signal_numbers_are_those_of_the_system() {
    assert_eq!(SIGHUP, libc::SIGHUP);
    assert_eq!(SIGINT, libc::SIGINT);
    assert_eq!(SIGQUIT, libc::SIGQUIT);
    assert_eq!(SIGKILL, libc::SIGKILL);
    assert_eq!(SIGUSR1, libc::SIGUSR1);
    assert_eq!(SIGUSR2, libc::SIGUSR2);
    assert_eq!(SIGTERM, libc::SIGTERM);
    assert_eq!(SIGCONT, libc::SIGCONT);
    assert_eq!(SIGSTOP, libc::SIGSTOP);
}

#[test]
fn test_is_stopping_signal() {
    assert!(is_stopping_signal(SIGKILL));
    assert!(is_stopping_signal(SIGTERM));
    assert!(is_stopping_signal(SIGINT));
    assert!(is_stopping_signal(SIGHUP));
    assert!(is_stopping_signal(SIGQUIT));
    assert!(!is_stopping_signal(SIGSTOP));
    assert!(!is_stopping_signal(SIGCONT));
    assert!(!is_stopping_signal(SIGUSR1));
}

#[test]
fn test_signaled_exit_code() {
    assert_eq!(signaled_exit_code(SIGKILL), 137);
    assert_eq!(signaled_exit_code(SIGTERM), 143);
}

#[test]
fn test_signal_status_transition() {
    assert_eq!(signal_status_transition(SIGSTOP), Some("paused"));
    assert_eq!(signal_status_transition(SIGCONT), Some("running"));
    assert_eq!(signal_status_transition(SIGUSR1), None);
}

#[test]
fn test_kill_accepts_paused_status_as_active() {
    let record = make_record("id", "box", "paused", Some(1));

    assert!(status::require_active(&record, "send a signal to").is_ok());
}

#[test]
fn signals_leave_their_mark() {
    let mut state = StateFile::new(vec![make_record("id", "box", "paused", Some(1))]);
    assert!(resumes_first(state.get(0), SIGTERM));
    assert!(!resumes_first(&make_record("id", "box", "running", Some(1)), SIGTERM));
    assert!(!after_signal(&mut state, "id", true, SIGCONT));
    assert_eq!(state.get(0).status, "running");
    assert!(!after_signal(&mut state, "id", false, SIGKILL));
    assert_eq!(state.get(0).status, "stopped");
    assert_eq!(state.get(0).exit_code, Some(137));
    assert_eq!(state.get(0).pid, None);
    assert!(after_signal(&mut state, "id", true, SIGKILL));
    assert_eq!(state.len(), 0);
    assert_eq!(signalled_line("box", true), "box (auto-removed)");
    assert_eq!(
        send_failed(9, "box", 77, "denied"),
        "Failed to send signal 9 to box box (PID 77): denied"
    );
}

// Stops.

#[test]
fn test_stopped_exit_code_uses_graceful_signal_code() {
    assert_eq!(stopped_exit_code(None, Some(StopOutcome::GracefulExit), 15), Some(143));
}

#[test]
fn test_stopped_exit_code_uses_forced_kill_code() {
    assert_eq!(stopped_exit_code(Some(7), Some(StopOutcome::ForceKilled), 15), Some(137));
}

#[test]
fn test_stopped_exit_code_preserves_previous_when_already_exited() {
    assert_eq!(stopped_exit_code(Some(7), Some(StopOutcome::AlreadyExited), 15), Some(7));
}

#[test]
fn test_stop_accepts_paused_status_as_active() {
    let record = make_record("id", "box", "paused", Some(1));

    assert!(status::require_active(&record, "stop").is_ok());
}

#[test]
fn stops_leave_their_mark() {
    let settings = stop_settings(None, None, None);
    assert_eq!((settings.signal, settings.timeout), (15, 10));
    let settings = stop_settings(Some(3), Some(2), Some(20));
    assert_eq!((settings.signal, settings.timeout), (2, 3));
    assert_eq!(stop_settings(None, None, Some(20)).timeout, 20);
    let mut state = StateFile::new(vec![make_record("id", "box", "running", Some(1))]);
    assert!(!after_stop(&mut state, "id", false, Some(143)));
    let record = state.find_by_id("id").unwrap();
    assert_eq!(record.status, "stopped");
    assert!(record.stopped_by_user);
    assert_eq!(record.exit_code, Some(143));
    assert!(after_stop(&mut state, "id", true, None));
    assert!(state.find_by_id("id").is_none());
    assert_eq!(stopped_line("box", false), "box");
}

// Pauses.

#[test]
fn test_pause_rejects_non_running() {
    let mut state = StateFile::new(vec![make_record("id-1", "stopped_box", "stopped", None)]);
    let at = resolve_box(&state, "stopped_box").unwrap();
    let result = pause_one(&mut state, at, Ok(1), Ok(()));
    assert!(result.is_err());
    assert!(result.unwrap_err().contains("Cannot pause"));
}

#[test]
fn test_pause_rejects_created() {
    let mut state = StateFile::new(vec![make_record("id-1", "created_box", "created", None)]);
    let at = resolve_box(&state, "created_box").unwrap();
    let result = pause_one(&mut state, at, Ok(1), Ok(()));
    assert!(result.is_err());
}

#[test]
fn test_pause_rejects_already_paused() {
    let mut state = StateFile::new(vec![make_record("id-1", "paused_box", "paused", Some(99999))]);
    let at = resolve_box(&state, "paused_box").unwrap();
    let result = pause_one(&mut state, at, Ok(99999), Ok(()));
    assert!(result.is_err());
    assert!(result.unwrap_err().contains("Cannot pause"));
}

#[test]
fn test_pause_rejects_running_without_pid() {
    let mut state = StateFile::new(vec![make_record("id-1", "running_box", "running", None)]);
    let at = resolve_box(&state, "running_box").unwrap();
    let live = status::require_pid(state.get(at), "pause");

    let result = pause_one(&mut state, at, live, Ok(()));

    assert!(result.is_err());
    let error = result.unwrap_err();
    assert!(error.contains("no recorded PID"));
    assert!(error.contains("a3s-box ps"));
    assert_eq!(
        state.find_by_id("id-1").unwrap().status,
        "running",
        "stale PID failures must not mark the box paused"
    );
}

#[test]
fn test_pause_not_found() {
    let state = StateFile::new(vec![]);
    let result = resolve_box(&state, "nonexistent");
    assert!(result.is_err());
}

#[test]
fn pauses_leave_their_mark() {
    let mut state = StateFile::new(vec![make_record("id-1", "web", "running", Some(5))]);
    assert!(check_pause(state.get(0)).is_ok());
    let err = pause_one(&mut state, 0, Ok(5), Err("denied".to_string())).unwrap_err();
    assert_eq!(err, "Failed to pause box web with SIGSTOP: denied");
    assert_eq!(state.get(0).status, "running");
    pause_one(&mut state, 0, Ok(5), Ok(())).unwrap();
    assert_eq!(state.get(0).status, "paused");
    assert_eq!(state.get(0).pid, Some(5));
}

// Restarts and starts.

#[test]
fn test_restart_plan_stops_running_and_paused_first() {
    assert_eq!(
        restart_plan(&make_record("id-1", "running", "running", Some(1))).unwrap(),
        RestartPlan::StopThenStart
    );
    assert_eq!(
        restart_plan(&make_record("id-2", "paused", "paused", Some(1))).unwrap(),
        RestartPlan::StopThenStart
    );
}

#[test]
fn test_restart_plan_starts_inactive_boxes_directly() {
    assert_eq!(
        restart_plan(&make_record("id-1", "created", "created", None)).unwrap(),
        RestartPlan::StartOnly
    );
    assert_eq!(
        restart_plan(&make_record("id-2", "stopped", "stopped", None)).unwrap(),
        RestartPlan::StartOnly
    );
    assert_eq!(
        restart_plan(&make_record("id-3", "dead", "dead", None)).unwrap(),
        RestartPlan::StartOnly
    );
}

#[test]
fn restarts_and_starts_leave_their_mark() {
    assert!(restart_plan(&make_record("id", "odd", "odd", None)).is_err());
    assert_eq!(restart_timeout(Some(4), 10), 4);
    assert_eq!(restart_timeout(None, 10), 10);
    let settings = restart_settings(None, Some(4), 10);
    assert_eq!((settings.signal, settings.timeout), (15, 4));
    assert_eq!(restart_settings(Some(3), None, 10).signal, 3);
    let mut state = StateFile::new(vec![make_record("id", "box", "running", Some(1))]);
    assert!(check_start(state.get(0)).is_err());
    mark_stopped(&mut state, "id");
    assert_eq!(state.get(0).status, "stopped");
    assert_eq!(state.get(0).pid, None);
    assert!(check_start(state.get(0)).is_ok());
    mark_started(&mut state, "id", Some(9), Some("/s".to_string()), moment(3));
    assert_eq!(state.get(0).status, "running");
    assert_eq!(state.get(0).pid, Some(9));
    assert_eq!(state.get(0).exec_socket_path, "/s");
    assert_eq!(state.get(0).started_at, Some(moment(3)));
    assert!(starting_line("box").contains("box"));
}

#[test]
fn restart_policies_decide() {
    assert_eq!(parse_restart_policy("on-failure:3").unwrap(), ("on-failure".to_string(), 3));
    assert_eq!(parse_restart_policy("always").unwrap(), ("always".to_string(), 0));
    assert!(parse_restart_policy("maybe").is_err());
    let mut record = make_record("id", "box", "dead", None);
    assert!(!should_restart(&record));
    record.restart_policy = "always".to_string();
    assert!(should_restart(&record));
}

// Removal.

#[test]
fn test_rm_rejects_paused_without_force() {
    let mut state = StateFile::new(vec![make_record("id-1", "paused_box", "paused", None)]);
    let at = resolve_box(&state, "paused_box").unwrap();

    let result = rm_one(&mut state, at, false);

    assert!(result.is_err());
    let error = result.unwrap_err();
    assert!(error.contains("paused"));
    assert!(error.contains("--force"));
    assert!(state.find_by_id("id-1").is_some());
}

#[test]
fn test_rm_force_removes_paused_stale_record() {
    let mut state = StateFile::new(vec![make_record("id-1", "paused_box", "paused", None)]);
    let at = resolve_box(&state, "paused_box").unwrap();

    rm_one(&mut state, at, true).unwrap();

    assert!(state.find_by_id("id-1").is_none());
}

#[test]
fn removal_kills_only_live_boxes() {
    assert_eq!(rm_plan(&make_record("id", "box", "running", Some(4)), true).unwrap(), Some(4));
    assert_eq!(rm_plan(&make_record("id", "box", "stopped", None), false).unwrap(), None);
    let mut state =
        StateFile::new(vec![make_record("id-1", "a", "stopped", None), make_record("id-2", "b", "stopped", None)]);
    rm_one(&mut state, 0, false).unwrap();
    assert_eq!(state.len(), 1);
    assert_eq!(state.get(0).id, "id-2");
}

#[test]
fn cleanups_follow_the_record() {
    let mut record = make_record("id-1", "web", "running", Some(1));
    record.volume_names = strings(&["data"]);
    record.anonymous_volumes = strings(&["anon"]);
    record.network_mode = NetworkMode::Bridge { network: "net".to_string() };
    assert_eq!(record_network_name(&record).unwrap(), "net");
    let steps = cleanup_record_resources(&record);
    assert!(matches!(&steps[0], CleanupStep::DetachVolumes { volumes, box_id } if volumes == &strings(&["data"]) && box_id == "id-1"));
    assert!(steps.iter().any(|s| matches!(s, CleanupStep::Disconnect { network, .. } if network == "net")));
    assert!(matches!(&cleanup_anonymous_volumes(&strings(&["anon"]))[0], CleanupStep::RemoveVolume { name } if name == "anon"));
    let steps = cleanup_removed_box(&record, "/tmp");
    assert!(steps.iter().any(|s| matches!(s, CleanupStep::RemoveVolume { name } if name == "anon")));
    assert!(steps.iter().any(|s| matches!(s, CleanupStep::RemoveDir { path } if path == "/tmp/id-1")
        || matches!(s, CleanupStep::RemoveDirIfPresent { path } if path == "/tmp/id-1")));
    let steps = cleanup_partial_box_record(&record, "/tmp", true);
    assert!(steps.iter().any(|s| matches!(s, CleanupStep::RemoveRecord { box_id } if box_id == "id-1")));
    let steps = cleanup_external_socket_dir("/tmp/id-1", "/tmp/id-1/sockets/exec.sock");
    assert!(matches!(&steps[..], [CleanupStep::TerminatePasst { dir }] if dir == "/tmp/id-1/sockets"));
    let steps = cleanup_external_socket_dir("/tmp/id-1", "/run/s/exec.sock");
    assert!(steps.iter().any(|s| matches!(s, CleanupStep::RemoveDir { path } if path == "/run/s")));
}

#[test]
fn failures_of_many_boxes_are_told_together() {
    let queries = strings(&["a", "b"]);
    assert!(batch_result(&queries, &vec![Ok(()), Ok(())]).is_ok());
    let err = batch_result(&queries, &vec![Ok(()), Err("gone".to_string())]).unwrap_err();
    assert!(err.contains("b") && err.contains("gone"));
}

// Renames.

#[test]
fn test_rename_success() {
    let mut state = StateFile::new(vec![make_record("id-1", "old_name", "created", None)]);

    assert!(state.find_by_name("new_name").is_none());
    let found = resolve_box(&state, "old_name");
    assert_eq!(rename_box(&mut state, found, "new_name").unwrap(), "Renamed old_name → new_name");

    assert!(state.find_by_name("new_name").is_some());
    assert!(state.find_by_name("old_name").is_none());
}

#[test]
fn test_rename_conflict() {
    let mut state =
        StateFile::new(vec![make_record("id-1", "box_a", "created", None), make_record("id-2", "box_b", "created", None)]);

    assert!(state.find_by_name("box_b").is_some());
    let found = resolve_box(&state, "box_a");
    assert_eq!(rename_box(&mut state, found, "box_b").unwrap_err(), "Name \"box_b\" is already in use");
    assert_eq!(state.get(0).name, "box_a");
}

#[test]
fn test_rename_not_found() {
    let mut state = StateFile::new(vec![make_record("id-1", "box_a", "created", None)]);
    let found = resolve_box(&state, "nonexistent");
    assert!(found.is_err());
    assert!(rename_box(&mut state, found, "other").is_err());
}

#[test]
fn test_rename_by_id() {
    let mut state = StateFile::new(vec![make_record("abc-123", "old_name", "created", None)]);

    let found = resolve_box(&state, "abc-123");
    rename_box(&mut state, found, "new_name").unwrap();

    assert_eq!(state.find_by_id("abc-123").unwrap().name, "new_name");
}

// Statistics and counts.

#[test]
fn test_select_targets_without_query_includes_running_and_paused() {
    let state = StateFile::new(vec![
        make_record("id-1", "running_box", "running", Some(1)),
        make_record("id-2", "paused_box", "paused", Some(1)),
        make_record("id-3", "stopped_box", "stopped", None),
    ]);

    let targets = select_targets(&state, None).unwrap();
    let names: Vec<_> = targets.iter().map(|record| record.name.as_str()).collect();

    assert_eq!(names, vec!["running_box", "paused_box"]);
}

#[test]
fn test_select_targets_with_query_accepts_paused() {
    let state = StateFile::new(vec![make_record("id-1", "paused_box", "paused", Some(1))]);

    let targets = select_targets(&state, Some(resolve_box(&state, "paused_box"))).unwrap();

    assert_eq!(targets.len(), 1);
    assert_eq!(targets[0].status, "paused");
}

#[test]
fn test_select_targets_with_query_rejects_stopped() {
    let state = StateFile::new(vec![make_record("id-1", "stopped_box", "stopped", None)]);

    let error = select_targets(&state, Some(resolve_box(&state, "stopped_box"))).unwrap_err();

    assert!(error.contains("Cannot show stats for"));
    assert!(error.contains("a3s-box start stopped_box"));
}

#[test]
fn statistics_need_a_process() {
    assert!(build_box_stats(&make_record("id", "box", "running", None)).is_none());
    let target = build_box_stats(&make_record("id", "box", "running", Some(8))).unwrap();
    assert_eq!((target.pid, target.memory_limit_bytes), (8, 512 * 1024 * 1024));
    assert_eq!(stats_step(0, false), StatsStep::NoneActive);
    assert_eq!(stats_step(2, true), StatsStep::PrintOnce);
    assert_eq!(stats_step(2, false), StatsStep::PrintAndRepeat);
}

#[test]
fn test_box_counts_include_paused_as_active() {
    let state = StateFile::new(vec![
        make_record("id-1", "running", "running", Some(1)),
        make_record("id-2", "paused", "paused", Some(1)),
        make_record("id-3", "created", "created", None),
        make_record("id-4", "stopped", "stopped", None),
        make_record("id-5", "dead", "dead", None),
    ]);

    assert_eq!(box_counts(&state), BoxCounts { total: 5, active: 2, running: 1, paused: 1 });
}

#[test]
fn test_availability_labels() {
    assert_eq!(availability(true), "available");
    assert_eq!(availability(false), "unavailable");
}

#[test]
fn system_lines() {
    assert!(virtualization_line(&Ok(("KVM".to_string(), "ok".to_string()))).contains("KVM"));
    assert!(virtualization_line(&Err("none".to_string())).contains("none"));
    let counts = BoxCounts { total: 5, active: 2, running: 1, paused: 1 };
    assert!(boxes_line(Some(counts)).contains("5"));
    assert!(boxes_line(None).len() > 0);
    assert_eq!(sum_sizes(&vec![1, 2, 3]), 6);
    assert!(images_line(Some((2, "3 KB"))).contains("3 KB"));
    let lines = capability_lines(&PlatformCapabilities {
        os: "linux".into(),
        architecture: "x86_64".into(),
        vm_backend: "libkrun".into(),
        host_guest_channel: "vsock".into(),
        bridge_networking: "passt".into(),
        published_ports: true,
        tee_attestation: false,
        sealed_storage: false,
    });
    assert!(lines.iter().any(|l| l.contains("unavailable")));
}

#[test]
fn test_is_prunable_box_keeps_active_boxes() {
    assert!(!is_prunable_box(&make_record("id-1", "running", "running", Some(1))));
    assert!(!is_prunable_box(&make_record("id-2", "paused", "paused", Some(1))));
    assert!(is_prunable_box(&make_record("id-3", "created", "created", None)));
    assert!(is_prunable_box(&make_record("id-4", "stopped", "stopped", None)));
    assert!(is_prunable_box(&make_record("id-5", "dead", "dead", None)));
}

#[test]
fn test_active_image_references_include_paused() {
    let mut running = make_record("id-1", "running", "running", Some(1));
    running.image = "alpine:latest".to_string();
    let mut paused = make_record("id-2", "paused", "paused", Some(1));
    paused.image = "redis:latest".to_string();
    let mut stopped = make_record("id-3", "stopped", "stopped", None);
    stopped.image = "nginx:latest".to_string();
    let state = StateFile::new(vec![running, paused, stopped]);
    let full = vec![
        Some("docker.io/library/alpine:latest".to_string()),
        Some("docker.io/library/redis:latest".to_string()),
        Some("docker.io/library/nginx:latest".to_string()),
    ];

    let used_images = active_image_references(&state, &full);

    assert!(used_images.contains(&"alpine:latest".to_string()));
    assert!(used_images.contains(&"docker.io/library/alpine:latest".to_string()));
    assert!(used_images.contains(&"redis:latest".to_string()));
    assert!(!used_images.contains(&"nginx:latest".to_string()));

    let all = referenced_images(&state, ImageReferenceScope::AllBoxes, &full);
    assert!(all.contains(&"nginx:latest".to_string()));
    assert!(all.contains(&"docker.io/library/nginx:latest".to_string()));
    let image = |reference: &str, dangling: bool| StoredReference {
        reference: reference.to_string(),
        full: Some(format!("docker.io/library/{reference}")),
        dangling,
    };
    assert!(!is_prunable_reference(&image("nginx:latest", false), &all, ImagePruneMode::Unused));
    assert!(is_prunable_reference(&image("nginx:latest", false), &used_images, ImagePruneMode::Unused));
    let images = vec![image("nginx:latest", true), image("old:1", false), image("left", true)];
    assert_eq!(prunable_images(&images, &all, ImagePruneMode::Unused), vec![1, 2]);
    assert_eq!(prunable_images(&images, &all, ImagePruneMode::Dangling), vec![2]);
}

#[test]
fn test_image_prune_mode_defaults_to_dangling() {
    assert_eq!(image_prune_mode(false), ImagePruneMode::Dangling);
    assert_eq!(image_prune_mode(true), ImagePruneMode::Unused);
}

#[test]
fn pruning_keeps_what_runs() {
    let records = vec![
        make_record("id-1", "a", "running", Some(1)),
        make_record("id-2", "b", "dead", None),
        make_record("id-3", "c", "created", None),
    ];
    assert_eq!(prunable_boxes(&records), vec![1, 2]);
    assert_ne!(prune_warning(false), prune_warning(true));
    assert!(removed_box_line("b").contains("b"));
    assert!(removed_image_line("i").contains("i"));
    assert!(removed_network_line("n").contains("n"));
    assert!(summary_line(2, 3, 4, "5 KB").contains("5 KB"));
}

// Terminals.

#[test]
fn test_shell_args_defaults() {
    let args =
        ShellArgs { box_name: "mybox".to_string(), shell: "/bin/sh".to_string(), user: None, workdir: None };
    assert_eq!(args.shell, "/bin/sh");
    assert!(args.user.is_none());
    assert!(args.workdir.is_none());
}

#[test]
fn test_shell_args_custom() {
    let args = ShellArgs {
        box_name: "mybox".to_string(),
        shell: "/bin/bash".to_string(),
        user: Some("root".to_string()),
        workdir: Some("/workspace".to_string()),
    };
    assert_eq!(args.shell, "/bin/bash");
    assert_eq!(args.user.as_deref(), Some("root"));
    assert_eq!(args.workdir.as_deref(), Some("/workspace"));
    let request = shell_request(args, Ok(()), Some((100, 40))).unwrap();
    assert_eq!(request.cmd, vec!["/bin/bash"]);
    assert_eq!(request.user.as_deref(), Some("0"));
}

#[test]
fn attaching_follows_the_console_without_a_terminal() {
    let record = make_record("id", "web", "running", Some(1));
    let mut args = AttachArgs { box_name: "web".to_string(), interactive: true, tty: true };
    assert!(matches!(attach_plan(&args, &record, false), AttachPlan::Terminal));
    args.tty = false;
    args.interactive = false;
    assert!(matches!(attach_plan(&args, &record, true), AttachPlan::Follow { .. }));
    assert!(matches!(attach_plan(&args, &record, false), AttachPlan::Missing(_)));
    let request = execute_pty_attach(None);
    assert_eq!((request.cols, request.rows), (80, 24));
}

// Policies and secrets.

#[test]
fn test_normalize_policy_measurement_and_chip() {
    assert_eq!(normalize_policy("measurement-and-chip").unwrap(), "MeasurementAndChip");
}

#[test]
fn test_normalize_policy_measurement_only() {
    assert_eq!(normalize_policy("measurement-only").unwrap(), "MeasurementOnly");
}

#[test]
fn test_normalize_policy_chip_only() {
    assert_eq!(normalize_policy("chip-only").unwrap(), "ChipOnly");
}

#[test]
fn test_normalize_policy_case_insensitive() {
    assert_eq!(normalize_policy("Measurement-And-Chip").unwrap(), "MeasurementAndChip");
    assert_eq!(normalize_policy("CHIP-ONLY").unwrap(), "ChipOnly");
}

#[test]
fn test_normalize_policy_invalid() {
    assert!(normalize_policy("invalid").is_err());
    assert!(normalize_policy("").is_err());
}

#[test]
fn test_parse_secret_basic() {
    let entry = parse_secret("API_KEY=sk-12345", false).unwrap();
    assert_eq!(entry.name, "API_KEY");
    assert_eq!(entry.value, "sk-12345");
    assert!(!entry.set_env);
}

#[test]
fn test_parse_secret_with_env() {
    let entry = parse_secret("DB_PASS=secret", true).unwrap();
    assert_eq!(entry.name, "DB_PASS");
    assert_eq!(entry.value, "secret");
    assert!(entry.set_env);
}

#[test]
fn test_parse_secret_value_with_equals() {
    let entry = parse_secret("CONN=postgres://host?opt=1", false).unwrap();
    assert_eq!(entry.name, "CONN");
    assert_eq!(entry.value, "postgres://host?opt=1");
}

#[test]
fn test_parse_secret_empty_value() {
    let entry = parse_secret("EMPTY=", false).unwrap();
    assert_eq!(entry.name, "EMPTY");
    assert_eq!(entry.value, "");
}

#[test]
fn test_parse_secret_no_equals() {
    assert!(parse_secret("INVALID", false).is_err());
}

#[test]
fn test_parse_secret_empty_name() {
    assert!(parse_secret("=value", false).is_err());
}

#[test]
fn secrets_come_from_the_command_and_a_file() {
    assert_eq!(secret_lines("# note\nA=1\n\n  B=2  \n"), vec!["A=1", "B=2"]);
    let args = InjectSecretArgs {
        box_name: "web".to_string(),
        secrets: strings(&["C=3"]),
        set_env: true,
        allow_simulated: false,
        file: Some("f".to_string()),
    };
    let all = collect_secrets(&args, Some("A=1\n")).unwrap();
    assert_eq!(all.len(), 2);
    assert!(all.iter().all(|s| s.set_env));
    let none = InjectSecretArgs {
        box_name: "web".to_string(),
        secrets: vec![],
        set_env: false,
        allow_simulated: false,
        file: None,
    };
    assert!(collect_secrets(&none, None).is_err());
}

// Snapshots.

#[test]
fn test_format_size_bytes() {
    assert_eq!(format_size(0), "0B");
    assert_eq!(format_size(512), "512B");
}

#[test]
fn test_format_size_kb() {
    assert_eq!(format_size(1024), "1.0KB");
    assert_eq!(format_size(2560), "2.5KB");
}

#[test]
fn test_format_size_mb() {
    assert_eq!(format_size(1024 * 1024), "1.0MB");
    assert_eq!(format_size(5 * 1024 * 1024), "5.0MB");
}

#[test]
fn test_format_size_gb() {
    assert_eq!(format_size(1024 * 1024 * 1024), "1.0GB");
    assert_eq!(format_size(2 * 1024 * 1024 * 1024), "2.0GB");
}

#[test]
fn sizes_are_written_as_the_quotient_rounds() {
    let kb: f64 = 1024.0;
    let samples: [u64; 12] = [
        1023,
        1025,
        1075,
        1076,
        1126,
        10_000,
        1_048_575,
        1_048_577,
        123_456_789,
        1_073_741_823,
        9_007_199_254_740_993,
        u64::MAX,
    ];
    for n in samples {
        let b = n as f64;
        let expected = if n < 1024 {
            format!("{n}B")
        } else if n < 1024 * 1024 {
            format!("{:.1}KB", b / kb)
        } else if n < 1024 * 1024 * 1024 {
            format!("{:.1}MB", b / (kb * kb))
        } else {
            format!("{:.1}GB", b / (kb * kb * kb))
        };
        assert_eq!(format_size(n), expected);
    }
}

fn metadata(id: &str, name: &str) -> SnapshotMetadata {
    let args = SnapshotCreateArgs {
        box_id: "web".to_string(),
        name: Some(name.to_string()),
        description: Some("note".to_string()),
    };
    let mut record = make_record("id-1", "web", "running", Some(1));
    record.cmd = strings(&["sleep", "9"]);
    record.labels.insert("a".to_string(), "b".to_string());
    let mut m = snapshot_metadata(&args, &record, moment(1_700_000_000));
    m.id = id.to_string();
    m
}

#[test]
fn snapshots_keep_what_they_restore() {
    let m = metadata("snap-1", "backup");
    assert_eq!(m.name, "backup");
    assert_eq!(m.source_box_id, "id-1");
    assert_eq!(m.vcpus, 2);
    let facts = RestoreFacts {
        box_id: "id-7".to_string(),
        short_id: "id7".to_string(),
        generated_name: "calm_box".to_string(),
        home: "/h".to_string(),
        now: moment(9),
    };
    let record = restore_record(&m, &None, &facts);
    assert_eq!(record.cmd, strings(&["sleep", "9"]));
    assert_eq!(record.labels.get("a").unwrap(), "b");
    assert_eq!(record.cpus, 2);
    assert_eq!(record.memory_mb, 512);
    assert_eq!(record.id, "id-7");
    assert_eq!(record.status, "created");
    assert_eq!(restore_record(&m, &Some("back".to_string()), &facts).name, "back");
}

#[test]
fn snapshots_are_found_by_id_and_then_by_name() {
    let by_id = resolve_snapshot(Some(metadata("snap-1", "x")), vec![], "snap-1").unwrap();
    assert_eq!(by_id.id, "snap-1");
    let by_name = resolve_snapshot(None, vec![metadata("snap-1", "x"), metadata("snap-2", "y")], "y").unwrap();
    assert_eq!(by_name.id, "snap-2");
    assert!(resolve_snapshot(None, vec![metadata("snap-1", "x")], "z").is_err());
    assert!(snapshot_not_found("z").contains("z"));
    assert!(snapshot_line(&metadata("snap-1", "x")).unwrap().contains("2023-11-14 22:13"));
    assert!(snapshot_heading().len() > 0);
}

#[test]
fn snapshot_names_carry_the_time() {
    let now = Timestamp { secs: 1_700_000_000, nanos: 123_456_789 };
    assert_eq!(timestamp_nanos(now), Some(1_700_000_000_123_456_789));
    let at = chrono::DateTime::from_timestamp(now.secs, now.nanos).unwrap();
    assert_eq!(timestamp_nanos(now), at.timestamp_nanos_opt());
    assert_eq!(timestamp_nanos(moment(10_000_000_000)), None);
    assert!(snapshot_id(now).contains("1700000000123"));
}

#[test]
fn boxes_are_found_by_id_name_or_prefix() {
    let state = StateFile::new(vec![
        make_record("abc-1", "web", "running", None),
        make_record("abd-2", "db", "running", None),
        make_record("xyz-3", "abc", "running", None),
    ]);
    assert_eq!(resolve_box(&state, "abc-1").unwrap(), 0);
    assert_eq!(resolve_box(&state, "db").unwrap(), 1);
    assert_eq!(resolve_box(&state, "xy").unwrap(), 2);
    assert!(resolve_box(&state, "ab").is_err());
    assert!(resolve_box(&state, "nope").is_err());
}

// Ports, stores and registries.

#[test]
fn ports_are_listed_until_one_cannot_be_read() {
    let web = PortMapping { host_port: 8080, guest_port: 80, protocol: "tcp".to_string() };
    let (lines, err) = port_lines(&vec![Ok(web), Err("bad".to_string())]);
    assert_eq!(lines.len(), 1);
    assert!(lines[0].contains("8080") && lines[0].contains("80/tcp"));
    assert_eq!(err.unwrap(), "Invalid persisted port mapping: bad");
}

#[test]
fn stores_and_file_systems_have_their_places() {
    assert_eq!(images_dir("/h/.a3s"), "/h/.a3s/images");
    assert_eq!(image_cache_size(None, Ok(1), 10).unwrap(), 10);
    assert_eq!(image_cache_size(Some("5g"), Ok(5), 10).unwrap(), 5);
    assert!(image_cache_size(Some("x"), Err("bad".to_string()), 10).is_err());
    assert_eq!(resolve_box_rootfs("/b", true, true).unwrap(), "/b/merged");
    assert_eq!(resolve_box_rootfs("/b", false, true).unwrap(), "/b/rootfs");
    assert_eq!(resolve_box_rootfs("/b", false, false), None);
    assert!(export::rootfs_missing("web", "/b").contains("web"));
    assert!(export::exported_line("web", "o.tar", "1 KB").contains("o.tar"));
}

#[test]
fn credentials_come_from_the_command_or_the_terminal() {
    let mut args = LoginArgs {
        server: None,
        username: Some("me".to_string()),
        password: None,
        password_stdin: true,
        skip_verify: false,
    };
    assert_eq!(registry_server(&args.server), "index.docker.io");
    assert_eq!(password_source(&args), PasswordSource::Input);
    let c = credentials(&args, "", "hidden\n").unwrap();
    assert_eq!((c.username.as_str(), c.password.as_str()), ("me", "hidden"));
    args.password_stdin = false;
    assert_eq!(password_source(&args), PasswordSource::Prompt);
    args.password = Some("p".to_string());
    assert_eq!(password_source(&args), PasswordSource::Given);
    assert!(logout_line("s", true) != logout_line("s", false));
}
