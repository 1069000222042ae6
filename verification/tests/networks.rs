//! Networks, services, copies, differences and updates.

use a3s_box::cleanup::{cleanup_partial_box_record, CleanupStep};
use a3s_box::commands::compose::{
    default_compose_file, explicit_compose_file, project_name, rollback_with_current, service_restart_policy,
    stop_service_process, validate_compose_restart_policies, ComposeDownArgs, ServiceBox, ServiceConfig, StopPlan,
    COMPOSE_FILES, LABEL_PROJECT, LABEL_SERVICE,
};
use a3s_box::commands::compose_service::{
    all_healthy, check_not_active, down_networks, plan_down, resolve_service_volumes, service_record, wait_step,
    wait_timed_out, BootFacts, ServiceSetup,
};
use a3s_box::commands::compose_show::{
    box_log_lines, execute_config, execute_ps, follow_step, log_prefix, log_unreadable, plan_logs, LogsPlan,
};
use a3s_box::commands::compose_up::{
    advance, next_action, start, ServicePlan, UpAction, UpEvent, UpPlan, UpStage,
};
use a3s_box::commands::container_update::{
    command_warning, live_plan, no_updates, parse_swap, try_apply_update, ContainerUpdateArgs, LivePlan, ResourceUpdate,
};
use a3s_box::commands::cp::{
    dir_from_line, dir_to_line, directory_request, file_from_line, file_to_line, parse_endpoint, plan_copy,
    read_dir_request, read_dir_result, read_file_request, read_file_result, shell_escape, write_dir_request,
    write_dir_result, write_file_request, write_file_result, CopyPlan, CpArgs, Endpoint, ExecOutput, DIR_TRANSFER_TIMEOUT_NS,
};
use a3s_box::commands::diff::{
    compute_changes, diff_lines, no_baseline_lines, takes_baseline, walk_dir, ChangeKind, DirEntry, FileInfo,
};
use a3s_box::commands::network::{
    add_labels, attach_box, begin_create, check_connect, clear_record_network, ensure_endpoint, finish_create,
    force_disconnect_network_endpoints, is_predefined_network, ls_row, parse_isolation, plan_disconnect,
    prune_unused_networks, removal_report, require_attachable, require_inactive_for_network_change, require_network,
    set_record_network, validate_attachable_network, validate_network_driver, CreateArgs, IsolationMode,
    NetworkConfig, NetworkEndpoint,
};
use a3s_box::state::{BoxRecord, LogConfig, NetworkMode, ResourceLimits, StateFile, Timestamp};
use a3s_box::strmap::StrMap;

fn make_record(id: &str, name: &str, status: &str, pid: Option<u32>) -> BoxRecord {
    BoxRecord {
        id: id.to_string(),
        short_id: id.chars().filter(|c| *c != '-').take(12).collect(),
        name: name.to_string(),
        image: "alpine:latest".to_string(),
        status: status.to_string(),
        pid,
        cpus: 2,
        memory_mb: 512,
        volumes: vec![],
        env: StrMap::new(),
        cmd: vec![],
        entrypoint: None,
        box_dir: format!("/tmp/{id}"),
        exec_socket_path: format!("/tmp/{id}/sockets/exec.sock"),
        console_log: format!("/tmp/{id}/console.log"),
        created_at: Timestamp { secs: 1_700_000_000, nanos: 0 },
        started_at: None,
        auto_remove: false,
        hostname: None,
        user: None,
        workdir: None,
        restart_policy: "no".to_string(),
        port_map: vec![],
        labels: StrMap::new(),
        stopped_by_user: false,
        restart_count: 0,
        max_restart_count: 0,
        exit_code: None,
        health_check: None,
        healthcheck_disabled: false,
        health_status: "none".to_string(),
        health_retries: 0,
        health_last_check: None,
        network_mode: NetworkMode::Tsi,
        network_name: None,
        volume_names: vec![],
        tmpfs: vec![],
        anonymous_volumes: vec![],
        resource_limits: ResourceLimits::default(),
        log_config: LogConfig::default(),
        add_host: vec![],
        platform: None,
        init: false,
        read_only: false,
        cap_add: vec![],
        cap_drop: vec![],
        security_opt: vec![],
        privileged: false,
        devices: vec![],
        gpus: None,
        shm_size: None,
        stop_signal: None,
        stop_timeout: None,
        oom_kill_disable: false,
        oom_score_adj: None,
    }
}

fn strings(l: &[&str]) -> Vec<String> {
    l.iter().map(|s| s.to_string()).collect()
}

fn moment(secs: i64) -> Timestamp {
    Timestamp { secs, nanos: 0 }
}

fn network(name: &str, subnet: &str) -> NetworkConfig {
    NetworkConfig {
        name: name.to_string(),
        driver: "bridge".to_string(),
        subnet: subnet.to_string(),
        gateway: "10.89.0.1".to_string(),
        isolation: IsolationMode::Open,
        labels: StrMap::new(),
        endpoints: StrMap::new(),
    }
}

fn endpoint(box_id: &str, box_name: &str, ip: &str) -> NetworkEndpoint {
    NetworkEndpoint { box_id: box_id.to_string(), box_name: box_name.to_string(), ip_address: ip.to_string() }
}

fn connected(name: &str, subnet: &str, box_id: &str, box_name: &str) -> NetworkConfig {
    let mut config = network(name, subnet);
    config.endpoints.insert(box_id.to_string(), endpoint(box_id, box_name, "10.89.0.2"));
    config
}

// Networks.

#[test]
fn test_validate_network_driver_accepts_bridge_only() {
    assert!(validate_network_driver("bridge").is_ok());

    let error = validate_network_driver("overlay").unwrap_err();
    assert!(error.contains("Unsupported network driver"));
}

#[test]
fn test_validate_attachable_network_rejects_unsupported_policy() {
    let mut config = network("testnet", "10.89.0.0/24");
    config.isolation = IsolationMode::Custom;
    let policy = Err("Unsupported network isolation mode 'custom'".to_string());

    let error = validate_attachable_network(&config, &policy).unwrap_err();

    assert!(error.contains("Unsupported network isolation mode"));
}

#[test]
fn test_ensure_endpoint_reuses_existing_endpoint_and_updates_name() {
    let mut config = network("testnet", "10.89.0.0/24");
    let first = ensure_endpoint(&mut config, "box-1", "old-name", Ok(endpoint("box-1", "old-name", "10.89.0.2"))).unwrap();
    let second = ensure_endpoint(&mut config, "box-1", "new-name", Err("taken".to_string())).unwrap();

    assert_eq!(first.ip_address, second.ip_address);
    assert_eq!(second.box_name, "new-name");
    assert_eq!(config.endpoints.get("box-1").unwrap().box_name, "new-name");
    assert_eq!(ensure_endpoint(&mut config, "box-2", "x", Err("full".to_string())).unwrap_err(), "full");
}

#[test]
fn test_require_inactive_for_network_change_rejects_active_boxes() {
    let running = make_record("box-1", "web", "running", Some(123));
    let paused = make_record("box-2", "api", "paused", Some(124));
    let stopped = make_record("box-3", "db", "stopped", None);

    assert!(require_inactive_for_network_change(&running, "connect").is_err());
    assert!(require_inactive_for_network_change(&paused, "connect").is_err());
    assert!(require_inactive_for_network_change(&stopped, "connect").is_ok());
}

#[test]
fn test_set_and_clear_record_network() {
    let mut record = make_record("box-1", "web", "created", None);

    set_record_network(&mut record, "backend");
    assert_eq!(record.network_name.as_deref(), Some("backend"));
    assert!(matches!(
        record.network_mode,
        NetworkMode::Bridge { ref network } if network == "backend"
    ));

    clear_record_network(&mut record);
    assert_eq!(record.network_name, None);
    assert!(matches!(record.network_mode, NetworkMode::Tsi));
}

#[test]
fn test_force_disconnect_network_endpoints_clears_inactive_record_network() {
    let mut config = connected("testnet", "10.89.0.0/24", "box-1", "web");
    let mut record = make_record("box-1", "web", "stopped", None);
    set_record_network(&mut record, "testnet");
    let mut state = StateFile::new(vec![record]);

    force_disconnect_network_endpoints(&mut state, "testnet", &mut config).unwrap();

    assert!(config.endpoints.is_empty());
    let record = state.find_by_id("box-1").unwrap();
    assert_eq!(record.network_name, None);
    assert!(matches!(record.network_mode, NetworkMode::Tsi));
}

#[test]
fn test_force_disconnect_network_endpoints_clears_stale_record_without_endpoint() {
    let mut config = network("testnet", "10.89.0.0/24");
    let mut record = make_record("box-1", "web", "stopped", None);
    set_record_network(&mut record, "testnet");
    let mut state = StateFile::new(vec![record]);

    force_disconnect_network_endpoints(&mut state, "testnet", &mut config).unwrap();

    let record = state.find_by_id("box-1").unwrap();
    assert_eq!(record.network_name, None);
    assert!(matches!(record.network_mode, NetworkMode::Tsi));
}

#[test]
fn test_force_disconnect_network_endpoints_rejects_active_record() {
    let mut config = connected("testnet", "10.89.0.0/24", "box-1", "web");
    let mut record = make_record("box-1", "web", "running", Some(123));
    set_record_network(&mut record, "testnet");
    let mut state = StateFile::new(vec![record]);

    let error = force_disconnect_network_endpoints(&mut state, "testnet", &mut config).unwrap_err();

    assert!(error.contains("active box web"));
    assert_eq!(config.endpoints.len(), 1);
}

#[test]
fn test_is_predefined_network() {
    assert!(is_predefined_network("bridge"));
    assert!(is_predefined_network("host"));
    assert!(is_predefined_network("none"));
    assert!(!is_predefined_network("mynet"));
}

#[test]
fn test_prune_unused_networks_keeps_attached_and_referenced() {
    let orphan = network("orphan", "10.89.0.0/24");
    let with_ep = connected("withep", "10.90.0.0/24", "box-1", "web");
    let recnet = network("recnet", "10.91.0.0/24");

    let mut record = make_record("box-2", "db", "stopped", None);
    set_record_network(&mut record, "recnet");
    let state = StateFile::new(vec![record]);

    let removed = prune_unused_networks(&vec![orphan, with_ep, recnet], &state);

    assert_eq!(removed, vec!["orphan".to_string()]);
    let (gone, errors) = removal_report(&removed, &vec![Ok(())]);
    assert_eq!(gone, vec!["orphan".to_string()]);
    assert!(errors.is_empty(), "unexpected errors: {errors:?}");
}

#[test]
fn test_parse_labels() {
    let labels = vec!["env=prod".to_string(), "team=infra".to_string()];
    let mut map = StrMap::new();
    add_labels(&mut map, &labels).unwrap();
    assert_eq!(map.get("env").unwrap(), "prod");
    assert_eq!(map.get("team").unwrap(), "infra");
}

#[test]
fn test_invalid_label_format() {
    let mut map = StrMap::new();
    assert!(add_labels(&mut map, &strings(&["no-equals-sign"])).is_err());
}

#[test]
fn networks_are_made_from_their_options() {
    let args = CreateArgs {
        name: "testnet".to_string(),
        subnet: "10.89.0.0/24".to_string(),
        driver: "bridge".to_string(),
        isolation: "strict".to_string(),
        labels: vec![],
    };
    let made = begin_create(&args, Ok(network("testnet", "10.89.0.0/24"))).unwrap();
    assert_eq!(made.isolation, IsolationMode::Strict);
    let done = finish_create(made, &Ok(()), &strings(&["env=test"])).unwrap();
    assert_eq!(done.labels.get("env").unwrap(), "test");
    assert!(begin_create(&args, Err("bad subnet".to_string())).is_err());
    assert!(parse_isolation("odd").is_err());
    assert_eq!(ls_row(&done)[0], "testnet");
}

#[test]
fn networks_must_exist_and_fit() {
    assert!(require_network("n", None).is_err());
    assert_eq!(require_network("n", Some(network("n", "10.0.0.0/8"))).unwrap().name, "n");
    assert!(require_attachable("n", None, &Ok(())).is_err());
    let mut config = network("n", "10.0.0.0/8");
    let ep = attach_box(&mut config, "box-1", Ok(endpoint("box-1", "web", "10.0.0.2"))).unwrap();
    assert_eq!(ep.ip_address, "10.0.0.2");
    assert_eq!(config.endpoints.len(), 1);
    let mut record = make_record("box-1", "web", "stopped", None);
    assert!(check_connect(&record, "n").is_ok());
    set_record_network(&mut record, "other");
    assert!(check_connect(&record, "n").is_err());
}

#[test]
fn disconnecting_takes_what_is_there() {
    let mut record = make_record("box-1", "web", "stopped", None);
    set_record_network(&mut record, "testnet");
    let config = connected("testnet", "10.89.0.0/24", "box-1", "web");
    let plan = plan_disconnect(&record, "testnet", false, Some(&config)).unwrap();
    assert!(plan.drop_endpoint && plan.clear_record);
    assert!(plan_disconnect(&record, "testnet", false, None).is_err());
    let forced = plan_disconnect(&record, "testnet", true, None).unwrap();
    assert!(!forced.drop_endpoint && forced.clear_record);
}

#[test]
fn test_cleanup_partial_box_record_removes_state_and_box_dir() {
    let mut record = make_record("partial-id", "partial_box", "created", None);
    record.box_dir = "/scratch/box-dir".to_string();
    record.exec_socket_path = "/scratch/box-dir/sockets/exec.sock".to_string();
    let mut state = StateFile::new(vec![record.clone()]);

    let steps = cleanup_partial_box_record(&record, "/tmp", true);

    let mut gone: Vec<String> = vec![];
    for step in &steps {
        match step {
            CleanupStep::RemoveRecord { box_id } => {
                state.remove(box_id);
            }
            CleanupStep::RemoveDir { path } | CleanupStep::RemoveDirIfPresent { path } => gone.push(path.clone()),
            _ => {}
        }
    }
    assert!(state.find_by_id("partial-id").is_none());
    assert!(gone.contains(&"/scratch/box-dir".to_string()));
}

// Services.

fn service() -> ServiceConfig {
    ServiceConfig {
        image: None,
        restart: None,
        cpus: None,
        command: None,
        entrypoint: None,
        working_dir: None,
        ports: vec![],
        volumes: vec![],
        labels: StrMap::new(),
        tmpfs: vec![],
        cap_add: vec![],
        cap_drop: vec![],
        privileged: false,
        depends_on: vec![],
        environment: vec![],
    }
}

#[test]
fn test_load_compose_file_not_found() {
    let result = explicit_compose_file("/nonexistent/compose.yaml", false);
    assert!(result.is_err());
    assert!(result.unwrap_err().contains("not found"));
}

#[test]
fn test_compose_files_constant() {
    assert_eq!(COMPOSE_FILES.len(), 4);
    assert!(COMPOSE_FILES.contains(&"compose.yaml"));
    assert!(COMPOSE_FILES.contains(&"docker-compose.yml"));
}

#[test]
fn test_label_constants() {
    assert_eq!(LABEL_PROJECT, "com.a3s.compose.project");
    assert_eq!(LABEL_SERVICE, "com.a3s.compose.service");
}

#[test]
fn test_service_restart_policy_normalizes_on_failure_limit() {
    let mut service = service();
    service.restart = Some("on-failure:3".to_string());

    let (policy, max_count) = service_restart_policy("web", Some(&service)).unwrap();

    assert_eq!(policy, "on-failure");
    assert_eq!(max_count, 3);
}

#[test]
fn test_validate_compose_restart_policies_rejects_invalid_service_policy() {
    let mut web = service();
    web.image = Some("docker.io/library/alpine:latest".to_string());
    web.restart = Some("never".to_string());

    let error = validate_compose_restart_policies(&vec![("web".to_string(), web)]).unwrap_err();

    assert!(error.contains("Service 'web' has invalid restart policy"));
    assert!(error.contains("Invalid restart policy"));
}

#[test]
fn test_service_box_from_record_captures_cleanup_fields() {
    let mut record = make_record("compose-id", "project-web", "running", Some(123));
    record.labels.insert(LABEL_SERVICE.to_string(), "web".to_string());
    record.network_name = Some("project_default".to_string());
    record.volume_names = vec!["data".to_string()];
    record.anonymous_volumes = vec!["anon".to_string()];
    record.stop_signal = Some("SIGINT".to_string());
    record.stop_timeout = Some(3);

    let service = ServiceBox::from_record(&record);

    assert_eq!(service.box_id, "compose-id");
    assert_eq!(service.svc_name, "web");
    assert_eq!(service.pid, Some(123));
    assert_eq!(service.network_name.as_deref(), Some("project_default"));
    assert_eq!(service.volume_names, vec!["data".to_string()]);
    assert_eq!(service.anonymous_volumes, vec!["anon".to_string()]);
    assert_eq!(service.stop_signal.as_deref(), Some("SIGINT"));
    assert_eq!(service.stop_timeout, Some(3));
    assert!(service.is_active());
}

#[test]
fn test_service_box_from_record_uses_network_mode_fallback() {
    let mut record = make_record("compose-id", "project-web", "running", None);
    record.network_name = None;
    record.network_mode = NetworkMode::Bridge { network: "legacy_default".to_string() };

    let service = ServiceBox::from_record(&record);

    assert_eq!(service.network_name.as_deref(), Some("legacy_default"));
}

#[test]
fn test_rollback_with_current_appends_current_service() {
    let mut first_record = make_record("first-id", "project-db", "running", None);
    first_record.labels.insert(LABEL_SERVICE.to_string(), "db".to_string());
    let mut current_record = make_record("current-id", "project-web", "running", None);
    current_record.labels.insert(LABEL_SERVICE.to_string(), "web".to_string());

    let first = ServiceBox::from_record(&first_record);
    let current = ServiceBox::from_record(&current_record);
    let rollback_services = rollback_with_current(&vec![first], current);

    assert_eq!(rollback_services.len(), 2);
    assert_eq!(rollback_services[0].svc_name, "db");
    assert_eq!(rollback_services[1].svc_name, "web");
}

#[test]
fn test_service_box_paused_is_active() {
    let mut record = make_record("compose-id", "project-web", "paused", None);
    record.labels.insert(LABEL_SERVICE.to_string(), "web".to_string());

    let service = ServiceBox::from_record(&record);

    assert!(service.is_active());
}

#[test]
fn test_service_box_stopped_is_not_active() {
    let mut record = make_record("compose-id", "project-web", "stopped", None);
    record.labels.insert(LABEL_SERVICE.to_string(), "web".to_string());

    let service = ServiceBox::from_record(&record);

    assert!(!service.is_active());
}

fn service_of_project(id: &str, svc: &str, status: &str, pid: Option<u32>) -> BoxRecord {
    let mut record = make_record(id, &format!("p-{svc}"), status, pid);
    record.labels.insert(LABEL_PROJECT.to_string(), "p".to_string());
    record.labels.insert(LABEL_SERVICE.to_string(), svc.to_string());
    record
}

#[test]
fn stopping_a_service_follows_its_record() {
    let mut record = service_of_project("id-1", "web", "paused", Some(7));
    record.stop_signal = Some("SIGINT".to_string());
    record.stop_timeout = Some(3);
    match stop_service_process(&ServiceBox::from_record(&record), Some(2)) {
        StopPlan::Stop { pid, resume, signal, timeout, .. } => {
            assert_eq!((pid, resume, timeout), (7, true, 3));
            assert_eq!(signal, 2);
        }
        _ => panic!("expected a stop"),
    }
    assert!(matches!(
        stop_service_process(&ServiceBox::from_record(&record), None),
        StopPlan::Stop { signal: 15, .. }
    ));
    let gone = ServiceBox::from_record(&service_of_project("id-2", "web", "stopped", None));
    assert!(matches!(stop_service_process(&gone, None), StopPlan::Nothing));
    let stale = ServiceBox::from_record(&service_of_project("id-3", "web", "running", None));
    assert!(matches!(stop_service_process(&stale, None), StopPlan::Stale { .. }));
}

#[test]
fn compose_files_are_looked_for_in_order() {
    assert_eq!(default_compose_file("/w", [false, true, false, true]).unwrap(), format!("/w/{}", COMPOSE_FILES[1]));
    assert!(default_compose_file("/w", [false, false, false, false]).is_err());
    assert_eq!(explicit_compose_file("/w/c.yaml", true).unwrap(), "/w/c.yaml");
    assert_eq!(project_name(Some("mine".to_string()), "/w/c.yaml"), "mine");
    assert_eq!(project_name(None, "/w/shop/c.yaml"), "shop");
}

#[test]
fn projects_show_their_services() {
    let state = StateFile::new(vec![
        service_of_project("id-1", "web", "running", Some(1)),
        service_of_project("id-2", "db", "stopped", None),
        make_record("id-3", "other", "running", Some(2)),
    ]);
    assert!(check_not_active("p", &state).is_err());
    assert!(check_not_active("q", &state).is_ok());
    let lines = execute_ps("p", &state);
    assert!(lines.iter().any(|l| l.contains("web")));
    assert!(!lines.iter().any(|l| l.contains("other")));
    let down = plan_down("p", &ComposeDownArgs { volumes: true }, &state).unwrap();
    assert_eq!(down.stop.len(), 2);
    assert!(plan_down("q", &ComposeDownArgs { volumes: true }, &state).is_none());
    match plan_logs("p", &Some("web".to_string()), &state).unwrap() {
        LogsPlan::Show { targets } => assert_eq!(targets.len(), 1),
        LogsPlan::Empty { .. } => panic!("expected a service"),
    }
    assert!(log_prefix(state.get(0), 2).contains("web"));
    assert_eq!(box_log_lines(state.get(0), &Some("a\nb\nc\n".to_string()), 2, 1).len(), 2);
    let networks = vec![network("p_default", "10.0.0.0/24"), network("q_default", "10.1.0.0/24")];
    let found = down_networks("p", &networks);
    assert!(found.iter().any(|n| n.0 == "p_default"));
    assert!(!found.iter().any(|n| n.0 == "q_default"));
}

#[test]
fn followed_logs_remember_their_sizes() {
    let mut sizes = StrMap::new();
    assert_eq!(follow_step(&mut sizes, "id", 10), Some(0));
    assert_eq!(follow_step(&mut sizes, "id", 10), None);
    assert_eq!(follow_step(&mut sizes, "id", 25), Some(10));
}

#[test]
fn health_is_waited_for() {
    let mut web = service_of_project("id-1", "web", "running", Some(1));
    web.health_status = "healthy".to_string();
    let state = StateFile::new(vec![web]);
    assert!(all_healthy("p", &strings(&["web"]), &state));
    assert!(!all_healthy("p", &strings(&["db"]), &state));
    assert!(wait_timed_out(&strings(&["web"]), 1_000_000_000, 60).is_none());
    assert!(wait_timed_out(&strings(&["web"]), 61_000_000_000, 60).unwrap().contains("web"));
    let read = Ok(state);
    assert_eq!(wait_step("p", &strings(&["web"]), 1, 60, &read), Ok(true));
    assert_eq!(wait_step("p", &strings(&["db"]), 60_000_000_000, 60, &read), Ok(false));
    assert!(wait_step("p", &strings(&["web"]), 60_000_000_001, 60, &read).unwrap_err().starts_with("Timed out"));
    assert_eq!(wait_step("p", &strings(&["web"]), 1, 60, &Err("no state".to_string())), Err("no state".to_string()));
    let (specs, names) = resolve_service_volumes(vec![Ok(("/a:/b".to_string(), Some("a".to_string())))]).unwrap();
    assert_eq!((specs, names), (strings(&["/a:/b"]), strings(&["a"])));
}

#[test]
fn services_become_records() {
    let mut web = service();
    web.image = Some("nginx".to_string());
    web.restart = Some("always".to_string());
    web.ports = strings(&["80:80"]);
    let setup = ServiceSetup {
        image: "nginx".to_string(),
        extra_env: vec![("A".to_string(), "1".to_string())],
        hostname: None,
        add_hosts: vec![],
        network: NetworkMode::Tsi,
        volumes: vec![],
        volume_names: vec![],
        memory_mb: None,
        health_check: None,
        healthcheck_disabled: false,
    };
    let facts = BootFacts {
        box_id: "id-9".to_string(),
        short_id: "id9".to_string(),
        pid: Some(4),
        exec_socket_path: None,
        anonymous_volumes: vec![],
        image_health_check: None,
        image_stop_signal: None,
        created_at: moment(1),
        started_at: moment(2),
    };
    let record = service_record("p", "web", Some(&web), &setup, &facts, "/h").unwrap();
    assert_eq!(record.status, "running");
    assert_eq!(record.restart_policy, "always");
    assert_eq!(record.env.get("A").unwrap(), "1");
    assert_eq!(record.labels.get(LABEL_SERVICE).unwrap(), "web");
    assert_eq!(record.labels.get(LABEL_PROJECT).unwrap(), "p");
    let shown = execute_config("p", &vec![("web".to_string(), web)], &strings(&["web"]), 1, 0).unwrap();
    assert!(shown.iter().any(|l| l.contains("nginx")));
}

#[test]
fn bringing_a_project_up_goes_through_its_stages() {
    let plan = UpPlan {
        project: "p".to_string(),
        networks: strings(&["p_default"]),
        services: vec![ServicePlan { name: "web".to_string(), health_deps: vec![] }],
    };
    let s = start(&plan);
    assert_eq!(s.stage, UpStage::LookupNetwork);
    assert!(matches!(next_action(&plan, &s), UpAction::LookupNetwork { name } if name == "p_default"));
    let s = advance(&plan, s, UpEvent::NetworkMissing).unwrap();
    assert_eq!(s.stage, UpStage::MakeNetwork);
    let err = advance(&plan, s, UpEvent::Failed { error: "no subnet".to_string() }).unwrap_err();
    assert!(err.error.contains("no subnet"));
    assert!(err.stop.is_empty());
}

// Copies.

#[test]
fn test_parse_endpoint_host_path() {
    match parse_endpoint("/tmp/file.txt") {
        Endpoint::Host(p) => assert_eq!(p, "/tmp/file.txt"),
        _ => panic!("Expected Host endpoint"),
    }
}

#[test]
fn test_parse_endpoint_box_path() {
    match parse_endpoint("mybox:/tmp/file.txt") {
        Endpoint::InBox { name, path } => {
            assert_eq!(name, "mybox");
            assert_eq!(path, "/tmp/file.txt");
        }
        _ => panic!("Expected Box endpoint"),
    }
}

#[test]
fn test_parse_endpoint_single_char_name_is_host() {
    match parse_endpoint("C:/path") {
        Endpoint::Host(p) => assert_eq!(p, "C:/path"),
        _ => panic!("Expected Host endpoint for drive letter"),
    }
}

#[test]
fn test_parse_endpoint_relative_host_path() {
    match parse_endpoint("./local/file") {
        Endpoint::Host(p) => assert_eq!(p, "./local/file"),
        _ => panic!("Expected Host endpoint"),
    }
}

#[test]
fn test_shell_escape_simple() {
    assert_eq!(shell_escape("/tmp/file"), "'/tmp/file'");
}

#[test]
fn test_shell_escape_with_quotes() {
    assert_eq!(shell_escape("it's"), "'it'\\''s'");
}

#[test]
fn test_shell_escape_with_spaces() {
    assert_eq!(shell_escape("/path/with spaces/file"), "'/path/with spaces/file'");
}

#[test]
fn test_dir_transfer_timeout() {
    assert_eq!(DIR_TRANSFER_TIMEOUT_NS, 60_000_000_000);
}

fn output(stdout: &[u8], stderr: &str, exit_code: i32) -> ExecOutput {
    ExecOutput { stdout: stdout.to_vec(), stderr: stderr.as_bytes().to_vec(), exit_code }
}

#[test]
fn files_travel_in_base64() {
    let sent = write_file_request(&b"hello".to_vec(), "/tmp/it's", 5);
    assert!(sent.cmd.iter().any(|c| c.contains("aGVsbG8=") && c.contains("'/tmp/it'\\''s'")));
    let asked = read_file_request("/tmp/f", 5);
    assert!(asked.cmd.iter().any(|c| c.contains("/tmp/f")));
    assert_eq!(read_file_result("/tmp/f", &output(b"aGVs\nbG8=\n", "", 0)).unwrap(), b"hello".to_vec());
    assert!(read_file_result("/tmp/f", &output(b"***", "", 0)).is_err());
    let err = read_file_result("/tmp/f", &ExecOutput { stdout: vec![], stderr: vec![b'n', 0xff], exit_code: 1 }).unwrap_err();
    assert!(err.contains("n\u{fffd}"));
    assert!(write_file_result("/tmp/f", &output(b"", "", 0)).is_ok());
    assert!(write_file_result("/tmp/f", &output(b"", "denied", 1)).unwrap_err().contains("denied"));
    assert!(directory_request("/tmp/d", 9).cmd.len() > 0);
}

#[test]
fn copies_have_one_end_in_a_box() {
    let args = |src: &str, dst: &str| CpArgs { src: src.to_string(), dst: dst.to_string() };
    assert!(matches!(plan_copy(&args("web:/a", "b")).unwrap(), CopyPlan::FromBox { name, .. } if name == "web"));
    assert!(matches!(plan_copy(&args("b", "web:/a")).unwrap(), CopyPlan::ToBox { path, .. } if path == "/a"));
    assert!(plan_copy(&args("a", "b")).is_err());
    assert!(plan_copy(&args("web:/a", "db:/b")).is_err());
}

#[test]
fn directories_travel_as_archives() {
    assert_eq!(read_dir_request("/d").cmd, vec!["sh", "-c", "tar -cf - -C '/d' . | base64"]);
    assert_eq!(
        write_dir_request(&b"hello".to_vec(), "/d").cmd[2],
        "mkdir -p '/d' && echo 'aGVsbG8=' | base64 -d | tar -xf - -C '/d'"
    );
    assert_eq!(read_dir_result("/d", &output(b"aGVsbG8=\n", "", 0)).unwrap(), b"hello".to_vec());
    assert_eq!(
        read_dir_result("/d", &output(b"", "no", 1)).unwrap_err(),
        "Failed to archive /d in box: no"
    );
    assert!(read_dir_result("/d", &output(b"***", "", 0)).unwrap_err().starts_with("Failed to decode tar archive: "));
    assert!(write_dir_result("/d", &output(b"", "", 0)).is_ok());
    assert_eq!(
        write_dir_result("/d", &output(b"", "full", 2)).unwrap_err(),
        "Failed to extract archive in box at /d: full"
    );
    assert_eq!(file_from_line("web", "/a", "b", 5), "web:/a \u{2192} b (5 bytes)");
    assert_eq!(file_to_line("b", "web", "/a", 5), "b \u{2192} web:/a (5 bytes)");
    assert_eq!(dir_from_line("web", "/a", "b", 9), "web:/a/ \u{2192} b/ (9 bytes archived)");
    assert_eq!(dir_to_line("b", "web", "/a", 9), "b/ \u{2192} web:/a/ (9 bytes archived)");
    assert!(no_baseline_lines()[0].starts_with("No baseline snapshot found"));
}

// Differences.

fn file(name: &str, size: u64) -> DirEntry {
    DirEntry { name: name.to_string(), info: FileInfo { size, mode: 0o644, is_dir: false }, children: vec![] }
}

fn dir(name: &str, children: Vec<DirEntry>) -> DirEntry {
    DirEntry { name: name.to_string(), info: FileInfo { size: 0, mode: 0o755, is_dir: true }, children }
}

#[test]
fn test_walk_dir_empty() {
    let map = walk_dir(&vec![]);
    assert!(map.is_empty());
}

#[test]
fn test_walk_dir_with_files() {
    let map = walk_dir(&vec![file("hello.txt", 5), dir("subdir", vec![file("nested.txt", 4)])]);
    assert!(map.contains_key("/hello.txt"));
    assert!(map.contains_key("/subdir"));
    assert!(map.contains_key("/subdir/nested.txt"));
    assert_eq!(map.get("/hello.txt").unwrap().size, 5);
    assert!(!map.get("/hello.txt").unwrap().is_dir);
    assert!(map.get("/subdir").unwrap().is_dir);
}

#[test]
fn test_change_kind_display() {
    assert_eq!(ChangeKind::Added.to_string(), "A");
    assert_eq!(ChangeKind::Changed.to_string(), "C");
    assert_eq!(ChangeKind::Deleted.to_string(), "D");
}

#[test]
fn test_diff_detects_added() {
    let baseline = walk_dir(&vec![file("original.txt", 4)]);
    let current = walk_dir(&vec![file("original.txt", 4), file("new.txt", 5)]);
    let changes = compute_changes(&baseline, &current);
    assert_eq!(diff_lines(&changes), vec!["A /new.txt"]);
}

#[test]
fn test_diff_detects_deleted() {
    let baseline = walk_dir(&vec![file("to_delete.txt", 4)]);
    let current = walk_dir(&vec![]);
    let changes = compute_changes(&baseline, &current);
    assert_eq!(diff_lines(&changes), vec!["D /to_delete.txt"]);
}

#[test]
fn test_diff_detects_changed() {
    let baseline = walk_dir(&vec![file("file.txt", 5)]);
    let current = walk_dir(&vec![file("file.txt", 19)]);
    let changes = compute_changes(&baseline, &current);
    assert_eq!(diff_lines(&changes), vec!["C /file.txt"]);
}

#[test]
fn nothing_changes_between_equal_trees() {
    let tree = || walk_dir(&vec![dir("d", vec![file("f", 1)])]);
    assert!(compute_changes(&tree(), &tree()).is_empty());
    assert!(takes_baseline(false, true));
    assert!(!takes_baseline(true, true));
}

// Updates.

fn update_args() -> ContainerUpdateArgs {
    ContainerUpdateArgs {
        name: "web".to_string(),
        cpus: None,
        memory: None,
        memory_reservation: None,
        memory_swap: None,
        pids_limit: None,
        cpu_shares: None,
        cpu_quota: None,
        cpu_period: None,
        cpuset_cpus: None,
        restart: None,
    }
}

#[test]
fn updates_change_the_record() {
    let record = make_record("id-1", "web", "stopped", None);
    let mut args = update_args();
    args.cpus = Some(4);
    args.cpu_shares = Some(512);
    args.memory = Some("1g".to_string());
    args.restart = Some("always".to_string());
    let done = try_apply_update(&record, &args, &Ok(1024)).unwrap().unwrap();
    assert_eq!(done.record.cpus, 4);
    assert_eq!(done.record.memory_mb, 1024);
    assert_eq!(done.record.resource_limits.cpu_shares, Some(512));
    assert_eq!(done.record.restart_policy, "always");
    assert!(done.update.has_tier1_changes() && done.update.has_tier2_changes());
    assert!(try_apply_update(&record, &args, &Err("bad".to_string())).unwrap().is_err());
    assert!(try_apply_update(&record, &update_args(), &Ok(0)).unwrap().is_err());
    args.memory_swap = Some("17179869184g".to_string());
    assert!(try_apply_update(&record, &args, &Ok(1024)).is_none());
    assert_eq!(parse_swap(&Some("-1".to_string())).unwrap(), Some(-1));
}

#[test]
fn updates_reach_running_boxes_through_their_socket() {
    let update = ResourceUpdate {
        vcpus: None,
        memory_mb: None,
        limits: {
            let mut l = ResourceLimits::default();
            l.cpu_shares = Some(512);
            l
        },
    };
    let running = make_record("id-1", "web", "running", Some(1));
    assert!(matches!(live_plan(&running, &update, &Ok(()), true).unwrap(), LivePlan::Apply { .. }));
    assert!(matches!(live_plan(&running, &update, &Ok(()), false).unwrap(), LivePlan::NoSocket { .. }));
    let stopped = make_record("id-1", "web", "stopped", None);
    assert!(matches!(live_plan(&stopped, &update, &Ok(()), true).unwrap(), LivePlan::StoreOnly));
    assert!(command_warning(0, "").is_none());
    assert!(command_warning(1, "no cgroup").unwrap().contains("no cgroup"));
}

#[test]
fn updates_without_options_store_nothing() {
    let mut args = update_args();
    assert_eq!(no_updates(&args), Some("No updates specified."));
    args.pids_limit = Some(5);
    assert_eq!(no_updates(&args), None);
}

#[test]
fn logs_that_cannot_be_read_are_told_of() {
    let record = service_of_project("id-1", "web", "running", Some(7));
    assert_eq!(log_unreadable(&record, "denied"), "Failed to read logs for web: denied");
}

#[test]
fn services_start_with_the_mounts_that_were_resolved() {
    let plan = UpPlan {
        project: "p".to_string(),
        networks: vec![],
        services: vec![ServicePlan { name: "web".to_string(), health_deps: vec![] }],
    };
    let s = start(&plan);
    let configured = UpEvent::Configured { box_id: "id".to_string(), box_dir: "/b/id".to_string(), network: None };
    let s = advance(&plan, s, configured).unwrap();
    let resolved = UpEvent::Volumes { names: strings(&["v"]), mounts: strings(&["/var/v:/data"]) };
    let s = advance(&plan, s, resolved).unwrap();
    let s = advance(&plan, s, UpEvent::Completed).unwrap();
    let s = advance(&plan, s, UpEvent::Completed).unwrap();
    assert!(matches!(
        next_action(&plan, &s),
        UpAction::Boot { box_id, mounts } if box_id == "id" && mounts == strings(&["/var/v:/data"])
    ));
}
