//! The record of a service's box, and what `compose up` and `compose down` read
//! from the records.

use vstd::prelude::*;

use crate::cleanup;
use crate::commands::compose;
use crate::commands::compose::{
    latest_first, service_restart_policy, ComposeDownArgs, ServiceBox, ServiceBoxView, ServiceConfig, LABEL_PROJECT,
    LABEL_SERVICE,
};
use crate::commands::compose_show;
use crate::commands::compose_up;
use crate::commands::network;
use crate::commands::network::NetworkConfig;
use crate::config;
use crate::config::{clone_pairs, BoxConfig, ConfigView};
use crate::path;
use crate::path::path_join;
use crate::seqs;
use crate::split;
use crate::split::join;
use crate::state;
use crate::state::{
    clone_health, is_active, BoxRecord, HealthCheck, HealthCheckView, LogConfig, NetworkMode, NetworkModeView,
    RecordView, ResourceLimits, StateFile, Timestamp,
};
use crate::strmap;
use crate::strmap::StrMap;
use crate::text;
use crate::text::{cat2, cat3, cat5, clone_opt_strings, clone_strings, starts_with, str_eq};

verus! {

// ---------------------------------------------------------------------------
// Before compose up
// ---------------------------------------------------------------------------

/// The records of a project's boxes that run.
pub open spec fn active_records(records: Seq<RecordView>, project: Seq<char>) -> Seq<RecordView> {
    compose_show::project_records(records, project).filter(|r: RecordView| state::active(r.status))
}

/// The services that the records name; a record that names none adds nothing.
pub open spec fn named_services(records: Seq<RecordView>) -> Seq<Seq<char>>
    decreases records.len(),
{
    if records.len() == 0 {
        seq![]
    } else {
        let before = named_services(records.drop_last());
        match state::label(records.last(), LABEL_SERVICE@) {
            Some(name) => before.push(name),
            None => before,
        }
    }
}

/// A project is brought up only while none of its boxes runs.
pub fn check_not_active(project_name: &str, state: &StateFile) -> (r: Result<(), String>)
    ensures
        match r {
            Ok(_) => active_records(state@, project_name@).len() == 0,
            Err(e) => active_records(state@, project_name@).len() > 0 && e@ == "Project '"@
                + project_name@ + "' already has active services: "@ + split::joined(
                named_services(active_records(state@, project_name@)),
                ", "@,
            ) + ". Run `compose down` first."@,
        },
{
    broadcast use crate::text::lemma_strs_push;

    let boxes: Vec<&BoxRecord> = state.find_by_label(LABEL_PROJECT, project_name);
    let ghost views = compose_show::project_records(state@, project_name@);
    let ghost p = |r: RecordView| state::active(r.status);
    assert(state::ref_views(boxes@) == views);
    let mut names: Vec<String> = Vec::new();
    let mut found: bool = false;
    let mut i: usize = 0;
    proof {
        seqs::lemma_filter_none(views, p);
        assert(text::strs(names@) =~= seq![]);
    }
    while i < boxes.len()
        invariant
            i <= boxes.len(),
            state::ref_views(boxes@) == views,
            p == (|r: RecordView| state::active(r.status)),
            found == (views.take(i as int).filter(p).len() > 0),
            text::strs(names@) == named_services(views.take(i as int).filter(p)),
        decreases boxes.len() - i,
    {
        let record: &BoxRecord = boxes[i];
        proof {
            seqs::lemma_filter_step(views, p, i as int);
            assert(views[i as int] == record@);
            let f = views.take(i as int).filter(p);
            assert(f.push(record@).drop_last() =~= f);
        }
        if is_active(record) {
            found = true;
            match record.label(LABEL_SERVICE) {
                Some(name) => {
                    names.push(name.clone());
                },
                None => {},
            }
        }
        i = i + 1;
    }
    assert(views.take(i as int) =~= views);
    if found {
        let all: String = join(&names, ", ");
        Err(
            cat5(
                "Project '",
                project_name,
                "' already has active services: ",
                all.as_str(),
                ". Run `compose down` first.",
            ),
        )
    } else {
        Ok(())
    }
}

/// What resolving a volume gives: the mount, and the name where it is a named
/// volume.
pub open spec fn volume_mounts(v: Seq<(String, Option<String>)>) -> Seq<Seq<char>> {
    v.map_values(|x: (String, Option<String>)| x.0@)
}

/// The names among resolved volumes.
pub open spec fn volume_labels(v: Seq<(String, Option<String>)>) -> Seq<Seq<char>>
    decreases v.len(),
{
    if v.len() == 0 {
        seq![]
    } else {
        let before = volume_labels(v.drop_last());
        match v.last().1 {
            Some(name) => before.push(name@),
            None => before,
        }
    }
}

/// Whether `r` is what resolving volumes comes to, given what came of each in
/// turn: the mounts and the names of the named ones, or the first failure.
pub open spec fn gathered(
    outcomes: Seq<Result<(String, Option<String>), String>>,
    r: Result<(Vec<String>, Vec<String>), String>,
) -> bool {
    match r {
        Ok((mounts, names)) => {
            let all = outcomes.map_values(|o: Result<(String, Option<String>), String>| o->Ok_0);
            &&& forall|i: int| 0 <= i < outcomes.len() ==> #[trigger] outcomes[i] is Ok
            &&& text::strs(mounts@) == volume_mounts(all)
            &&& text::strs(names@) == volume_labels(all)
        },
        Err(e) => exists|i: int|
            0 <= i < outcomes.len() && #[trigger] outcomes[i] == Err::<
                (String, Option<String>),
                String,
            >(e) && forall|j: int| 0 <= j < i ==> #[trigger] outcomes[j] is Ok,
    }
}

/// The outcome of resolving volumes up to the first failure: the mounts and
/// the names of the named ones, or that failure.
pub fn gather_volumes(outcomes: Vec<Result<(String, Option<String>), String>>) -> (r: Result<
    (Vec<String>, Vec<String>),
    String,
>)
    ensures
        gathered(outcomes@, r),
{
    broadcast use crate::text::lemma_strs_push;

    let ghost given = outcomes@;
    let ghost all = given.map_values(|o: Result<(String, Option<String>), String>| o->Ok_0);
    let mut rest: Vec<Result<(String, Option<String>), String>> = outcomes;
    let mut mounts: Vec<String> = Vec::new();
    let mut names: Vec<String> = Vec::new();
    let ghost mut k: int = 0;
    proof {
        assert(text::strs(names@) =~= seq![]);
        assert(given.skip(0) =~= given);
        assert(text::strs(mounts@) =~= volume_mounts(all.take(0)));
    }
    while rest.len() > 0
        invariant
            0 <= k <= given.len(),
            given == outcomes@,
            rest@ == given.skip(k),
            all == given.map_values(|o: Result<(String, Option<String>), String>| o->Ok_0),
            forall|i: int| 0 <= i < k ==> #[trigger] given[i] is Ok,
            text::strs(mounts@) == volume_mounts(all.take(k)),
            text::strs(names@) == volume_labels(all.take(k)),
        decreases rest.len(),
    {
        let ghost was = rest@;
        let outcome: Result<(String, Option<String>), String> = rest.remove(0);
        proof {
            assert(outcome == given[k]);
            assert(rest@ =~= given.skip(k + 1));
            assert(all.take(k + 1).drop_last() =~= all.take(k));
        }
        match outcome {
            Err(e) => {
                return Err(e);
            },
            Ok((mount, name)) => {
                proof {
                    assert(all.take(k + 1).last() == (mount, name));
                    assert(volume_mounts(all.take(k + 1)) =~= volume_mounts(all.take(k)).push(
                        mount@,
                    ));
                }
                mounts.push(mount);
                match name {
                    Some(n) => {
                        names.push(n);
                    },
                    None => {},
                }
            },
        }
        proof {
            k = k + 1;
        }
    }
    assert(all.take(k) =~= all);
    Ok((mounts, names))
}

/// The volumes of a service: see [`gather_volumes`].
pub fn resolve_service_volumes(outcomes: Vec<Result<(String, Option<String>), String>>) -> (r:
    Result<(Vec<String>, Vec<String>), String>)
    ensures
        gathered(outcomes@, r),
{
    gather_volumes(outcomes)
}

// ---------------------------------------------------------------------------
// Waiting for healthy services
// ---------------------------------------------------------------------------

/// Seconds between two looks at the state while services become healthy.
pub const HEALTH_POLL_SECS: u64 = 2;

/// Whether a box of the project runs the service and is healthy.
pub open spec fn service_healthy(
    records: Seq<RecordView>,
    project: Seq<char>,
    service: Seq<char>,
) -> bool {
    exists|i: int|
        0 <= i < records.len() && state::label(#[trigger] records[i], LABEL_SERVICE@) == Some(
            service,
        ) && state::label(records[i], LABEL_PROJECT@) == Some(project)
            && records[i].health_status == "healthy"@
}

/// Whether a box of the project runs the service and is healthy.
fn is_service_healthy(project_name: &str, service: &str, state: &StateFile) -> (r: bool)
    ensures
        r == service_healthy(state@, project_name@, service@),
{
    let mut i: usize = 0;
    while i < state.len()
        invariant
            i <= state@.len(),
            forall|j: int|
                0 <= j < i ==> !(state::label(#[trigger] state@[j], LABEL_SERVICE@) == Some(
                    service@,
                ) && state::label(state@[j], LABEL_PROJECT@) == Some(project_name@)
                    && state@[j].health_status == "healthy"@),
        decreases state@.len() - i,
    {
        let record: &BoxRecord = state.get(i);
        if record.has_label(LABEL_SERVICE, service) && record.has_label(LABEL_PROJECT, project_name)
            && str_eq(record.health_status.as_str(), "healthy") {
            assert(state@[i as int] == record@);
            return true;
        }
        i = i + 1;
    }
    false
}

/// Each of the services has a healthy box of the project.
pub open spec fn services_healthy(
    records: Seq<RecordView>,
    project: Seq<char>,
    services: Seq<Seq<char>>,
) -> bool {
    forall|i: int|
        0 <= i < services.len() ==> service_healthy(records, project, #[trigger] services[i])
}

/// Whether all the services are healthy.
pub fn all_healthy(project_name: &str, service_names: &Vec<String>, state: &StateFile) -> (r: bool)
    ensures
        r == services_healthy(state@, project_name@, text::strs(service_names@)),
{
    let mut i: usize = 0;
    while i < service_names.len()
        invariant
            i <= service_names.len(),
            forall|j: int|
                0 <= j < i ==> service_healthy(
                    state@,
                    project_name@,
                    #[trigger] text::strs(service_names@)[j],
                ),
        decreases service_names.len() - i,
    {
        if !is_service_healthy(project_name, service_names[i].as_str(), state) {
            assert(!service_healthy(state@, project_name@, text::strs(service_names@)[i as int]));
            return false;
        }
        i = i + 1;
    }
    true
}

/// Whether the wait for healthy services has gone on for too long: what the
/// user is told then.
pub fn wait_timed_out(service_names: &Vec<String>, elapsed_nanos: u128, timeout_secs: u64) -> (r:
    Option<String>)
    ensures
        match r {
            Some(e) => elapsed_nanos > timeout_secs * 1_000_000_000 && e@
                == "Timed out waiting for services to become healthy: "@ + split::joined(
                text::strs(service_names@),
                ", "@,
            ),
            None => elapsed_nanos <= timeout_secs * 1_000_000_000,
        },
{
    let limit: u128 = timeout_secs as u128 * 1_000_000_000;
    if elapsed_nanos > limit {
        let all: String = join(service_names, ", ");
        Some(cat2("Timed out waiting for services to become healthy: ", all.as_str()))
    } else {
        None
    }
}

/// One look at services that are waited for: whether all of them are healthy, or
/// why the wait ends. `state` is what reading the state gave; it counts only
/// where the time is not up.
pub fn wait_step(
    project_name: &str,
    service_names: &Vec<String>,
    elapsed_nanos: u128,
    timeout_secs: u64,
    state: &Result<StateFile, String>,
) -> (r: Result<bool, String>)
    ensures
        match r {
            Ok(done) => {
                &&& elapsed_nanos <= timeout_secs * 1_000_000_000
                &&& state is Ok
                &&& done == services_healthy(
                    state->Ok_0@,
                    project_name@,
                    text::strs(service_names@),
                )
            },
            Err(e) => if elapsed_nanos > timeout_secs * 1_000_000_000 {
                e@ == "Timed out waiting for services to become healthy: "@ + split::joined(
                    text::strs(service_names@),
                    ", "@,
                )
            } else {
                state is Err && e@ == state->Err_0@
            },
        },
{
    if let Some(e) = wait_timed_out(service_names, elapsed_nanos, timeout_secs) {
        return Err(e);
    }
    match state {
        Ok(s) => Ok(all_healthy(project_name, service_names, s)),
        Err(e) => Err(e.clone()),
    }
}

// ---------------------------------------------------------------------------
// The record of a service's box
// ---------------------------------------------------------------------------

/// What is known of a service's box before it is started.
#[derive(Debug)]
pub struct ServiceSetup {
    /// OCI image reference.
    pub image: String,
    /// Environment variables.
    pub extra_env: Vec<(String, String)>,
    /// Host name.
    pub hostname: Option<String>,
    /// Additional host entries.
    pub add_hosts: Vec<String>,
    /// Network mode.
    pub network: NetworkMode,
    /// Resolved volume mounts.
    pub volumes: Vec<String>,
    /// Named volumes.
    pub volume_names: Vec<String>,
    /// Memory in megabytes, where the service declares a limit that can be read.
    pub memory_mb: Option<u32>,
    /// Health check that the service declares.
    pub health_check: Option<HealthCheck>,
    /// Whether the service turns the health check off.
    pub healthcheck_disabled: bool,
}

/// The configuration with which a service's box is started: its volumes are the
/// resolved mounts, and all else is as it was.
pub fn boot_config(config: BoxConfig, mounts: &Vec<String>) -> (r: BoxConfig)
    ensures
        r@ == (ConfigView { volumes: text::strs(mounts@), ..config@ }),
{
    let mut config = config;
    config.volumes = clone_strings(mounts);
    config
}

/// What is known of a service's box before it is started, by the configuration
/// with which it is.
pub fn service_setup(
    config: &BoxConfig,
    volume_names: &Vec<String>,
    memory_mb: Option<u32>,
    health_check: &Option<HealthCheck>,
    healthcheck_disabled: bool,
) -> (r: ServiceSetup)
    ensures
        r.image@ == config@.image,
        config::pair_texts(r.extra_env@) == config@.extra_env,
        text::opt_str(r.hostname) == config@.hostname,
        text::strs(r.add_hosts@) == config@.add_hosts,
        r.network@ == config@.network,
        text::strs(r.volumes@) == config@.volumes,
        text::strs(r.volume_names@) == text::strs(volume_names@),
        r.memory_mb == memory_mb,
        state::opt_health(r.health_check) == state::opt_health(*health_check),
        r.healthcheck_disabled == healthcheck_disabled,
{
    ServiceSetup {
        image: config.image.clone(),
        extra_env: clone_pairs(&config.extra_env),
        hostname: config.hostname.clone(),
        add_hosts: clone_strings(&config.add_hosts),
        network: config.network.clone(),
        volumes: clone_strings(&config.volumes),
        volume_names: clone_strings(volume_names),
        memory_mb,
        health_check: clone_health(health_check),
        healthcheck_disabled,
    }
}

/// What is known of a box once it runs.
#[derive(Debug)]
pub struct BootFacts {
    /// Identifier of the box.
    pub box_id: String,
    /// Short form of the identifier.
    pub short_id: String,
    /// Process of the box.
    pub pid: Option<u32>,
    /// Socket for running commands, where the runtime has chosen one.
    pub exec_socket_path: Option<String>,
    /// Volumes made for the image's declarations.
    pub anonymous_volumes: Vec<String>,
    /// Health check of the image.
    pub image_health_check: Option<HealthCheck>,
    /// Stop signal of the image.
    pub image_stop_signal: Option<String>,
    /// When the record is made.
    pub created_at: Timestamp,
    /// When the box was started.
    pub started_at: Timestamp,
}

/// The variables that the pairs define; the last definition counts.
pub open spec fn env_of(pairs: Seq<(String, String)>) -> Map<Seq<char>, Seq<char>>
    decreases pairs.len(),
{
    if pairs.len() == 0 {
        Map::empty()
    } else {
        env_of(pairs.drop_last()).insert(pairs.last().0@, pairs.last().1@)
    }
}

/// The variables that the pairs define.
pub fn collect_env(pairs: &Vec<(String, String)>) -> (r: StrMap<String>)
    ensures
        strmap::texts(r@) == env_of(pairs@),
{
    let mut map: StrMap<String> = StrMap::new();
    let mut i: usize = 0;
    assert(strmap::texts(map@) =~= env_of(pairs@.take(0)));
    while i < pairs.len()
        invariant
            i <= pairs.len(),
            strmap::texts(map@) == env_of(pairs@.take(i as int)),
        decreases pairs.len() - i,
    {
        let ghost was = strmap::texts(map@);
        let k: String = pairs[i].0.clone();
        let v: String = pairs[i].1.clone();
        map.insert(k, v);
        proof {
            assert(strmap::texts(map@) =~= was.insert(pairs@[i as int].0@, pairs@[i as int].1@));
            assert(pairs@.take(i + 1).drop_last() =~= pairs@.take(i as int));
        }
        i = i + 1;
    }
    assert(pairs@.take(i as int) =~= pairs@);
    map
}

/// The directory of a box.
pub open spec fn box_dir_of(home: Seq<char>, box_id: Seq<char>) -> Seq<char> {
    path::under(path::under(home, "boxes"@), box_id)
}

/// The directory of a box.
pub fn box_dir(home: &str, box_id: &str) -> (r: String)
    ensures
        r@ == box_dir_of(home@, box_id@),
{
    let boxes: String = path_join(home, "boxes");
    path_join(boxes.as_str(), box_id)
}

/// A file two levels below a box's directory.
pub open spec fn box_file_of(dir: Seq<char>, sub: Seq<char>, name: Seq<char>) -> Seq<char> {
    path::under(path::under(dir, sub), name)
}

/// A file two levels below a box's directory.
pub fn box_file(dir: &str, sub: &str, name: &str) -> (r: String)
    ensures
        r@ == box_file_of(dir@, sub@, name@),
{
    let d: String = path_join(dir, sub);
    path_join(d.as_str(), name)
}

/// The health check that counts: none where it is turned off, else the declared
/// one, else the image's.
pub open spec fn effective_health(
    disabled: bool,
    declared: Option<HealthCheckView>,
    image: Option<HealthCheckView>,
) -> Option<HealthCheckView> {
    if disabled {
        None
    } else if declared is Some {
        declared
    } else {
        image
    }
}

/// The health check that counts.
pub fn pick_health(
    disabled: bool,
    declared: &Option<HealthCheck>,
    image: &Option<HealthCheck>,
) -> (r: Option<HealthCheck>)
    ensures
        state::opt_health(r) == effective_health(
            disabled,
            state::opt_health(*declared),
            state::opt_health(*image),
        ),
{
    if disabled {
        None
    } else if declared.is_some() {
        clone_health(declared)
    } else {
        clone_health(image)
    }
}

/// The health status of a box that has just started.
pub open spec fn initial_health(check: Option<HealthCheckView>) -> Seq<char> {
    if check is Some {
        "starting"@
    } else {
        "none"@
    }
}

/// The network of a network mode.
pub open spec fn mode_network(mode: NetworkModeView) -> Option<Seq<char>> {
    match mode {
        NetworkModeView::Bridge { network } => Some(network),
        NetworkModeView::Tsi => None,
    }
}

/// The labels of a service's box.
pub open spec fn service_labels(
    service: Option<&ServiceConfig>,
    project: Seq<char>,
    name: Seq<char>,
) -> Map<Seq<char>, Seq<char>> {
    let own = match service {
        Some(s) => strmap::texts(s.labels@),
        None => Map::empty(),
    };
    own.insert(LABEL_PROJECT@, project).insert(LABEL_SERVICE@, name)
}

/// A list that the service declares, where there is a service.
pub open spec fn declared_list(
    service: Option<&ServiceConfig>,
    f: spec_fn(ServiceConfig) -> Seq<Seq<char>>,
) -> Seq<Seq<char>> {
    match service {
        Some(s) => f(*s),
        None => Seq::empty(),
    }
}

/// The record of a service's box.
pub open spec fn service_record_of(
    project: Seq<char>,
    name: Seq<char>,
    service: Option<&ServiceConfig>,
    setup: ServiceSetup,
    facts: BootFacts,
    home: Seq<char>,
    policy: (Seq<char>, u32),
) -> RecordView {
    let dir = box_dir_of(home, facts.box_id@);
    let health = effective_health(
        setup.healthcheck_disabled,
        state::opt_health(setup.health_check),
        state::opt_health(facts.image_health_check),
    );
    RecordView {
        id: facts.box_id@,
        short_id: facts.short_id@,
        name: compose_up::box_name_of(project, name),
        image: setup.image@,
        status: "running"@,
        pid: facts.pid,
        cpus: match service {
            Some(s) => match s.cpus {
                Some(n) => n,
                None => 2,
            },
            None => 2,
        },
        memory_mb: match setup.memory_mb {
            Some(m) => m,
            None => 512,
        },
        volumes: text::strs(setup.volumes@),
        env: env_of(setup.extra_env@),
        cmd: match service {
            Some(s) => match text::opt_strs(s.command) {
                Some(c) => c,
                None => Seq::empty(),
            },
            None => Seq::empty(),
        },
        entrypoint: match service {
            Some(s) => text::opt_strs(s.entrypoint),
            None => None,
        },
        box_dir: dir,
        exec_socket_path: match facts.exec_socket_path {
            Some(p) => p@,
            None => box_file_of(dir, "sockets"@, "exec.sock"@),
        },
        console_log: box_file_of(dir, "logs"@, "console.log"@),
        created_at: facts.created_at,
        started_at: Some(facts.started_at),
        auto_remove: false,
        hostname: text::opt_str(setup.hostname),
        user: None,
        workdir: match service {
            Some(s) => text::opt_str(s.working_dir),
            None => None,
        },
        restart_policy: policy.0,
        port_map: declared_list(service, |s: ServiceConfig| text::strs(s.ports@)),
        labels: service_labels(service, project, name),
        stopped_by_user: false,
        restart_count: 0,
        max_restart_count: policy.1,
        exit_code: None,
        health_check: health,
        healthcheck_disabled: setup.healthcheck_disabled,
        health_status: initial_health(health),
        health_retries: 0,
        health_last_check: None,
        network_mode: setup.network@,
        network_name: mode_network(setup.network@),
        volume_names: text::strs(setup.volume_names@),
        tmpfs: declared_list(service, |s: ServiceConfig| text::strs(s.tmpfs@)),
        anonymous_volumes: text::strs(facts.anonymous_volumes@),
        resource_limits: state::no_limits(),
        log_config: state::default_log_config(),
        add_host: text::strs(setup.add_hosts@),
        platform: None,
        init: false,
        read_only: false,
        cap_add: declared_list(service, |s: ServiceConfig| text::strs(s.cap_add@)),
        cap_drop: declared_list(service, |s: ServiceConfig| text::strs(s.cap_drop@)),
        security_opt: Seq::empty(),
        privileged: match service {
            Some(s) => s.privileged,
            None => false,
        },
        devices: Seq::empty(),
        gpus: None,
        shm_size: None,
        stop_signal: text::opt_str(facts.image_stop_signal),
        stop_timeout: None,
        oom_kill_disable: false,
        oom_score_adj: None,
    }
}

/// The labels of a service's box.
fn build_labels(service: Option<&ServiceConfig>, project: &str, name: &str) -> (r: StrMap<String>)
    ensures
        strmap::texts(r@) == service_labels(service, project@, name@),
{
    let mut labels: StrMap<String> = match service {
        Some(s) => s.labels.clone(),
        None => StrMap::new(),
    };
    let ghost own = match service {
        Some(s) => strmap::texts(s.labels@),
        None => Map::empty(),
    };
    assert(strmap::texts(labels@) =~= own);
    labels.insert(LABEL_PROJECT.to_string(), project.to_string());
    assert(strmap::texts(labels@) =~= own.insert(LABEL_PROJECT@, project@));
    labels.insert(LABEL_SERVICE.to_string(), name.to_string());
    assert(strmap::texts(labels@) =~= service_labels(service, project@, name@));
    labels
}

/// No strings at all.
fn nothing() -> (r: Vec<String>)
    ensures
        text::strs(r@) == Seq::<Seq<char>>::empty(),
{
    let r: Vec<String> = Vec::new();
    assert(text::strs(r@) =~= Seq::<Seq<char>>::empty());
    r
}

/// The record of a service's box that has just started. `home` is the
/// directory that holds the directories of the boxes.
pub fn service_record(
    project_name: &str,
    svc_name: &str,
    service: Option<&ServiceConfig>,
    setup: &ServiceSetup,
    facts: &BootFacts,
    home: &str,
) -> (r: Result<BoxRecord, String>)
    ensures
        match r {
            Ok(record) => {
                let policy = compose::service_policy(compose::declared_restart(service));
                &&& policy is Some
                &&& record@ == service_record_of(
                    project_name@,
                    svc_name@,
                    service,
                    *setup,
                    *facts,
                    home@,
                    policy->0,
                )
            },
            Err(e) => {
                &&& compose::service_policy(compose::declared_restart(service)) is None
                &&& e@ == compose::service_policy_error(
                    svc_name@,
                    compose::declared_restart(service)->0,
                )
            },
        },
{
    let (restart_policy, max_restart_count) = match service_restart_policy(svc_name, service) {
        Ok(p) => p,
        Err(e) => {
            return Err(e);
        },
    };
    let dir: String = box_dir(home, facts.box_id.as_str());
    let exec_socket_path: String = match &facts.exec_socket_path {
        Some(p) => p.clone(),
        None => box_file(dir.as_str(), "sockets", "exec.sock"),
    };
    let console_log: String = box_file(dir.as_str(), "logs", "console.log");
    let health_check: Option<HealthCheck> = pick_health(
        setup.healthcheck_disabled,
        &setup.health_check,
        &facts.image_health_check,
    );
    let health_status: String = if health_check.is_some() {
        "starting".to_string()
    } else {
        "none".to_string()
    };
    let network_name: Option<String> = match &setup.network {
        NetworkMode::Bridge { network } => Some(network.clone()),
        NetworkMode::Tsi => None,
    };
    let cpus: u32 = match service {
        Some(s) => match s.cpus {
            Some(n) => n,
            None => 2,
        },
        None => 2,
    };
    let cmd: Vec<String> = match service {
        Some(s) => match &s.command {
            Some(c) => clone_strings(c),
            None => nothing(),
        },
        None => nothing(),
    };
    let entrypoint: Option<Vec<String>> = match service {
        Some(s) => clone_opt_strings(&s.entrypoint),
        None => None,
    };
    let workdir: Option<String> = match service {
        Some(s) => s.working_dir.clone(),
        None => None,
    };
    let port_map: Vec<String> = match service {
        Some(s) => clone_strings(&s.ports),
        None => nothing(),
    };
    let tmpfs: Vec<String> = match service {
        Some(s) => clone_strings(&s.tmpfs),
        None => nothing(),
    };
    let cap_add: Vec<String> = match service {
        Some(s) => clone_strings(&s.cap_add),
        None => nothing(),
    };
    let cap_drop: Vec<String> = match service {
        Some(s) => clone_strings(&s.cap_drop),
        None => nothing(),
    };
    let privileged: bool = match service {
        Some(s) => s.privileged,
        None => false,
    };
    let record = BoxRecord {
        id: facts.box_id.clone(),
        short_id: facts.short_id.clone(),
        name: cat3(project_name, "-", svc_name),
        image: setup.image.clone(),
        status: "running".to_string(),
        pid: facts.pid,
        cpus,
        memory_mb: match setup.memory_mb {
            Some(m) => m,
            None => 512,
        },
        volumes: clone_strings(&setup.volumes),
        env: collect_env(&setup.extra_env),
        cmd,
        entrypoint,
        box_dir: dir,
        exec_socket_path,
        console_log,
        created_at: facts.created_at,
        started_at: Some(facts.started_at),
        auto_remove: false,
        hostname: setup.hostname.clone(),
        user: None,
        workdir,
        restart_policy,
        port_map,
        labels: build_labels(service, project_name, svc_name),
        stopped_by_user: false,
        restart_count: 0,
        max_restart_count,
        exit_code: None,
        health_check,
        healthcheck_disabled: setup.healthcheck_disabled,
        health_status,
        health_retries: 0,
        health_last_check: None,
        network_mode: setup.network.clone(),
        network_name,
        volume_names: clone_strings(&setup.volume_names),
        tmpfs,
        anonymous_volumes: clone_strings(&facts.anonymous_volumes),
        resource_limits: ResourceLimits::default(),
        log_config: LogConfig::default(),
        add_host: clone_strings(&setup.add_hosts),
        platform: None,
        init: false,
        read_only: false,
        cap_add,
        cap_drop,
        security_opt: nothing(),
        privileged,
        devices: nothing(),
        gpus: None,
        shm_size: None,
        stop_signal: facts.image_stop_signal.clone(),
        stop_timeout: None,
        oom_kill_disable: false,
        oom_score_adj: None,
    };
    Ok(record)
}

/// The box of a service that `compose up` has started is found again by
/// `compose down`, `compose ps` and `compose logs`: its record carries the
/// project and the service.
pub proof fn lemma_record_is_labelled(
    project: Seq<char>,
    name: Seq<char>,
    service: Option<&ServiceConfig>,
    setup: ServiceSetup,
    facts: BootFacts,
    home: Seq<char>,
    policy: (Seq<char>, u32),
)
    ensures
        ({
            let r = service_record_of(project, name, service, setup, facts, home, policy);
            &&& state::label(r, LABEL_PROJECT@) == Some(project)
            &&& state::label(r, LABEL_SERVICE@) == Some(name)
            &&& compose::service_box(r).svc_name == name
            &&& state::active(r.status)
        }),
{
    reveal_strlit("com.a3s.compose.project");
    reveal_strlit("com.a3s.compose.service");
    assert("com.a3s.compose.project"@[16] == 'p');
    assert("com.a3s.compose.service"@[16] == 's');
}

// ---------------------------------------------------------------------------
// compose down
// ---------------------------------------------------------------------------

/// What `compose down` takes away.
#[derive(Debug)]
pub struct DownPlan {
    /// The boxes, in the order in which they are stopped and removed.
    pub stop: Vec<ServiceBox>,
    /// The named volumes to remove.
    pub volumes: Vec<String>,
}

/// What has to be known of the boxes with these records.
pub open spec fn service_boxes(records: Seq<RecordView>) -> Seq<ServiceBoxView> {
    records.map_values(|r: RecordView| compose::service_box(r))
}

/// The named volumes of the boxes, in order.
pub open spec fn all_volumes(boxes: Seq<ServiceBoxView>) -> Seq<Seq<char>>
    decreases boxes.len(),
{
    if boxes.len() == 0 {
        seq![]
    } else {
        all_volumes(boxes.drop_last()) + boxes.last().volume_names
    }
}

/// Adds copies of the strings.
fn push_all(out: &mut Vec<String>, more: &Vec<String>)
    ensures
        text::strs(final(out)@) == text::strs(old(out)@) + text::strs(more@),
{
    let ghost was = out@;
    let mut copy: Vec<String> = clone_strings(more);
    out.append(&mut copy);
    assert(out@ =~= was + more@);
    assert(text::strs(out@) =~= text::strs(was) + text::strs(more@));
}

/// What `compose down` takes away: the boxes of the project, the latest first,
/// and their named volumes where that is asked for; `None` where the project
/// has no boxes.
pub fn plan_down(project_name: &str, args: &ComposeDownArgs, state: &StateFile) -> (r: Option<
    DownPlan,
>)
    ensures
        ({
            let all = service_boxes(compose_show::project_records(state@, project_name@));
            match r {
                Some(plan) => {
                    &&& all.len() > 0
                    &&& compose::boxes(plan.stop@) == all.reverse()
                    &&& text::strs(plan.volumes@) == if args.volumes {
                        all_volumes(all)
                    } else {
                        seq![]
                    }
                },
                None => all.len() == 0,
            }
        }),
{
    broadcast use crate::commands::compose::lemma_boxes_push;

    let records: Vec<&BoxRecord> = state.find_by_label(LABEL_PROJECT, project_name);
    let ghost views = compose_show::project_records(state@, project_name@);
    let ghost all = service_boxes(views);
    assert(state::ref_views(records@) == views);
    if records.len() == 0 {
        return None;
    }
    let mut boxes: Vec<ServiceBox> = Vec::new();
    let mut volumes: Vec<String> = Vec::new();
    let mut i: usize = 0;
    proof {
        assert(text::strs(volumes@) =~= seq![]);
        assert(all.take(0) =~= seq![]);
        assert(compose::boxes(boxes@) =~= all.take(0));
    }
    while i < records.len()
        invariant
            i <= records.len(),
            state::ref_views(records@) == views,
            all == service_boxes(views),
            compose::boxes(boxes@) == all.take(i as int),
            text::strs(volumes@) == if args.volumes {
                all_volumes(all.take(i as int))
            } else {
                seq![]
            },
        decreases records.len() - i,
    {
        let record: &BoxRecord = records[i];
        let svc: ServiceBox = ServiceBox::from_record(record);
        proof {
            assert(views[i as int] == record@);
            assert(all.take(i + 1) =~= all.take(i as int).push(svc@));
            assert(all.take(i + 1).drop_last() =~= all.take(i as int));
        }
        if args.volumes {
            push_all(&mut volumes, &svc.volume_names);
        }
        boxes.push(svc);
        i = i + 1;
    }
    assert(all.take(i as int) =~= all);
    Some(DownPlan { stop: latest_first(boxes), volumes })
}

/// What `compose down` takes away is what `compose up` has put there: the
/// boxes of a project are stopped in the reverse of the order in which their
/// records were added.
pub proof fn lemma_down_reverses(records: Seq<RecordView>, project: Seq<char>, i: int)
    requires
        0 <= i < compose_show::project_records(records, project).len(),
    ensures
        ({
            let all = compose_show::project_records(records, project);
            service_boxes(all).reverse()[i] == compose::service_box(all[all.len() - 1 - i])
        }),
{
}

/// Whether a network belongs to the project.
pub open spec fn project_network(project: Seq<char>, name: Seq<char>) -> bool {
    text::has_prefix(name, project + "_"@)
}

/// The networks of the project, each with whether boxes have to be taken out of
/// it first.
pub open spec fn down_list(project: Seq<char>, networks: Seq<NetworkConfig>) -> Seq<
    (Seq<char>, bool),
> {
    networks.filter(|c: NetworkConfig| project_network(project, c.name@)).map_values(
        |c: NetworkConfig|
            (c.name@, c.endpoints@ != Map::<Seq<char>, network::NetworkEndpoint>::empty()),
    )
}

/// The names and flags of a list.
pub open spec fn flagged(v: Seq<(String, bool)>) -> Seq<(Seq<char>, bool)> {
    v.map_values(|x: (String, bool)| (x.0@, x.1))
}

/// The networks that `compose down` removes.
pub fn down_networks(project_name: &str, networks: &Vec<NetworkConfig>) -> (r: Vec<(String, bool)>)
    ensures
        flagged(r@) == down_list(project_name@, networks@),
{
    let prefix: String = cat2(project_name, "_");
    let ghost p = |c: NetworkConfig| project_network(project_name@, c.name@);
    let ghost f = |c: NetworkConfig|
        (c.name@, c.endpoints@ != Map::<Seq<char>, network::NetworkEndpoint>::empty());
    let mut out: Vec<(String, bool)> = Vec::new();
    let mut i: usize = 0;
    proof {
        seqs::lemma_filter_none(networks@, p);
        assert(flagged(out@) =~= networks@.take(0).filter(p).map_values(f));
    }
    while i < networks.len()
        invariant
            i <= networks.len(),
            prefix@ == project_name@ + "_"@,
            p == (|c: NetworkConfig| project_network(project_name@, c.name@)),
            f == (|c: NetworkConfig|
                (c.name@, c.endpoints@ != Map::<Seq<char>, network::NetworkEndpoint>::empty())),
            flagged(out@) == networks@.take(i as int).filter(p).map_values(f),
        decreases networks.len() - i,
    {
        let net: &NetworkConfig = &networks[i];
        proof {
            seqs::lemma_filter_step(networks@, p, i as int);
        }
        if starts_with(net.name.as_str(), prefix.as_str()) {
            let attached: bool = !net.endpoints.is_empty();
            let ghost was = out@;
            out.push((net.name.clone(), attached));
            proof {
                let kept = networks@.take(i as int).filter(p);
                assert(kept.push(*net).map_values(f) =~= kept.map_values(f).push(f(*net)));
                assert(flagged(out@) =~= flagged(was).push((net.name@, attached)));
            }
        }
        i = i + 1;
    }
    assert(networks@.take(i as int) =~= networks@);
    out
}

// ---------------------------------------------------------------------------
// What the services come to
// ---------------------------------------------------------------------------

/// The record is one of a healthy box of a service of a project: it carries the
/// names of both, and its health check has passed.
pub open spec fn healthy_box(r: RecordView, project: Seq<char>, service: Seq<char>) -> bool {
    &&& r.labels.contains_key(LABEL_PROJECT@) && r.labels[LABEL_PROJECT@] == project
    &&& r.labels.contains_key(LABEL_SERVICE@) && r.labels[LABEL_SERVICE@] == service
    &&& r.health_status == "healthy"@
}

/// Some record is that of a healthy box of the service of the project.
pub open spec fn has_healthy_box(
    records: Seq<RecordView>,
    project: Seq<char>,
    service: Seq<char>,
) -> bool {
    exists|k: int|
        0 <= k < records.len() && healthy_box(#[trigger] records[k], project, service)
}

/// Services are healthy exactly where each of them has a box of the project whose
/// health check has passed.
pub proof fn lemma_healthy_has_a_box(
    project: &str,
    services: Vec<String>,
    state: StateFile,
    r: bool,
)
    requires
        call_ensures(all_healthy, (project, &services, &state), r),
    ensures
        r ==> forall|i: int|
            0 <= i < services@.len() ==> has_healthy_box(
                state@,
                project@,
                (#[trigger] services@[i])@,
            ),
        !r ==> exists|i: int|
            0 <= i < services@.len() && !has_healthy_box(
                state@,
                project@,
                (#[trigger] services@[i])@,
            ),
{
    assert forall|i: int| 0 <= i < services@.len() implies service_healthy(
        state@,
        project@,
        #[trigger] text::strs(services@)[i],
    ) == has_healthy_box(state@, project@, services@[i]@) by {
        let name = services@[i]@;
        if service_healthy(state@, project@, name) {
            let k = choose|k: int|
                0 <= k < state@.len() && state::label(#[trigger] state@[k], LABEL_SERVICE@) == Some(
                    name,
                ) && state::label(state@[k], LABEL_PROJECT@) == Some(project@)
                    && state@[k].health_status == "healthy"@;
            assert(healthy_box(state@[k], project@, name));
        }
        if has_healthy_box(state@, project@, name) {
            let k = choose|k: int|
                0 <= k < state@.len() && healthy_box(#[trigger] state@[k], project@, name);
            assert(state::label(state@[k], LABEL_SERVICE@) == Some(name));
        }
    }
    if r {
        assert forall|i: int| 0 <= i < services@.len() implies has_healthy_box(
            state@,
            project@,
            (#[trigger] services@[i])@,
        ) by {
            assert(service_healthy(state@, project@, text::strs(services@)[i]));
        }
    } else {
        let i = choose|i: int|
            0 <= i < services@.len() && !service_healthy(
                state@,
                project@,
                #[trigger] text::strs(services@)[i],
            );
        assert(!has_healthy_box(state@, project@, services@[i]@));
    }
}

/// A service whose boxes are all still starting, or unhealthy, is waited for.
pub proof fn lemma_starting_is_not_healthy(
    project: &str,
    services: Vec<String>,
    state: StateFile,
    i: int,
    r: bool,
)
    requires
        call_ensures(all_healthy, (project, &services, &state), r),
        0 <= i < services@.len(),
        forall|k: int|
            0 <= k < state@.len() && (#[trigger] state@[k]).labels.contains_pair(
                LABEL_SERVICE@,
                services@[i]@,
            ) ==> state@[k].health_status == "starting"@ || state@[k].health_status == "unhealthy"@
                || state@[k].health_status == "none"@,
    ensures
        !r,
{
    reveal_strlit("healthy");
    reveal_strlit("starting");
    reveal_strlit("unhealthy");
    reveal_strlit("none");
    lemma_healthy_has_a_box(project, services, state, r);
    assert("healthy"@.len() == 7 && "starting"@.len() == 8 && "unhealthy"@.len() == 9 && "none"@.len() == 4);
    if r {
        assert(services@[i]@ == services@[i]@);
        let k = choose|k: int|
            0 <= k < state@.len() && healthy_box(#[trigger] state@[k], project@, services@[i]@);
        assert(state@[k].labels.contains_pair(LABEL_SERVICE@, services@[i]@));
    }
}

/// The wait ends well only in time and only with every service healthy; it goes
/// on, in time, exactly as long as one of them is not; and it fails where the time
/// is up, whatever the state then holds.
pub proof fn lemma_wait_ends_when_healthy(
    project: &str,
    services: Vec<String>,
    elapsed_nanos: u128,
    timeout_secs: u64,
    state: StateFile,
    healthy: bool,
    r: Result<bool, String>,
)
    requires
        call_ensures(all_healthy, (project, &services, &state), healthy),
        call_ensures(
            wait_step,
            (project, &services, elapsed_nanos, timeout_secs, &Ok::<StateFile, String>(state)),
            r,
        ),
    ensures
        r is Ok <==> elapsed_nanos <= timeout_secs * 1_000_000_000,
        r matches Ok(done) ==> done == healthy,
{
}

/// What is recorded of a service's box is what the service declares, under the
/// project's name and its own: each port, capability and file system in memory, in
/// its order, and what the setup holds.
pub proof fn lemma_service_recorded_as_declared(
    project: &str,
    name: &str,
    s: ServiceConfig,
    setup: ServiceSetup,
    facts: BootFacts,
    home: &str,
    r: BoxRecord,
)
    requires
        call_ensures(
            service_record,
            (project, name, Some(&s), &setup, &facts, home),
            Ok::<BoxRecord, String>(r),
        ),
    ensures
        r.labels@.contains_key(LABEL_PROJECT@) && r.labels@[LABEL_PROJECT@]@ == project@,
        r.labels@.contains_key(LABEL_SERVICE@) && r.labels@[LABEL_SERVICE@]@ == name@,
        r.name@ == project@ + "-"@ + name@,
        r.image@ == setup.image@,
        r.status@ == "running"@,
        r.pid == facts.pid,
        r.id@ == facts.box_id@ && r.short_id@ == facts.short_id@,
        s.cpus is Some ==> r.cpus == s.cpus->0,
        s.cpus is None ==> r.cpus == 2,
        setup.memory_mb is Some ==> r.memory_mb == setup.memory_mb->0,
        setup.memory_mb is None ==> r.memory_mb == 512,
        text::same_texts(r.port_map@, s.ports@),
        text::same_texts(r.tmpfs@, s.tmpfs@),
        text::same_texts(r.cap_add@, s.cap_add@),
        text::same_texts(r.cap_drop@, s.cap_drop@),
        text::same_texts(r.volumes@, setup.volumes@),
        text::same_texts(r.volume_names@, setup.volume_names@),
        text::same_texts(r.add_host@, setup.add_hosts@),
        text::same_texts(r.anonymous_volumes@, facts.anonymous_volumes@),
        s.command is Some ==> text::same_texts(r.cmd@, s.command->0@),
        s.command is None ==> r.cmd@.len() == 0,
        text::opt_strs(r.entrypoint) == text::opt_strs(s.entrypoint),
        text::opt_str(r.workdir) == text::opt_str(s.working_dir),
        text::opt_str(r.hostname) == text::opt_str(setup.hostname),
        r.privileged == s.privileged,
        r.network_mode@ == setup.network@,
        cleanup::network_of(r@) == mode_network(setup.network@),
        r.created_at == facts.created_at && r.started_at == Some(facts.started_at),
        setup.healthcheck_disabled ==> r.health_check is None && r.health_status@ == "none"@,
        !setup.healthcheck_disabled && setup.health_check is Some ==> r.health_check is Some
            && r.health_check->0@ == setup.health_check->0@ && r.health_status@ == "starting"@,
        r.restart_count == 0 && !r.stopped_by_user && !r.auto_remove && r.exit_code is None,
{
    text::lemma_same_texts(r.port_map@, s.ports@);
    text::lemma_same_texts(r.tmpfs@, s.tmpfs@);
    text::lemma_same_texts(r.cap_add@, s.cap_add@);
    text::lemma_same_texts(r.cap_drop@, s.cap_drop@);
    text::lemma_same_texts(r.volumes@, setup.volumes@);
    text::lemma_same_texts(r.volume_names@, setup.volume_names@);
    text::lemma_same_texts(r.add_host@, setup.add_hosts@);
    text::lemma_same_texts(r.anonymous_volumes@, facts.anonymous_volumes@);
    if s.command is Some {
        text::lemma_same_texts(r.cmd@, s.command->0@);
    }
    assert(text::strs(r.cmd@).len() == r.cmd@.len());
    let labels = strmap::texts(r.labels@);
    assert(r@.labels == labels);
    lemma_labels_differ();
    assert(labels.contains_key(LABEL_PROJECT@) && labels.contains_key(LABEL_SERVICE@));
    assert(labels[LABEL_PROJECT@] == r.labels@[LABEL_PROJECT@]@);
    assert(labels[LABEL_SERVICE@] == r.labels@[LABEL_SERVICE@]@);
    assert(r@.health_check == state::opt_health(r.health_check));
}

/// The two labels of a service's box are not the same.
proof fn lemma_labels_differ()
    ensures
        LABEL_PROJECT@ != LABEL_SERVICE@,
{
    reveal_strlit("com.a3s.compose.project");
    reveal_strlit("com.a3s.compose.service");
    assert("com.a3s.compose.project"@[16] == 'p');
    assert("com.a3s.compose.service"@[16] == 's');
}

/// A project may be brought up exactly where none of its boxes is active.
pub proof fn lemma_up_needs_rest(project: &str, state: StateFile, i: int, r: Result<(), String>)
    requires
        call_ensures(check_not_active, (project, &state), r),
        0 <= i < state@.len(),
    ensures
        state@[i].labels.contains_key(LABEL_PROJECT@) && state@[i].labels[LABEL_PROJECT@] == project@
            && (state@[i].status == "running"@ || state@[i].status == "paused"@) ==> r is Err,
        (forall|k: int|
            0 <= k < state@.len() && (#[trigger] state@[k]).labels.contains_key(LABEL_PROJECT@)
                && state@[k].labels[LABEL_PROJECT@] == project@ ==> state@[k].status != "running"@
                && state@[k].status != "paused"@) ==> r is Ok,
{
    let of_project = |x: RecordView| state::label(x, LABEL_PROJECT@) == Some(project@);
    let busy = |x: RecordView| state::active(x.status);
    let own = state@.filter(of_project);
    let all = own.filter(busy);
    assert(active_records(state@, project@) =~= all);
    if of_project(state@[i]) && busy(state@[i]) {
        seqs::lemma_filter_contains(state@, of_project, state@[i]);
        assert(state@.contains(state@[i]));
        seqs::lemma_filter_contains(own, busy, state@[i]);
        assert(all.contains(state@[i]));
    }
    if all.len() > 0 {
        let x = all[0];
        assert(all.contains(x));
        seqs::lemma_filter_contains(own, busy, x);
        seqs::lemma_filter_contains(state@, of_project, x);
        let k = choose|k: int| 0 <= k < state@.len() && state@[k] == x;
        assert(state::label(state@[k], LABEL_PROJECT@) == Some(project@));
    }
}

/// Each volume of a box gives its mount, in its place, and those with a name give
/// their name too; where one cannot be had, none is.
pub proof fn lemma_volumes_gathered(
    outcomes: Vec<Result<(String, Option<String>), String>>,
    i: int,
    r: Result<(Vec<String>, Vec<String>), String>,
)
    requires
        call_ensures(gather_volumes, (outcomes,), r),
        0 <= i < outcomes@.len(),
    ensures
        outcomes@[i] is Err ==> r is Err,
        r is Ok ==> (r->Ok_0).0@.len() == outcomes@.len() && (r->Ok_0).0@[i]@ == (
        outcomes@[i]->Ok_0).0@,
        r is Ok && (outcomes@[i]->Ok_0).1 is Some ==> text::strs((r->Ok_0).1@).contains(
            (outcomes@[i]->Ok_0).1->0@,
        ),
        r is Ok ==> (r->Ok_0).1@.len() <= outcomes@.len(),
{
    if r is Ok {
        let (mounts, names) = r->Ok_0;
        let all = outcomes@.map_values(|o: Result<(String, Option<String>), String>| o->Ok_0);
        assert(text::strs(mounts@).len() == mounts@.len());
        assert(text::strs(mounts@)[i] == mounts@[i]@);
        assert(all[i] == outcomes@[i]->Ok_0);
        lemma_labels_of(all, i);
        assert(text::strs(names@).len() == names@.len());
    }
}

/// The names of volumes are those of the volumes that have one.
proof fn lemma_labels_of(v: Seq<(String, Option<String>)>, i: int)
    requires
        0 <= i < v.len(),
    ensures
        v[i].1 is Some ==> volume_labels(v).contains(v[i].1->0@),
        volume_labels(v).len() <= v.len(),
    decreases v.len(),
{
    let before = volume_labels(v.drop_last());
    if v.len() > 1 {
        lemma_labels_of(
            v.drop_last(),
            if i < v.len() - 1 {
                i
            } else {
                0
            },
        );
    } else {
        assert(v.drop_last().len() == 0);
    }
    let now = volume_labels(v);
    if v[i].1 is Some {
        if i < v.len() - 1 {
            assert(v.drop_last()[i] == v[i]);
            assert(before.contains(v[i].1->0@));
            let k = choose|k: int| 0 <= k < before.len() && before[k] == v[i].1->0@;
            assert(now[k] == before[k]);
        } else {
            assert(now[now.len() - 1] == v[i].1->0@);
        }
    }
}

/// A variable of a service has the last value it is given.
pub proof fn lemma_last_variable_wins(pairs: Vec<(String, String)>, i: int, r: StrMap<String>)
    requires
        call_ensures(collect_env, (&pairs,), r),
        0 <= i < pairs@.len(),
        forall|j: int| i < j < pairs@.len() ==> (#[trigger] pairs@[j]).0@ != pairs@[i].0@,
    ensures
        r@.contains_key(pairs@[i].0@),
        r@[pairs@[i].0@]@ == pairs@[i].1@,
{
    lemma_env_last(pairs@, i);
    let m = strmap::texts(r@);
    assert(m.contains_key(pairs@[i].0@));
}

/// The last pair of a key gives its value.
proof fn lemma_env_last(pairs: Seq<(String, String)>, i: int)
    requires
        0 <= i < pairs.len(),
        forall|j: int| i < j < pairs.len() ==> (#[trigger] pairs[j]).0@ != pairs[i].0@,
    ensures
        env_of(pairs).contains_key(pairs[i].0@),
        env_of(pairs)[pairs[i].0@] == pairs[i].1@,
    decreases pairs.len(),
{
    if i < pairs.len() - 1 {
        let before = pairs.drop_last();
        assert forall|j: int| i < j < before.len() implies (#[trigger] before[j]).0@ != before[i].0@ by {
            assert(before[j] == pairs[j]);
        }
        lemma_env_last(before, i);
        assert(pairs[pairs.len() - 1].0@ != pairs[i].0@);
    }
}

/// Every box of a project is stopped when it is brought down, the latest first, and
/// no box of another project. Volumes are removed only where that is asked, and then
/// each of every box.
pub proof fn lemma_down_stops_the_project(
    project: &str,
    args: ComposeDownArgs,
    state: StateFile,
    i: int,
    r: Option<DownPlan>,
)
    requires
        call_ensures(plan_down, (project, &args, &state), r),
        0 <= i < state@.len(),
    ensures
        state::label(state@[i], LABEL_PROJECT@) == Some(project@) ==> r is Some && exists|k: int|
            0 <= k < r->0.stop@.len() && (#[trigger] r->0.stop@[k]).box_id@ == state@[i].id,
        r is Some ==> r->0.stop@.len() > 0 && forall|k: int|
            0 <= k < r->0.stop@.len() ==> in_project(state@, project@, (#[trigger] r->0.stop@[k]).box_id@),
        r is Some && !args.volumes ==> r->0.volumes@.len() == 0,
        state::label(state@[i], LABEL_PROJECT@) == Some(project@) && args.volumes ==> forall|v: int|
            0 <= v < state@[i].volume_names.len() ==> text::strs(r->0.volumes@).contains(
                #[trigger] state@[i].volume_names[v],
            ),
{
    let of_project = |x: RecordView| state::label(x, LABEL_PROJECT@) == Some(project@);
    let own = state@.filter(of_project);
    let all = service_boxes(own);
    assert(compose_show::project_records(state@, project@) =~= own);
    if r is Some {
        let stop = r->0.stop@;
        let views = compose::boxes(stop);
        assert(views.len() == stop.len());
        assert forall|k: int| 0 <= k < stop.len() implies in_project(
            state@,
            project@,
            (#[trigger] stop[k]).box_id@,
        ) by {
            assert(views[k] == stop[k]@);
            let x = own[own.len() - 1 - k];
            assert(views[k] == compose::service_box(x));
            assert(own.contains(x));
            seqs::lemma_filter_contains(state@, of_project, x);
            let n = choose|n: int| 0 <= n < state@.len() && state@[n] == x;
            assert(state::label(state@[n], LABEL_PROJECT@) == Some(project@));
        }
        assert(text::strs(r->0.volumes@).len() == r->0.volumes@.len());
    }
    if of_project(state@[i]) {
        seqs::lemma_filter_contains(state@, of_project, state@[i]);
        assert(state@.contains(state@[i]));
        let n = choose|n: int| 0 <= n < own.len() && own[n] == state@[i];
        assert(all.len() > 0);
        let stop = r->0.stop@;
        let views = compose::boxes(stop);
        let k = own.len() - 1 - n;
        assert(views[k] == all[n]);
        assert(views[k] == stop[k]@);
        assert(stop[k].box_id@ == state@[i].id);
        if args.volumes {
            lemma_all_volumes(all, n);
            assert forall|v: int| 0 <= v < state@[i].volume_names.len() implies text::strs(
                r->0.volumes@,
            ).contains(#[trigger] state@[i].volume_names[v]) by {
                assert(all[n].volume_names[v] == state@[i].volume_names[v]);
            }
        }
    }
}

/// Some box of the project has this identifier.
pub open spec fn in_project(records: Seq<RecordView>, project: Seq<char>, id: Seq<char>) -> bool {
    exists|n: int|
        0 <= n < records.len() && (#[trigger] records[n]).id == id && records[n].labels.contains_key(
            LABEL_PROJECT@,
        ) && records[n].labels[LABEL_PROJECT@] == project
}

/// The volumes of boxes are those of each.
proof fn lemma_all_volumes(boxes: Seq<ServiceBoxView>, n: int)
    requires
        0 <= n < boxes.len(),
    ensures
        forall|v: int|
            0 <= v < boxes[n].volume_names.len() ==> all_volumes(boxes).contains(
                #[trigger] boxes[n].volume_names[v],
            ),
    decreases boxes.len(),
{
    let before = all_volumes(boxes.drop_last());
    let last = boxes.last().volume_names;
    assert(all_volumes(boxes) == before + last);
    if n < boxes.len() - 1 {
        lemma_all_volumes(boxes.drop_last(), n);
        assert(boxes.drop_last()[n] == boxes[n]);
        assert forall|v: int| 0 <= v < boxes[n].volume_names.len() implies all_volumes(boxes).contains(
            #[trigger] boxes[n].volume_names[v],
        ) by {
            assert(before.contains(boxes[n].volume_names[v]));
            let k = choose|k: int| 0 <= k < before.len() && before[k] == boxes[n].volume_names[v];
            assert(all_volumes(boxes)[k] == before[k]);
        }
    } else {
        assert forall|v: int| 0 <= v < boxes[n].volume_names.len() implies all_volumes(boxes).contains(
            #[trigger] boxes[n].volume_names[v],
        ) by {
            assert(all_volumes(boxes)[before.len() + v] == boxes[n].volume_names[v]);
        }
    }
}

/// The networks of a project, by the project's name before theirs, are removed with
/// it, each of them and no other.
pub proof fn lemma_down_removes_own_networks(
    project: &str,
    networks: Vec<NetworkConfig>,
    i: int,
    r: Vec<(String, bool)>,
)
    requires
        call_ensures(down_networks, (project, &networks), r),
        0 <= i < networks@.len(),
    ensures
        text::has_prefix(networks@[i].name@, project@ + "_"@) ==> exists|k: int|
            0 <= k < r@.len() && (#[trigger] r@[k]).0@ == networks@[i].name@ && (r@[k].1
                <==> networks@[i].endpoints@.dom() != Set::<Seq<char>>::empty()),
        forall|k: int| 0 <= k < r@.len() ==> text::has_prefix((#[trigger] r@[k]).0@, project@ + "_"@),
{
    let p = |c: NetworkConfig| project_network(project@, c.name@);
    let f = |c: NetworkConfig|
        (c.name@, c.endpoints@ != Map::<Seq<char>, network::NetworkEndpoint>::empty());
    let kept = networks@.filter(p);
    assert(flagged(r@) =~= kept.map_values(f));
    assert(flagged(r@).len() == r@.len());
    assert forall|k: int| 0 <= k < r@.len() implies text::has_prefix(
        (#[trigger] r@[k]).0@,
        project@ + "_"@,
    ) by {
        assert(flagged(r@)[k] == f(kept[k]));
        assert(flagged(r@)[k] == (r@[k].0@, r@[k].1));
        networks@.lemma_filter_pred(p, k);
    }
    if p(networks@[i]) {
        seqs::lemma_filter_contains(networks@, p, networks@[i]);
        assert(networks@.contains(networks@[i]));
        let k = choose|k: int| 0 <= k < kept.len() && kept[k] == networks@[i];
        assert(flagged(r@)[k] == f(kept[k]));
        assert(flagged(r@)[k] == (r@[k].0@, r@[k].1));
        let m = networks@[i].endpoints@;
        if m.dom() == Set::<Seq<char>>::empty() {
            assert(m =~= Map::<Seq<char>, network::NetworkEndpoint>::empty());
        }
    }
}

/// The check of a service goes before that of its image, and neither is run where
/// checks are off.
pub proof fn lemma_health_picked(
    disabled: bool,
    declared: Option<HealthCheck>,
    image: Option<HealthCheck>,
    r: Option<HealthCheck>,
)
    requires
        call_ensures(pick_health, (disabled, &declared, &image), r),
    ensures
        disabled ==> r is None,
        !disabled && declared is Some ==> r is Some && r->0@ == declared->0@,
        !disabled && declared is None ==> state::opt_health(r) == state::opt_health(image),
{
}

/// What a service is set up with is what its box is configured with.
pub proof fn lemma_setup_of_the_config(
    config: BoxConfig,
    volume_names: Vec<String>,
    memory_mb: Option<u32>,
    health_check: Option<HealthCheck>,
    disabled: bool,
    mounts: Vec<String>,
    booted: BoxConfig,
    r: ServiceSetup,
)
    requires
        call_ensures(boot_config, (config, &mounts), booted),
        call_ensures(
            service_setup,
            (&booted, &volume_names, memory_mb, &health_check, disabled),
            r,
        ),
    ensures
        text::same_texts(booted.volumes@, mounts@),
        text::same_texts(booted.port_map@, config.port_map@),
        text::same_texts(booted.cmd@, config.cmd@),
        booted.image@ == config.image@ && booted.network@ == config.network@,
        r.image@ == config.image@,
        text::same_texts(r.volumes@, mounts@),
        text::same_texts(r.volume_names@, volume_names@),
        text::same_texts(r.add_hosts@, config.add_hosts@),
        r.network@ == config.network@,
        text::opt_str(r.hostname) == text::opt_str(config.hostname),
        r.memory_mb == memory_mb,
        r.healthcheck_disabled == disabled,
        state::opt_health(r.health_check) == state::opt_health(health_check),
        config::pair_texts(r.extra_env@) == config::pair_texts(config.extra_env@),
{
    text::lemma_same_texts(booted.volumes@, mounts@);
    text::lemma_same_texts(booted.port_map@, config.port_map@);
    text::lemma_same_texts(booted.cmd@, config.cmd@);
    text::lemma_same_texts(r.volumes@, mounts@);
    text::lemma_same_texts(r.volume_names@, volume_names@);
    text::lemma_same_texts(r.add_hosts@, config.add_hosts@);
    assert(booted@.volumes == text::strs(mounts@));
}

/// The wait is over only after the time that was given, and then every service that was
/// waited for is named.
pub proof fn lemma_wait_timed_out(services: Vec<String>, elapsed_nanos: u128, timeout_secs: u64, r: Option<String>)
    requires
        call_ensures(wait_timed_out, (&services, elapsed_nanos, timeout_secs), r),
    ensures
        r is Some <==> elapsed_nanos > timeout_secs * 1_000_000_000,
        r is Some && services@.len() == 1 ==> text::has_suffix(r->0@, services@[0]@),
{
    if r is Some && services@.len() == 1 {
        let s = services@[0]@;
        assert(text::strs(services@)[0] == s);
        let said = r->0@;
        assert(said.skip(said.len() - s.len()) =~= s);
    }
}

/// The directory of a box lies below the home, under its own identifier, and its files
/// below that.
pub proof fn lemma_box_places(home: &str, box_id: &str, sub: &str, name: &str, dir: String, base: &str, file: String)
    requires
        call_ensures(box_dir, (home, box_id), dir),
        base@ == dir@,
        call_ensures(box_file, (base, sub, name), file),
    ensures
        text::has_suffix(dir@, box_id@),
        text::has_suffix(file@, name@),
        home@.len() > 0 && !path::is_rooted(box_id@) ==> text::has_prefix(dir@, home@),
        dir@.len() > 0 && !path::is_rooted(sub@) && !path::is_rooted(name@) ==> text::has_prefix(
            file@,
            dir@,
        ),
{
    reveal_strlit("boxes");
    assert("boxes"@[0] == 'b');
    let a = path::under(home@, "boxes"@);
    assert(dir@.skip(dir@.len() - box_id@.len()) =~= box_id@);
    assert(file@.skip(file@.len() - name@.len()) =~= name@);
    if home@.len() > 0 && !path::is_rooted(box_id@) {
        assert(a.len() > 0);
        assert(dir@.take(home@.len() as int) =~= home@);
    }
    if dir@.len() > 0 && !path::is_rooted(sub@) && !path::is_rooted(name@) {
        let b = path::under(dir@, sub@);
        assert(b.len() > 0);
        assert(file@.take(dir@.len() as int) =~= dir@);
    }
}

/// A service's box keeps the service's own labels, has the variables of its setup, the
/// policy of the service and the places of its own directory.
pub proof fn lemma_service_recorded_rest(
    project: &str,
    name: &str,
    s: ServiceConfig,
    setup: ServiceSetup,
    facts: BootFacts,
    home: &str,
    id: &str,
    k: Seq<char>,
    env: StrMap<String>,
    policy: (String, u32),
    dir: String,
    r: BoxRecord,
)
    requires
        id@ == facts.box_id@,
        call_ensures(box_dir, (home, id), dir),
        call_ensures(collect_env, (&setup.extra_env,), env),
        call_ensures(
            compose::service_restart_policy,
            (name, Some(&s)),
            Ok::<(String, u32), String>(policy),
        ),
        call_ensures(
            service_record,
            (project, name, Some(&s), &setup, &facts, home),
            Ok::<BoxRecord, String>(r),
        ),
        k != LABEL_PROJECT@,
        k != LABEL_SERVICE@,
    ensures
        s.labels@.contains_key(k) <==> r.labels@.contains_key(k),
        s.labels@.contains_key(k) ==> r.labels@[k]@ == s.labels@[k]@,
        strmap::texts(r.env@) == strmap::texts(env@),
        r.restart_policy@ == policy.0@ && r.max_restart_count == policy.1,
        text::opt_str(r.stop_signal) == text::opt_str(facts.image_stop_signal),
        r.box_dir@ == dir@,
        text::has_suffix(r.console_log@, "console.log"@),
        facts.exec_socket_path is Some ==> r.exec_socket_path@ == facts.exec_socket_path->0@,
        facts.exec_socket_path is None ==> text::has_suffix(r.exec_socket_path@, "exec.sock"@),
        !setup.healthcheck_disabled && setup.health_check is None ==> state::opt_health(r.health_check)
            == state::opt_health(facts.image_health_check),
{
    reveal_strlit("console.log");
    reveal_strlit("exec.sock");
    let a = r.console_log@;
    assert(a.skip(a.len() - 11) =~= "console.log"@);
    if facts.exec_socket_path is None {
        let b = r.exec_socket_path@;
        assert(b.skip(b.len() - 9) =~= "exec.sock"@);
    }
    let after = strmap::texts(r.labels@);
    let own = strmap::texts(s.labels@);
    assert(r@.labels == after);
    assert(after.contains_key(k) <==> r.labels@.contains_key(k));
    assert(own.contains_key(k) <==> s.labels@.contains_key(k));
    assert(after.contains_key(k) <==> own.contains_key(k));
    if own.contains_key(k) {
        assert(after[k] == own[k]);
        assert(after[k] == r.labels@[k]@ && own[k] == s.labels@[k]@);
    }
}

} // verus!
