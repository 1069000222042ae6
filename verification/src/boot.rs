//! Starting a box from its record.
//!
//! `start`, `restart` and `monitor` share this: the configuration is made from
//! the record, the box is started with it, and the record takes up the result.

use vstd::prelude::*;

use crate::cleanup;
use crate::cleanup::{cleanup_box_resources, record_network_name, CleanupStep};
use crate::commands::common;
use crate::commands::common::{effective_stop_signal, normalize_port_maps, normalize_user_option};
use crate::commands::compose_service;
use crate::commands::compose_service::pick_health;
use crate::commands::network;
use crate::commands::network::{attach_box, validate_attachable_network, NetworkConfig, NetworkEndpoint};
use crate::commands::run;
use crate::commands::run::with_shm;
use crate::config;
use crate::config::{list_env, BoxConfig, ConfigView, ResourceConfig, TeeConfig, TeeView};
use crate::path;
use crate::path::path_join;
use crate::state;
use crate::state::{BoxRecord, HealthCheck, LogConfig, RecordView, Timestamp};
use crate::text;
use crate::text::{cat2, clone_opt_strings, clone_strings, str_eq};

verus! {

/// Result of a successful box boot.
#[derive(Debug)]
pub struct BootResult {
    /// PID of the shim process.
    pub pid: Option<u32>,
    /// Host-side exec socket path selected by the runtime.
    pub exec_socket_path: Option<String>,
    /// Host-side PTY socket path selected by the runtime.
    pub pty_socket_path: Option<String>,
    /// Effective health check after applying image defaults.
    pub health_check: Option<HealthCheck>,
    /// Effective stop signal after applying image defaults.
    pub stop_signal: Option<String>,
    /// Anonymous volumes present after boot.
    pub anonymous_volumes: Vec<String>,
}

/// How a successful boot should update the restart counter.
#[derive(Debug, Clone, Copy, PartialEq, Eq, Structural)]
pub enum RestartCountUpdate {
    /// Reset the counter for a user-initiated `start`.
    Reset,
    /// Leave the counter unchanged for a user-initiated `restart`.
    Preserve,
    /// Increment the counter for monitor-driven automatic recovery.
    Increment,
}

/// The resources that a box has been given before it is started. They are let
/// go where the start fails.
#[derive(Debug)]
pub struct BootResourceGuard {
    /// Identifier of the box.
    pub box_id: String,
    /// Named volumes of the box.
    pub volume_names: Vec<String>,
    /// Network of the box.
    pub network_name: Option<String>,
    /// Whether the resources are still to be let go.
    pub armed: bool,
}

impl BootResourceGuard {
    /// The guard over the resources of the box with that record.
    pub fn new(record: &BoxRecord) -> (r: Self)
        ensures
            r.box_id@ == record@.id,
            text::strs(r.volume_names@) == record@.volume_names,
            text::opt_str(r.network_name) == cleanup::network_of(record@),
            r.armed,
    {
        BootResourceGuard {
            box_id: record.id.clone(),
            volume_names: clone_strings(&record.volume_names),
            network_name: match boot_network_name(record) {
                Some(n) => Some(n.clone()),
                None => None,
            },
            armed: true,
        }
    }

    /// What has to be let go; nothing where that was asked before or the guard
    /// was disarmed.
    pub fn rollback(&mut self) -> (r: Vec<CleanupStep>)
        ensures
            !final(self).armed,
            cleanup::steps(r@) == if old(self).armed {
                cleanup::resource_steps(
                    old(self).box_id@,
                    text::strs(old(self).volume_names@),
                    text::opt_str(old(self).network_name),
                )
            } else {
                seq![]
            },
            final(self).box_id == old(self).box_id,
            final(self).volume_names == old(self).volume_names,
            final(self).network_name == old(self).network_name,
    {
        if !self.armed {
            let none: Vec<CleanupStep> = Vec::new();
            assert(cleanup::steps(none@) =~= seq![]);
            return none;
        }
        let steps: Vec<CleanupStep> = cleanup_box_resources(
            self.box_id.as_str(),
            &self.volume_names,
            self.network_name.as_ref(),
        );
        self.armed = false;
        steps
    }

    /// The guard with nothing left to let go.
    pub fn disarm(self) -> (r: Self)
        ensures
            r == (BootResourceGuard { armed: false, ..self }),
    {
        let mut this = self;
        this.armed = false;
        this
    }
}

/// The network that a box belongs to.
pub fn boot_network_name(record: &BoxRecord) -> (r: Option<&String>)
    ensures
        cleanup::opt_ref(r) == cleanup::network_of(record@),
{
    record_network_name(record)
}

// ---------------------------------------------------------------------------
// Taking up the result
// ---------------------------------------------------------------------------

/// The names of `a`, and those of `b` behind them that are not there yet.
pub open spec fn merged(a: Seq<Seq<char>>, b: Seq<Seq<char>>) -> Seq<Seq<char>>
    decreases b.len(),
{
    if b.len() == 0 {
        a
    } else {
        let m = merged(a, b.drop_last());
        if m.contains(b.last()) {
            m
        } else {
            m.push(b.last())
        }
    }
}

/// Merging keeps what was there, in its place.
pub proof fn lemma_merged_keeps(a: Seq<Seq<char>>, b: Seq<Seq<char>>)
    ensures
        a.is_prefix_of(merged(a, b)),
        forall|x: Seq<char>| #[trigger]
            merged(a, b).contains(x) <==> a.contains(x) || b.contains(x),
    decreases b.len(),
{
    if b.len() > 0 {
        let front = b.drop_last();
        let m = merged(a, front);
        lemma_merged_keeps(a, front);
        assert forall|x: Seq<char>| #[trigger] merged(a, b).contains(x) <==> a.contains(x)
            || b.contains(x) by {
            assert(b.contains(x) <==> front.contains(x) || x == b.last()) by {
                if front.contains(x) {
                    let i = choose|i: int| 0 <= i < front.len() && front[i] == x;
                    assert(b[i] == x);
                }
                if x == b.last() {
                    assert(b[b.len() - 1] == x);
                }
                if b.contains(x) {
                    let i = choose|i: int| 0 <= i < b.len() && b[i] == x;
                    if i < front.len() {
                        assert(front[i] == x);
                    }
                }
            }
            if !m.contains(b.last()) {
                let n = m.push(b.last());
                assert(n.contains(x) <==> m.contains(x) || x == b.last()) by {
                    if m.contains(x) {
                        let i = choose|i: int| 0 <= i < m.len() && m[i] == x;
                        assert(n[i] == x);
                    }
                    if x == b.last() {
                        assert(n[m.len() as int] == x);
                    }
                    if n.contains(x) {
                        let i = choose|i: int| 0 <= i < n.len() && n[i] == x;
                        if i < m.len() {
                            assert(m[i] == x);
                        }
                    }
                }
            }
        }
        assert(a =~= merged(a, b).take(a.len() as int));
    } else {
        assert(a =~= a.take(a.len() as int));
    }
}

/// Merging names that are there already changes nothing.
pub proof fn lemma_merged_idempotent(a: Seq<Seq<char>>, b: Seq<Seq<char>>)
    requires
        forall|i: int| 0 <= i < b.len() ==> a.contains(#[trigger] b[i]),
    ensures
        merged(a, b) == a,
    decreases b.len(),
{
    if b.len() > 0 {
        let front = b.drop_last();
        assert forall|i: int| 0 <= i < front.len() implies a.contains(#[trigger] front[i]) by {
            assert(front[i] == b[i]);
        }
        lemma_merged_idempotent(a, front);
        assert(a.contains(b[b.len() - 1]));
    }
}

/// Where a name stands first.
pub open spec fn first_at(b: Seq<Seq<char>>, x: Seq<char>, i: int) -> bool {
    &&& 0 <= i < b.len()
    &&& b[i] == x
    &&& forall|j: int| 0 <= j < i ==> b[j] != x
}

/// Behind what was there, merging puts only names that were not there, each
/// once, in the order in which they first occur.
pub proof fn lemma_merged_order(a: Seq<Seq<char>>, b: Seq<Seq<char>>)
    ensures
        forall|k: int| a.len() <= k < merged(a, b).len() ==> !a.contains(#[trigger] merged(a, b)[k]),
        forall|k: int, l: int, i: int, j: int|
            a.len() <= k < l < merged(a, b).len() && first_at(b, merged(a, b)[k], i) && first_at(
                b,
                merged(a, b)[l],
                j,
            ) ==> i < j,
        forall|k: int, l: int|
            a.len() <= k < l < merged(a, b).len() ==> #[trigger] merged(a, b)[k] != #[trigger] merged(a, b)[l],
    decreases b.len(),
{
    lemma_merged_keeps(a, b);
    if b.len() > 0 {
        let front = b.drop_last();
        let m = merged(a, front);
        lemma_merged_order(a, front);
        lemma_merged_keeps(a, front);
        let n = merged(a, b);
        let last = b.len() - 1;
        assert forall|k: int| a.len() <= k < n.len() implies !a.contains(#[trigger] n[k]) by {
            if k < m.len() {
                assert(n[k] == m[k]);
            } else {
                assert(n[k] == b.last());
            }
        }
        assert forall|k: int, l: int, i: int, j: int|
            a.len() <= k < l < n.len() && first_at(b, n[k], i) && first_at(b, n[l], j) implies i < j by {
            assert(n[k] == m[k]);
            assert(m.contains(m[k]) && !a.contains(n[k]));
            let p = choose|p: int| 0 <= p < front.len() && front[p] == m[k];
            assert(b[p] == n[k]);
            assert(i <= p);
            if l < m.len() {
                assert(n[l] == m[l]);
                assert(m.contains(m[l]) && !a.contains(n[l]));
                let q = choose|q: int| 0 <= q < front.len() && front[q] == m[l];
                assert(b[q] == n[l]);
                assert(j <= q);
                assert(first_at(front, m[k], i)) by {
                    assert forall|x: int| 0 <= x < i implies front[x] != m[k] by {
                        assert(b[x] != n[k]);
                    }
                }
                assert(first_at(front, m[l], j)) by {
                    assert forall|x: int| 0 <= x < j implies front[x] != m[l] by {
                        assert(b[x] != n[l]);
                    }
                }
            } else {
                assert(n[l] == b.last());
                if j < last {
                    assert(front[j] == b.last());
                    assert(front.contains(b.last()));
                }
            }
        }
        assert forall|k: int, l: int| a.len() <= k < l < n.len() implies #[trigger] n[k] != #[trigger] n[l] by {
            assert(n[k] == m[k]);
            if l < m.len() {
                assert(n[l] == m[l]);
            } else {
                assert(m.contains(m[k]));
            }
        }
    }
}

/// Whether the name is among the names.
pub fn has_name(names: &Vec<String>, name: &str) -> (r: bool)
    ensures
        r == text::strs(names@).contains(name@),
{
    let mut i: usize = 0;
    while i < names.len()
        invariant
            i <= names.len(),
            forall|j: int| 0 <= j < i ==> text::strs(names@)[j] != name@,
        decreases names.len() - i,
    {
        assert(text::strs(names@)[i as int] == names@[i as int]@);
        if str_eq(names[i].as_str(), name) {
            return true;
        }
        i = i + 1;
    }
    false
}

/// The restart counter after a boot.
pub open spec fn counted(count: u32, update: RestartCountUpdate) -> int {
    match update {
        RestartCountUpdate::Reset => 0,
        RestartCountUpdate::Preserve => count as int,
        RestartCountUpdate::Increment => count + 1,
    }
}

/// The record of a box that has just been started from it.
pub open spec fn booted(
    r: RecordView,
    result: BootResult,
    update: RestartCountUpdate,
    now: Timestamp,
) -> RecordView {
    let health = state::opt_health(result.health_check);
    RecordView {
        status: "running"@,
        pid: result.pid,
        exec_socket_path: match result.exec_socket_path {
            Some(p) => p@,
            None => r.exec_socket_path,
        },
        health_check: health,
        health_status: compose_service::initial_health(health),
        health_retries: 0,
        health_last_check: None,
        stop_signal: text::opt_str(result.stop_signal),
        started_at: Some(now),
        stopped_by_user: false,
        exit_code: None,
        anonymous_volumes: merged(r.anonymous_volumes, text::strs(result.anonymous_volumes@)),
        restart_count: counted(r.restart_count, update) as u32,
        ..r
    }
}

/// Apply a successful boot result to a persisted record.
pub fn apply_boot_result(
    record: &mut BoxRecord,
    result: BootResult,
    restart_count_update: RestartCountUpdate,
    now: Timestamp,
)
    requires
        restart_count_update == RestartCountUpdate::Increment ==> old(record).restart_count
            < u32::MAX,
    ensures
        final(record)@ == booted(old(record)@, result, restart_count_update, now),
{
    broadcast use crate::text::lemma_strs_push;

    let BootResult {
        pid,
        exec_socket_path,
        pty_socket_path: _,
        health_check,
        stop_signal,
        anonymous_volumes,
    } = result;
    let ghost before = text::strs(record.anonymous_volumes@);
    let ghost news = text::strs(anonymous_volumes@);
    let mut all: Vec<String> = clone_strings(&record.anonymous_volumes);
    let mut i: usize = 0;
    assert(news.take(0) =~= Seq::<Seq<char>>::empty());
    while i < anonymous_volumes.len()
        invariant
            i <= anonymous_volumes.len(),
            news == text::strs(anonymous_volumes@),
            text::strs(all@) == merged(before, news.take(i as int)),
        decreases anonymous_volumes.len() - i,
    {
        proof {
            assert(news.take(i + 1).drop_last() =~= news.take(i as int));
            assert(news.take(i + 1).last() == anonymous_volumes@[i as int]@);
        }
        if !has_name(&all, anonymous_volumes[i].as_str()) {
            all.push(anonymous_volumes[i].clone());
        }
        i = i + 1;
    }
    assert(news.take(i as int) =~= news);
    record.status = "running".to_string();
    record.pid = pid;
    match exec_socket_path {
        Some(p) => {
            record.exec_socket_path = p;
        },
        None => {},
    }
    record.health_status = if health_check.is_some() {
        "starting".to_string()
    } else {
        "none".to_string()
    };
    record.health_check = health_check;
    record.health_retries = 0;
    record.health_last_check = None;
    record.stop_signal = stop_signal;
    record.started_at = Some(now);
    record.stopped_by_user = false;
    record.exit_code = None;
    record.anonymous_volumes = all;
    match restart_count_update {
        RestartCountUpdate::Reset => {
            record.restart_count = 0;
        },
        RestartCountUpdate::Preserve => {},
        RestartCountUpdate::Increment => {
            record.restart_count = record.restart_count + 1;
        },
    }
}

// ---------------------------------------------------------------------------
// The network
// ---------------------------------------------------------------------------

/// Why a box cannot be connected to its network, where it cannot.
pub open spec fn connect_failure(
    config: NetworkConfig,
    policy: Result<(), String>,
    box_id: Seq<char>,
    allocated: Result<NetworkEndpoint, String>,
) -> Option<Seq<char>> {
    match network::attach_error(config.driver@, policy) {
        Some(e) => Some(e),
        None => if config.endpoints@.dom().contains(box_id) {
            None
        } else {
            match allocated {
                Ok(_) => None,
                Err(e) => Some("Failed to connect to network: "@ + e@),
            }
        },
    }
}

/// Connects a box to its network, unless it is connected already. `allocated`
/// is the endpoint that the runtime allocates for a box that is not. Tells
/// whether the network has changed and has to be stored.
pub fn ensure_network_connected_with_store(
    config: &mut NetworkConfig,
    policy: &Result<(), String>,
    record: &BoxRecord,
    allocated: Result<NetworkEndpoint, String>,
) -> (r: Result<bool, String>)
    ensures
        *final(config) == (NetworkConfig {
            endpoints: final(config).endpoints,
            ..*old(config)
        }),
        ({
            let failure = connect_failure(*old(config), *policy, record@.id, allocated);
            match r {
                Ok(changed) => {
                    &&& failure is None
                    &&& changed == !old(config).endpoints@.dom().contains(record@.id)
                    &&& final(config).endpoints@ == if changed {
                        old(config).endpoints@.insert(record@.id, allocated->Ok_0)
                    } else {
                        old(config).endpoints@
                    }
                },
                Err(e) => failure == Some(e@) && final(config).endpoints@
                    == old(config).endpoints@,
            }
        }),
{
    match validate_attachable_network(config, policy) {
        Err(e) => {
            return Err(e);
        },
        Ok(_) => {},
    }
    if config.endpoints.contains_key(record.id.as_str()) {
        return Ok(false);
    }
    match attach_box(config, record.id.as_str(), allocated) {
        Ok(_) => Ok(true),
        Err(e) => Err(e),
    }
}

/// Connecting a box that is connected changes nothing: after a first success, a
/// second one finds the box in the network.
pub proof fn lemma_connect_idempotent(
    endpoints: Map<Seq<char>, NetworkEndpoint>,
    box_id: Seq<char>,
    endpoint: NetworkEndpoint,
)
    ensures
        endpoints.insert(box_id, endpoint).dom().contains(box_id),
        endpoints.insert(box_id, endpoint).dom() == endpoints.dom().insert(box_id),
{
    assert(endpoints.insert(box_id, endpoint).dom() =~= endpoints.dom().insert(box_id));
}

// ---------------------------------------------------------------------------
// The configuration
// ---------------------------------------------------------------------------

/// What the runtime says of a persisted record.
#[derive(Debug)]
pub struct RecordChecks {
    /// Whether the working directory is valid.
    pub workdir: Result<(), String>,
    /// Whether the host name is valid.
    pub hostname: Result<(), String>,
    /// Whether the additional host entries are valid.
    pub add_host: Result<(), String>,
}

/// The configuration of the box with that record, but for the order of its
/// environment variables and the form of its ports.
pub open spec fn record_config(
    r: RecordView,
    env: Seq<(Seq<char>, Seq<char>)>,
    ports: Seq<Seq<char>>,
    user: Option<Seq<char>>,
) -> ConfigView {
    ConfigView {
        image: r.image,
        resources: ResourceConfig { vcpus: r.cpus, memory_mb: r.memory_mb },
        cmd: r.cmd,
        entrypoint_override: r.entrypoint,
        user,
        workdir: r.workdir,
        hostname: r.hostname,
        volumes: r.volumes,
        extra_env: env,
        port_map: ports,
        dns: Seq::empty(),
        add_hosts: r.add_host,
        network: r.network_mode,
        tmpfs: run::tmpfs_with_shm(r.tmpfs, r.shm_size),
        resource_limits: r.resource_limits,
        tee: TeeView::Off,
        read_only: r.read_only,
        cap_add: r.cap_add,
        cap_drop: r.cap_drop,
        security_opt: r.security_opt,
        privileged: r.privileged,
        sidecar: None,
        persistent: false,
    }
}

/// Whether the configuration of the box with that record is made as `r`: the
/// user is read, then the working directory, the ports, the host name and the
/// host entries are looked at; the first that fails decides.
pub open spec fn is_record_config(
    record: BoxRecord,
    checks: RecordChecks,
    r: Result<BoxConfig, String>,
) -> bool {
    let ports_ok = forall|i: int|
        0 <= i < record.port_map@.len() ==> common::port_of(
            (#[trigger] record.port_map@[i])@,
        ) is Some;
    match r {
        Ok(c) => {
            &&& !run::user_unknown(record.user)
            &&& checks.workdir is Ok
            &&& run::ports_are(record.port_map@, c.port_map@)
            &&& record.hostname is Some ==> checks.hostname is Ok
            &&& checks.add_host is Ok
            &&& config::lists(c@.extra_env, record@.env)
            &&& c@ == record_config(
                record@,
                c@.extra_env,
                text::strs(c.port_map@),
                run::user_number(record.user),
            )
        },
        Err(e) => if run::user_unknown(record.user) {
            e@ == common::user_error(record.user->0@)
        } else if checks.workdir is Err {
            e@ == checks.workdir->Err_0@
        } else if !ports_ok {
            run::ports_error(text::strs(record.port_map@), e@)
        } else if record.hostname is Some && checks.hostname is Err {
            e@ == "Invalid persisted hostname: "@ + checks.hostname->Err_0@
        } else {
            checks.add_host is Err && e@ == "Invalid persisted add-host entry: "@
                + checks.add_host->Err_0@
        },
    }
}

/// Build the configuration from a record.
///
/// Reconstructs the full configuration needed to boot a VM from the persisted
/// record fields.
pub fn config_from_record(record: &BoxRecord, checks: &RecordChecks) -> (r: Result<
    BoxConfig,
    String,
>)
    ensures
        is_record_config(*record, *checks, r),
{
    let user: Option<String> = match normalize_user_option(&record.user) {
        Ok(u) => u,
        Err(e) => {
            return Err(e);
        },
    };
    match &checks.workdir {
        Err(e) => {
            return Err(e.clone());
        },
        Ok(_) => {},
    }
    let port_map: Vec<String> = match normalize_port_maps(&record.port_map) {
        Ok(p) => p,
        Err(e) => {
            proof {
                let ps = text::strs(record.port_map@);
                let i = choose|i: int|
                    common::first_bad_port(ps, i) && e@ == common::port_error(ps[i]);
                assert(common::port_of(record.port_map@[i]@) is None);
            }
            return Err(e);
        },
    };
    proof {
        assert forall|i: int| 0 <= i < record.port_map@.len() implies common::port_of(
            (#[trigger] record.port_map@[i])@,
        ) is Some by {
            assert(common::port_of(record.port_map@[i]@) == Some(port_map@[i]@));
        }
    }
    if record.hostname.is_some() {
        match &checks.hostname {
            Err(e) => {
                return Err(cat2("Invalid persisted hostname: ", e.as_str()));
            },
            Ok(_) => {},
        }
    }
    match &checks.add_host {
        Err(e) => {
            return Err(cat2("Invalid persisted add-host entry: ", e.as_str()));
        },
        Ok(_) => {},
    }
    let dns: Vec<String> = Vec::new();
    assert(text::strs(dns@) =~= Seq::empty());
    Ok(
        BoxConfig {
            image: record.image.clone(),
            resources: ResourceConfig { vcpus: record.cpus, memory_mb: record.memory_mb },
            cmd: clone_strings(&record.cmd),
            entrypoint_override: clone_opt_strings(&record.entrypoint),
            user,
            workdir: record.workdir.clone(),
            hostname: record.hostname.clone(),
            volumes: clone_strings(&record.volumes),
            extra_env: list_env(&record.env),
            port_map,
            dns,
            add_hosts: clone_strings(&record.add_host),
            network: record.network_mode.clone(),
            tmpfs: with_shm(&record.tmpfs, record.shm_size),
            resource_limits: record.resource_limits.clone(),
            tee: TeeConfig::Off,
            read_only: record.read_only,
            cap_add: clone_strings(&record.cap_add),
            cap_drop: clone_strings(&record.cap_drop),
            security_opt: clone_strings(&record.security_opt),
            privileged: record.privileged,
            sidecar: None,
            persistent: false,
        },
    )
}

// ---------------------------------------------------------------------------
// Starting
// ---------------------------------------------------------------------------

/// The steps of starting a box from its record.
#[derive(Clone, Copy, Debug, PartialEq, Eq, Structural)]
pub enum BootStage {
    /// The box gets its place in the network.
    EnsureNetwork,
    /// The store of the named volumes is opened.
    OpenVolumes,
    /// The named volumes are attached to the box.
    AttachVolumes,
    /// The box is started.
    Boot,
    /// The box runs.
    Done,
}

/// The step with which starting the box with that record goes on: a box without
/// a network or without named volumes does without the steps for them.
pub open spec fn boot_stage_from(r: RecordView, stage: BootStage) -> BootStage {
    if stage == BootStage::EnsureNetwork && cleanup::network_of(r) is Some {
        BootStage::EnsureNetwork
    } else if stage == BootStage::EnsureNetwork || stage == BootStage::OpenVolumes {
        if r.volume_names.len() == 0 {
            BootStage::Boot
        } else {
            BootStage::OpenVolumes
        }
    } else {
        stage
    }
}

/// The step with which starting the box with that record begins.
pub fn first_boot_stage(record: &BoxRecord) -> (r: BootStage)
    ensures
        r == boot_stage_from(record@, BootStage::EnsureNetwork),
{
    assert(record@.volume_names.len() == record.volume_names@.len());
    if boot_network_name(record).is_some() {
        BootStage::EnsureNetwork
    } else if record.volume_names.len() == 0 {
        BootStage::Boot
    } else {
        BootStage::OpenVolumes
    }
}

/// What follows a step of starting a box. A failure of the network, or of the
/// store of the volumes, leaves everything as it is; a later failure lets go of
/// what the box was given.
pub fn boot_step(record: &BoxRecord, stage: BootStage, succeeded: bool) -> (r: Result<
    BootStage,
    Vec<CleanupStep>,
>)
    requires
        stage != BootStage::Done,
    ensures
        match r {
            Ok(next) => succeeded && next == match stage {
                BootStage::EnsureNetwork => boot_stage_from(record@, BootStage::OpenVolumes),
                BootStage::OpenVolumes => BootStage::AttachVolumes,
                BootStage::AttachVolumes => BootStage::Boot,
                _ => BootStage::Done,
            },
            Err(steps) => !succeeded && cleanup::steps(steps@) == if stage
                == BootStage::EnsureNetwork || stage == BootStage::OpenVolumes {
                seq![]
            } else {
                cleanup::resource_steps(
                    record@.id,
                    record@.volume_names,
                    cleanup::network_of(record@),
                )
            },
        },
{
    assert(record@.volume_names.len() == record.volume_names@.len());
    if succeeded {
        return Ok(
            match stage {
                BootStage::EnsureNetwork => if record.volume_names.len() == 0 {
                    BootStage::Boot
                } else {
                    BootStage::OpenVolumes
                },
                BootStage::OpenVolumes => BootStage::AttachVolumes,
                BootStage::AttachVolumes => BootStage::Boot,
                _ => BootStage::Done,
            },
        );
    }
    let mut guard: BootResourceGuard = BootResourceGuard::new(record);
    if stage == BootStage::EnsureNetwork || stage == BootStage::OpenVolumes {
        guard = guard.disarm();
    }
    Err(guard.rollback())
}

/// What is known of a box that has been started from its record.
#[derive(Debug)]
pub struct StartedFacts {
    /// PID of the shim process.
    pub pid: Option<u32>,
    /// Exec socket selected by the runtime.
    pub exec_socket_path: Option<String>,
    /// PTY socket selected by the runtime.
    pub pty_socket_path: Option<String>,
    /// Anonymous volumes present after boot.
    pub anonymous_volumes: Vec<String>,
    /// Health check of the image.
    pub image_health_check: Option<HealthCheck>,
    /// Stop signal of the image.
    pub image_stop_signal: Option<String>,
}

/// The result of starting the box with that record: the health check and the
/// stop signal are the record's, else the image's.
pub fn boot_result(record: &BoxRecord, facts: StartedFacts) -> (r: BootResult)
    ensures
        r.pid == facts.pid,
        r.exec_socket_path == facts.exec_socket_path,
        r.pty_socket_path == facts.pty_socket_path,
        r.anonymous_volumes == facts.anonymous_volumes,
        state::opt_health(r.health_check) == compose_service::effective_health(
            record@.healthcheck_disabled,
            record@.health_check,
            state::opt_health(facts.image_health_check),
        ),
        text::opt_str(r.stop_signal) == common::stop_signal_of(
            record@.stop_signal,
            text::opt_str(facts.image_stop_signal),
        ),
{
    BootResult {
        health_check: pick_health(
            record.healthcheck_disabled,
            &record.health_check,
            &facts.image_health_check,
        ),
        stop_signal: effective_stop_signal(&record.stop_signal, &facts.image_stop_signal),
        pid: facts.pid,
        exec_socket_path: facts.exec_socket_path,
        pty_socket_path: facts.pty_socket_path,
        anonymous_volumes: facts.anonymous_volumes,
    }
}

/// The socket that a health checker of a started box uses: the runtime's, else
/// the record's.
pub fn health_socket(record: &BoxRecord, result: &BootResult) -> (r: String)
    ensures
        r@ == match result.exec_socket_path {
            Some(p) => p@,
            None => record@.exec_socket_path,
        },
{
    match &result.exec_socket_path {
        Some(p) => p.clone(),
        None => record.exec_socket_path.clone(),
    }
}

/// What checks the health of a box that runs.
#[derive(Debug)]
pub struct HealthChecker {
    /// Identifier of the box.
    pub box_id: String,
    /// Socket for running the check in the box.
    pub exec_socket_path: String,
    /// The check.
    pub health_check: HealthCheck,
}

/// What checks the health of a box: its identifier, its socket and its check.
pub struct CheckerView {
    pub box_id: Seq<char>,
    pub exec_socket_path: Seq<char>,
    pub health_check: state::HealthCheckView,
}

impl View for HealthChecker {
    type V = CheckerView;

    open spec fn view(&self) -> CheckerView {
        CheckerView {
            box_id: self.box_id@,
            exec_socket_path: self.exec_socket_path@,
            health_check: self.health_check@,
        }
    }
}

/// What an optional checker holds.
pub open spec fn opt_checker(o: Option<HealthChecker>) -> Option<CheckerView> {
    match o {
        Some(c) => Some(c@),
        None => None,
    }
}

/// The checker that is started for the box with that record, exactly where the
/// box has a health check.
pub open spec fn checker_of(r: RecordView) -> Option<CheckerView> {
    match r.health_check {
        Some(h) => Some(CheckerView { box_id: r.id, exec_socket_path: r.exec_socket_path, health_check: h }),
        None => None,
    }
}

/// The checker that is started once the box with that record runs.
pub fn health_checker(record: &BoxRecord) -> (r: Option<HealthChecker>)
    ensures
        opt_checker(r) == checker_of(record@),
{
    match &record.health_check {
        Some(h) => Some(
            HealthChecker {
                box_id: record.id.clone(),
                exec_socket_path: record.exec_socket_path.clone(),
                health_check: h.clone(),
            },
        ),
        None => None,
    }
}

/// The checker that is started for a box that has been started from its record:
/// the check and the socket are those of the result.
pub fn boot_health_checker(record: &BoxRecord, result: &BootResult) -> (r: Option<HealthChecker>)
    ensures
        opt_checker(r) == match state::opt_health(result.health_check) {
            Some(h) => Some(
                CheckerView {
                    box_id: record@.id,
                    exec_socket_path: match result.exec_socket_path {
                        Some(p) => p@,
                        None => record@.exec_socket_path,
                    },
                    health_check: h,
                },
            ),
            None => None,
        },
{
    match &result.health_check {
        Some(h) => Some(
            HealthChecker {
                box_id: record.id.clone(),
                exec_socket_path: health_socket(record, result),
                health_check: h.clone(),
            },
        ),
        None => None,
    }
}

/// What turns the console of a box into its log.
#[derive(Debug)]
pub struct LogProcessor {
    /// Where the console is written to.
    pub console_log: String,
    /// The directory of the log.
    pub log_dir: String,
    /// How the log is kept.
    pub log_config: LogConfig,
}

/// The processor that is started once the box with that record runs.
pub fn log_processor(record: &BoxRecord) -> (r: LogProcessor)
    ensures
        r.console_log@ == record@.console_log,
        r.log_dir@ == path::under(record@.box_dir, "logs"@),
        r.log_config@ == record@.log_config,
{
    LogProcessor {
        console_log: record.console_log.clone(),
        log_dir: path_join(record.box_dir.as_str(), "logs"),
        log_config: record.log_config.clone(),
    }
}

/// The checker that is started with a box is the one of the record that has
/// taken up the result.
pub proof fn lemma_checker_is_recorded(r: RecordView, result: BootResult, update: RestartCountUpdate, now: Timestamp)
    ensures
        checker_of(booted(r, result, update, now)) == match state::opt_health(result.health_check) {
            Some(h) => Some(
                CheckerView {
                    box_id: r.id,
                    exec_socket_path: match result.exec_socket_path {
                        Some(p) => p@,
                        None => r.exec_socket_path,
                    },
                    health_check: h,
                },
            ),
            None => None,
        },
        booted(r, result, update, now).health_status == "starting"@ <==> checker_of(booted(r, result, update, now)) is Some,
{
    reveal_strlit("starting");
    reveal_strlit("none");
    assert("starting"@.len() == 8 && "none"@.len() == 4);
}

/// A second boot with the same anonymous volumes adds none to the record,
/// whatever else it changes and however it counts.
pub proof fn lemma_volumes_merged_once(
    r: RecordView,
    first: BootResult,
    count_first: RestartCountUpdate,
    at_first: Timestamp,
    second: BootResult,
    count_second: RestartCountUpdate,
    at_second: Timestamp,
)
    requires
        text::strs(second.anonymous_volumes@) == text::strs(first.anonymous_volumes@),
    ensures
        booted(booted(r, first, count_first, at_first), second, count_second, at_second).anonymous_volumes
            == booted(r, first, count_first, at_first).anonymous_volumes,
{
    let names = text::strs(first.anonymous_volumes@);
    let all = merged(r.anonymous_volumes, names);
    lemma_merged_keeps(r.anonymous_volumes, names);
    assert forall|i: int| 0 <= i < names.len() implies all.contains(#[trigger] names[i]) by {
        assert(names.contains(names[i]));
    }
    lemma_merged_idempotent(all, names);
}

/// A record that a run has made is started again with the same image, command,
/// volumes, limits and security options.
pub proof fn lemma_restart_keeps_config(
    r: RecordView,
    result: BootResult,
    update: RestartCountUpdate,
    now: Timestamp,
    env: Seq<(Seq<char>, Seq<char>)>,
    ports: Seq<Seq<char>>,
    user: Option<Seq<char>>,
)
    ensures
        record_config(booted(r, result, update, now), env, ports, user) == record_config(
            r,
            env,
            ports,
            user,
        ),
{
}

// ---------------------------------------------------------------------------
// What a boot comes to
// ---------------------------------------------------------------------------

/// A box that has booted runs as the process it was given, with the socket, the
/// health check and the signal of the boot; its health is checked anew where it has
/// a check. What it is configured with stays as it was.
pub proof fn lemma_booted_runs(
    record: &mut BoxRecord,
    result: BootResult,
    update: RestartCountUpdate,
    now: Timestamp,
)
    requires
        update == RestartCountUpdate::Increment ==> old(record).restart_count < u32::MAX,
        call_ensures(apply_boot_result, (record, result, update, now), ()),
    ensures
        ({
            let before = old(record)@;
            let after = final(record)@;
            &&& after.status == "running"@
            &&& after.pid == result.pid
            &&& after.started_at == Some(now)
            &&& !after.stopped_by_user && after.exit_code is None
            &&& result.exec_socket_path is Some ==> after.exec_socket_path
                == result.exec_socket_path->0@
            &&& result.exec_socket_path is None ==> after.exec_socket_path == before.exec_socket_path
            &&& after.health_check == state::opt_health(result.health_check)
            &&& result.health_check is Some ==> after.health_status == "starting"@
            &&& result.health_check is None ==> after.health_status == "none"@
            &&& after.health_retries == 0 && after.health_last_check is None
            &&& after.stop_signal == text::opt_str(result.stop_signal)
            &&& update is Reset ==> after.restart_count == 0
            &&& update is Preserve ==> after.restart_count == before.restart_count
            &&& update is Increment ==> after.restart_count == before.restart_count + 1
            &&& after.id == before.id && after.name == before.name && after.image == before.image
            &&& after.volume_names == before.volume_names && after.volumes == before.volumes
            &&& after.port_map == before.port_map && after.env == before.env && after.cmd == before.cmd
            &&& after.network_mode == before.network_mode && after.network_name == before.network_name
            &&& after.restart_policy == before.restart_policy && after.labels == before.labels
            &&& after.created_at == before.created_at && after.auto_remove == before.auto_remove
        }),
{
}

/// The unnamed volumes of a box are those it had and those of the boot, each of them.
pub proof fn lemma_boot_keeps_volumes(
    record: &mut BoxRecord,
    result: BootResult,
    update: RestartCountUpdate,
    now: Timestamp,
    i: int,
)
    requires
        update == RestartCountUpdate::Increment ==> old(record).restart_count < u32::MAX,
        call_ensures(apply_boot_result, (record, result, update, now), ()),
    ensures
        0 <= i < old(record)@.anonymous_volumes.len() ==> final(record)@.anonymous_volumes[i]
            == old(record)@.anonymous_volumes[i] && i < final(record)@.anonymous_volumes.len(),
        0 <= i < result.anonymous_volumes@.len() ==> final(record)@.anonymous_volumes.contains(
            result.anonymous_volumes@[i]@,
        ),
{
    let a = old(record)@.anonymous_volumes;
    let b = text::strs(result.anonymous_volumes@);
    lemma_merged_keeps(a, b);
    if 0 <= i < result.anonymous_volumes@.len() {
        assert(b[i] == result.anonymous_volumes@[i]@);
        assert(b.contains(b[i]));
        assert(merged(a, b).contains(b[i]));
    }
}

/// A box is booted again with what is recorded of it: the image, the CPUs and the
/// memory, the command, each volume, port, variable, host and capability, and the
/// network and the limits.
pub proof fn lemma_config_is_the_records(
    record: BoxRecord,
    checks: RecordChecks,
    c: BoxConfig,
)
    requires
        call_ensures(config_from_record, (&record, &checks), Ok::<BoxConfig, String>(c)),
    ensures
        c.image@ == record.image@,
        c.resources.vcpus == record.cpus && c.resources.memory_mb == record.memory_mb,
        text::same_texts(c.cmd@, record.cmd@),
        text::opt_strs(c.entrypoint_override) == text::opt_strs(record.entrypoint),
        text::same_texts(c.volumes@, record.volumes@),
        text::same_texts(c.add_hosts@, record.add_host@),
        text::same_texts(c.cap_add@, record.cap_add@),
        text::same_texts(c.cap_drop@, record.cap_drop@),
        text::same_texts(c.security_opt@, record.security_opt@),
        c.port_map@.len() == record.port_map@.len(),
        c.network@ == record.network_mode@,
        c.resource_limits@ == record.resource_limits@,
        c.privileged == record.privileged && c.read_only == record.read_only,
        text::opt_str(c.workdir) == text::opt_str(record.workdir),
        text::opt_str(c.hostname) == text::opt_str(record.hostname),
        c.user is Some <==> record.user is Some,
        record.shm_size is None ==> text::same_texts(c.tmpfs@, record.tmpfs@),
        record.shm_size is Some ==> c.tmpfs@.len() == record.tmpfs@.len() + 1,
        forall|k: Seq<char>| #[trigger]
            record.env@.contains_key(k) ==> config::sets(c.extra_env@, k, record.env@[k]@),
        c.tee is Off && c.sidecar is None && !c.persistent,
{
    text::lemma_same_texts(c.cmd@, record.cmd@);
    text::lemma_same_texts(c.volumes@, record.volumes@);
    text::lemma_same_texts(c.add_hosts@, record.add_host@);
    text::lemma_same_texts(c.cap_add@, record.cap_add@);
    text::lemma_same_texts(c.cap_drop@, record.cap_drop@);
    text::lemma_same_texts(c.security_opt@, record.security_opt@);
    text::lemma_same_texts(c.tmpfs@, record.tmpfs@);
    assert(text::strs(c.tmpfs@).len() == c.tmpfs@.len());
    assert(c@.tee == c.tee@ && c@.sidecar == config::opt_sidecar(c.sidecar));
    let pairs = config::pair_texts(c.extra_env@);
    assert forall|k: Seq<char>| #[trigger] record.env@.contains_key(k) implies config::sets(
        c.extra_env@,
        k,
        record.env@[k]@,
    ) by {
        let m = crate::strmap::texts(record.env@);
        assert(m.dom().contains(k));
        let i = choose|i: int| 0 <= i < pairs.len() && (#[trigger] pairs[i]).0 == k;
        assert(pairs[i] == (c.extra_env@[i].0@, c.extra_env@[i].1@));
        assert(m[k] == record.env@[k]@);
    }
}

/// A box is put on its network before its volumes are opened and attached, and only
/// then booted; what it does not have is passed over. A failure after something was
/// attached gives back all that the box holds.
pub proof fn lemma_boot_order(
    record: BoxRecord,
    stage: BootStage,
    first: BootStage,
    ok: Result<BootStage, Vec<CleanupStep>>,
    failed: Result<BootStage, Vec<CleanupStep>>,
)
    requires
        stage != BootStage::Done,
        call_ensures(first_boot_stage, (&record,), first),
        call_ensures(boot_step, (&record, stage, true), ok),
        call_ensures(boot_step, (&record, stage, false), failed),
    ensures
        first is EnsureNetwork <==> record.network_name is Some || record.network_mode is Bridge,
        !(first is EnsureNetwork) && record.volume_names@.len() > 0 ==> first is OpenVolumes,
        !(first is EnsureNetwork) && record.volume_names@.len() == 0 ==> first is Boot,
        ok is Ok && failed is Err,
        stage is EnsureNetwork && record.volume_names@.len() > 0 ==> ok->Ok_0 is OpenVolumes,
        stage is EnsureNetwork && record.volume_names@.len() == 0 ==> ok->Ok_0 is Boot,
        stage is OpenVolumes ==> ok->Ok_0 is AttachVolumes,
        stage is AttachVolumes ==> ok->Ok_0 is Boot,
        stage is Boot ==> ok->Ok_0 is Done,
        stage is EnsureNetwork || stage is OpenVolumes ==> failed->Err_0@.len() == 0,
        stage is AttachVolumes || stage is Boot ==> failed->Err_0@.len() >= 1 && cleanup::steps(
            failed->Err_0@,
        )[0] == (cleanup::StepView::DetachVolumes {
            volumes: text::strs(record.volume_names@),
            box_id: record.id@,
        }),
{
    assert(record@.network_mode == record.network_mode@);
    assert(text::strs(record.volume_names@).len() == record.volume_names@.len());
    assert(cleanup::steps(failed->Err_0@).len() == failed->Err_0@.len());
}

/// What a box is said to have booted with is what came of it; its own check and
/// signal go before those of the image, and it has no check where checks are off.
pub proof fn lemma_boot_result_told(record: BoxRecord, facts: StartedFacts, r: BootResult)
    requires
        call_ensures(boot_result, (&record, facts), r),
    ensures
        r.pid == facts.pid,
        r.exec_socket_path == facts.exec_socket_path && r.pty_socket_path == facts.pty_socket_path,
        r.anonymous_volumes@ == facts.anonymous_volumes@,
        record.healthcheck_disabled ==> r.health_check is None,
        !record.healthcheck_disabled && record.health_check is Some ==> r.health_check is Some
            && r.health_check->0@ == record.health_check->0@,
        !record.healthcheck_disabled && record.health_check is None ==> state::opt_health(
            r.health_check,
        ) == state::opt_health(facts.image_health_check),
        record.stop_signal is Some ==> r.stop_signal is Some && r.stop_signal->0@
            == record.stop_signal->0@,
        record.stop_signal is None ==> text::opt_str(r.stop_signal) == text::opt_str(
            facts.image_stop_signal,
        ),
{
    assert(record@.health_check == state::opt_health(record.health_check));
}

/// A box is connected to a network once: one that is there already stays as it is,
/// and another joins with the address that was given out, beside those that are
/// there. A refusal changes nothing.
pub proof fn lemma_connected_once(
    config: &mut NetworkConfig,
    policy: Result<(), String>,
    record: BoxRecord,
    allocated: Result<NetworkEndpoint, String>,
    r: Result<bool, String>,
)
    requires
        call_ensures(
            ensure_network_connected_with_store,
            (config, &policy, &record, allocated),
            r,
        ),
    ensures
        final(config).name == old(config).name && final(config).driver == old(config).driver,
        old(config).driver@ != "bridge"@ ==> r is Err,
        policy is Err ==> r is Err,
        r is Err ==> final(config).endpoints@ == old(config).endpoints@,
        r is Ok ==> final(config).endpoints@.contains_key(record.id@),
        r == Ok::<bool, String>(true) ==> !old(config).endpoints@.contains_key(record.id@)
            && allocated is Ok && final(config).endpoints@[record.id@] == allocated->Ok_0,
        r == Ok::<bool, String>(false) ==> final(config).endpoints@ == old(config).endpoints@,
        forall|k: Seq<char>| #[trigger]
            old(config).endpoints@.contains_key(k) ==> final(config).endpoints@.contains_key(k)
                && final(config).endpoints@[k] == old(config).endpoints@[k],
        old(config).driver@ == "bridge"@ && policy is Ok && allocated is Ok ==> r is Ok,
{
}

/// What a boot took hold of is given back once: a rollback does so while it is
/// armed, and then and after it is disarmed there is nothing left to do.
pub proof fn lemma_rolled_back_once(
    record: BoxRecord,
    guard: BootResourceGuard,
    first: &mut BootResourceGuard,
    done: Vec<CleanupStep>,
    quiet: BootResourceGuard,
)
    requires
        call_ensures(BootResourceGuard::new, (&record,), guard),
        *old(first) == guard,
        call_ensures(BootResourceGuard::rollback, (first,), done),
        call_ensures(BootResourceGuard::disarm, (guard,), quiet),
    ensures
        cleanup::steps(done@)[0] == (cleanup::StepView::DetachVolumes {
            volumes: text::strs(record.volume_names@),
            box_id: record.id@,
        }),
        cleanup::steps(done@) == cleanup::resource_steps(
            record@.id,
            record@.volume_names,
            cleanup::network_of(record@),
        ),
        !final(first).armed,
        !quiet.armed,
{
}

/// A guard that is not armed has nothing to give back.
pub proof fn lemma_disarmed_is_quiet(guard: &mut BootResourceGuard, r: Vec<CleanupStep>)
    requires
        !old(guard).armed,
        call_ensures(BootResourceGuard::rollback, (guard,), r),
    ensures
        r@.len() == 0,
        !final(guard).armed,
{
    assert(cleanup::steps(r@).len() == r@.len());
}

/// The check of a box is run on the box, by the socket it answers on, as it was
/// declared; a box without a check has none.
pub proof fn lemma_checked_as_declared(record: BoxRecord, r: Option<HealthChecker>)
    requires
        call_ensures(health_checker, (&record,), r),
    ensures
        r is Some <==> record.health_check is Some,
        r is Some ==> r->0.box_id@ == record.id@ && r->0.exec_socket_path@ == record.exec_socket_path@
            && r->0.health_check@ == record.health_check->0@,
{
    assert(opt_checker(r) == checker_of(record@));
    assert(record@.health_check == state::opt_health(record.health_check));
    if r is Some {
        assert(opt_checker(r) == Some(r->0@));
    }
}

/// The log of a box is read from its console and written below its directory, as
/// its configuration says.
pub proof fn lemma_log_processor(record: BoxRecord, r: LogProcessor)
    requires
        call_ensures(log_processor, (&record,), r),
    ensures
        r.console_log@ == record.console_log@,
        r.log_config@ == record.log_config@,
        text::has_suffix(r.log_dir@, "logs"@),
{
    reveal_strlit("logs");
    let d = r.log_dir@;
    assert(d.skip(d.len() - 4) =~= "logs"@);
}

/// A box that has just booted is checked as the boot says, on the socket the boot says,
/// and else on the one it had.
pub proof fn lemma_checked_after_boot(
    record: BoxRecord,
    result: BootResult,
    r: Option<HealthChecker>,
    socket: String,
)
    requires
        call_ensures(boot_health_checker, (&record, &result), r),
        call_ensures(health_socket, (&record, &result), socket),
    ensures
        r is Some <==> result.health_check is Some,
        r is Some ==> r->0.box_id@ == record.id@ && r->0.health_check@ == result.health_check->0@
            && r->0.exec_socket_path@ == socket@,
        result.exec_socket_path is Some ==> socket@ == result.exec_socket_path->0@,
        result.exec_socket_path is None ==> socket@ == record.exec_socket_path@,
{
    if r is Some {
        assert(opt_checker(r) == Some(r->0@));
    }
}

/// The network of a box is the one it is named for, and else the one it is bridged to.
pub proof fn lemma_boot_network(record: BoxRecord, r: Option<&String>)
    requires
        call_ensures(boot_network_name, (&record,), r),
    ensures
        record.network_name is Some ==> r is Some && r->0@ == record.network_name->0@,
        record.network_name is None && record.network_mode is Tsi ==> r is None,
        record.network_name is None && record.network_mode is Bridge ==> r is Some && r->0@
            == record.network_mode->network@,
{
    assert(record@.network_mode == record.network_mode@);
}

} // verus!
