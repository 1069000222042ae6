//! What is known of a box: its record, and the records of all boxes.

use vstd::prelude::*;

use crate::seqs;
use crate::strmap;
use crate::strmap::StrMap;
use crate::text;
use crate::text::{clone_opt_strings, clone_strings, starts_with, str_eq};

verus! {

/// A point in time: seconds since 1970-01-01T00:00:00Z, and nanoseconds.
#[derive(Clone, Copy, Debug, PartialEq, Eq, Structural)]
pub struct Timestamp {
    /// Seconds since the start of 1970, UTC.
    pub secs: i64,
    /// Nanoseconds within the second.
    pub nanos: u32,
}

impl Timestamp {
    /// Whether this point in time comes before the other.
    pub open spec fn before(self, other: Timestamp) -> bool {
        self.secs < other.secs || (self.secs == other.secs && self.nanos < other.nanos)
    }

    /// Whether this point in time comes before the other.
    pub fn is_before(&self, other: &Timestamp) -> (r: bool)
        ensures
            r == self.before(*other),
    {
        self.secs < other.secs || (self.secs == other.secs && self.nanos < other.nanos)
    }
}

/// How a box is attached to the network.
#[derive(Debug)]
pub enum NetworkMode {
    /// The host's sockets are handed through.
    Tsi,
    /// The box has an address in a network of its own.
    Bridge {
        /// Name of the network.
        network: String,
    },
}

/// What a [`NetworkMode`] holds.
#[verifier::ext_equal]
pub enum NetworkModeView {
    Tsi,
    Bridge { network: Seq<char> },
}

impl View for NetworkMode {
    type V = NetworkModeView;

    open spec fn view(&self) -> NetworkModeView {
        match self {
            NetworkMode::Tsi => NetworkModeView::Tsi,
            NetworkMode::Bridge { network } => NetworkModeView::Bridge { network: network@ },
        }
    }
}

impl Clone for NetworkMode {
    fn clone(&self) -> (r: Self)
        ensures
            r@ == self@,
    {
        match self {
            NetworkMode::Tsi => NetworkMode::Tsi,
            NetworkMode::Bridge { network } => NetworkMode::Bridge { network: network.clone() },
        }
    }
}

/// The driver that writes a box's logs.
#[derive(Clone, Copy, Debug, PartialEq, Eq, Structural)]
pub enum LogDriver {
    /// One JSON document per line.
    JsonFile,
    /// No logs.
    Disabled,
}

/// A health check.
#[derive(Debug)]
pub struct HealthCheck {
    /// Command that tells the health.
    pub cmd: Vec<String>,
    /// Seconds between two checks.
    pub interval_secs: u64,
    /// Seconds that a check may take.
    pub timeout_secs: u64,
    /// Failed checks in a row that make the box unhealthy.
    pub retries: u32,
    /// Seconds after the start in which failures do not count.
    pub start_period_secs: u64,
}

/// What a [`HealthCheck`] holds.
#[verifier::ext_equal]
pub struct HealthCheckView {
    pub cmd: Seq<Seq<char>>,
    pub interval_secs: u64,
    pub timeout_secs: u64,
    pub retries: u32,
    pub start_period_secs: u64,
}

impl View for HealthCheck {
    type V = HealthCheckView;

    open spec fn view(&self) -> HealthCheckView {
        HealthCheckView {
            cmd: text::strs(self.cmd@),
            interval_secs: self.interval_secs,
            timeout_secs: self.timeout_secs,
            retries: self.retries,
            start_period_secs: self.start_period_secs,
        }
    }
}

impl Clone for HealthCheck {
    fn clone(&self) -> (r: Self)
        ensures
            r@ == self@,
    {
        HealthCheck {
            cmd: clone_strings(&self.cmd),
            interval_secs: self.interval_secs,
            timeout_secs: self.timeout_secs,
            retries: self.retries,
            start_period_secs: self.start_period_secs,
        }
    }
}

/// What an optional health check holds.
pub open spec fn opt_health(o: Option<HealthCheck>) -> Option<HealthCheckView> {
    match o {
        Some(h) => Some(h@),
        None => None,
    }
}

/// A copy of an optional health check.
pub fn clone_health(o: &Option<HealthCheck>) -> (r: Option<HealthCheck>)
    ensures
        opt_health(r) == opt_health(*o),
{
    match o {
        Some(h) => Some(h.clone()),
        None => None,
    }
}

/// Limits of what a box may use.
#[derive(Debug)]
pub struct ResourceLimits {
    /// Number of processes in the box.
    pub pids_limit: Option<u64>,
    /// CPUs that the box is pinned to.
    pub cpuset_cpus: Option<String>,
    /// Limits of the processes in the box.
    pub ulimits: Vec<String>,
    /// Relative weight.
    pub cpu_shares: Option<u64>,
    /// Microseconds per period.
    pub cpu_quota: Option<i64>,
    /// Period in microseconds.
    pub cpu_period: Option<u64>,
    /// Soft memory limit in bytes.
    pub memory_reservation: Option<u64>,
    /// Limit of memory and swap in bytes; -1 for none.
    pub memory_swap: Option<i64>,
}

/// What a [`ResourceLimits`] holds.
#[verifier::ext_equal]
pub struct ResourceLimitsView {
    pub pids_limit: Option<u64>,
    pub cpuset_cpus: Option<Seq<char>>,
    pub ulimits: Seq<Seq<char>>,
    pub cpu_shares: Option<u64>,
    pub cpu_quota: Option<i64>,
    pub cpu_period: Option<u64>,
    pub memory_reservation: Option<u64>,
    pub memory_swap: Option<i64>,
}

impl View for ResourceLimits {
    type V = ResourceLimitsView;

    open spec fn view(&self) -> ResourceLimitsView {
        ResourceLimitsView {
            pids_limit: self.pids_limit,
            cpuset_cpus: text::opt_str(self.cpuset_cpus),
            ulimits: text::strs(self.ulimits@),
            cpu_shares: self.cpu_shares,
            cpu_quota: self.cpu_quota,
            cpu_period: self.cpu_period,
            memory_reservation: self.memory_reservation,
            memory_swap: self.memory_swap,
        }
    }
}

impl Clone for ResourceLimits {
    fn clone(&self) -> (r: Self)
        ensures
            r@ == self@,
    {
        ResourceLimits {
            pids_limit: self.pids_limit,
            cpuset_cpus: self.cpuset_cpus.clone(),
            ulimits: clone_strings(&self.ulimits),
            cpu_shares: self.cpu_shares,
            cpu_quota: self.cpu_quota,
            cpu_period: self.cpu_period,
            memory_reservation: self.memory_reservation,
            memory_swap: self.memory_swap,
        }
    }
}

/// No limit at all.
pub open spec fn no_limits() -> ResourceLimitsView {
    ResourceLimitsView {
        pids_limit: None,
        cpuset_cpus: None,
        ulimits: Seq::empty(),
        cpu_shares: None,
        cpu_quota: None,
        cpu_period: None,
        memory_reservation: None,
        memory_swap: None,
    }
}

impl Default for ResourceLimits {
    fn default() -> (r: Self)
        ensures
            r@ == no_limits(),
    {
        ResourceLimits {
            pids_limit: None,
            cpuset_cpus: None,
            ulimits: Vec::new(),
            cpu_shares: None,
            cpu_quota: None,
            cpu_period: None,
            memory_reservation: None,
            memory_swap: None,
        }
    }
}

/// How the logs of a box are written.
#[derive(Debug)]
pub struct LogConfig {
    /// Driver that writes the logs.
    pub driver: LogDriver,
    /// Options of the driver.
    pub options: StrMap<String>,
}

/// What a [`LogConfig`] holds.
#[verifier::ext_equal]
pub struct LogConfigView {
    pub driver: LogDriver,
    pub options: Map<Seq<char>, Seq<char>>,
}

impl View for LogConfig {
    type V = LogConfigView;

    open spec fn view(&self) -> LogConfigView {
        LogConfigView {
            driver: self.driver,
            options: strmap::texts(self.options@),
        }
    }
}

impl Clone for LogConfig {
    fn clone(&self) -> (r: Self)
        ensures
            r@ == self@,
    {
        LogConfig {
            driver: self.driver,
            options: self.options.clone(),
        }
    }
}

/// The `json-file` driver without options.
pub open spec fn default_log_config() -> LogConfigView {
    LogConfigView { driver: LogDriver::JsonFile, options: Map::empty() }
}

impl Default for LogConfig {
    fn default() -> (r: Self)
        ensures
            r@ == default_log_config(),
    {
        let r = LogConfig { driver: LogDriver::JsonFile, options: StrMap::new() };
        assert(strmap::texts(r.options@) =~= Map::empty());
        r
    }
}

/// What is known of one box.
#[derive(Debug)]
pub struct BoxRecord {
    /// Full identifier.
    pub id: String,
    /// Short form of the identifier.
    pub short_id: String,
    /// Name given by the user or generated.
    pub name: String,
    /// OCI image reference.
    pub image: String,
    /// Lifecycle status, such as `created`, `running`, `paused`, `stopped` or `dead`.
    pub status: String,
    /// Process of the running box.
    pub pid: Option<u32>,
    /// Number of virtual CPUs.
    pub cpus: u32,
    /// Memory in megabytes.
    pub memory_mb: u32,
    /// Volume mounts.
    pub volumes: Vec<String>,
    /// Environment variables.
    pub env: StrMap<String>,
    /// Command.
    pub cmd: Vec<String>,
    /// Entrypoint in place of the image's.
    pub entrypoint: Option<Vec<String>>,
    /// Directory of the box on the host.
    pub box_dir: String,
    /// Socket for running commands in the box.
    pub exec_socket_path: String,
    /// File of the box's console output.
    pub console_log: String,
    /// When the box was created.
    pub created_at: Timestamp,
    /// When the box was last started.
    pub started_at: Option<Timestamp>,
    /// Whether the box is removed when it stops.
    pub auto_remove: bool,
    /// Host name.
    pub hostname: Option<String>,
    /// User that the command runs as.
    pub user: Option<String>,
    /// Working directory.
    pub workdir: Option<String>,
    /// Restart policy.
    pub restart_policy: String,
    /// Published ports.
    pub port_map: Vec<String>,
    /// Labels.
    pub labels: StrMap<String>,
    /// Whether the user stopped the box.
    pub stopped_by_user: bool,
    /// How often the box was restarted.
    pub restart_count: u32,
    /// How often the box may be restarted; 0 for no limit.
    pub max_restart_count: u32,
    /// Exit code of the last run.
    pub exit_code: Option<i32>,
    /// Health check.
    pub health_check: Option<HealthCheck>,
    /// Whether the image's health check is ignored.
    pub healthcheck_disabled: bool,
    /// Health status.
    pub health_status: String,
    /// Failed health checks in a row.
    pub health_retries: u32,
    /// When the health was last checked.
    pub health_last_check: Option<Timestamp>,
    /// Network mode.
    pub network_mode: NetworkMode,
    /// Network the box is attached to.
    pub network_name: Option<String>,
    /// Named volumes of the box.
    pub volume_names: Vec<String>,
    /// Temporary file systems.
    pub tmpfs: Vec<String>,
    /// Volumes made for the image's `VOLUME` declarations.
    pub anonymous_volumes: Vec<String>,
    /// Resource limits.
    pub resource_limits: ResourceLimits,
    /// Log configuration.
    pub log_config: LogConfig,
    /// Additional host entries.
    pub add_host: Vec<String>,
    /// Platform.
    pub platform: Option<String>,
    /// Whether an init process runs as PID 1.
    pub init: bool,
    /// Whether the root file system is read-only.
    pub read_only: bool,
    /// Added capabilities.
    pub cap_add: Vec<String>,
    /// Dropped capabilities.
    pub cap_drop: Vec<String>,
    /// Security options.
    pub security_opt: Vec<String>,
    /// Whether the box has extended privileges.
    pub privileged: bool,
    /// Host devices.
    pub devices: Vec<String>,
    /// GPUs.
    pub gpus: Option<String>,
    /// Size of `/dev/shm` in bytes.
    pub shm_size: Option<u64>,
    /// Signal that stops the box.
    pub stop_signal: Option<String>,
    /// Seconds to wait before the box is killed.
    pub stop_timeout: Option<u64>,
    /// Whether the OOM killer is off.
    pub oom_kill_disable: bool,
    /// OOM score adjustment.
    pub oom_score_adj: Option<i32>,
}

/// What a [`BoxRecord`] holds.
#[verifier::ext_equal]
pub struct RecordView {
    pub id: Seq<char>,
    pub short_id: Seq<char>,
    pub name: Seq<char>,
    pub image: Seq<char>,
    pub status: Seq<char>,
    pub pid: Option<u32>,
    pub cpus: u32,
    pub memory_mb: u32,
    pub volumes: Seq<Seq<char>>,
    pub env: Map<Seq<char>, Seq<char>>,
    pub cmd: Seq<Seq<char>>,
    pub entrypoint: Option<Seq<Seq<char>>>,
    pub box_dir: Seq<char>,
    pub exec_socket_path: Seq<char>,
    pub console_log: Seq<char>,
    pub created_at: Timestamp,
    pub started_at: Option<Timestamp>,
    pub auto_remove: bool,
    pub hostname: Option<Seq<char>>,
    pub user: Option<Seq<char>>,
    pub workdir: Option<Seq<char>>,
    pub restart_policy: Seq<char>,
    pub port_map: Seq<Seq<char>>,
    pub labels: Map<Seq<char>, Seq<char>>,
    pub stopped_by_user: bool,
    pub restart_count: u32,
    pub max_restart_count: u32,
    pub exit_code: Option<i32>,
    pub health_check: Option<HealthCheckView>,
    pub healthcheck_disabled: bool,
    pub health_status: Seq<char>,
    pub health_retries: u32,
    pub health_last_check: Option<Timestamp>,
    pub network_mode: NetworkModeView,
    pub network_name: Option<Seq<char>>,
    pub volume_names: Seq<Seq<char>>,
    pub tmpfs: Seq<Seq<char>>,
    pub anonymous_volumes: Seq<Seq<char>>,
    pub resource_limits: ResourceLimitsView,
    pub log_config: LogConfigView,
    pub add_host: Seq<Seq<char>>,
    pub platform: Option<Seq<char>>,
    pub init: bool,
    pub read_only: bool,
    pub cap_add: Seq<Seq<char>>,
    pub cap_drop: Seq<Seq<char>>,
    pub security_opt: Seq<Seq<char>>,
    pub privileged: bool,
    pub devices: Seq<Seq<char>>,
    pub gpus: Option<Seq<char>>,
    pub shm_size: Option<u64>,
    pub stop_signal: Option<Seq<char>>,
    pub stop_timeout: Option<u64>,
    pub oom_kill_disable: bool,
    pub oom_score_adj: Option<i32>,
}

impl View for BoxRecord {
    type V = RecordView;

    open spec fn view(&self) -> RecordView {
        RecordView {
            id: self.id@,
            short_id: self.short_id@,
            name: self.name@,
            image: self.image@,
            status: self.status@,
            pid: self.pid,
            cpus: self.cpus,
            memory_mb: self.memory_mb,
            volumes: text::strs(self.volumes@),
            env: strmap::texts(self.env@),
            cmd: text::strs(self.cmd@),
            entrypoint: text::opt_strs(self.entrypoint),
            box_dir: self.box_dir@,
            exec_socket_path: self.exec_socket_path@,
            console_log: self.console_log@,
            created_at: self.created_at,
            started_at: self.started_at,
            auto_remove: self.auto_remove,
            hostname: text::opt_str(self.hostname),
            user: text::opt_str(self.user),
            workdir: text::opt_str(self.workdir),
            restart_policy: self.restart_policy@,
            port_map: text::strs(self.port_map@),
            labels: strmap::texts(self.labels@),
            stopped_by_user: self.stopped_by_user,
            restart_count: self.restart_count,
            max_restart_count: self.max_restart_count,
            exit_code: self.exit_code,
            health_check: opt_health(self.health_check),
            healthcheck_disabled: self.healthcheck_disabled,
            health_status: self.health_status@,
            health_retries: self.health_retries,
            health_last_check: self.health_last_check,
            network_mode: self.network_mode@,
            network_name: text::opt_str(self.network_name),
            volume_names: text::strs(self.volume_names@),
            tmpfs: text::strs(self.tmpfs@),
            anonymous_volumes: text::strs(self.anonymous_volumes@),
            resource_limits: self.resource_limits@,
            log_config: self.log_config@,
            add_host: text::strs(self.add_host@),
            platform: text::opt_str(self.platform),
            init: self.init,
            read_only: self.read_only,
            cap_add: text::strs(self.cap_add@),
            cap_drop: text::strs(self.cap_drop@),
            security_opt: text::strs(self.security_opt@),
            privileged: self.privileged,
            devices: text::strs(self.devices@),
            gpus: text::opt_str(self.gpus),
            shm_size: self.shm_size,
            stop_signal: text::opt_str(self.stop_signal),
            stop_timeout: self.stop_timeout,
            oom_kill_disable: self.oom_kill_disable,
            oom_score_adj: self.oom_score_adj,
        }
    }
}

impl Clone for BoxRecord {
    fn clone(&self) -> (r: Self)
        ensures
            r@ == self@,
    {
        BoxRecord {
            id: self.id.clone(),
            short_id: self.short_id.clone(),
            name: self.name.clone(),
            image: self.image.clone(),
            status: self.status.clone(),
            pid: self.pid,
            cpus: self.cpus,
            memory_mb: self.memory_mb,
            volumes: clone_strings(&self.volumes),
            env: self.env.clone(),
            cmd: clone_strings(&self.cmd),
            entrypoint: clone_opt_strings(&self.entrypoint),
            box_dir: self.box_dir.clone(),
            exec_socket_path: self.exec_socket_path.clone(),
            console_log: self.console_log.clone(),
            created_at: self.created_at,
            started_at: self.started_at,
            auto_remove: self.auto_remove,
            hostname: self.hostname.clone(),
            user: self.user.clone(),
            workdir: self.workdir.clone(),
            restart_policy: self.restart_policy.clone(),
            port_map: clone_strings(&self.port_map),
            labels: self.labels.clone(),
            stopped_by_user: self.stopped_by_user,
            restart_count: self.restart_count,
            max_restart_count: self.max_restart_count,
            exit_code: self.exit_code,
            health_check: clone_health(&self.health_check),
            healthcheck_disabled: self.healthcheck_disabled,
            health_status: self.health_status.clone(),
            health_retries: self.health_retries,
            health_last_check: self.health_last_check,
            network_mode: self.network_mode.clone(),
            network_name: self.network_name.clone(),
            volume_names: clone_strings(&self.volume_names),
            tmpfs: clone_strings(&self.tmpfs),
            anonymous_volumes: clone_strings(&self.anonymous_volumes),
            resource_limits: self.resource_limits.clone(),
            log_config: self.log_config.clone(),
            add_host: clone_strings(&self.add_host),
            platform: self.platform.clone(),
            init: self.init,
            read_only: self.read_only,
            cap_add: clone_strings(&self.cap_add),
            cap_drop: clone_strings(&self.cap_drop),
            security_opt: clone_strings(&self.security_opt),
            privileged: self.privileged,
            devices: clone_strings(&self.devices),
            gpus: self.gpus.clone(),
            shm_size: self.shm_size,
            stop_signal: self.stop_signal.clone(),
            stop_timeout: self.stop_timeout,
            oom_kill_disable: self.oom_kill_disable,
            oom_score_adj: self.oom_score_adj,
        }
    }
}

/// The label of a record.
pub open spec fn label(r: RecordView, key: Seq<char>) -> Option<Seq<char>> {
    if r.labels.dom().contains(key) {
        Some(r.labels[key])
    } else {
        None
    }
}

impl BoxRecord {
    /// The label of the record.
    pub fn label(&self, key: &str) -> (r: Option<&String>)
        ensures
            match r {
                Some(v) => label(self@, key@) == Some(v@),
                None => label(self@, key@) is None,
            },
    {
        self.labels.get(key)
    }

    /// Whether the record carries the label with that value.
    pub fn has_label(&self, key: &str, value: &str) -> (r: bool)
        ensures
            r == (label(self@, key@) == Some(value@)),
    {
        match self.label(key) {
            Some(v) => str_eq(v.as_str(), value),
            None => false,
        }
    }
}

/// What a sequence of records holds.
pub open spec fn record_views(v: Seq<BoxRecord>) -> Seq<RecordView> {
    v.map_values(|r: BoxRecord| r@)
}

/// What a sequence of borrowed records holds.
pub open spec fn ref_views(v: Seq<&BoxRecord>) -> Seq<RecordView> {
    v.map_values(|r: &BoxRecord| r@)
}

/// Pushing a record pushes what it holds.
pub broadcast proof fn lemma_ref_views_push(v: Seq<&BoxRecord>, r: &BoxRecord)
    ensures
        #[trigger] ref_views(v.push(r)) == ref_views(v).push(r@),
{
    assert(ref_views(v.push(r)) =~= ref_views(v).push(r@));
}

/// `i` is where the first record with that identifier stands.
pub open spec fn first_with_id(s: Seq<RecordView>, id: Seq<char>, i: int) -> bool {
    0 <= i < s.len() && s[i].id == id && forall|j: int| 0 <= j < i ==> (#[trigger] s[j]).id != id
}

/// Whether a box runs, be it paused.
pub open spec fn active(status: Seq<char>) -> bool {
    status == "running"@ || status == "paused"@
}

/// The places at which records have a property, in order.
pub open spec fn places(s: Seq<RecordView>, p: spec_fn(RecordView) -> bool) -> Seq<usize>
    decreases s.len(),
{
    if s.len() == 0 {
        Seq::empty()
    } else {
        let before = places(s.drop_last(), p);
        if p(s.last()) {
            before.push((s.len() - 1) as usize)
        } else {
            before
        }
    }
}

/// The places are those at which the records have the property.
pub proof fn lemma_places(s: Seq<RecordView>, p: spec_fn(RecordView) -> bool)
    requires
        s.len() <= usize::MAX,
    ensures
        forall|k: int| 0 <= k < places(s, p).len() ==> (#[trigger] places(s, p)[k]) < s.len() && p(s[places(s, p)[k] as int]),
        forall|i: int| 0 <= i < s.len() && p(#[trigger] s[i]) ==> places(s, p).contains(i as usize),
    decreases s.len(),
{
    if s.len() > 0 {
        let t = s.drop_last();
        lemma_places(t, p);
        let before = places(t, p);
        let all = places(s, p);
        assert forall|k: int| 0 <= k < all.len() implies (#[trigger] all[k]) < s.len() && p(s[all[k] as int]) by {
            if k < before.len() {
                assert(all[k] == before[k]);
                assert(t[before[k] as int] == s[before[k] as int]);
            }
        }
        assert forall|i: int| 0 <= i < s.len() && p(#[trigger] s[i]) implies all.contains(i as usize) by {
            if i < t.len() {
                assert(p(t[i]));
                let k = choose|k: int| 0 <= k < before.len() && before[k] == i as usize;
                assert(all[k] == i as usize);
            } else {
                assert(all[before.len() as int] == i as usize);
            }
        }
    }
}

/// The records of all boxes.
#[derive(Debug)]
pub struct StateFile {
    records: Vec<BoxRecord>,
}

impl View for StateFile {
    type V = Seq<RecordView>;

    closed spec fn view(&self) -> Seq<RecordView> {
        record_views(self.records@)
    }
}

impl StateFile {
    /// The state that holds the given records.
    pub fn new(records: Vec<BoxRecord>) -> (r: Self)
        ensures
            r@ == record_views(records@),
    {
        StateFile { records }
    }

    /// The records, in order.
    pub fn records(&self) -> (r: &Vec<BoxRecord>)
        ensures
            record_views(r@) == self@,
            r.len() == self@.len(),
    {
        &self.records
    }

    /// How many records there are.
    pub fn len(&self) -> (r: usize)
        ensures
            r == self@.len(),
    {
        self.records.len()
    }

    /// The record at place `i`.
    pub fn get(&self, i: usize) -> (r: &BoxRecord)
        requires
            i < self@.len(),
        ensures
            r@ == self@[i as int],
    {
        &self.records[i]
    }

    /// Replaces the record at place `i`.
    pub fn set(&mut self, i: usize, record: BoxRecord)
        requires
            i < old(self)@.len(),
        ensures
            final(self)@ == old(self)@.update(i as int, record@),
    {
        self.records[i] = record;
        proof {
            assert(self@ =~= old(self)@.update(i as int, record@));
        }
    }

    /// Where the first record with that identifier stands.
    pub fn position(&self, id: &str) -> (r: Option<usize>)
        ensures
            match r {
                Some(i) => first_with_id(self@, id@, i as int),
                None => forall|j: int| 0 <= j < self@.len() ==> (#[trigger] self@[j]).id != id@,
            },
    {
        let mut i: usize = 0;
        while i < self.records.len()
            invariant
                i <= self.records.len(),
                forall|j: int| 0 <= j < i ==> (#[trigger] self@[j]).id != id@,
            decreases self.records.len() - i,
        {
            assert(self@[i as int] == self.records@[i as int]@);
            if str_eq(self.records[i].id.as_str(), id) {
                return Some(i);
            }
            i = i + 1;
        }
        None
    }

    /// The first record with that identifier.
    pub fn find_by_id(&self, id: &str) -> (r: Option<&BoxRecord>)
        ensures
            match r {
                Some(rec) => exists|i: int| first_with_id(self@, id@, i) && rec@ == self@[i],
                None => forall|j: int| 0 <= j < self@.len() ==> (#[trigger] self@[j]).id != id@,
            },
    {
        match self.position(id) {
            Some(i) => {
                assert(first_with_id(self@, id@, i as int));
                Some(&self.records[i])
            },
            None => None,
        }
    }

    /// The first record with that name.
    pub fn find_by_name(&self, name: &str) -> (r: Option<&BoxRecord>)
        ensures
            match r {
                Some(rec) => exists|i: int|
                    0 <= i < self@.len() && rec@ == #[trigger] self@[i] && self@[i].name == name@
                        && forall|j: int| 0 <= j < i ==> (#[trigger] self@[j]).name != name@,
                None => forall|j: int| 0 <= j < self@.len() ==> (#[trigger] self@[j]).name != name@,
            },
    {
        let mut i: usize = 0;
        while i < self.records.len()
            invariant
                i <= self.records.len(),
                forall|j: int| 0 <= j < i ==> (#[trigger] self@[j]).name != name@,
            decreases self.records.len() - i,
        {
            assert(self@[i as int] == self.records@[i as int]@);
            if str_eq(self.records[i].name.as_str(), name) {
                return Some(&self.records[i]);
            }
            i = i + 1;
        }
        None
    }

    /// The places of the records whose identifier begins with a text.
    pub fn find_by_id_prefix(&self, prefix: &str) -> (r: Vec<usize>)
        ensures
            r@ == places(self@, |x: RecordView| text::has_prefix(x.id, prefix@)),
    {
        let ghost p = |x: RecordView| text::has_prefix(x.id, prefix@);
        let mut out: Vec<usize> = Vec::new();
        for i in 0..self.records.len()
            invariant
                p == (|x: RecordView| text::has_prefix(x.id, prefix@)),
                out@ == places(self@.take(i as int), p),
        {
            proof {
                assert(self@.take(i + 1).drop_last() =~= self@.take(i as int));
                assert(self@[i as int] == self.records@[i as int]@);
            }
            if starts_with(self.records[i].id.as_str(), prefix) {
                out.push(i);
            }
        }
        assert(self@.take(self.records@.len() as int) =~= self@);
        out
    }

    /// The records that carry the label with that value, in order.
    pub fn find_by_label(&self, key: &str, value: &str) -> (r: Vec<&BoxRecord>)
        ensures
            ref_views(r@) == self@.filter(|x: RecordView| label(x, key@) == Some(value@)),
    {
        broadcast use lemma_ref_views_push;

        let ghost p = |x: RecordView| label(x, key@) == Some(value@);
        let mut out: Vec<&BoxRecord> = Vec::new();
        let mut i: usize = 0;
        proof {
            seqs::lemma_filter_none(self@, p);
            assert(ref_views(out@) =~= Seq::empty());
        }
        while i < self.records.len()
            invariant
                i <= self.records.len(),
                p == (|x: RecordView| label(x, key@) == Some(value@)),
                ref_views(out@) == self@.take(i as int).filter(p),
            decreases self.records.len() - i,
        {
            proof {
                seqs::lemma_filter_step(self@, p, i as int);
            }
            let rec: &BoxRecord = &self.records[i];
            assert(self@[i as int] == rec@);
            if rec.has_label(key, value) {
                out.push(rec);
            }
            i = i + 1;
        }
        assert(self@.take(i as int) =~= self@);
        out
    }

    /// The records of all boxes, or of the active ones only, in order.
    pub fn list(&self, all: bool) -> (r: Vec<&BoxRecord>)
        ensures
            ref_views(r@) == self@.filter(|x: RecordView| all || active(x.status)),
    {
        broadcast use lemma_ref_views_push;

        let ghost p = |x: RecordView| all || active(x.status);
        let mut out: Vec<&BoxRecord> = Vec::new();
        let mut i: usize = 0;
        proof {
            seqs::lemma_filter_none(self@, p);
            assert(ref_views(out@) =~= Seq::empty());
        }
        while i < self.records.len()
            invariant
                i <= self.records.len(),
                p == (|x: RecordView| all || active(x.status)),
                ref_views(out@) == self@.take(i as int).filter(p),
            decreases self.records.len() - i,
        {
            proof {
                seqs::lemma_filter_step(self@, p, i as int);
            }
            let rec: &BoxRecord = &self.records[i];
            assert(self@[i as int] == rec@);
            if all || is_active_status(rec.status.as_str()) {
                out.push(rec);
            }
            i = i + 1;
        }
        assert(self@.take(i as int) =~= self@);
        out
    }

    /// Adds a record at the end.
    pub fn add(&mut self, record: BoxRecord)
        ensures
            final(self)@ == old(self)@.push(record@),
    {
        self.records.push(record);
        proof {
            assert(self@ =~= old(self)@.push(record@));
        }
    }

    /// Takes the records with that identifier out. Tells whether there was one.
    pub fn remove(&mut self, id: &str) -> (r: bool)
        ensures
            final(self)@ == old(self)@.filter(|x: RecordView| x.id != id@),
            r == exists|j: int| 0 <= j < old(self)@.len() && (#[trigger] old(self)@[j]).id == id@,
    {
        let ghost p = |x: RecordView| x.id != id@;
        let ghost before = self@;
        let mut kept: Vec<BoxRecord> = Vec::new();
        let mut found: bool = false;
        let mut i: usize = 0;
        proof {
            seqs::lemma_filter_none(before, p);
            assert(record_views(kept@) =~= Seq::empty());
        }
        while i < self.records.len()
            invariant
                i <= self.records.len(),
                *self == *old(self),
                before == self@,
                p == (|x: RecordView| x.id != id@),
                record_views(kept@) == before.take(i as int).filter(p),
                found == exists|j: int| 0 <= j < i && (#[trigger] before[j]).id == id@,
            decreases self.records.len() - i,
        {
            proof {
                seqs::lemma_filter_step(before, p, i as int);
            }
            assert(before[i as int] == self.records@[i as int]@);
            if str_eq(self.records[i].id.as_str(), id) {
                found = true;
            } else {
                let rec: BoxRecord = self.records[i].clone();
                let ghost was = kept@;
                kept.push(rec);
                assert(record_views(kept@) =~= record_views(was).push(rec@));
            }
            i = i + 1;
        }
        assert(before.take(i as int) =~= before);
        self.records = kept;
        found
    }
}

/// Whether a box with this status runs, be it paused.
pub fn is_active_status(status: &str) -> (r: bool)
    ensures
        r == active(status@),
{
    str_eq(status, "running") || str_eq(status, "paused")
}

/// Whether the box runs, be it paused.
pub fn is_active(record: &BoxRecord) -> (r: bool)
    ensures
        r == active(record@.status),
{
    is_active_status(record.status.as_str())
}

/// A point in time comes before another where it is of an earlier second, or of an
/// earlier part of the same one: of two different points one comes first, and none
/// before itself.
pub proof fn lemma_times_in_order(a: Timestamp, b: Timestamp, ab: bool, ba: bool)
    requires
        call_ensures(Timestamp::is_before, (&a, &b), ab),
        call_ensures(Timestamp::is_before, (&b, &a), ba),
    ensures
        a.secs < b.secs ==> ab,
        a.secs == b.secs ==> (ab <==> a.nanos < b.nanos),
        !(ab && ba),
        ab || ba || a == b,
{
}

/// A box is active where it runs or is paused, and in no other state.
pub proof fn lemma_active_states(record: BoxRecord, r: bool)
    requires
        call_ensures(is_active, (&record,), r),
    ensures
        r <==> record.status@ == "running"@ || record.status@ == "paused"@,
        record.status@ == "created"@ || record.status@ == "stopped"@ || record.status@ == "dead"@ ==> !r,
{
    reveal_strlit("running");
    reveal_strlit("paused");
    reveal_strlit("created");
    reveal_strlit("stopped");
    reveal_strlit("dead");
    assert("running"@[0] == 'r' && "paused"@[0] == 'p' && "created"@[0] == 'c' && "stopped"@[0] == 's'
        && "dead"@[0] == 'd');
}

/// A box that is added is the last, and the others keep their places.
pub proof fn lemma_added_is_last(state: &mut StateFile, record: BoxRecord)
    requires
        call_ensures(StateFile::add, (state, record), ()),
    ensures
        final(state)@.len() == old(state)@.len() + 1,
        forall|i: int| 0 <= i < old(state)@.len() ==> #[trigger] final(state)@[i] == old(state)@[i],
        final(state)@.last() == record@,
{
}

/// What is found by an identifier or a name has it, and nothing is found only where
/// no box has it.
pub proof fn lemma_found_has_the_name(
    state: StateFile,
    id: &str,
    by_id: Option<&BoxRecord>,
    by_name: Option<&BoxRecord>,
)
    requires
        call_ensures(StateFile::find_by_id, (&state, id), by_id),
        call_ensures(StateFile::find_by_name, (&state, id), by_name),
    ensures
        by_id is Some ==> by_id->0.id@ == id@ && state@.contains(by_id->0@),
        by_name is Some ==> by_name->0.name@ == id@ && state@.contains(by_name->0@),
        forall|i: int| 0 <= i < state@.len() && (#[trigger] state@[i]).id == id@ ==> by_id is Some,
        forall|i: int| 0 <= i < state@.len() && (#[trigger] state@[i]).name == id@ ==> by_name is Some,
{
}

/// After a box is removed no box has its identifier, every other one is still there,
/// and it is told whether there was one.
pub proof fn lemma_removed_is_not_found(state: &mut StateFile, id: &str, r: bool, i: int)
    requires
        call_ensures(StateFile::remove, (state, id), r),
        0 <= i < old(state)@.len(),
    ensures
        forall|k: int| 0 <= k < final(state)@.len() ==> (#[trigger] final(state)@[k]).id != id@,
        old(state)@[i].id != id@ ==> final(state)@.contains(old(state)@[i]),
        old(state)@[i].id == id@ ==> r,
        r ==> exists|k: int| 0 <= k < old(state)@.len() && (#[trigger] old(state)@[k]).id == id@,
{
    let keep = |x: RecordView| x.id != id@;
    assert(final(state)@ =~= old(state)@.filter(keep));
    assert forall|k: int| 0 <= k < final(state)@.len() implies (#[trigger] final(state)@[k]).id != id@ by {
        old(state)@.lemma_filter_pred(keep, k);
    }
    if old(state)@[i].id != id@ {
        old(state)@.lemma_filter_contains(keep, i);
    }
}

/// The boxes that begin with a prefix are found, each of them and no other.
pub proof fn lemma_prefix_found(state: StateFile, prefix: &str, r: Vec<usize>, i: usize)
    requires
        state@.len() <= usize::MAX,
        call_ensures(StateFile::find_by_id_prefix, (&state, prefix), r),
    ensures
        r@.contains(i) <==> i < state@.len() && text::has_prefix(state@[i as int].id, prefix@),
{
    let p = |x: RecordView| text::has_prefix(x.id, prefix@);
    lemma_places(state@, p);
    assert(r@ =~= places(state@, p));
    if i < state@.len() && p(state@[i as int]) {
        assert(places(state@, p).contains(i));
    }
}

/// The boxes with a label are listed, each of them and no other.
pub proof fn lemma_labelled_found(state: StateFile, key: &str, value: &str, r: Vec<&BoxRecord>, i: int)
    requires
        call_ensures(StateFile::find_by_label, (&state, key, value), r),
        0 <= i < state@.len(),
    ensures
        forall|k: int|
            0 <= k < r@.len() ==> (#[trigger] r@[k])@.labels.contains_key(key@) && r@[k]@.labels[key@]
                == value@,
        state@[i].labels.contains_key(key@) && state@[i].labels[key@] == value@ ==> ref_views(
            r@,
        ).contains(state@[i]),
{
    let p = |x: RecordView| label(x, key@) == Some(value@);
    assert(ref_views(r@) =~= state@.filter(p));
    assert forall|k: int| 0 <= k < r@.len() implies (#[trigger] r@[k])@.labels.contains_key(key@)
        && r@[k]@.labels[key@] == value@ by {
        state@.lemma_filter_pred(p, k);
        assert(ref_views(r@)[k] == r@[k]@);
    }
    if p(state@[i]) {
        state@.lemma_filter_contains(p, i);
    }
}

/// Which boxes are listed.
spec fn listed_where(all: bool) -> spec_fn(RecordView) -> bool {
    |x: RecordView| all || active(x.status)
}

/// A listing of all boxes leaves none out; any other lists the active ones alone.
pub proof fn lemma_listed(state: StateFile, all: Vec<&BoxRecord>, some: Vec<&BoxRecord>, i: int)
    requires
        call_ensures(StateFile::list, (&state, true), all),
        call_ensures(StateFile::list, (&state, false), some),
        0 <= i < state@.len(),
    ensures
        ref_views(all@).contains(state@[i]),
        forall|k: int|
            0 <= k < some@.len() ==> (#[trigger] some@[k])@.status == "running"@ || some@[k]@.status
                == "paused"@,
        state@[i].status == "running"@ || state@[i].status == "paused"@ ==> ref_views(some@).contains(
            state@[i],
        ),
{
    let every = listed_where(true);
    let few = listed_where(false);
    assert(ref_views(all@) =~= state@.filter(every));
    assert(ref_views(some@) =~= state@.filter(few));
    state@.lemma_filter_contains(every, i);
    assert forall|k: int| 0 <= k < some@.len() implies (#[trigger] some@[k])@.status == "running"@
        || some@[k]@.status == "paused"@ by {
        state@.lemma_filter_pred(few, k);
        assert(ref_views(some@)[k] == some@[k]@);
    }
    if few(state@[i]) {
        state@.lemma_filter_contains(few, i);
    }
}

} // verus!
