//! `run`: create a box and start it.

use vstd::prelude::*;

use crate::boot;
use crate::bytes;
use crate::cleanup;
use crate::cleanup::{
    cleanup_anonymous_volumes, cleanup_box_resources, cleanup_external_socket_dir, cleanup_partial_box_record,
    CleanupStep, StepView,
};
use crate::commands::common;
use crate::commands::common::{
    check_limits_fit, check_opt_size, effective_health_check, effective_stop_signal, normalize_port_maps,
    normalize_user_option, parse_opt_size, parse_pairs_as, split_entrypoint, CommonBoxArgs,
};
use crate::commands::compose_service;
use crate::commands::compose_service::{box_dir, box_file, gather_volumes};
use crate::commands::stop;
use crate::commands::stop::stop_signal;
use crate::config;
use crate::config::{list_env, BoxConfig, ConfigView, ResourceConfig, SidecarConfig, SidecarView, TeeConfig, TeeView};
use crate::number;
use crate::number::u64_text;
use crate::policy;
use crate::policy::parse_restart_policy;
use crate::sizes;
use crate::sizes::size_in_words;
use crate::split;
use crate::state;
use crate::state::{
    BoxRecord, HealthCheck, LogConfig, LogDriver, NetworkMode, NetworkModeView, RecordView, ResourceLimits,
    ResourceLimitsView, StateFile,
};
use crate::strmap;
use crate::strmap::StrMap;
use crate::text;
use crate::text::{cat2, cat3, clone_opt_strings, clone_strings};

verus! {

/// Arguments of `run`.
#[derive(Debug)]
pub struct RunArgs {
    /// The options shared with `create`.
    pub common: CommonBoxArgs,
    /// Run in detached mode (background)
    pub detach: bool,
    /// Keep STDIN open (interactive mode)
    pub interactive: bool,
    /// Allocate a pseudo-TTY
    pub tty: bool,
    /// Automatically remove the box when it stops
    pub rm: bool,
    /// Command to run (override entrypoint)
    pub cmd: Vec<String>,
    /// Logging driver (json-file, none)
    pub log_driver: String,
    /// Log driver options (KEY=VALUE)
    pub log_opts: Vec<String>,
    /// Enable TEE (Trusted Execution Environment) with AMD SEV-SNP
    pub tee: bool,
    /// TEE workload identifier for attestation (default: image name)
    pub tee_workload_id: Option<String>,
    /// Enable TEE simulation mode (no AMD SEV-SNP hardware required)
    pub tee_simulate: bool,
    /// Sidecar OCI image to run alongside the main container inside the VM
    pub sidecar: Option<String>,
    /// Vsock port for the sidecar process
    pub sidecar_vsock_port: u32,
}

// ---------------------------------------------------------------------------
// The mode of a run
// ---------------------------------------------------------------------------

/// Why the mode of a run is refused, where it is.
pub open spec fn run_mode_error(detach: bool, tty: bool, stdin_is_terminal: bool) -> Option<
    Seq<char>,
> {
    if detach && tty {
        Some("Cannot use -t (tty) with -d (detach)"@)
    } else if tty && !stdin_is_terminal {
        Some("The -t flag requires a terminal (stdin is not a TTY)"@)
    } else {
        None
    }
}

/// A pseudo-TTY needs a terminal, and a box in the background has none.
pub fn validate_run_mode(args: &RunArgs, stdin_is_terminal: bool) -> (r: Result<(), &'static str>)
    ensures
        match r {
            Ok(_) => run_mode_error(args.detach, args.tty, stdin_is_terminal) is None,
            Err(e) => run_mode_error(args.detach, args.tty, stdin_is_terminal) == Some(e@),
        },
{
    if args.detach && args.tty {
        return Err("Cannot use -t (tty) with -d (detach)");
    }
    if args.tty && !stdin_is_terminal {
        return Err("The -t flag requires a terminal (stdin is not a TTY)");
    }
    Ok(())
}

/// What a run does once its box has started.
#[derive(Clone, Copy, Debug, PartialEq, Eq, Structural)]
pub enum RunPhase {
    /// The identifier is printed, and the box runs on its own.
    Detached,
    /// The command runs on a terminal of its own.
    Tty,
    /// The output is shown until the box stops.
    Foreground,
}

/// What a run does once its box has started.
pub fn run_phase(args: &RunArgs) -> (r: RunPhase)
    ensures
        r == if args.detach {
            RunPhase::Detached
        } else if args.tty {
            RunPhase::Tty
        } else {
            RunPhase::Foreground
        },
{
    if args.detach {
        RunPhase::Detached
    } else if args.tty {
        RunPhase::Tty
    } else {
        RunPhase::Foreground
    }
}

// ---------------------------------------------------------------------------
// Reading the options
// ---------------------------------------------------------------------------

/// What the first group of options comes to.
#[derive(Debug)]
pub struct RunBasics {
    /// Restart policy.
    pub restart_policy: String,
    /// How often the box may be restarted; 0 for no limit.
    pub max_restart_count: u32,
    /// Memory in megabytes.
    pub memory_mb: u32,
    /// Resource limits.
    pub resource_limits: ResourceLimits,
    /// Log configuration.
    pub log_config: LogConfig,
    /// Name of the box.
    pub name: String,
}

/// What is known before the first group of options is read.
#[derive(Debug)]
pub struct RunInputs {
    /// Whether the options can be met at all.
    pub options: Result<(), String>,
    /// The memory in megabytes that the text was read as.
    pub memory: Result<u32, String>,
    /// The driver that the text was read as.
    pub log_driver: Result<LogDriver, String>,
    /// The name for a box that is given none.
    pub generated_name: String,
}

/// What is said of pairs of that kind where one is not of the form KEY=VALUE.
pub open spec fn pairs_error(vars: Seq<Seq<char>>, what: Seq<char>, e: Seq<char>) -> bool {
    exists|i: int|
        common::first_without_equals(vars, i) && e == split::replaced(
            common::env_error(vars[i]),
            "environment variable"@,
            what,
        )
}

/// Whether the first group of options is read as `r`: the options can be met,
/// then the restart policy, the memory, the limits, the log driver and its
/// options, in this order; the first that fails decides.
pub open spec fn is_basics(args: RunArgs, inputs: RunInputs, r: Result<RunBasics, String>) -> bool {
    let policy = policy::policy_of(args.common.restart@);
    let limits = common::limits_of(args.common);
    let opts = common::with_pairs(Map::empty(), text::strs(args.log_opts@));
    match r {
        Ok(b) => {
            &&& inputs.options is Ok
            &&& policy == Some((b.restart_policy@, b.max_restart_count))
            &&& inputs.memory == Ok::<u32, String>(b.memory_mb)
            &&& limits == Ok::<ResourceLimitsView, Seq<char>>(b.resource_limits@)
            &&& inputs.log_driver == Ok::<LogDriver, String>(b.log_config.driver)
            &&& opts == Some(b.log_config@.options)
            &&& b.name@ == match args.common.name {
                Some(n) => n@,
                None => inputs.generated_name@,
            }
        },
        Err(e) => if inputs.options is Err {
            e@ == inputs.options->Err_0@
        } else if policy is None {
            e@ == policy::invalid_policy(args.common.restart@)
        } else if inputs.memory is Err {
            e@ == "Invalid --memory: "@ + inputs.memory->Err_0@
        } else if limits is Err {
            e@ == limits->Err_0
        } else if inputs.log_driver is Err {
            e@ == "Invalid --log-driver: "@ + inputs.log_driver->Err_0@
        } else {
            opts is None && pairs_error(text::strs(args.log_opts@), "log option"@, e@)
        },
    }
}

/// Reads the first group of options.
pub fn begin_run(args: &RunArgs, inputs: &RunInputs) -> (r: Result<RunBasics, String>)
    requires
        common::limits_fit(args.common),
    ensures
        is_basics(*args, *inputs, r),
{
    match &inputs.options {
        Err(e) => {
            return Err(e.clone());
        },
        Ok(_) => {},
    }
    let (restart_policy, max_restart_count) = match parse_restart_policy(
        args.common.restart.as_str(),
    ) {
        Ok(p) => p,
        Err(e) => {
            return Err(e);
        },
    };
    let memory_mb: u32 = match &inputs.memory {
        Ok(m) => *m,
        Err(e) => {
            return Err(cat2("Invalid --memory: ", e.as_str()));
        },
    };
    let resource_limits: ResourceLimits = match common::build_resource_limits(&args.common) {
        Ok(l) => l,
        Err(e) => {
            return Err(e);
        },
    };
    let driver: LogDriver = match &inputs.log_driver {
        Ok(d) => *d,
        Err(e) => {
            return Err(cat2("Invalid --log-driver: ", e.as_str()));
        },
    };
    let options: StrMap<String> = match parse_pairs_as(&args.log_opts, "log option") {
        Ok(m) => m,
        Err(e) => {
            return Err(e);
        },
    };
    let name: String = match &args.common.name {
        Some(n) => n.clone(),
        None => inputs.generated_name.clone(),
    };
    Ok(
        RunBasics {
            restart_policy,
            max_restart_count,
            memory_mb,
            resource_limits,
            log_config: LogConfig { driver, options },
            name,
        },
    )
}

/// Reads the first group of options; `None` where a size does not fit into 64
/// bits.
pub fn try_begin_run(args: &RunArgs, inputs: &RunInputs) -> (r: Option<Result<RunBasics, String>>)
    ensures
        match r {
            Some(b) => common::limits_fit(args.common) && is_basics(*args, *inputs, b),
            None => !common::limits_fit(args.common),
        },
{
    if check_limits_fit(&args.common) {
        Some(begin_run(args, inputs))
    } else {
        None
    }
}

/// What the second group of options comes to.
#[derive(Debug)]
pub struct RunMaps {
    /// Published ports.
    pub port_map: Vec<String>,
    /// Labels.
    pub labels: StrMap<String>,
    /// Entrypoint in place of the image's.
    pub entrypoint: Option<Vec<String>>,
}

/// Whether the published ports come to `out`.
pub open spec fn ports_are(ports: Seq<String>, out: Seq<String>) -> bool {
    &&& out.len() == ports.len()
    &&& forall|i: int|
        0 <= i < out.len() ==> common::port_of(ports[i]@) == Some((#[trigger] out[i])@)
}

/// Whether `e` is what is said of the published ports.
pub open spec fn ports_error(ports: Seq<Seq<char>>, e: Seq<char>) -> bool {
    exists|i: int| common::first_bad_port(ports, i) && e == common::port_error(ports[i])
}

/// Reads the second group of options: the ports, the labels, the entrypoint.
pub fn read_maps(args: &CommonBoxArgs) -> (r: Result<RunMaps, String>)
    ensures
        match r {
            Ok(m) => {
                &&& ports_are(args.publish@, m.port_map@)
                &&& common::with_pairs(Map::empty(), text::strs(args.labels@)) == Some(
                    strmap::texts(m.labels@),
                )
                &&& text::opt_strs(m.entrypoint) == common::entrypoint_of(
                    text::opt_str(args.entrypoint),
                )
            },
            Err(e) => {
                ||| ports_error(text::strs(args.publish@), e@)
                ||| {
                    &&& forall|i: int|
                        0 <= i < args.publish@.len() ==> common::port_of(
                            (#[trigger] args.publish@[i])@,
                        ) is Some
                    &&& common::with_pairs(Map::empty(), text::strs(args.labels@)) is None
                    &&& pairs_error(text::strs(args.labels@), "label"@, e@)
                }
            },
        },
{
    let port_map: Vec<String> = match normalize_port_maps(&args.publish) {
        Ok(p) => p,
        Err(e) => {
            return Err(e);
        },
    };
    proof {
        assert forall|i: int| 0 <= i < args.publish@.len() implies common::port_of(
            (#[trigger] args.publish@[i])@,
        ) is Some by {
            assert(common::port_of(args.publish@[i]@) == Some(port_map@[i]@));
        }
    }
    let labels: StrMap<String> = match parse_pairs_as(&args.labels, "label") {
        Ok(m) => m,
        Err(e) => {
            return Err(e);
        },
    };
    Ok(RunMaps { port_map, labels, entrypoint: split_entrypoint(&args.entrypoint) })
}

/// The volumes of a run: see [`gather_volumes`].
pub fn resolve_volumes(outcomes: Vec<Result<(String, Option<String>), String>>) -> (r: Result<
    (Vec<String>, Vec<String>),
    String,
>)
    ensures
        compose_service::gathered(outcomes@, r),
{
    gather_volumes(outcomes)
}

// ---------------------------------------------------------------------------
// The configuration of the box
// ---------------------------------------------------------------------------

/// The trusted execution that the options ask for.
pub open spec fn tee_of(args: RunArgs) -> TeeView {
    if args.tee || args.tee_simulate {
        TeeView::SevSnp {
            workload_id: match args.tee_workload_id {
                Some(id) => id@,
                None => args.common.image@,
            },
            simulate: args.tee_simulate,
        }
    } else {
        TeeView::Off
    }
}

/// Build the trusted execution from run args.
pub fn build_tee_config(args: &RunArgs) -> (r: TeeConfig)
    ensures
        r@ == tee_of(*args),
{
    if args.tee || args.tee_simulate {
        TeeConfig::SevSnp {
            workload_id: match &args.tee_workload_id {
                Some(id) => id.clone(),
                None => args.common.image.clone(),
            },
            simulate: args.tee_simulate,
        }
    } else {
        TeeConfig::Off
    }
}

/// The words of the process that keeps the guest of an interactive run alive.
pub open spec fn keepalive() -> Seq<Seq<char>> {
    seq!["/bin/sh"@, "-c"@, "trap 'exit 0' TERM INT; while :; do sleep 3600; done"@]
}

/// Initial process used only to keep the guest init alive for `run -it`.
///
/// The actual user command is executed over the PTY after guest control sockets
/// are ready, so short-lived interactive commands do not race the VM shutdown.
pub fn interactive_keepalive_entrypoint() -> (r: Vec<String>)
    ensures
        text::strs(r@) == keepalive(),
{
    let r: Vec<String> = vec![
        "/bin/sh".to_string(),
        "-c".to_string(),
        "trap 'exit 0' TERM INT; while :; do sleep 3600; done".to_string(),
    ];
    assert(text::strs(r@) =~= keepalive());
    r
}

/// The configuration of a run's box, but for what is handed in.
pub open spec fn run_config(
    args: RunArgs,
    memory_mb: u32,
    limits: ResourceLimitsView,
    entrypoint: Option<Seq<Seq<char>>>,
    volumes: Seq<Seq<char>>,
    env: Seq<(Seq<char>, Seq<char>)>,
    ports: Seq<Seq<char>>,
    network: NetworkModeView,
    tmpfs: Seq<Seq<char>>,
    tee: TeeView,
    user: Option<Seq<char>>,
) -> ConfigView {
    ConfigView {
        image: args.common.image@,
        resources: ResourceConfig { vcpus: args.common.cpus, memory_mb },
        cmd: if args.tty {
            seq!["a3s-box-pty-keepalive"@]
        } else {
            text::strs(args.cmd@)
        },
        entrypoint_override: if args.tty {
            Some(keepalive())
        } else {
            entrypoint
        },
        user,
        workdir: text::opt_str(args.common.workdir),
        hostname: text::opt_str(args.common.hostname),
        volumes,
        extra_env: env,
        port_map: ports,
        dns: text::strs(args.common.dns@),
        add_hosts: text::strs(args.common.add_host@),
        network,
        tmpfs,
        resource_limits: limits,
        tee,
        read_only: args.common.read_only,
        cap_add: text::strs(args.common.cap_add@),
        cap_drop: text::strs(args.common.cap_drop@),
        security_opt: text::strs(args.common.security_opt@),
        privileged: args.common.privileged,
        sidecar: match args.sidecar {
            Some(image) => Some(
                SidecarView {
                    image: image@,
                    vsock_port: args.sidecar_vsock_port,
                    env: Seq::empty(),
                },
            ),
            None => None,
        },
        persistent: args.common.persistent || !args.rm,
    }
}

/// The user of a box by number, where one is given.
pub open spec fn user_number(user: Option<String>) -> Option<Seq<char>> {
    match user {
        Some(u) => common::user_of(u@),
        None => None,
    }
}

/// Whether a user is given that is not known by number.
pub open spec fn user_unknown(user: Option<String>) -> bool {
    user is Some && common::user_of(user->0@) is None
}

/// Build the configuration from parsed run arguments.
///
/// A box without `--rm` survives its stop: its directory is kept so that
/// `logs` and `start` work afterwards.
pub fn build_box_config(
    args: &RunArgs,
    memory_mb: u32,
    resource_limits: ResourceLimits,
    entrypoint_override: Option<Vec<String>>,
    resolved_volumes: Vec<String>,
    extra_env: Vec<(String, String)>,
    port_map: Vec<String>,
    network: NetworkMode,
    tmpfs: Vec<String>,
    tee: TeeConfig,
) -> (r: Result<BoxConfig, String>)
    ensures
        match r {
            Ok(c) => !user_unknown(args.common.user) && c@ == run_config(
                *args,
                memory_mb,
                resource_limits@,
                text::opt_strs(entrypoint_override),
                text::strs(resolved_volumes@),
                config::pair_texts(extra_env@),
                text::strs(port_map@),
                network@,
                text::strs(tmpfs@),
                tee@,
                user_number(args.common.user),
            ),
            Err(e) => user_unknown(args.common.user) && e@ == common::user_error(
                args.common.user->0@,
            ),
        },
{
    let user: Option<String> = match normalize_user_option(&args.common.user) {
        Ok(u) => u,
        Err(e) => {
            return Err(e);
        },
    };
    let (cmd, entrypoint_override): (Vec<String>, Option<Vec<String>>) = if args.tty {
        let keep: Vec<String> = vec!["a3s-box-pty-keepalive".to_string()];
        assert(text::strs(keep@) =~= seq!["a3s-box-pty-keepalive"@]);
        (keep, Some(interactive_keepalive_entrypoint()))
    } else {
        (clone_strings(&args.cmd), entrypoint_override)
    };
    let sidecar: Option<SidecarConfig> = match &args.sidecar {
        Some(image) => {
            let s = SidecarConfig {
                image: image.clone(),
                vsock_port: args.sidecar_vsock_port,
                env: Vec::new(),
            };
            assert(config::pair_texts(s.env@) =~= Seq::empty());
            Some(s)
        },
        None => None,
    };
    Ok(
        BoxConfig {
            image: args.common.image.clone(),
            resources: ResourceConfig { vcpus: args.common.cpus, memory_mb },
            cmd,
            entrypoint_override,
            user,
            workdir: args.common.workdir.clone(),
            hostname: args.common.hostname.clone(),
            volumes: resolved_volumes,
            extra_env,
            port_map,
            dns: clone_strings(&args.common.dns),
            add_hosts: clone_strings(&args.common.add_host),
            network,
            tmpfs,
            resource_limits,
            tee,
            read_only: args.common.read_only,
            cap_add: clone_strings(&args.common.cap_add),
            cap_drop: clone_strings(&args.common.cap_drop),
            security_opt: clone_strings(&args.common.security_opt),
            privileged: args.common.privileged,
            sidecar,
            persistent: args.common.persistent || !args.rm,
        },
    )
}

/// The temporary file systems of a box, with `/dev/shm` among them where it
/// has a size.
pub open spec fn tmpfs_with_shm(tmpfs: Seq<Seq<char>>, shm_size: Option<u64>) -> Seq<Seq<char>> {
    match shm_size {
        Some(n) => tmpfs.push("/dev/shm:size="@ + number::decimal(n as nat)),
        None => tmpfs,
    }
}

/// The temporary file systems of a box, with `/dev/shm` among them where it
/// has a size.
pub fn with_shm(tmpfs: &Vec<String>, shm_size: Option<u64>) -> (r: Vec<String>)
    ensures
        text::strs(r@) == tmpfs_with_shm(text::strs(tmpfs@), shm_size),
{
    broadcast use crate::text::lemma_strs_push;

    let mut out: Vec<String> = clone_strings(tmpfs);
    match shm_size {
        Some(n) => {
            let size: String = u64_text(n);
            out.push(cat2("/dev/shm:size=", size.as_str()));
        },
        None => {},
    }
    out
}

/// The network mode that an option asks for.
pub open spec fn mode_of(network: Option<Seq<char>>) -> NetworkModeView {
    match network {
        Some(n) => NetworkModeView::Bridge { network: n },
        None => NetworkModeView::Tsi,
    }
}

/// The network mode that an option asks for.
pub fn network_mode(network: &Option<String>) -> (r: NetworkMode)
    ensures
        r@ == mode_of(text::opt_str(*network)),
{
    match network {
        Some(n) => NetworkMode::Bridge { network: n.clone() },
        None => NetworkMode::Tsi,
    }
}

/// What a run starts its box with.
#[derive(Debug)]
pub struct RunPrepared {
    /// Size of `/dev/shm` in bytes.
    pub shm_size: Option<u64>,
    /// The configuration.
    pub config: BoxConfig,
}

/// The size of `/dev/shm` that the options ask for, or what is said where it
/// cannot be read.
pub open spec fn shm_of(args: CommonBoxArgs) -> Result<Option<nat>, Seq<char>> {
    common::opt_size(text::opt_str(args.shm_size), "--shm-size"@)
}

/// Whether a size is the one that the options ask for.
pub open spec fn is_shm(args: CommonBoxArgs, size: Option<u64>) -> bool {
    match size {
        Some(n) => shm_of(args) == Ok::<Option<nat>, Seq<char>>(Some(n as nat)),
        None => shm_of(args) == Ok::<Option<nat>, Seq<char>>(None),
    }
}

/// Whether a run's box is started with `r`: the size of `/dev/shm` is read,
/// then the user; the first that fails decides.
pub open spec fn is_prepared(
    args: RunArgs,
    basics: RunBasics,
    maps: RunMaps,
    env: Map<Seq<char>, Seq<char>>,
    mounts: Seq<Seq<char>>,
    r: Result<RunPrepared, String>,
) -> bool {
    match r {
        Ok(p) => {
            &&& is_shm(args.common, p.shm_size)
            &&& !user_unknown(args.common.user)
            &&& config::lists(p.config@.extra_env, env)
            &&& p.config@ == run_config(
                args,
                basics.memory_mb,
                basics.resource_limits@,
                text::opt_strs(maps.entrypoint),
                mounts,
                p.config@.extra_env,
                text::strs(maps.port_map@),
                mode_of(text::opt_str(args.common.network)),
                tmpfs_with_shm(text::strs(args.common.tmpfs@), p.shm_size),
                tee_of(args),
                user_number(args.common.user),
            )
        },
        Err(e) => match shm_of(args.common) {
            Err(msg) => e@ == msg,
            Ok(_) => user_unknown(args.common.user) && e@ == common::user_error(
                args.common.user->0@,
            ),
        },
    }
}

/// Makes what a run starts its box with. `mounts` are the resolved volumes.
pub fn finish_run(
    args: &RunArgs,
    basics: &RunBasics,
    maps: &RunMaps,
    env: &StrMap<String>,
    mounts: &Vec<String>,
) -> (r: Result<RunPrepared, String>)
    requires
        common::opt_size_fits(args.common.shm_size),
    ensures
        is_prepared(
            *args,
            *basics,
            *maps,
            strmap::texts(env@),
            text::strs(mounts@),
            r,
        ),
{
    let shm_size: Option<u64> = match parse_opt_size(&args.common.shm_size, "--shm-size") {
        Ok(n) => n,
        Err(e) => {
            return Err(e);
        },
    };
    let tmpfs: Vec<String> = with_shm(&args.common.tmpfs, shm_size);
    let config = build_box_config(
        args,
        basics.memory_mb,
        basics.resource_limits.clone(),
        clone_opt_strings(&maps.entrypoint),
        clone_strings(mounts),
        list_env(env),
        clone_strings(&maps.port_map),
        network_mode(&args.common.network),
        tmpfs,
        build_tee_config(args),
    );
    match config {
        Ok(config) => Ok(RunPrepared { shm_size, config }),
        Err(e) => Err(e),
    }
}

/// Makes what a run starts its box with; `None` where the size of `/dev/shm`
/// does not fit into 64 bits.
pub fn try_finish_run(
    args: &RunArgs,
    basics: &RunBasics,
    maps: &RunMaps,
    env: &StrMap<String>,
    mounts: &Vec<String>,
) -> (r: Option<Result<RunPrepared, String>>)
    ensures
        match r {
            Some(p) => common::opt_size_fits(args.common.shm_size) && is_prepared(
                *args,
                *basics,
                *maps,
                strmap::texts(env@),
                text::strs(mounts@),
                p,
            ),
            None => !common::opt_size_fits(args.common.shm_size),
        },
{
    if check_opt_size(&args.common.shm_size) {
        Some(finish_run(args, basics, maps, env, mounts))
    } else {
        None
    }
}

// ---------------------------------------------------------------------------
// The record of the box
// ---------------------------------------------------------------------------

/// The record of a run's box that has just started.
pub open spec fn run_record_of(
    args: RunArgs,
    basics: RunBasics,
    maps: RunMaps,
    env: Map<Seq<char>, Seq<char>>,
    mounts: Seq<Seq<char>>,
    volume_names: Seq<Seq<char>>,
    shm_size: Option<u64>,
    facts: compose_service::BootFacts,
    home: Seq<char>,
) -> RecordView {
    let dir = compose_service::box_dir_of(home, facts.box_id@);
    let health = common::health_of(args.common, state::opt_health(facts.image_health_check));
    RecordView {
        id: facts.box_id@,
        short_id: facts.short_id@,
        name: basics.name@,
        image: args.common.image@,
        status: "running"@,
        pid: facts.pid,
        cpus: args.common.cpus,
        memory_mb: basics.memory_mb,
        volumes: mounts,
        env,
        cmd: text::strs(args.cmd@),
        entrypoint: text::opt_strs(maps.entrypoint),
        box_dir: dir,
        exec_socket_path: match facts.exec_socket_path {
            Some(p) => p@,
            None => compose_service::box_file_of(dir, "sockets"@, "exec.sock"@),
        },
        console_log: compose_service::box_file_of(dir, "logs"@, "console.log"@),
        created_at: facts.created_at,
        started_at: Some(facts.started_at),
        auto_remove: args.rm,
        hostname: text::opt_str(args.common.hostname),
        user: text::opt_str(args.common.user),
        workdir: text::opt_str(args.common.workdir),
        restart_policy: basics.restart_policy@,
        port_map: text::strs(maps.port_map@),
        labels: strmap::texts(maps.labels@),
        stopped_by_user: false,
        restart_count: 0,
        max_restart_count: basics.max_restart_count,
        exit_code: None,
        health_check: health,
        healthcheck_disabled: args.common.no_healthcheck,
        health_status: compose_service::initial_health(health),
        health_retries: 0,
        health_last_check: None,
        network_mode: mode_of(text::opt_str(args.common.network)),
        network_name: text::opt_str(args.common.network),
        volume_names,
        tmpfs: text::strs(args.common.tmpfs@),
        anonymous_volumes: text::strs(facts.anonymous_volumes@),
        resource_limits: basics.resource_limits@,
        log_config: basics.log_config@,
        add_host: text::strs(args.common.add_host@),
        platform: text::opt_str(args.common.platform),
        init: args.common.init,
        read_only: args.common.read_only,
        cap_add: text::strs(args.common.cap_add@),
        cap_drop: text::strs(args.common.cap_drop@),
        security_opt: text::strs(args.common.security_opt@),
        privileged: args.common.privileged,
        devices: text::strs(args.common.device@),
        gpus: text::opt_str(args.common.gpus),
        shm_size,
        stop_signal: common::stop_signal_of(
            text::opt_str(args.common.stop_signal),
            text::opt_str(facts.image_stop_signal),
        ),
        stop_timeout: args.common.stop_timeout,
        oom_kill_disable: args.common.oom_kill_disable,
        oom_score_adj: args.common.oom_score_adj,
    }
}

/// The record of a run's box that has just started.
pub fn run_record(
    args: &RunArgs,
    basics: &RunBasics,
    maps: &RunMaps,
    env: &StrMap<String>,
    mounts: &Vec<String>,
    volume_names: &Vec<String>,
    shm_size: Option<u64>,
    facts: &compose_service::BootFacts,
    home: &str,
) -> (r: BoxRecord)
    ensures
        r@ == run_record_of(
            *args,
            *basics,
            *maps,
            strmap::texts(env@),
            text::strs(mounts@),
            text::strs(volume_names@),
            shm_size,
            *facts,
            home@,
        ),
{
    let dir: String = box_dir(home, facts.box_id.as_str());
    let exec_socket_path: String = match &facts.exec_socket_path {
        Some(p) => p.clone(),
        None => box_file(dir.as_str(), "sockets", "exec.sock"),
    };
    let console_log: String = box_file(dir.as_str(), "logs", "console.log");
    let health_check: Option<HealthCheck> = effective_health_check(
        &args.common,
        &facts.image_health_check,
    );
    let health_status: String = if health_check.is_some() {
        "starting".to_string()
    } else {
        "none".to_string()
    };
    BoxRecord {
        id: facts.box_id.clone(),
        short_id: facts.short_id.clone(),
        name: basics.name.clone(),
        image: args.common.image.clone(),
        status: "running".to_string(),
        pid: facts.pid,
        cpus: args.common.cpus,
        memory_mb: basics.memory_mb,
        volumes: clone_strings(mounts),
        env: env.clone(),
        cmd: clone_strings(&args.cmd),
        entrypoint: clone_opt_strings(&maps.entrypoint),
        box_dir: dir,
        exec_socket_path,
        console_log,
        created_at: facts.created_at,
        started_at: Some(facts.started_at),
        auto_remove: args.rm,
        hostname: args.common.hostname.clone(),
        user: args.common.user.clone(),
        workdir: args.common.workdir.clone(),
        restart_policy: basics.restart_policy.clone(),
        port_map: clone_strings(&maps.port_map),
        labels: maps.labels.clone(),
        stopped_by_user: false,
        restart_count: 0,
        max_restart_count: basics.max_restart_count,
        exit_code: None,
        health_check,
        healthcheck_disabled: args.common.no_healthcheck,
        health_status,
        health_retries: 0,
        health_last_check: None,
        network_mode: network_mode(&args.common.network),
        network_name: args.common.network.clone(),
        volume_names: clone_strings(volume_names),
        tmpfs: clone_strings(&args.common.tmpfs),
        anonymous_volumes: clone_strings(&facts.anonymous_volumes),
        resource_limits: basics.resource_limits.clone(),
        log_config: basics.log_config.clone(),
        add_host: clone_strings(&args.common.add_host),
        platform: args.common.platform.clone(),
        init: args.common.init,
        read_only: args.common.read_only,
        cap_add: clone_strings(&args.common.cap_add),
        cap_drop: clone_strings(&args.common.cap_drop),
        security_opt: clone_strings(&args.common.security_opt),
        privileged: args.common.privileged,
        devices: clone_strings(&args.common.device),
        gpus: args.common.gpus.clone(),
        shm_size,
        stop_signal: effective_stop_signal(&args.common.stop_signal, &facts.image_stop_signal),
        stop_timeout: args.common.stop_timeout,
        oom_kill_disable: args.common.oom_kill_disable,
        oom_score_adj: args.common.oom_score_adj,
    }
}

/// The socket of a box's terminal: the one that the runtime has chosen, else
/// the one in the box's directory.
pub fn pty_socket(chosen: &Option<String>, home: &str, box_id: &str) -> (r: String)
    ensures
        r@ == match *chosen {
            Some(p) => p@,
            None => compose_service::box_file_of(
                compose_service::box_dir_of(home@, box_id@),
                "sockets"@,
                "pty.sock"@,
            ),
        },
{
    match chosen {
        Some(p) => p.clone(),
        None => {
            let dir: String = box_dir(home, box_id);
            box_file(dir.as_str(), "sockets", "pty.sock")
        },
    }
}

/// How many milliseconds a box has to stop before it is killed.
pub open spec fn timeout_in_ms(stop_timeout: Option<u64>, default_ms: u64) -> int {
    match stop_timeout {
        Some(secs) => secs * 1000,
        None => default_ms as int,
    }
}

/// How many milliseconds a box has to stop before it is killed.
pub fn stop_timeout_ms(stop_timeout: Option<u64>, default_ms: u64) -> (r: u64)
    requires
        timeout_in_ms(stop_timeout, default_ms) <= u64::MAX,
    ensures
        r == timeout_in_ms(stop_timeout, default_ms),
{
    match stop_timeout {
        Some(secs) => secs * 1000,
        None => default_ms,
    }
}

/// How a run's box is stopped.
#[derive(Clone, Copy, Debug, PartialEq, Eq, Structural)]
pub struct StopOptions {
    /// The signal.
    pub signal: i32,
    /// Milliseconds before the box is killed.
    pub timeout_ms: u64,
}

/// How the box with that record is stopped. `number` is the number of the signal
/// that the record names, and `default_ms` the time of a box whose record names
/// none.
pub fn stop_options(record: &BoxRecord, number: Option<i32>, default_ms: u64) -> (r: StopOptions)
    requires
        timeout_in_ms(record.stop_timeout, default_ms) <= u64::MAX,
    ensures
        r.signal == stop::signal_of(number),
        r.timeout_ms == timeout_in_ms(record.stop_timeout, default_ms),
{
    StopOptions { signal: stop_signal(number), timeout_ms: stop_timeout_ms(record.stop_timeout, default_ms) }
}

// ---------------------------------------------------------------------------
// Starting the box
// ---------------------------------------------------------------------------

/// The steps of starting a run's box.
#[derive(Clone, Copy, Debug, PartialEq, Eq, Structural)]
pub enum SetupStage {
    /// The box gets its place in the network.
    Connect,
    /// The box is started.
    Boot,
    /// The state is read.
    LoadState,
    /// The record of the box is added to the state.
    AddRecord,
    /// The root file system is listed for `diff`; this may fail.
    Baseline,
    /// The named volumes are attached to the box.
    AttachVolumes,
    /// The directory for the logs is made.
    MakeLogDir,
    /// The box runs.
    Done,
}

/// What a failed step of starting a run's box leaves to be undone.
#[derive(Debug)]
pub enum SetupUndo {
    /// Nothing.
    Nothing,
    /// The box's resources are let go.
    Release {
        /// The steps.
        steps: Vec<CleanupStep>,
    },
    /// The box is stopped, and all that it owns is removed.
    Destroy {
        /// The signal that stops the box.
        signal: i32,
        /// Milliseconds before the box is killed.
        timeout_ms: u64,
        /// The steps after the box has stopped.
        steps: Vec<CleanupStep>,
    },
}

/// The step after one that succeeded.
pub open spec fn next_setup(s: SetupStage) -> SetupStage {
    match s {
        SetupStage::Connect => SetupStage::Boot,
        SetupStage::Boot => SetupStage::LoadState,
        SetupStage::LoadState => SetupStage::AddRecord,
        SetupStage::AddRecord => SetupStage::Baseline,
        SetupStage::Baseline => SetupStage::AttachVolumes,
        SetupStage::AttachVolumes => SetupStage::MakeLogDir,
        SetupStage::MakeLogDir => SetupStage::Done,
        SetupStage::Done => SetupStage::Done,
    }
}

/// Whether the box runs and its record may be in the state.
pub open spec fn destroys(s: SetupStage) -> bool {
    s == SetupStage::AddRecord || s == SetupStage::AttachVolumes || s == SetupStage::MakeLogDir
}

/// What a run does after a step of starting its box. `record` is the record of
/// the box, `number` the number of the signal that the record names, and
/// `default_ms` the time that a box has to stop where its record names none. A
/// failure to list the root file system is passed over.
pub fn setup_step(
    stage: SetupStage,
    succeeded: bool,
    record: &BoxRecord,
    number: Option<i32>,
    default_ms: u64,
    temp_dir: &str,
) -> (r: Result<SetupStage, SetupUndo>)
    requires
        stage != SetupStage::Done,
        timeout_in_ms(record.stop_timeout, default_ms) <= u64::MAX,
    ensures
        match r {
            Ok(next) => (succeeded || stage == SetupStage::Baseline) && next == next_setup(stage),
            Err(undo) => {
                &&& !succeeded
                &&& stage != SetupStage::Baseline
                &&& match undo {
                    SetupUndo::Nothing => stage == SetupStage::Connect || stage
                        == SetupStage::LoadState,
                    SetupUndo::Release { steps } => stage == SetupStage::Boot && cleanup::steps(
                        steps@,
                    ) == cleanup::resource_steps(
                        record@.id,
                        record@.volume_names,
                        record@.network_name,
                    ),
                    SetupUndo::Destroy { signal, timeout_ms, steps } => {
                        &&& destroys(stage)
                        &&& signal == stop::signal_of(number)
                        &&& timeout_ms == timeout_in_ms(record@.stop_timeout, default_ms)
                        &&& cleanup::steps(steps@) == cleanup::removal_steps(record@, temp_dir@).push(
                            StepView::RemoveRecord { box_id: record@.id },
                        )
                    },
                }
            },
        },
{
    let next: SetupStage = match stage {
        SetupStage::Connect => SetupStage::Boot,
        SetupStage::Boot => SetupStage::LoadState,
        SetupStage::LoadState => SetupStage::AddRecord,
        SetupStage::AddRecord => SetupStage::Baseline,
        SetupStage::Baseline => SetupStage::AttachVolumes,
        SetupStage::AttachVolumes => SetupStage::MakeLogDir,
        SetupStage::MakeLogDir => SetupStage::Done,
        SetupStage::Done => SetupStage::Done,
    };
    if succeeded || stage == SetupStage::Baseline {
        return Ok(next);
    }
    match stage {
        SetupStage::Boot => Err(
            SetupUndo::Release {
                steps: cleanup_box_resources(
                    record.id.as_str(),
                    &record.volume_names,
                    record.network_name.as_ref(),
                ),
            },
        ),
        SetupStage::Connect => Err(SetupUndo::Nothing),
        SetupStage::LoadState => Err(SetupUndo::Nothing),
        _ => {
            let stop: StopOptions = stop_options(record, number, default_ms);
            Err(
                SetupUndo::Destroy {
                    signal: stop.signal,
                    timeout_ms: stop.timeout_ms,
                    steps: cleanup_partial_box_record(record, temp_dir, true),
                },
            )
        },
    }
}

// ---------------------------------------------------------------------------
// The terminal of an interactive run
// ---------------------------------------------------------------------------

/// What an interactive run executes on its terminal.
#[derive(Debug)]
pub struct PtyRequest {
    /// The command.
    pub cmd: Vec<String>,
    /// Environment variables, KEY=VALUE.
    pub env: Vec<String>,
    /// Working directory.
    pub working_dir: Option<String>,
    /// User by number.
    pub user: Option<String>,
    /// Columns of the terminal.
    pub cols: u16,
    /// Rows of the terminal.
    pub rows: u16,
}

/// The command of an interactive run: the one given, else the entrypoint, else
/// a shell.
pub open spec fn pty_command(cmd: Seq<Seq<char>>, entrypoint: Option<Seq<Seq<char>>>) -> Seq<
    Seq<char>,
> {
    if cmd.len() > 0 {
        cmd
    } else {
        match entrypoint {
            Some(e) => e,
            None => seq!["/bin/sh"@],
        }
    }
}

/// The texts KEY=VALUE of pairs.
pub open spec fn env_texts(pairs: Seq<(Seq<char>, Seq<char>)>) -> Seq<Seq<char>> {
    pairs.map_values(|p: (Seq<char>, Seq<char>)| p.0 + "="@ + p.1)
}

/// The entries of a map as KEY=VALUE.
pub fn env_strings(env: &StrMap<String>) -> (r: Vec<String>)
    ensures
        exists|pairs: Seq<(Seq<char>, Seq<char>)>| #[trigger]
            config::lists(pairs, strmap::texts(env@)) && text::strs(r@) == env_texts(pairs),
{
    broadcast use crate::text::lemma_strs_push;

    let pairs: Vec<(String, String)> = list_env(env);
    let ghost ps = config::pair_texts(pairs@);
    let mut out: Vec<String> = Vec::new();
    let mut i: usize = 0;
    while i < pairs.len()
        invariant
            i <= pairs.len(),
            ps == config::pair_texts(pairs@),
            text::strs(out@) =~= env_texts(ps).take(i as int),
        decreases pairs.len() - i,
    {
        let p: &(String, String) = &pairs[i];
        proof {
            assert(ps[i as int] == (p.0@, p.1@));
            assert(env_texts(ps).take(i + 1) =~= env_texts(ps).take(i as int).push(
                p.0@ + "="@ + p.1@,
            ));
        }
        out.push(cat3(p.0.as_str(), "=", p.1.as_str()));
        i = i + 1;
    }
    proof {
        assert(env_texts(ps).take(i as int) =~= env_texts(ps));
        assert(config::lists(ps, strmap::texts(env@)));
    }
    out
}

/// What an interactive run executes on its terminal. `size` is the size of the
/// user's terminal, columns first; 80 by 24 where it is not known.
pub fn pty_request(args: &RunArgs, env: &StrMap<String>, size: Option<(u16, u16)>) -> (r: Result<
    PtyRequest,
    String,
>)
    ensures
        match r {
            Ok(q) => {
                &&& !user_unknown(args.common.user)
                &&& text::strs(q.cmd@) == pty_command(
                    text::strs(args.cmd@),
                    common::entrypoint_of(text::opt_str(args.common.entrypoint)),
                )
                &&& exists|pairs: Seq<(Seq<char>, Seq<char>)>| #[trigger]
                    config::lists(pairs, strmap::texts(env@)) && text::strs(q.env@) == env_texts(
                        pairs,
                    )
                &&& text::opt_str(q.working_dir) == text::opt_str(args.common.workdir)
                &&& text::opt_str(q.user) == user_number(args.common.user)
                &&& (q.cols, q.rows) == match size {
                    Some(s) => s,
                    None => (80u16, 24u16),
                }
            },
            Err(e) => user_unknown(args.common.user) && e@ == common::user_error(
                args.common.user->0@,
            ),
        },
{
    let entrypoint: Option<Vec<String>> = split_entrypoint(&args.common.entrypoint);
    let cmd: Vec<String> = if args.cmd.len() > 0 {
        clone_strings(&args.cmd)
    } else {
        match entrypoint {
            Some(e) => e,
            None => {
                let sh: Vec<String> = vec!["/bin/sh".to_string()];
                assert(text::strs(sh@) =~= seq!["/bin/sh"@]);
                sh
            },
        }
    };
    let (cols, rows): (u16, u16) = match size {
        Some(s) => s,
        None => (80, 24),
    };
    match normalize_user_option(&args.common.user) {
        Err(e) => Err(e),
        Ok(user) => Ok(
            PtyRequest {
                cmd,
                env: env_strings(env),
                working_dir: args.common.workdir.clone(),
                user,
                cols,
                rows,
            },
        ),
    }
}

// ---------------------------------------------------------------------------
// A run in the foreground
// ---------------------------------------------------------------------------

/// Why a run in the foreground ends.
#[derive(Clone, Copy, Debug, PartialEq, Eq, Structural)]
pub enum ForegroundStopReason {
    /// The process of the box has ended.
    ProcessExited,
    /// The user has interrupted the run.
    UserInterrupted,
    /// The box no longer answers.
    VmUnhealthy,
}

impl ForegroundStopReason {
    /// Whether the user has stopped the box.
    pub fn stopped_by_user(self) -> (r: bool)
        ensures
            r == (self == ForegroundStopReason::UserInterrupted),
    {
        match self {
            ForegroundStopReason::UserInterrupted => true,
            _ => false,
        }
    }
}

/// Milliseconds between two looks at a box in the foreground.
pub const FOREGROUND_POLL_MS: u64 = 500;

/// What a look at a box in the foreground shows.
#[derive(Clone, Copy, Debug, PartialEq, Eq, Structural)]
pub enum ForegroundEvent {
    /// The user has interrupted the run.
    Interrupt,
    /// The time between two looks has passed.
    Tick {
        /// Whether the process of the box has ended.
        exited: bool,
        /// Whether the box answers.
        healthy: bool,
    },
}

/// Whether a run in the foreground ends, and why.
pub fn foreground_step(event: ForegroundEvent) -> (r: Option<ForegroundStopReason>)
    ensures
        r == match event {
            ForegroundEvent::Interrupt => Some(ForegroundStopReason::UserInterrupted),
            ForegroundEvent::Tick { exited, healthy } => if exited {
                Some(ForegroundStopReason::ProcessExited)
            } else if !healthy {
                Some(ForegroundStopReason::VmUnhealthy)
            } else {
                None
            },
        },
{
    match event {
        ForegroundEvent::Interrupt => Some(ForegroundStopReason::UserInterrupted),
        ForegroundEvent::Tick { exited, healthy } => if exited {
            Some(ForegroundStopReason::ProcessExited)
        } else if !healthy {
            Some(ForegroundStopReason::VmUnhealthy)
        } else {
            None
        },
    }
}

/// The exit code of a run in the foreground: the box's own, else one that
/// stands for the reason.
pub fn foreground_exit_code(reason: ForegroundStopReason, vm_exit_code: Option<i32>) -> (r: Option<
    i32,
>)
    ensures
        r == if vm_exit_code is Some {
            vm_exit_code
        } else {
            match reason {
                ForegroundStopReason::ProcessExited => None,
                ForegroundStopReason::UserInterrupted => Some(130i32),
                ForegroundStopReason::VmUnhealthy => Some(1i32),
            }
        },
{
    match vm_exit_code {
        Some(code) => Some(code),
        None => match reason {
            ForegroundStopReason::ProcessExited => None,
            ForegroundStopReason::UserInterrupted => Some(130),
            ForegroundStopReason::VmUnhealthy => Some(1),
        },
    }
}

/// What is said behind the name of a box whose run has ended.
pub open spec fn completion(reason: ForegroundStopReason, auto_remove: bool) -> Seq<char> {
    match reason {
        ForegroundStopReason::ProcessExited => if auto_remove {
            " exited and was removed."@
        } else {
            " exited."@
        },
        ForegroundStopReason::UserInterrupted => if auto_remove {
            " removed."@
        } else {
            " stopped."@
        },
        ForegroundStopReason::VmUnhealthy => if auto_remove {
            " stopped after VM health check failed and was removed."@
        } else {
            " stopped after VM health check failed."@
        },
    }
}

/// What the user is told when a run in the foreground has ended.
pub fn foreground_completion_message(
    reason: ForegroundStopReason,
    auto_remove: bool,
    name: &str,
) -> (r: String)
    ensures
        r@ == "Box "@ + name@ + completion(reason, auto_remove),
{
    let end: &str = match reason {
        ForegroundStopReason::ProcessExited => if auto_remove {
            " exited and was removed."
        } else {
            " exited."
        },
        ForegroundStopReason::UserInterrupted => if auto_remove {
            " removed."
        } else {
            " stopped."
        },
        ForegroundStopReason::VmUnhealthy => if auto_remove {
            " stopped after VM health check failed and was removed."
        } else {
            " stopped after VM health check failed."
        },
    };
    cat3("Box ", name, end)
}

/// Whether the program ends with the box's exit code: it does where that code
/// tells of a failure.
pub fn exit_with(exit_code: Option<i32>) -> (r: Option<i32>)
    ensures
        r == match exit_code {
            Some(code) => if code != 0 {
                Some(code)
            } else {
                None
            },
            None => None,
        },
{
    match exit_code {
        Some(code) => if code != 0 {
            Some(code)
        } else {
            None
        },
        None => None,
    }
}

/// What is torn down once a run's box has been destroyed.
#[derive(Debug)]
pub struct RunTeardown {
    /// What has to be let go first. The network is left in a way that reports
    /// a failure.
    pub detach: Vec<String>,
    /// The network to leave.
    pub network: Option<String>,
    /// What follows.
    pub sockets: Vec<CleanupStep>,
    /// What follows once the state is changed, where the box is removed: its
    /// volumes; then its record and its directory.
    pub removal: Option<Vec<CleanupStep>>,
}

/// What is torn down once a run's box has been destroyed, with and without
/// `--rm`. `record` is the record of the box.
pub fn run_teardown(record: &BoxRecord, network: &Option<String>, auto_remove: bool) -> (r:
    RunTeardown)
    ensures
        text::strs(r.detach@) == record@.volume_names,
        text::opt_str(r.network) == text::opt_str(*network),
        cleanup::steps(r.sockets@) == cleanup::socket_steps(
            record@.box_dir,
            record@.exec_socket_path,
        ),
        match r.removal {
            Some(steps) => auto_remove && cleanup::steps(steps@) == cleanup::volume_steps(
                record@.anonymous_volumes,
            ) + seq![
                StepView::RemoveRecord { box_id: record@.id },
                StepView::RemoveDir { path: record@.box_dir },
            ],
            None => !auto_remove,
        },
{
    broadcast use crate::cleanup::lemma_steps_push;

    let removal: Option<Vec<CleanupStep>> = if auto_remove {
        let mut steps: Vec<CleanupStep> = cleanup_anonymous_volumes(&record.anonymous_volumes);
        let ghost a = cleanup::steps(steps@);
        steps.push(CleanupStep::RemoveRecord { box_id: record.id.clone() });
        steps.push(CleanupStep::RemoveDir { path: record.box_dir.clone() });
        assert(cleanup::steps(steps@) =~= a + seq![
            StepView::RemoveRecord { box_id: record@.id },
            StepView::RemoveDir { path: record@.box_dir },
        ]);
        Some(steps)
    } else {
        None
    };
    RunTeardown {
        detach: clone_strings(&record.volume_names),
        network: network.clone(),
        sockets: cleanup_external_socket_dir(
            record.box_dir.as_str(),
            record.exec_socket_path.as_str(),
        ),
        removal,
    }
}

/// The health check that the options ask for, where the image has none.
pub fn parse_health_check(args: &CommonBoxArgs) -> (r: Option<HealthCheck>)
    ensures
        state::opt_health(r) == common::health_of(*args, None),
{
    let none: Option<HealthCheck> = None;
    effective_health_check(args, &none)
}

/// A record of a box that has stopped.
pub open spec fn stopped(r: RecordView, exit_code: Option<i32>, by_user: bool) -> RecordView {
    RecordView { status: "stopped"@, pid: None, exit_code, stopped_by_user: by_user, ..r }
}

/// Marks the box as stopped, where the state knows it.
pub fn mark_record_stopped(
    state: &mut StateFile,
    box_id: &str,
    exit_code: Option<i32>,
    stopped_by_user: bool,
)
    ensures
        final(state)@.len() == old(state)@.len(),
        forall|i: int|
            0 <= i < old(state)@.len() ==> #[trigger] final(state)@[i] == if state::first_with_id(
                old(state)@,
                box_id@,
                i,
            ) {
                stopped(old(state)@[i], exit_code, stopped_by_user)
            } else {
                old(state)@[i]
            },
{
    match state.position(box_id) {
        Some(at) => {
            let mut record: BoxRecord = state.get(at).clone();
            record.status = "stopped".to_string();
            record.pid = None;
            record.exit_code = exit_code;
            record.stopped_by_user = stopped_by_user;
            state.set(at, record);
        },
        None => {},
    }
}

// ---------------------------------------------------------------------------
// The progress of a pull
// ---------------------------------------------------------------------------

/// What is shown of a layer while the image is pulled. `size` is its size in
/// bytes, negative once the layer has arrived.
pub open spec fn layer_line(current: nat, total: nat, short: Seq<char>, size: int) -> Seq<char> {
    let head = "  ["@ + number::decimal(current) + "/"@ + number::decimal(total) + "] "@ + short;
    if size < 0 {
        head + ": "@ + sizes::size_words((-size) as nat, " "@, false) + " ✓"@
    } else {
        head + ": Pulling "@ + sizes::size_words(size as nat, " "@, false) + "..."@
    }
}

/// What is printed of a layer while `image` is pulled: before the first layer
/// which image it is, then the layer by the end of its digest. A negative size
/// tells that the layer has arrived.
pub fn pull_progress(image: &str, current: usize, total: usize, digest: &str, size: i64) -> (r: Vec<String>)
    requires
        size > i64::MIN,
        bytes::end_cuttable(digest@, 12),
    ensures
        ({
            let line = layer_line(current as nat, total as nat, bytes::ending(digest@, 12), size as int);
            text::strs(r@) == if current == 1 && size > 0 {
                seq!["Pulling "@ + image@ + "..."@, line]
            } else {
                seq![line]
            }
        }),
{
    let mut r: Vec<String> = Vec::new();
    if current == 1 && size > 0 {
        r.push(cat3("Pulling ", image, "..."));
    }
    let mut s: String = "  [".to_string();
    s.append(number::usize_text(current).as_str());
    s.append("/");
    s.append(number::usize_text(total).as_str());
    s.append("] ");
    s.append(bytes::end_of(digest, 12));
    if size < 0 {
        s.append(": ");
        s.append(size_in_words((-size) as u64, " ", false).as_str());
        s.append(" ✓");
    } else {
        s.append(": Pulling ");
        s.append(size_in_words(size as u64, " ", false).as_str());
        s.append("...");
    }
    r.push(s);
    proof {
        let line = layer_line(current as nat, total as nat, bytes::ending(digest@, 12), size as int);
        assert(s@ =~= line);
        if current == 1 && size > 0 {
            assert(text::strs(r@) =~= seq!["Pulling "@ + image@ + "..."@, line]);
        } else {
            assert(text::strs(r@) =~= seq![line]);
        }
    }
    r
}

// ---------------------------------------------------------------------------
// What a run comes to
// ---------------------------------------------------------------------------

/// A box is booted with what the run was given: each port, volume, file system in
/// memory, host name and DNS server of the lists, in their order, the image, the
/// CPUs, the memory, the limits and the network. So a box with a published port
/// has it.
pub proof fn lemma_config_holds_what_is_given(
    args: RunArgs,
    memory_mb: u32,
    limits: ResourceLimits,
    entrypoint: Option<Vec<String>>,
    volumes: Vec<String>,
    env: Vec<(String, String)>,
    ports: Vec<String>,
    network: NetworkMode,
    tmpfs: Vec<String>,
    tee: TeeConfig,
    c: BoxConfig,
)
    requires
        call_ensures(
            build_box_config,
            (&args, memory_mb, limits, entrypoint, volumes, env, ports, network, tmpfs, tee),
            Ok::<BoxConfig, String>(c),
        ),
    ensures
        text::same_texts(c.port_map@, ports@),
        ports@.len() > 0 ==> c.port_map@.len() > 0,
        text::same_texts(c.volumes@, volumes@),
        text::same_texts(c.tmpfs@, tmpfs@),
        text::same_texts(c.dns@, args.common.dns@),
        text::same_texts(c.add_hosts@, args.common.add_host@),
        c.extra_env@.len() == env@.len(),
        forall|i: int|
            0 <= i < env@.len() ==> (#[trigger] c.extra_env@[i]).0@ == env@[i].0@
                && c.extra_env@[i].1@ == env@[i].1@,
        c.image@ == args.common.image@,
        c.resources.vcpus == args.common.cpus,
        c.resources.memory_mb == memory_mb,
        c.resource_limits@ == limits@,
        c.network@ == network@,
        c.tee@ == tee@,
{
    text::lemma_same_texts(c.port_map@, ports@);
    text::lemma_same_texts(c.volumes@, volumes@);
    text::lemma_same_texts(c.tmpfs@, tmpfs@);
    text::lemma_same_texts(c.dns@, args.common.dns@);
    text::lemma_same_texts(c.add_hosts@, args.common.add_host@);
    assert(c@.port_map == text::strs(ports@));
    assert(c@.extra_env == config::pair_texts(env@));
    assert(config::pair_texts(c.extra_env@).len() == config::pair_texts(env@).len());
    assert forall|i: int| 0 <= i < env@.len() implies (#[trigger] c.extra_env@[i]).0@ == env@[i].0@
        && c.extra_env@[i].1@ == env@[i].1@ by {
        assert(config::pair_texts(c.extra_env@)[i] == config::pair_texts(env@)[i]);
    }
}

/// What confines a box is taken over as it was asked for: a box is privileged, has
/// a read-only root file system or a changed set of capabilities exactly where the
/// run said so. A run that removes its box at the end keeps its file system only
/// where it is told to.
pub proof fn lemma_config_is_confined_as_asked(
    args: RunArgs,
    memory_mb: u32,
    limits: ResourceLimits,
    entrypoint: Option<Vec<String>>,
    volumes: Vec<String>,
    env: Vec<(String, String)>,
    ports: Vec<String>,
    network: NetworkMode,
    tmpfs: Vec<String>,
    tee: TeeConfig,
    c: BoxConfig,
)
    requires
        call_ensures(
            build_box_config,
            (&args, memory_mb, limits, entrypoint, volumes, env, ports, network, tmpfs, tee),
            Ok::<BoxConfig, String>(c),
        ),
    ensures
        c.privileged == args.common.privileged,
        c.read_only == args.common.read_only,
        text::same_texts(c.cap_add@, args.common.cap_add@),
        text::same_texts(c.cap_drop@, args.common.cap_drop@),
        text::same_texts(c.security_opt@, args.common.security_opt@),
        c.user is Some <==> args.common.user is Some,
        c.workdir is Some <==> args.common.workdir is Some,
        c.workdir is Some ==> c.workdir->0@ == args.common.workdir->0@,
        c.hostname is Some <==> args.common.hostname is Some,
        c.hostname is Some ==> c.hostname->0@ == args.common.hostname->0@,
        !args.rm ==> c.persistent,
        args.rm ==> c.persistent == args.common.persistent,
        c.sidecar is Some <==> args.sidecar is Some,
        c.sidecar is Some ==> c.sidecar->0.image@ == args.sidecar->0@ && c.sidecar->0.vsock_port
            == args.sidecar_vsock_port && c.sidecar->0.env@.len() == 0,
{
    text::lemma_same_texts(c.cap_add@, args.common.cap_add@);
    text::lemma_same_texts(c.cap_drop@, args.common.cap_drop@);
    text::lemma_same_texts(c.security_opt@, args.common.security_opt@);
    assert(c@.workdir == text::opt_str(args.common.workdir));
    assert(c@.hostname == text::opt_str(args.common.hostname));
    assert(c@.sidecar is Some <==> c.sidecar is Some);
    if c.sidecar is Some {
        assert(c@.sidecar == Some(c.sidecar->0@));
        assert(config::pair_texts(c.sidecar->0.env@).len() == 0);
    }
}

/// Without a terminal a box runs the command it was given, under the entrypoint it
/// was given, if any. With a terminal it runs neither: it is kept alive until the
/// terminal is attached.
pub proof fn lemma_command_waits_for_terminal(
    args: RunArgs,
    memory_mb: u32,
    limits: ResourceLimits,
    entrypoint: Option<Vec<String>>,
    volumes: Vec<String>,
    env: Vec<(String, String)>,
    ports: Vec<String>,
    network: NetworkMode,
    tmpfs: Vec<String>,
    tee: TeeConfig,
    c: BoxConfig,
    alive: Vec<String>,
)
    requires
        call_ensures(
            build_box_config,
            (&args, memory_mb, limits, entrypoint, volumes, env, ports, network, tmpfs, tee),
            Ok::<BoxConfig, String>(c),
        ),
        call_ensures(interactive_keepalive_entrypoint, (), alive),
    ensures
        !args.tty ==> text::same_texts(c.cmd@, args.cmd@),
        !args.tty ==> (c.entrypoint_override is Some <==> entrypoint is Some),
        !args.tty && entrypoint is Some ==> text::same_texts(c.entrypoint_override->0@, entrypoint->0@),
        args.tty ==> c.entrypoint_override is Some && text::same_texts(c.entrypoint_override->0@, alive@),
        args.tty ==> c.cmd@.len() == 1,
{
    text::lemma_same_texts(c.cmd@, args.cmd@);
    assert(c@.entrypoint_override == text::opt_strs(c.entrypoint_override));
    if c.entrypoint_override is Some {
        text::lemma_same_texts(c.entrypoint_override->0@, alive@);
        if entrypoint is Some {
            text::lemma_same_texts(c.entrypoint_override->0@, entrypoint->0@);
        }
    }
    assert(text::strs(c.cmd@).len() == c.cmd@.len());
}

/// Each port that was published is mapped, in its place, with `/tcp` taken off its
/// end where it is there; so the box has as many ports as were published.
pub proof fn lemma_published_is_mapped(
    args: RunArgs,
    basics: RunBasics,
    maps: RunMaps,
    env: StrMap<String>,
    mounts: Vec<String>,
    p: RunPrepared,
)
    requires
        call_ensures(read_maps, (&args.common,), Ok::<RunMaps, String>(maps)),
        call_ensures(
            try_finish_run,
            (&args, &basics, &maps, &env, &mounts),
            Some(Ok::<RunPrepared, String>(p)),
        ),
    ensures
        p.config.port_map@.len() == args.common.publish@.len(),
        forall|i: int|
            0 <= i < args.common.publish@.len() ==> {
                let asked = (#[trigger] args.common.publish@[i])@;
                let mapped = p.config.port_map@[i]@;
                &&& !mapped.contains('/')
                &&& asked == mapped || asked == mapped + "/tcp"@
            },
{
    assert(p.config@.port_map == text::strs(maps.port_map@));
    text::lemma_same_texts(p.config.port_map@, maps.port_map@);
    assert forall|i: int| 0 <= i < args.common.publish@.len() implies {
        let asked = (#[trigger] args.common.publish@[i])@;
        let mapped = p.config.port_map@[i]@;
        &&& !mapped.contains('/')
        &&& asked == mapped || asked == mapped + "/tcp"@
    } by {
        let asked = args.common.publish@[i]@;
        let mapped = p.config.port_map@[i]@;
        assert(common::port_of(asked) == Some(maps.port_map@[i]@));
        assert(mapped == maps.port_map@[i]@);
        split::lemma_cut(asked, '/');
        reveal_strlit("tcp");
        reveal_strlit("/tcp");
        if asked.contains('/') {
            assert(mapped.push('/') + "tcp"@ =~= mapped + "/tcp"@);
        }
    }
}

/// The network, the volumes, the memory and the limits of a run's box are those
/// that were read, and what it holds of shared memory is mounted after the file
/// systems that were asked for.
pub proof fn lemma_prepared_as_read(
    args: RunArgs,
    basics: RunBasics,
    maps: RunMaps,
    env: StrMap<String>,
    mounts: Vec<String>,
    p: RunPrepared,
)
    requires
        call_ensures(
            try_finish_run,
            (&args, &basics, &maps, &env, &mounts),
            Some(Ok::<RunPrepared, String>(p)),
        ),
    ensures
        text::same_texts(p.config.volumes@, mounts@),
        p.config.resources.memory_mb == basics.memory_mb,
        p.config.resource_limits@ == basics.resource_limits@,
        args.common.network is None ==> p.config.network is Tsi,
        args.common.network is Some ==> (p.config.network matches NetworkMode::Bridge { network }
            && network@ == args.common.network->0@),
        p.shm_size is None ==> text::same_texts(p.config.tmpfs@, args.common.tmpfs@),
        p.shm_size is Some ==> p.config.tmpfs@.len() == args.common.tmpfs@.len() + 1,
        forall|i: int|
            0 <= i < args.common.tmpfs@.len() ==> (#[trigger] p.config.tmpfs@[i])@
                == args.common.tmpfs@[i]@,
        p.shm_size is Some <==> args.common.shm_size is Some,
        forall|k: Seq<char>| #[trigger]
            env@.contains_key(k) ==> config::sets(p.config.extra_env@, k, env@[k]@),
        forall|i: int|
            0 <= i < p.config.extra_env@.len() ==> env@.contains_key(
                (#[trigger] p.config.extra_env@[i]).0@,
            ),
{
    text::lemma_same_texts(p.config.volumes@, mounts@);
    text::lemma_same_texts(p.config.tmpfs@, args.common.tmpfs@);
    let asked = text::strs(args.common.tmpfs@);
    assert(p.config@.tmpfs == tmpfs_with_shm(asked, p.shm_size));
    assert(text::strs(p.config.tmpfs@).len() == p.config.tmpfs@.len());
    assert forall|i: int| 0 <= i < args.common.tmpfs@.len() implies (#[trigger] p.config.tmpfs@[i])@
        == args.common.tmpfs@[i]@ by {
        assert(text::strs(p.config.tmpfs@)[i] == asked[i]);
    }
    assert(p.config@.network == p.config.network@);
    let pairs = config::pair_texts(p.config.extra_env@);
    assert forall|k: Seq<char>| #[trigger] env@.contains_key(k) implies config::sets(
        p.config.extra_env@,
        k,
        env@[k]@,
    ) by {
        assert(strmap::texts(env@).dom().contains(k));
        let i = choose|i: int| 0 <= i < pairs.len() && (#[trigger] pairs[i]).0 == k;
        assert(pairs[i] == (p.config.extra_env@[i].0@, p.config.extra_env@[i].1@));
        assert(strmap::texts(env@)[k] == env@[k]@);
    }
    assert forall|i: int| 0 <= i < p.config.extra_env@.len() implies env@.contains_key(
        (#[trigger] p.config.extra_env@[i]).0@,
    ) by {
        assert(strmap::texts(env@).dom().contains(pairs[i].0));
    }
}

/// What is recorded of a box is what it was run with: each list in its order, each
/// flag and each limit, its name, its image and its policy. It is removed with its
/// end exactly where `--rm` was given.
pub proof fn lemma_record_holds_what_is_given(
    args: RunArgs,
    basics: RunBasics,
    maps: RunMaps,
    env: StrMap<String>,
    mounts: Vec<String>,
    volume_names: Vec<String>,
    shm_size: Option<u64>,
    facts: compose_service::BootFacts,
    home: &str,
    r: BoxRecord,
)
    requires
        call_ensures(
            run_record,
            (&args, &basics, &maps, &env, &mounts, &volume_names, shm_size, &facts, home),
            r,
        ),
    ensures
        text::same_texts(r.port_map@, maps.port_map@),
        text::same_texts(r.volumes@, mounts@),
        text::same_texts(r.volume_names@, volume_names@),
        text::same_texts(r.cmd@, args.cmd@),
        text::same_texts(r.tmpfs@, args.common.tmpfs@),
        text::same_texts(r.add_host@, args.common.add_host@),
        text::same_texts(r.cap_add@, args.common.cap_add@),
        text::same_texts(r.cap_drop@, args.common.cap_drop@),
        text::same_texts(r.security_opt@, args.common.security_opt@),
        text::same_texts(r.devices@, args.common.device@),
        text::same_texts(r.anonymous_volumes@, facts.anonymous_volumes@),
        strmap::texts(r.env@) == strmap::texts(env@),
        strmap::texts(r.labels@) == strmap::texts(maps.labels@),
        r.id@ == facts.box_id@ && r.short_id@ == facts.short_id@,
        r.name@ == basics.name@,
        r.image@ == args.common.image@,
        r.pid == facts.pid,
        r.cpus == args.common.cpus,
        r.memory_mb == basics.memory_mb,
        r.resource_limits@ == basics.resource_limits@,
        r.log_config@ == basics.log_config@,
        r.restart_policy@ == basics.restart_policy@,
        r.max_restart_count == basics.max_restart_count,
        r.created_at == facts.created_at,
        r.started_at == Some(facts.started_at),
{
    text::lemma_same_texts(r.port_map@, maps.port_map@);
    text::lemma_same_texts(r.volumes@, mounts@);
    text::lemma_same_texts(r.volume_names@, volume_names@);
    text::lemma_same_texts(r.cmd@, args.cmd@);
    text::lemma_same_texts(r.tmpfs@, args.common.tmpfs@);
    text::lemma_same_texts(r.add_host@, args.common.add_host@);
    text::lemma_same_texts(r.cap_add@, args.common.cap_add@);
    text::lemma_same_texts(r.cap_drop@, args.common.cap_drop@);
    text::lemma_same_texts(r.security_opt@, args.common.security_opt@);
    text::lemma_same_texts(r.devices@, args.common.device@);
    text::lemma_same_texts(r.anonymous_volumes@, facts.anonymous_volumes@);
    assert(r@.port_map == text::strs(maps.port_map@));
}

/// The flags of a run are those of its record, and it begins as a running box that
/// nobody has stopped and that was never restarted.
pub proof fn lemma_record_begins_running(
    args: RunArgs,
    basics: RunBasics,
    maps: RunMaps,
    env: StrMap<String>,
    mounts: Vec<String>,
    volume_names: Vec<String>,
    shm_size: Option<u64>,
    facts: compose_service::BootFacts,
    home: &str,
    r: BoxRecord,
)
    requires
        call_ensures(
            run_record,
            (&args, &basics, &maps, &env, &mounts, &volume_names, shm_size, &facts, home),
            r,
        ),
    ensures
        r.status@ == "running"@,
        !r.stopped_by_user,
        r.restart_count == 0,
        r.exit_code is None,
        r.auto_remove == args.rm,
        r.privileged == args.common.privileged,
        r.read_only == args.common.read_only,
        r.init == args.common.init,
        r.oom_kill_disable == args.common.oom_kill_disable,
        r.oom_score_adj == args.common.oom_score_adj,
        r.stop_timeout == args.common.stop_timeout,
        r.shm_size == shm_size,
        r.healthcheck_disabled == args.common.no_healthcheck,
        text::opt_str(r.user) == text::opt_str(args.common.user),
        text::opt_str(r.workdir) == text::opt_str(args.common.workdir),
        text::opt_str(r.hostname) == text::opt_str(args.common.hostname),
        text::opt_str(r.network_name) == text::opt_str(args.common.network),
        text::opt_str(r.platform) == text::opt_str(args.common.platform),
        text::opt_str(r.gpus) == text::opt_str(args.common.gpus),
        args.common.network is None <==> r.network_mode is Tsi,
        cleanup::network_of(r@) == text::opt_str(args.common.network),
        args.common.no_healthcheck ==> r.health_check is None,
        args.common.health_cmd is None && facts.image_health_check is None ==> r.health_check is None,
        r.health_check is Some ==> r.health_status@ == "starting"@,
        r.health_check is None ==> r.health_status@ == "none"@,
        facts.exec_socket_path is Some ==> r.exec_socket_path@ == facts.exec_socket_path->0@,
        args.common.stop_signal is Some ==> text::opt_str(r.stop_signal) == Some(
            args.common.stop_signal->0@,
        ),
        args.common.stop_signal is None ==> text::opt_str(r.stop_signal) == text::opt_str(
            facts.image_stop_signal,
        ),
{
    assert(r@.network_mode == r.network_mode@);
    assert(r@.health_check == state::opt_health(r.health_check));
}

/// Each port of a run is recorded as it is mapped, and the configuration of a
/// restart is made of the record: a box that is started again has the ports, the
/// volumes, the variables, the network, the limits and the user of its first run.
pub proof fn lemma_restart_boots_as_run(
    args: RunArgs,
    basics: RunBasics,
    maps: RunMaps,
    env: StrMap<String>,
    mounts: Vec<String>,
    volume_names: Vec<String>,
    facts: compose_service::BootFacts,
    home: &str,
    p: RunPrepared,
    r: BoxRecord,
    checks: boot::RecordChecks,
    again: BoxConfig,
)
    requires
        call_ensures(read_maps, (&args.common,), Ok::<RunMaps, String>(maps)),
        call_ensures(
            try_finish_run,
            (&args, &basics, &maps, &env, &mounts),
            Some(Ok::<RunPrepared, String>(p)),
        ),
        call_ensures(
            run_record,
            (&args, &basics, &maps, &env, &mounts, &volume_names, p.shm_size, &facts, home),
            r,
        ),
        call_ensures(
            boot::config_from_record,
            (&r, &checks),
            Ok::<BoxConfig, String>(again),
        ),
    ensures
        text::same_texts(again.port_map@, p.config.port_map@),
        text::same_texts(again.volumes@, p.config.volumes@),
        text::same_texts(again.tmpfs@, p.config.tmpfs@),
        text::same_texts(again.add_hosts@, p.config.add_hosts@),
        text::same_texts(again.cap_add@, p.config.cap_add@),
        text::same_texts(again.cap_drop@, p.config.cap_drop@),
        text::same_texts(again.security_opt@, p.config.security_opt@),
        !args.tty ==> text::same_texts(again.cmd@, p.config.cmd@),
        !args.tty ==> text::opt_strs(again.entrypoint_override) == text::opt_strs(
            p.config.entrypoint_override,
        ),
        again.image@ == p.config.image@,
        again.resources == p.config.resources,
        again.resource_limits@ == p.config.resource_limits@,
        again.network@ == p.config.network@,
        again.privileged == p.config.privileged && again.read_only == p.config.read_only,
        text::opt_str(again.user) == text::opt_str(p.config.user),
        text::opt_str(again.workdir) == text::opt_str(p.config.workdir),
        text::opt_str(again.hostname) == text::opt_str(p.config.hostname),
{
    assert(r@.port_map == text::strs(maps.port_map@));
    text::lemma_same_texts(r.port_map@, maps.port_map@);
    text::lemma_same_texts(p.config.port_map@, maps.port_map@);
    assert forall|i: int| 0 <= i < r.port_map@.len() implies (#[trigger] again.port_map@[i])@
        == p.config.port_map@[i]@ by {
        let asked = args.common.publish@[i]@;
        let mapped = maps.port_map@[i]@;
        assert(common::port_of(asked) == Some(mapped));
        split::lemma_cut(asked, '/');
        split::lemma_cut(mapped, '/');
        assert(!mapped.contains('/'));
        assert(r.port_map@[i]@ == mapped);
        assert(common::port_of(r.port_map@[i]@) == Some(again.port_map@[i]@));
    }
    text::lemma_same_texts(again.volumes@, p.config.volumes@);
    text::lemma_same_texts(again.tmpfs@, p.config.tmpfs@);
    text::lemma_same_texts(again.add_hosts@, p.config.add_hosts@);
    text::lemma_same_texts(again.cap_add@, p.config.cap_add@);
    text::lemma_same_texts(again.cap_drop@, p.config.cap_drop@);
    text::lemma_same_texts(again.security_opt@, p.config.security_opt@);
    text::lemma_same_texts(again.cmd@, p.config.cmd@);
    assert(again@.tmpfs == p.config@.tmpfs);
    assert(again@.user == user_number(r.user));
    assert(text::opt_str(r.user) == text::opt_str(args.common.user));
}

/// A terminal cannot be had in the background nor without one to begin with, and
/// every other mode of a run is accepted. A run in the background stays there
/// whatever else is asked.
pub proof fn lemma_run_modes(
    args: RunArgs,
    stdin_is_terminal: bool,
    r: Result<(), &'static str>,
    phase: RunPhase,
)
    requires
        call_ensures(validate_run_mode, (&args, stdin_is_terminal), r),
        call_ensures(run_phase, (&args,), phase),
    ensures
        !args.tty ==> r is Ok,
        args.tty && args.detach ==> r is Err,
        args.tty && !stdin_is_terminal ==> r is Err,
        args.tty && !args.detach && stdin_is_terminal ==> r is Ok,
        phase is Detached <==> args.detach,
        phase is Foreground <==> !args.detach && !args.tty,
        r is Ok && args.tty ==> phase is Tty,
{
}

/// What is shared in memory is mounted behind the other file systems in memory, and
/// nothing is without a size.
pub proof fn lemma_shm_is_mounted(tmpfs: Vec<String>, shm_size: Option<u64>, r: Vec<String>)
    requires
        call_ensures(with_shm, (&tmpfs, shm_size), r),
    ensures
        shm_size is None ==> r@.len() == tmpfs@.len(),
        shm_size is Some ==> r@.len() == tmpfs@.len() + 1 && r@.last()@ == "/dev/shm:size="@
            + number::decimal(shm_size->0 as nat),
        forall|i: int| 0 <= i < tmpfs@.len() ==> (#[trigger] r@[i])@ == tmpfs@[i]@,
{
    assert(text::strs(r@).len() == r@.len());
    assert forall|i: int| 0 <= i < tmpfs@.len() implies (#[trigger] r@[i])@ == tmpfs@[i]@ by {
        assert(text::strs(r@)[i] == text::strs(tmpfs@)[i]);
    }
    if shm_size is Some {
        assert(text::strs(r@)[tmpfs@.len() as int] == r@.last()@);
    }
}

/// A box is kept in a trusted environment where one was asked for, real or
/// simulated, and in none otherwise. It is simulated only where that was said, and
/// its workload goes by the name of the image where it was given none.
pub proof fn lemma_tee_only_when_asked(args: RunArgs, r: TeeConfig)
    requires
        call_ensures(build_tee_config, (&args,), r),
    ensures
        r is Off <==> !args.tee && !args.tee_simulate,
        r matches TeeConfig::SevSnp { workload_id, simulate } ==> simulate == args.tee_simulate
            && workload_id@ == (if args.tee_workload_id is Some {
            args.tee_workload_id->0@
        } else {
            args.common.image@
        }),
{
}

/// A box joins the network it was given and none otherwise, and this is the network
/// it is taken off again.
pub proof fn lemma_network_joined(network: Option<String>, r: NetworkMode)
    requires
        call_ensures(network_mode, (&network,), r),
    ensures
        network is None <==> r is Tsi,
        compose_service::mode_network(r@) == text::opt_str(network),
{
}

/// The text is one of the variables, as `KEY=VALUE`.
pub open spec fn is_variable(env: Map<Seq<char>, String>, s: Seq<char>) -> bool {
    exists|k: Seq<char>| #[trigger] env.contains_key(k) && s == k + "="@ + env[k]@
}

/// What was asked of a terminal is the command, else the entrypoint, else a shell,
/// with every variable as `KEY=VALUE` and nothing more.
pub proof fn lemma_terminal_command(
    args: RunArgs,
    env: StrMap<String>,
    size: Option<(u16, u16)>,
    q: PtyRequest,
)
    requires
        call_ensures(pty_request, (&args, &env, size), Ok::<PtyRequest, String>(q)),
    ensures
        args.cmd@.len() > 0 ==> text::same_texts(q.cmd@, args.cmd@),
        args.cmd@.len() == 0 && args.common.entrypoint is None ==> q.cmd@.len() == 1 && q.cmd@[0]@
            == "/bin/sh"@,
        args.cmd@.len() == 0 && args.common.entrypoint is Some ==> text::strs(q.cmd@)
            == split::word_list(args.common.entrypoint->0@),
        forall|i: int| 0 <= i < q.env@.len() ==> is_variable(env@, (#[trigger] q.env@[i])@),
        text::opt_str(q.working_dir) == text::opt_str(args.common.workdir),
        size is Some ==> (q.cols, q.rows) == size->0,
        size is None ==> q.cols == 80 && q.rows == 24,
{
    text::lemma_same_texts(q.cmd@, args.cmd@);
    assert(text::strs(q.cmd@).len() == q.cmd@.len());
    if args.cmd@.len() == 0 {
        assert(text::strs(args.cmd@).len() == 0);
        if args.common.entrypoint is None {
            assert(text::strs(q.cmd@)[0] == q.cmd@[0]@);
        }
    }
    let pairs = choose|pairs: Seq<(Seq<char>, Seq<char>)>| #[trigger]
        config::lists(pairs, strmap::texts(env@)) && text::strs(q.env@) == env_texts(pairs);
    assert(text::strs(q.env@).len() == q.env@.len() && env_texts(pairs).len() == pairs.len());
    assert forall|i: int| 0 <= i < q.env@.len() implies is_variable(
        env@,
        (#[trigger] q.env@[i])@,
    ) by {
        assert(text::strs(q.env@)[i] == q.env@[i]@);
        assert(env_texts(pairs)[i] == pairs[i].0 + "="@ + pairs[i].1);
        let k = pairs[i].0;
        assert(strmap::texts(env@).dom().contains(k));
        assert(strmap::texts(env@)[k] == env@[k]@);
        assert(env@.contains_key(k));
    }
}

/// A run ends for the reason it is told: an interrupt before all, then the end of
/// the command, then a box that does not answer. A box that runs and answers goes
/// on. Only an interrupt counts as a stop by the user.
pub proof fn lemma_foreground_ends(
    exited: bool,
    healthy: bool,
    tick: Option<ForegroundStopReason>,
    interrupt: Option<ForegroundStopReason>,
    reason: ForegroundStopReason,
    by_user: bool,
)
    requires
        call_ensures(foreground_step, (ForegroundEvent::Tick { exited, healthy },), tick),
        call_ensures(foreground_step, (ForegroundEvent::Interrupt,), interrupt),
        call_ensures(ForegroundStopReason::stopped_by_user, (reason,), by_user),
    ensures
        tick is None <==> !exited && healthy,
        exited ==> tick == Some(ForegroundStopReason::ProcessExited),
        !exited && !healthy ==> tick == Some(ForegroundStopReason::VmUnhealthy),
        interrupt == Some(ForegroundStopReason::UserInterrupted),
        by_user <==> Some(reason) == interrupt,
{
}

/// A run ends with the exit code of its box where there is one, with that of an
/// interrupt where it was interrupted, and with a failure where the box did not
/// answer; and it passes on every code but success.
pub proof fn lemma_run_exit_code(
    reason: ForegroundStopReason,
    vm: Option<i32>,
    code: Option<i32>,
    passed: Option<i32>,
)
    requires
        call_ensures(foreground_exit_code, (reason, vm), code),
        call_ensures(exit_with, (code,), passed),
    ensures
        vm is Some ==> code == vm,
        vm is None && reason is UserInterrupted ==> code == Some(130i32),
        vm is None && reason is VmUnhealthy ==> code == Some(1i32),
        vm is None && reason is ProcessExited ==> code is None,
        passed is Some <==> code is Some && code->0 != 0,
        passed is Some ==> passed == code,
        passed != Some(0i32),
{
}

/// What is set up is set up in one order, a step after the other, until all is done;
/// the baseline may fail without harm. A failure before the box runs gives back what
/// it holds, and one after it was recorded leaves neither the box nor its record.
pub proof fn lemma_setup_undone(
    stage: SetupStage,
    record: BoxRecord,
    number: Option<i32>,
    default_ms: u64,
    temp_dir: &str,
    ok: Result<SetupStage, SetupUndo>,
    failed: Result<SetupStage, SetupUndo>,
)
    requires
        stage != SetupStage::Done,
        call_ensures(setup_step, (stage, true, &record, number, default_ms, temp_dir), ok),
        call_ensures(setup_step, (stage, false, &record, number, default_ms, temp_dir), failed),
    ensures
        ok is Ok,
        ok->Ok_0 != stage,
        stage == SetupStage::Baseline <==> failed is Ok,
        stage == SetupStage::Connect ==> ok->Ok_0 == SetupStage::Boot,
        stage == SetupStage::Boot ==> ok->Ok_0 == SetupStage::LoadState,
        stage == SetupStage::AddRecord || stage == SetupStage::AttachVolumes || stage
            == SetupStage::MakeLogDir ==> (failed->Err_0 matches SetupUndo::Destroy {
            signal,
            timeout_ms,
            steps,
        } && cleanup::steps(steps@).contains(StepView::RemoveRecord { box_id: record.id@ })
            && cleanup::steps(steps@).contains(StepView::RemoveDirIfPresent { path: record.box_dir@ })
            && (number is Some ==> signal == number->0) && (number is None ==> signal == 15) && (
        record.stop_timeout is Some ==> timeout_ms == record.stop_timeout->0 * 1000) && (
        record.stop_timeout is None ==> timeout_ms == default_ms)),
        stage == SetupStage::Boot ==> (failed->Err_0 matches SetupUndo::Release { steps }
            && cleanup::steps(steps@).len() >= 1 && cleanup::steps(steps@)[0] == (
        StepView::DetachVolumes { volumes: text::strs(record.volume_names@), box_id: record.id@ }) && (
        record.network_name is Some ==> cleanup::steps(steps@).contains(
            StepView::Disconnect { network: record.network_name->0@, box_id: record.id@ },
        ))),
        stage == SetupStage::Connect || stage == SetupStage::LoadState ==> failed->Err_0 is Nothing,
{
    if destroys(stage) {
        let r = record@;
        let all = cleanup::removal_steps(r, temp_dir@);
        let undo = all.push(StepView::RemoveRecord { box_id: r.id });
        let head = cleanup::resource_steps(r.id, r.volume_names, cleanup::network_of(r))
            + cleanup::volume_steps(r.anonymous_volumes);
        assert(undo[undo.len() - 1] == StepView::RemoveRecord { box_id: r.id });
        assert(undo[head.len() as int] == StepView::RemoveDirIfPresent { path: r.box_dir });
        assert(undo.contains(StepView::RemoveRecord { box_id: r.id }));
        assert(undo.contains(StepView::RemoveDirIfPresent { path: r.box_dir }));
    }
    if stage == SetupStage::Boot && record.network_name is Some {
        let steps = cleanup::resource_steps(record@.id, record@.volume_names, record@.network_name);
        assert(steps[1] == StepView::Disconnect {
            network: record.network_name->0@,
            box_id: record.id@,
        });
    }
}

/// What a run gives back at its end is what its box held: its volumes and its
/// network. Its directory and its record go exactly where it was to remove itself,
/// and then its unnamed volumes too.
pub proof fn lemma_teardown_removes_only_on_request(
    record: BoxRecord,
    network: Option<String>,
    auto_remove: bool,
    r: RunTeardown,
)
    requires
        call_ensures(run_teardown, (&record, &network, auto_remove), r),
    ensures
        text::same_texts(r.detach@, record.volume_names@),
        text::opt_str(r.network) == text::opt_str(network),
        r.removal is Some <==> auto_remove,
        auto_remove ==> {
            let steps = cleanup::steps(r.removal->0@);
            &&& steps.contains(StepView::RemoveRecord { box_id: record.id@ })
            &&& steps.contains(StepView::RemoveDir { path: record.box_dir@ })
            &&& forall|i: int|
                0 <= i < record.anonymous_volumes@.len() ==> #[trigger] steps[i]
                    == (StepView::RemoveVolume { name: record.anonymous_volumes@[i]@ })
            &&& steps.len() == record.anonymous_volumes@.len() + 2
        },
{
    text::lemma_same_texts(r.detach@, record.volume_names@);
    if auto_remove {
        let steps = cleanup::steps(r.removal->0@);
        let n = record.anonymous_volumes@.len() as int;
        assert(text::strs(record.anonymous_volumes@).len() == n);
        assert(cleanup::volume_steps(record@.anonymous_volumes).len() == n);
        assert(steps[n] == StepView::RemoveRecord { box_id: record.id@ });
        assert(steps[n + 1] == StepView::RemoveDir { path: record.box_dir@ });
        assert forall|i: int| 0 <= i < n implies #[trigger] steps[i] == (StepView::RemoveVolume {
            name: record.anonymous_volumes@[i]@,
        }) by {
            assert(text::strs(record.anonymous_volumes@)[i] == record.anonymous_volumes@[i]@);
        }
    }
}

/// A box that has stopped runs no more and tells how it ended and who ended it;
/// everything that it is started with again stays.
pub proof fn lemma_stopped_keeps_the_rest(r: RecordView, exit_code: Option<i32>, by_user: bool)
    ensures
        ({
            let after = stopped(r, exit_code, by_user);
            &&& !state::active(after.status) && after.status == "stopped"@
            &&& after.pid is None
            &&& after.exit_code == exit_code
            &&& after.stopped_by_user == by_user
            &&& after.id == r.id && after.name == r.name && after.image == r.image
            &&& after.restart_count == r.restart_count && after.restart_policy == r.restart_policy
            &&& after.volume_names == r.volume_names && after.network_name == r.network_name
            &&& after.anonymous_volumes == r.anonymous_volumes && after.labels == r.labels
            &&& forall|env: Seq<(Seq<char>, Seq<char>)>, ports: Seq<Seq<char>>, user: Option<
                Seq<char>,
            >| #[trigger]
                boot::record_config(after, env, ports, user) == boot::record_config(
                    r,
                    env,
                    ports,
                    user,
                )
        }),
{
    reveal_strlit("stopped");
    reveal_strlit("running");
    reveal_strlit("paused");
    assert("stopped"@[0] == 's' && "running"@[0] == 'r' && "paused"@[0] == 'p');
}

/// A timeout in seconds is given in thousandths, and where there is none the usual
/// one holds.
pub proof fn lemma_timeout_in_thousandths(secs: u64, default_ms: u64, given: u64, usual: u64)
    requires
        secs * 1000 <= u64::MAX,
        call_ensures(stop_timeout_ms, (Some(secs), default_ms), given),
        call_ensures(stop_timeout_ms, (None::<u64>, default_ms), usual),
    ensures
        given / 1000 == secs && given % 1000 == 0,
        usual == default_ms,
{
}

/// What a run begins with is what was read: its policy, its memory and its limits, its
/// name or one that was made up, and the driver and the options of its log.
pub proof fn lemma_run_begins_as_read(
    args: RunArgs,
    inputs: RunInputs,
    words: &str,
    policy: Result<(String, u32), String>,
    r: Option<Result<RunBasics, String>>,
)
    requires
        words@ == args.common.restart@,
        call_ensures(policy::parse_restart_policy, (words,), policy),
        call_ensures(try_begin_run, (&args, &inputs), r),
    ensures
        r matches Some(Ok(b)) ==> {
            &&& inputs.options is Ok && policy is Ok && inputs.memory is Ok && inputs.log_driver is Ok
            &&& b.restart_policy@ == (policy->Ok_0).0@ && b.max_restart_count == (policy->Ok_0).1
            &&& b.memory_mb == inputs.memory->Ok_0
            &&& b.log_config.driver == inputs.log_driver->Ok_0
            &&& args.common.name is Some ==> b.name@ == args.common.name->0@
            &&& args.common.name is None ==> b.name@ == inputs.generated_name@
            &&& b.resource_limits.pids_limit == args.common.pids_limit
            &&& b.resource_limits.cpu_shares == args.common.cpu_shares
            &&& b.resource_limits.cpu_quota == args.common.cpu_quota
            &&& b.resource_limits.cpu_period == args.common.cpu_period
            &&& text::same_texts(b.resource_limits.ulimits@, args.common.ulimits@)
            &&& args.log_opts@.len() == 0 ==> b.log_config.options@.dom() =~= Set::<Seq<char>>::empty()
        },
        r is Some && (inputs.options is Err || policy is Err || inputs.memory is Err || inputs.log_driver
            is Err) ==> r->0 is Err,
{
    if r is Some && r->0 is Ok {
        let b = r->0->Ok_0;
        assert(b.resource_limits@ == common::limits_of(args.common)->Ok_0);
        text::lemma_same_texts(b.resource_limits.ulimits@, args.common.ulimits@);
        if args.log_opts@.len() == 0 {
            assert(text::strs(args.log_opts@).len() == 0);
            let m = strmap::texts(b.log_config.options@);
            assert(m =~= Map::<Seq<char>, Seq<char>>::empty());
            assert(b.log_config.options@.dom() =~= m.dom());
        }
    }
}

/// The labels of a run are its pairs and its entrypoint its words; and with no label
/// and no port nothing is refused.
pub proof fn lemma_maps_read(args: CommonBoxArgs, r: Result<RunMaps, String>)
    requires
        call_ensures(read_maps, (&args,), r),
    ensures
        r is Ok ==> r->Ok_0.port_map@.len() == args.publish@.len(),
        r is Ok ==> (r->Ok_0.entrypoint is Some <==> args.entrypoint is Some),
        r is Ok && args.labels@.len() == 0 ==> r->Ok_0.labels@.dom() =~= Set::<Seq<char>>::empty(),
        args.labels@.len() == 0 && args.publish@.len() == 0 ==> r is Ok,
{
    assert(text::strs(args.labels@).len() == args.labels@.len());
    assert(text::strs(args.publish@).len() == args.publish@.len());
    if r is Ok {
        let m = strmap::texts(r->Ok_0.labels@);
        if args.labels@.len() == 0 {
            assert(m =~= Map::<Seq<char>, Seq<char>>::empty());
            assert(r->Ok_0.labels@.dom() =~= m.dom());
        }
        assert(text::opt_strs(r->Ok_0.entrypoint) is Some <==> r->Ok_0.entrypoint is Some);
    }
}

/// A box is stopped by the signal of its own and the timeout of its own, and else by
/// the usual ones.
pub proof fn lemma_stop_options(record: BoxRecord, number: Option<i32>, default_ms: u64, r: StopOptions)
    requires
        timeout_in_ms(record.stop_timeout, default_ms) <= u64::MAX,
        call_ensures(stop_options, (&record, number, default_ms), r),
    ensures
        number is Some ==> r.signal == number->0,
        number is None ==> r.signal == 15,
        record.stop_timeout is Some ==> r.timeout_ms == record.stop_timeout->0 * 1000,
        record.stop_timeout is None ==> r.timeout_ms == default_ms,
{
}

/// The record of a run that has ended tells how, and no other record changes.
pub proof fn lemma_end_recorded(
    state: &mut StateFile,
    box_id: &str,
    exit_code: Option<i32>,
    by_user: bool,
    i: int,
)
    requires
        call_ensures(mark_record_stopped, (state, box_id, exit_code, by_user), ()),
        0 <= i < old(state)@.len(),
    ensures
        final(state)@.len() == old(state)@.len(),
        old(state)@[i].id != box_id@ ==> final(state)@[i] == old(state)@[i],
        state::first_with_id(old(state)@, box_id@, i) ==> {
            let before = old(state)@[i];
            let after = final(state)@[i];
            &&& after.status == "stopped"@ && after.pid is None
            &&& after.exit_code == exit_code && after.stopped_by_user == by_user
            &&& after.id == before.id && after.name == before.name && after.restart_count
                == before.restart_count && after.health_status == before.health_status
        },
{
}

/// A run that removes its box says so, and only such a run does.
pub proof fn lemma_completion_told(
    reason: ForegroundStopReason,
    name: &str,
    gone: String,
    kept: String,
)
    requires
        call_ensures(foreground_completion_message, (reason, true, name), gone),
        call_ensures(foreground_completion_message, (reason, false, name), kept),
    ensures
        text::has_suffix(gone@, "removed."@),
        !text::has_suffix(kept@, "removed."@),
        text::has_substring(gone@, name@) && text::has_substring(kept@, name@),
{
    reveal_strlit("Box ");
    reveal_strlit("removed.");
    reveal_strlit(" exited and was removed.");
    reveal_strlit(" exited.");
    reveal_strlit(" removed.");
    reveal_strlit(" stopped.");
    reveal_strlit(" stopped after VM health check failed and was removed.");
    reveal_strlit(" stopped after VM health check failed.");
    assert(gone@.subrange(4, 4 + name@.len() as int) =~= name@);
    assert(text::occurs_at(gone@, name@, 4));
    assert(kept@.subrange(4, 4 + name@.len() as int) =~= name@);
    assert(text::occurs_at(kept@, name@, 4));
    assert(gone@.skip(gone@.len() - 8) =~= "removed."@);
    if text::has_suffix(kept@, "removed."@) {
        let tail = kept@.skip(kept@.len() - 8);
        assert(tail[3] == kept@[kept@.len() - 5]);
        assert("removed."@[3] == 'o');
    }
}

/// Each variable is told once, as `KEY=VALUE`.
pub proof fn lemma_variables_told(env: StrMap<String>, i: int, r: Vec<String>)
    requires
        call_ensures(env_strings, (&env,), r),
        0 <= i < r@.len(),
    ensures
        is_variable(env@, r@[i]@),
{
    let pairs = choose|pairs: Seq<(Seq<char>, Seq<char>)>| #[trigger]
        config::lists(pairs, strmap::texts(env@)) && text::strs(r@) == env_texts(pairs);
    assert(text::strs(r@).len() == r@.len() && env_texts(pairs).len() == pairs.len());
    assert(text::strs(r@)[i] == r@[i]@);
    let k = pairs[i].0;
    assert(strmap::texts(env@).dom().contains(k));
    assert(strmap::texts(env@)[k] == env@[k]@);
    assert(env@.contains_key(k));
}

/// The socket of a box's terminal is the one that was told, and else the one below its
/// directory.
pub proof fn lemma_pty_socket(chosen: Option<String>, home: &str, box_id: &str, r: String)
    requires
        call_ensures(pty_socket, (&chosen, home, box_id), r),
    ensures
        chosen is Some ==> r@ == chosen->0@,
        chosen is None ==> text::has_suffix(r@, "pty.sock"@),
{
    reveal_strlit("pty.sock");
    if chosen is None {
        assert(r@.skip(r@.len() - 8) =~= "pty.sock"@);
    }
}

/// The labels of a run and the options of its log are read as variables are, and its
/// shared memory as a size.
pub proof fn lemma_pairs_and_sizes_read(
    args: RunArgs,
    inputs: RunInputs,
    basics: RunBasics,
    maps: RunMaps,
    env: StrMap<String>,
    mounts: Vec<String>,
    p: RunPrepared,
    labels: StrMap<String>,
    options: StrMap<String>,
    s: &str,
    size: Option<Result<u64, String>>,
)
    requires
        call_ensures(try_begin_run, (&args, &inputs), Some(Ok::<RunBasics, String>(basics))),
        call_ensures(read_maps, (&args.common,), Ok::<RunMaps, String>(maps)),
        call_ensures(
            try_finish_run,
            (&args, &basics, &maps, &env, &mounts),
            Some(Ok::<RunPrepared, String>(p)),
        ),
        call_ensures(
            common::parse_env_vars,
            (&args.common.labels,),
            Ok::<StrMap<String>, String>(labels),
        ),
        call_ensures(
            common::parse_env_vars,
            (&args.log_opts,),
            Ok::<StrMap<String>, String>(options),
        ),
        args.common.shm_size is Some ==> args.common.shm_size->0@ == s@,
        call_ensures(common::checked_memory_bytes, (s,), size),
    ensures
        strmap::texts(maps.labels@) == strmap::texts(labels@),
        strmap::texts(basics.log_config.options@) == strmap::texts(options@),
        args.common.shm_size is Some ==> size is Some && size->0 is Ok && p.shm_size == Some(
            size->0->Ok_0,
        ),
        args.common.shm_size is None ==> p.shm_size is None,
{
}

/// What belongs to a box lies below its own directory, under the home.
pub proof fn lemma_recorded_places(
    args: RunArgs,
    basics: RunBasics,
    maps: RunMaps,
    env: StrMap<String>,
    mounts: Vec<String>,
    volume_names: Vec<String>,
    shm_size: Option<u64>,
    facts: compose_service::BootFacts,
    home: &str,
    id: &str,
    dir: String,
    r: BoxRecord,
)
    requires
        id@ == facts.box_id@,
        call_ensures(compose_service::box_dir, (home, id), dir),
        call_ensures(
            run_record,
            (&args, &basics, &maps, &env, &mounts, &volume_names, shm_size, &facts, home),
            r,
        ),
    ensures
        r.box_dir@ == dir@,
        text::has_suffix(r.console_log@, "console.log"@),
        facts.exec_socket_path is None ==> text::has_suffix(r.exec_socket_path@, "exec.sock"@),
        text::opt_strs(r.entrypoint) == text::opt_strs(maps.entrypoint),
{
    reveal_strlit("console.log");
    reveal_strlit("exec.sock");
    let a = r.console_log@;
    assert(a.skip(a.len() - 11) =~= "console.log"@);
    if facts.exec_socket_path is None {
        let b = r.exec_socket_path@;
        assert(b.skip(b.len() - 9) =~= "exec.sock"@);
    }
}

/// The pull of an image is announced once, before its first layer; each layer has a
/// line that tells which of how many it is.
pub proof fn lemma_pull_announced_once(
    image: &str,
    current: usize,
    total: usize,
    digest: &str,
    size: i64,
    r: Vec<String>,
)
    requires
        size > i64::MIN,
        crate::bytes::end_cuttable(digest@, 12),
        call_ensures(pull_progress, (image, current, total, digest, size), r),
    ensures
        current == 1 && size > 0 ==> r@.len() == 2 && text::has_substring(r@[0]@, image@),
        current != 1 || size <= 0 ==> r@.len() == 1,
        text::has_prefix(
            r@.last()@,
            "  ["@ + number::decimal(current as nat) + "/"@ + number::decimal(total as nat) + "] "@,
        ),
        size < 0 ==> text::has_suffix(r@.last()@, " ✓"@),
        size >= 0 ==> text::has_suffix(r@.last()@, "..."@),
{
    let s = text::strs(r@);
    assert(s.len() == r@.len());
    assert(s[s.len() - 1] == r@.last()@);
    let line = r@.last()@;
    let head = "  ["@ + number::decimal(current as nat) + "/"@ + number::decimal(total as nat) + "] "@;
    assert(line.take(head.len() as int) =~= head);
    if current == 1 && size > 0 {
        assert(s[0] == r@[0]@);
        reveal_strlit("Pulling ");
        assert(r@[0]@.subrange(8, 8 + image@.len() as int) =~= image@);
        assert(text::occurs_at(r@[0]@, image@, 8));
    }
    if size < 0 {
        let end = " ✓"@;
        assert(line.skip(line.len() - end.len()) =~= end);
    } else {
        let end = "..."@;
        assert(line.skip(line.len() - end.len()) =~= end);
    }
}

/// The steps of a setup follow one another: the network, the boot, the state, the record,
/// the baseline, the volumes and the log.
pub proof fn lemma_setup_order(
    stage: SetupStage,
    record: BoxRecord,
    number: Option<i32>,
    default_ms: u64,
    temp_dir: &str,
    next: SetupStage,
)
    requires
        stage != SetupStage::Done,
        call_ensures(
            setup_step,
            (stage, true, &record, number, default_ms, temp_dir),
            Ok::<SetupStage, SetupUndo>(next),
        ),
    ensures
        stage == SetupStage::Connect <==> next == SetupStage::Boot,
        stage == SetupStage::Boot <==> next == SetupStage::LoadState,
        stage == SetupStage::LoadState <==> next == SetupStage::AddRecord,
        stage == SetupStage::AddRecord <==> next == SetupStage::Baseline,
        stage == SetupStage::Baseline <==> next == SetupStage::AttachVolumes,
        stage == SetupStage::AttachVolumes <==> next == SetupStage::MakeLogDir,
        stage == SetupStage::MakeLogDir <==> next == SetupStage::Done,
{
}

} // verus!
