//! `create`: a box that is not started.

use vstd::prelude::*;

use crate::cleanup;
use crate::cleanup::{cleanup_partial_box_record, CleanupStep, StepView};
use crate::commands::common;
use crate::commands::common::{
    build_resource_limits, check_limits_fit, check_opt_size, effective_health_check, effective_stop_signal,
    normalize_port_maps, parse_opt_size, parse_pairs_as, split_entrypoint, CommonBoxArgs,
};
use crate::commands::compose_service;
use crate::commands::compose_service::{box_dir, box_file};
use crate::commands::run;
use crate::commands::run::network_mode;
use crate::policy;
use crate::policy::parse_restart_policy;
use crate::state;
use crate::state::{BoxRecord, HealthCheck, LogConfig, RecordView, ResourceLimits, ResourceLimitsView, Timestamp};
use crate::strmap;
use crate::strmap::StrMap;
use crate::text;
use crate::text::{cat2, clone_strings};

verus! {

/// The arguments of `create`.
#[derive(Debug)]
pub struct CreateArgs {
    pub common: CommonBoxArgs,
    pub cmd: Vec<String>,
}

/// What is known before the options are read.
#[derive(Debug)]
pub struct CreateInputs {
    /// Whether the options can be met at all.
    pub options: Result<(), String>,
    /// The memory in megabytes that the text was read as.
    pub memory: Result<u32, String>,
    /// The environment that the options and files name.
    pub env: Result<StrMap<String>, String>,
    /// Whether the network that is asked for takes boxes.
    pub network: Result<(), String>,
}

/// What the options come to.
#[derive(Debug)]
pub struct CreateBasics {
    pub restart_policy: String,
    pub max_restart_count: u32,
    pub memory_mb: u32,
    pub resource_limits: ResourceLimits,
    pub port_map: Vec<String>,
    pub env: StrMap<String>,
    pub labels: StrMap<String>,
}

/// Whether the options are read as `r`: the options can be met, then the restart
/// policy, the memory, the limits, the ports, the environment, the labels and
/// the network, in this order; the first that fails decides.
pub open spec fn is_basics(args: CreateArgs, inputs: CreateInputs, r: Result<CreateBasics, String>) -> bool {
    let policy = policy::policy_of(args.common.restart@);
    let limits = common::limits_of(args.common);
    let labels = common::with_pairs(Map::empty(), text::strs(args.common.labels@));
    let ports_read = forall|i: int|
        0 <= i < args.common.publish@.len() ==> common::port_of((#[trigger] args.common.publish@[i])@) is Some;
    match r {
        Ok(b) => {
            &&& inputs.options is Ok
            &&& policy == Some((b.restart_policy@, b.max_restart_count))
            &&& inputs.memory == Ok::<u32, String>(b.memory_mb)
            &&& limits == Ok::<ResourceLimitsView, Seq<char>>(b.resource_limits@)
            &&& run::ports_are(args.common.publish@, b.port_map@)
            &&& inputs.env is Ok
            &&& strmap::texts(b.env@) == strmap::texts(inputs.env->Ok_0@)
            &&& labels == Some(strmap::texts(b.labels@))
            &&& args.common.network is Some ==> inputs.network is Ok
        },
        Err(e) => if inputs.options is Err {
            e@ == inputs.options->Err_0@
        } else if policy is None {
            e@ == policy::invalid_policy(args.common.restart@)
        } else if inputs.memory is Err {
            e@ == "Invalid --memory: "@ + inputs.memory->Err_0@
        } else if limits is Err {
            e@ == limits->Err_0
        } else if !ports_read {
            run::ports_error(text::strs(args.common.publish@), e@)
        } else if inputs.env is Err {
            e@ == inputs.env->Err_0@
        } else if labels is None {
            run::pairs_error(text::strs(args.common.labels@), "label"@, e@)
        } else {
            args.common.network is Some && inputs.network is Err && e@ == inputs.network->Err_0@
        },
    }
}

/// Reads the options.
pub fn begin_create(args: &CreateArgs, inputs: &CreateInputs) -> (r: Result<CreateBasics, String>)
    requires
        common::limits_fit(args.common),
    ensures
        is_basics(*args, *inputs, r),
{
    if let Err(e) = &inputs.options {
        return Err(e.clone());
    }
    let (restart_policy, max_restart_count) = parse_restart_policy(&args.common.restart)?;
    let memory_mb: u32 = match &inputs.memory {
        Ok(m) => *m,
        Err(e) => {
            return Err(cat2("Invalid --memory: ", e));
        },
    };
    let resource_limits = build_resource_limits(&args.common)?;
    let port_map = match normalize_port_maps(&args.common.publish) {
        Ok(p) => p,
        Err(e) => {
            proof {
                let ps = text::strs(args.common.publish@);
                let i = choose|i: int| common::first_bad_port(ps, i) && e@ == common::port_error(ps[i]);
                assert(ps[i] == args.common.publish@[i]@);
            }
            return Err(e);
        },
    };
    proof {
        assert forall|i: int| 0 <= i < args.common.publish@.len() implies common::port_of(
            (#[trigger] args.common.publish@[i])@,
        ) is Some by {
            assert(common::port_of(args.common.publish@[i]@) == Some(port_map@[i]@));
        }
    }
    let env = match &inputs.env {
        Ok(m) => m.clone(),
        Err(e) => {
            return Err(e.clone());
        },
    };
    let labels = parse_pairs_as(&args.common.labels, "label")?;
    if args.common.network.is_some() {
        if let Err(e) = &inputs.network {
            return Err(e.clone());
        }
    }
    Ok(CreateBasics { restart_policy, max_restart_count, memory_mb, resource_limits, port_map, env, labels })
}

/// Reads the options; `None` where a size does not fit into 64 bits.
pub fn try_begin_create(args: &CreateArgs, inputs: &CreateInputs) -> (r: Option<Result<CreateBasics, String>>)
    ensures
        match r {
            Some(b) => common::limits_fit(args.common) && is_basics(*args, *inputs, b),
            None => !common::limits_fit(args.common),
        },
{
    if check_limits_fit(&args.common) {
        Some(begin_create(args, inputs))
    } else {
        None
    }
}

/// The size of `/dev/shm` that the options ask for.
pub fn create_shm(args: &CreateArgs) -> (r: Result<Option<u64>, String>)
    requires
        common::opt_size_fits(args.common.shm_size),
    ensures
        match r {
            Ok(n) => run::is_shm(args.common, n),
            Err(e) => run::shm_of(args.common) == Err::<Option<nat>, Seq<char>>(e@),
        },
{
    parse_opt_size(&args.common.shm_size, "--shm-size")
}

/// The size of `/dev/shm` that the options ask for; `None` where it does not fit
/// into 64 bits.
pub fn try_create_shm(args: &CreateArgs) -> (r: Option<Result<Option<u64>, String>>)
    ensures
        match r {
            Some(Ok(n)) => common::opt_size_fits(args.common.shm_size) && run::is_shm(args.common, n),
            Some(Err(e)) => common::opt_size_fits(args.common.shm_size) && run::shm_of(args.common) == Err::<
                Option<nat>,
                Seq<char>,
            >(e@),
            None => !common::opt_size_fits(args.common.shm_size),
        },
{
    if check_opt_size(&args.common.shm_size) {
        Some(create_shm(args))
    } else {
        None
    }
}

/// What a box is created with: its identifiers, its name where none is asked
/// for, what its image says, the directory of the installation and the point in
/// time.
#[derive(Debug)]
pub struct CreateFacts {
    pub box_id: String,
    pub short_id: String,
    pub generated_name: String,
    pub image_health_check: Option<HealthCheck>,
    pub image_stop_signal: Option<String>,
    pub home: String,
    pub now: Timestamp,
}

/// The record of a box that is created.
pub open spec fn created(
    args: CreateArgs,
    basics: CreateBasics,
    shm_size: Option<u64>,
    mounts: Seq<Seq<char>>,
    volume_names: Seq<Seq<char>>,
    facts: CreateFacts,
) -> RecordView {
    let dir = compose_service::box_dir_of(facts.home@, facts.box_id@);
    RecordView {
        id: facts.box_id@,
        short_id: facts.short_id@,
        name: match text::opt_str(args.common.name) {
            Some(n) => n,
            None => facts.generated_name@,
        },
        image: args.common.image@,
        status: "created"@,
        pid: None,
        cpus: args.common.cpus,
        memory_mb: basics.memory_mb,
        volumes: mounts,
        env: strmap::texts(basics.env@),
        cmd: text::strs(args.cmd@),
        entrypoint: common::entrypoint_of(text::opt_str(args.common.entrypoint)),
        box_dir: dir,
        exec_socket_path: compose_service::box_file_of(dir, "sockets"@, "exec.sock"@),
        console_log: compose_service::box_file_of(dir, "logs"@, "console.log"@),
        created_at: facts.now,
        started_at: None,
        auto_remove: false,
        hostname: text::opt_str(args.common.hostname),
        user: text::opt_str(args.common.user),
        workdir: text::opt_str(args.common.workdir),
        restart_policy: basics.restart_policy@,
        port_map: text::strs(basics.port_map@),
        labels: strmap::texts(basics.labels@),
        stopped_by_user: false,
        restart_count: 0,
        max_restart_count: basics.max_restart_count,
        exit_code: None,
        health_check: common::health_of(args.common, state::opt_health(facts.image_health_check)),
        healthcheck_disabled: args.common.no_healthcheck,
        health_status: "none"@,
        health_retries: 0,
        health_last_check: None,
        network_mode: run::mode_of(text::opt_str(args.common.network)),
        network_name: text::opt_str(args.common.network),
        volume_names,
        tmpfs: text::strs(args.common.tmpfs@),
        anonymous_volumes: Seq::empty(),
        resource_limits: basics.resource_limits@,
        log_config: state::default_log_config(),
        add_host: text::strs(args.common.add_host@),
        platform: text::opt_str(args.common.platform),
        init: args.common.init,
        read_only: args.common.read_only,
        cap_add: text::strs(args.common.cap_add@),
        cap_drop: text::strs(args.common.cap_drop@),
        security_opt: text::strs(args.common.security_opt@),
        privileged: args.common.privileged,
        devices: text::strs(args.common.device@),
        gpus: text::opt_str(args.common.gpus),
        shm_size,
        stop_signal: common::stop_signal_of(
            text::opt_str(args.common.stop_signal),
            text::opt_str(facts.image_stop_signal),
        ),
        stop_timeout: args.common.stop_timeout,
        oom_kill_disable: args.common.oom_kill_disable,
        oom_score_adj: args.common.oom_score_adj,
    }
}

/// The record of a box that is created.
pub fn create_record(
    args: &CreateArgs,
    basics: &CreateBasics,
    shm_size: Option<u64>,
    mounts: &Vec<String>,
    volume_names: &Vec<String>,
    facts: &CreateFacts,
) -> (r: BoxRecord)
    ensures
        r@ == created(*args, *basics, shm_size, text::strs(mounts@), text::strs(volume_names@), *facts),
{
    let dir = box_dir(&facts.home, &facts.box_id);
    let no_volumes: Vec<String> = Vec::new();
    assert(text::strs(no_volumes@) =~= Seq::empty());
    BoxRecord {
        id: facts.box_id.clone(),
        short_id: facts.short_id.clone(),
        name: match &args.common.name {
            Some(n) => n.clone(),
            None => facts.generated_name.clone(),
        },
        image: args.common.image.clone(),
        status: "created".to_string(),
        pid: None,
        cpus: args.common.cpus,
        memory_mb: basics.memory_mb,
        volumes: clone_strings(mounts),
        env: basics.env.clone(),
        cmd: clone_strings(&args.cmd),
        entrypoint: split_entrypoint(&args.common.entrypoint),
        exec_socket_path: box_file(&dir, "sockets", "exec.sock"),
        console_log: box_file(&dir, "logs", "console.log"),
        box_dir: dir,
        created_at: facts.now,
        started_at: None,
        auto_remove: false,
        hostname: args.common.hostname.clone(),
        user: args.common.user.clone(),
        workdir: args.common.workdir.clone(),
        restart_policy: basics.restart_policy.clone(),
        port_map: clone_strings(&basics.port_map),
        labels: basics.labels.clone(),
        stopped_by_user: false,
        restart_count: 0,
        max_restart_count: basics.max_restart_count,
        exit_code: None,
        health_check: effective_health_check(&args.common, &facts.image_health_check),
        healthcheck_disabled: args.common.no_healthcheck,
        health_status: "none".to_string(),
        health_retries: 0,
        health_last_check: None,
        network_mode: network_mode(&args.common.network),
        network_name: args.common.network.clone(),
        volume_names: clone_strings(volume_names),
        tmpfs: clone_strings(&args.common.tmpfs),
        anonymous_volumes: no_volumes,
        resource_limits: basics.resource_limits.clone(),
        log_config: LogConfig::default(),
        add_host: clone_strings(&args.common.add_host),
        platform: args.common.platform.clone(),
        init: args.common.init,
        read_only: args.common.read_only,
        cap_add: clone_strings(&args.common.cap_add),
        cap_drop: clone_strings(&args.common.cap_drop),
        security_opt: clone_strings(&args.common.security_opt),
        privileged: args.common.privileged,
        devices: clone_strings(&args.common.device),
        gpus: args.common.gpus.clone(),
        shm_size,
        stop_signal: effective_stop_signal(&args.common.stop_signal, &facts.image_stop_signal),
        stop_timeout: args.common.stop_timeout,
        oom_kill_disable: args.common.oom_kill_disable,
        oom_score_adj: args.common.oom_score_adj,
    }
}

/// The steps of keeping a box that is created.
#[derive(Clone, Copy, Debug, PartialEq, Eq, Structural)]
pub enum CreateStage {
    /// The record of the box is added to the state.
    AddRecord,
    /// The named volumes are attached to the box.
    AttachVolumes,
    /// The box is there.
    Done,
}

/// The step after one that succeeded.
pub open spec fn next_create(s: CreateStage) -> CreateStage {
    match s {
        CreateStage::AddRecord => CreateStage::AttachVolumes,
        CreateStage::AttachVolumes => CreateStage::Done,
        CreateStage::Done => CreateStage::Done,
    }
}

/// What undoes a box that could not be kept: all that it owns goes, and then its
/// record.
pub open spec fn create_undo(r: RecordView, temp_dir: Seq<char>) -> Seq<StepView> {
    cleanup::removal_steps(r, temp_dir).push(StepView::RemoveRecord { box_id: r.id })
}

/// What follows a step of keeping a box that is created: the next step, or what
/// undoes the box. `record` is the record of the box.
pub fn create_step(stage: CreateStage, succeeded: bool, record: &BoxRecord, temp_dir: &str) -> (r: Result<
    CreateStage,
    Vec<CleanupStep>,
>)
    requires
        stage != CreateStage::Done,
    ensures
        match r {
            Ok(next) => succeeded && next == next_create(stage),
            Err(steps) => !succeeded && cleanup::steps(steps@) == create_undo(record@, temp_dir@),
        },
{
    if !succeeded {
        return Err(cleanup_partial_box_record(record, temp_dir, true));
    }
    match stage {
        CreateStage::AddRecord => Ok(CreateStage::AttachVolumes),
        _ => Ok(CreateStage::Done),
    }
}

/// A box that could not be kept leaves nothing: its directory and its record are
/// removed, whichever step failed.
pub proof fn lemma_failed_create_leaves_nothing(r: RecordView, temp_dir: Seq<char>)
    ensures
        create_undo(r, temp_dir).contains(StepView::RemoveDirIfPresent { path: r.box_dir }),
        create_undo(r, temp_dir).contains(StepView::RemoveRecord { box_id: r.id }),
{
    let undo = create_undo(r, temp_dir);
    let before = cleanup::resource_steps(r.id, r.volume_names, cleanup::network_of(r)) + cleanup::volume_steps(
        r.anonymous_volumes,
    );
    assert(undo[before.len() as int] == StepView::RemoveDirIfPresent { path: r.box_dir });
    assert(undo[undo.len() - 1] == StepView::RemoveRecord { box_id: r.id });
}

/// What is recorded of a box is what it was created with: each list in its order,
/// each flag and each limit, its name, its image and its policy.
pub proof fn lemma_record_holds_what_is_given(
    args: CreateArgs,
    basics: CreateBasics,
    shm_size: Option<u64>,
    mounts: Vec<String>,
    volume_names: Vec<String>,
    facts: CreateFacts,
    r: BoxRecord,
)
    requires
        call_ensures(create_record, (&args, &basics, shm_size, &mounts, &volume_names, &facts), r),
    ensures
        text::same_texts(r.port_map@, basics.port_map@),
        text::same_texts(r.volumes@, mounts@),
        text::same_texts(r.volume_names@, volume_names@),
        text::same_texts(r.cmd@, args.cmd@),
        text::same_texts(r.tmpfs@, args.common.tmpfs@),
        text::same_texts(r.add_host@, args.common.add_host@),
        text::same_texts(r.cap_add@, args.common.cap_add@),
        text::same_texts(r.cap_drop@, args.common.cap_drop@),
        text::same_texts(r.security_opt@, args.common.security_opt@),
        text::same_texts(r.devices@, args.common.device@),
        strmap::texts(r.env@) == strmap::texts(basics.env@),
        strmap::texts(r.labels@) == strmap::texts(basics.labels@),
        r.id@ == facts.box_id@ && r.short_id@ == facts.short_id@,
        args.common.name is Some ==> r.name@ == args.common.name->0@,
        args.common.name is None ==> r.name@ == facts.generated_name@,
        r.image@ == args.common.image@,
        r.cpus == args.common.cpus,
        r.memory_mb == basics.memory_mb,
        r.resource_limits@ == basics.resource_limits@,
        r.restart_policy@ == basics.restart_policy@,
        r.max_restart_count == basics.max_restart_count,
        r.created_at == facts.now,
{
    text::lemma_same_texts(r.port_map@, basics.port_map@);
    text::lemma_same_texts(r.volumes@, mounts@);
    text::lemma_same_texts(r.volume_names@, volume_names@);
    text::lemma_same_texts(r.cmd@, args.cmd@);
    text::lemma_same_texts(r.tmpfs@, args.common.tmpfs@);
    text::lemma_same_texts(r.add_host@, args.common.add_host@);
    text::lemma_same_texts(r.cap_add@, args.common.cap_add@);
    text::lemma_same_texts(r.cap_drop@, args.common.cap_drop@);
    text::lemma_same_texts(r.security_opt@, args.common.security_opt@);
    text::lemma_same_texts(r.devices@, args.common.device@);
    assert(r@.port_map == text::strs(basics.port_map@));
}

/// A box that is created has not been started: it has no process, and `start` may
/// start it. Its flags are those that were given, and it stays when it ends.
pub proof fn lemma_created_is_at_rest(
    args: CreateArgs,
    basics: CreateBasics,
    shm_size: Option<u64>,
    mounts: Vec<String>,
    volume_names: Vec<String>,
    facts: CreateFacts,
    r: BoxRecord,
    start: Result<(), String>,
)
    requires
        call_ensures(create_record, (&args, &basics, shm_size, &mounts, &volume_names, &facts), r),
        call_ensures(crate::commands::start::check_start, (&r,), start),
    ensures
        start is Ok,
        !state::active(r.status@),
        r.pid is None && r.started_at is None && r.exit_code is None,
        !r.stopped_by_user && r.restart_count == 0 && !r.auto_remove,
        r.health_status@ == "none"@,
        r.privileged == args.common.privileged,
        r.read_only == args.common.read_only,
        r.init == args.common.init,
        r.oom_kill_disable == args.common.oom_kill_disable,
        r.oom_score_adj == args.common.oom_score_adj,
        r.stop_timeout == args.common.stop_timeout,
        r.shm_size == shm_size,
        r.healthcheck_disabled == args.common.no_healthcheck,
        text::opt_str(r.user) == text::opt_str(args.common.user),
        text::opt_str(r.workdir) == text::opt_str(args.common.workdir),
        text::opt_str(r.hostname) == text::opt_str(args.common.hostname),
        text::opt_str(r.network_name) == text::opt_str(args.common.network),
        text::opt_str(r.platform) == text::opt_str(args.common.platform),
        text::opt_str(r.gpus) == text::opt_str(args.common.gpus),
        args.common.network is None <==> r.network_mode is Tsi,
        cleanup::network_of(r@) == text::opt_str(args.common.network),
        args.common.no_healthcheck ==> r.health_check is None,
        args.common.stop_signal is Some ==> text::opt_str(r.stop_signal) == Some(
            args.common.stop_signal->0@,
        ),
{
    crate::commands::start::lemma_start_needs_rest(r, start);
    assert(r@.network_mode == r.network_mode@);
    assert(r@.health_check == state::opt_health(r.health_check));
}

/// What is read for a box is what is recorded of it: each published port is kept,
/// in its place, the memory and the variables are those that were read.
pub proof fn lemma_created_as_read(
    args: CreateArgs,
    inputs: CreateInputs,
    b: CreateBasics,
)
    requires
        call_ensures(
            try_begin_create,
            (&args, &inputs),
            Some(Ok::<CreateBasics, String>(b)),
        ),
    ensures
        inputs.options is Ok,
        inputs.memory is Ok && b.memory_mb == inputs.memory->Ok_0,
        inputs.env is Ok && strmap::texts(b.env@) == strmap::texts(inputs.env->Ok_0@),
        args.common.network is Some ==> inputs.network is Ok,
        b.port_map@.len() == args.common.publish@.len(),
        forall|i: int|
            0 <= i < args.common.publish@.len() ==> (#[trigger] args.common.publish@[i])@
                == b.port_map@[i]@ || args.common.publish@[i]@ == b.port_map@[i]@ + "/tcp"@,
        b.resource_limits.pids_limit == args.common.pids_limit,
        b.resource_limits.cpu_shares == args.common.cpu_shares,
        b.resource_limits.cpu_quota == args.common.cpu_quota,
        b.resource_limits.cpu_period == args.common.cpu_period,
        text::same_texts(b.resource_limits.ulimits@, args.common.ulimits@),
{
    text::lemma_same_texts(b.resource_limits.ulimits@, args.common.ulimits@);
    assert(b.resource_limits@ == common::limits_of(args.common)->Ok_0);
    assert forall|i: int| 0 <= i < args.common.publish@.len() implies (
    #[trigger] args.common.publish@[i])@ == b.port_map@[i]@ || args.common.publish@[i]@
        == b.port_map@[i]@ + "/tcp"@ by {
        let asked = args.common.publish@[i]@;
        let mapped = b.port_map@[i]@;
        assert(common::port_of(asked) == Some(mapped));
        crate::split::lemma_cut(asked, '/');
        reveal_strlit("tcp");
        reveal_strlit("/tcp");
        if asked.contains('/') {
            assert(mapped.push('/') + "tcp"@ =~= mapped + "/tcp"@);
        }
    }
}

/// A box is recorded before its volumes are attached, and is done then; a failure in
/// between removes what there is of it, its record last.
pub proof fn lemma_create_order(
    stage: CreateStage,
    record: BoxRecord,
    temp_dir: &str,
    ok: Result<CreateStage, Vec<CleanupStep>>,
    failed: Result<CreateStage, Vec<CleanupStep>>,
)
    requires
        stage != CreateStage::Done,
        call_ensures(create_step, (stage, true, &record, temp_dir), ok),
        call_ensures(create_step, (stage, false, &record, temp_dir), failed),
    ensures
        ok is Ok && failed is Err,
        stage is AddRecord ==> ok->Ok_0 is AttachVolumes,
        stage is AttachVolumes ==> ok->Ok_0 is Done,
        cleanup::steps(failed->Err_0@).last() == (StepView::RemoveRecord { box_id: record.id@ }),
        cleanup::steps(failed->Err_0@).contains(
            StepView::RemoveDirIfPresent { path: record.box_dir@ },
        ),
{
    lemma_failed_create_leaves_nothing(record@, temp_dir@);
}

/// The labels of a box are read as variables are, its shared memory as a size, and what
/// belongs to it lies below its own directory.
pub proof fn lemma_labels_and_places(
    args: CreateArgs,
    inputs: CreateInputs,
    b: CreateBasics,
    labels: StrMap<String>,
    s: &str,
    size: Option<Result<u64, String>>,
    shm: Option<u64>,
    mounts: Vec<String>,
    volume_names: Vec<String>,
    facts: CreateFacts,
    home: &str,
    id: &str,
    dir: String,
    r: BoxRecord,
)
    requires
        call_ensures(try_begin_create, (&args, &inputs), Some(Ok::<CreateBasics, String>(b))),
        call_ensures(
            common::parse_env_vars,
            (&args.common.labels,),
            Ok::<StrMap<String>, String>(labels),
        ),
        args.common.shm_size is Some ==> args.common.shm_size->0@ == s@,
        call_ensures(common::checked_memory_bytes, (s,), size),
        call_ensures(try_create_shm, (&args,), Some(Ok::<Option<u64>, String>(shm))),
        home@ == facts.home@,
        id@ == facts.box_id@,
        call_ensures(compose_service::box_dir, (home, id), dir),
        call_ensures(create_record, (&args, &b, shm, &mounts, &volume_names, &facts), r),
    ensures
        strmap::texts(r.labels@) == strmap::texts(labels@),
        args.common.shm_size is Some ==> size is Some && size->0 is Ok && r.shm_size == Some(
            size->0->Ok_0,
        ),
        args.common.shm_size is None ==> r.shm_size is None,
        r.box_dir@ == dir@,
        text::has_suffix(r.console_log@, "console.log"@),
        text::has_suffix(r.exec_socket_path@, "exec.sock"@),
{
    reveal_strlit("console.log");
    reveal_strlit("exec.sock");
    let a = r.console_log@;
    assert(a.skip(a.len() - 11) =~= "console.log"@);
    let b = r.exec_socket_path@;
    assert(b.skip(b.len() - 9) =~= "exec.sock"@);
}

} // verus!
