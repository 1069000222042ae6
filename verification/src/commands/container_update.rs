//! `container-update`: change the limits of a box.
//!
//! Limits of control groups are changed while the box runs. The number of CPUs
//! and the memory of a running box cannot be changed.

use vstd::prelude::*;

use crate::commands::common;
use crate::commands::common::check_opt_size;
use crate::number;
use crate::number::{i32_text, i64_text, u32_text, u64_text};
use crate::policy;
use crate::policy::parse_restart_policy;
use crate::socket_paths;
use crate::socket_paths::exec_socket;
use crate::split;
use crate::split::trim;
use crate::state::{BoxRecord, RecordView, ResourceLimits, ResourceLimitsView};
use crate::text;
use crate::text::{cat2, cat3, cat4, str_eq};

verus! {

broadcast use crate::text::lemma_strs_push;

/// Arguments of `container-update`.
#[derive(Debug)]
pub struct ContainerUpdateArgs {
    /// Box name or ID
    pub name: String,
    /// Number of CPUs (requires restart — cannot hot-resize)
    pub cpus: Option<u32>,
    /// Memory limit (requires restart — cannot hot-resize)
    pub memory: Option<String>,
    /// Memory reservation/soft limit (e.g., "256m", "1g")
    pub memory_reservation: Option<String>,
    /// Memory+swap limit (e.g., "1g", "-1" for unlimited)
    pub memory_swap: Option<String>,
    /// Limit PIDs inside the box
    pub pids_limit: Option<u64>,
    /// CPU shares (relative weight, 2-262144)
    pub cpu_shares: Option<u64>,
    /// CPU quota in microseconds per cpu-period
    pub cpu_quota: Option<i64>,
    /// CPU period in microseconds
    pub cpu_period: Option<u64>,
    /// Pin to specific CPUs (e.g., "0,1,3" or "0-3")
    pub cpuset_cpus: Option<String>,
    /// Restart policy: no, always, on-failure, unless-stopped
    pub restart: Option<String>,
}

/// What is to be changed in the running box.
#[derive(Debug)]
pub struct ResourceUpdate {
    /// Number of virtual CPUs.
    pub vcpus: Option<u32>,
    /// Memory in megabytes.
    pub memory_mb: Option<u32>,
    /// Limits of control groups.
    pub limits: ResourceLimits,
}

/// Whether the update asks for what a running box cannot change.
pub open spec fn tier1(u: ResourceUpdate) -> bool {
    u.vcpus is Some || u.memory_mb is Some
}

/// Whether the update asks for what a running box can change.
pub open spec fn tier2(l: ResourceLimitsView) -> bool {
    l.memory_reservation is Some || l.memory_swap is Some || l.pids_limit is Some || l.cpu_shares
        is Some || l.cpu_quota is Some || l.cpu_period is Some || l.cpuset_cpus is Some
}

impl ResourceUpdate {
    /// Whether the update asks for what a running box cannot change.
    pub fn has_tier1_changes(&self) -> (r: bool)
        ensures
            r == tier1(*self),
    {
        self.vcpus.is_some() || self.memory_mb.is_some()
    }

    /// Whether the update asks for what a running box can change.
    pub fn has_tier2_changes(&self) -> (r: bool)
        ensures
            r == tier2(self.limits@),
    {
        let l: &ResourceLimits = &self.limits;
        l.memory_reservation.is_some() || l.memory_swap.is_some() || l.pids_limit.is_some()
            || l.cpu_shares.is_some() || l.cpu_quota.is_some() || l.cpu_period.is_some()
            || l.cpuset_cpus.is_some()
    }
}

/// What an update comes to.
#[derive(Debug)]
pub struct UpdateOutcome {
    /// The record with the update in it.
    pub record: BoxRecord,
    /// What is to be changed in the running box.
    pub update: ResourceUpdate,
    /// What was changed, one text each.
    pub changes: Vec<String>,
}

/// Whether the sizes among the options fit into 64 bits.
pub open spec fn update_fits(args: ContainerUpdateArgs) -> bool {
    &&& common::opt_size_fits(args.memory_reservation)
    &&& args.memory_swap is Some && args.memory_swap->0@ != "-1"@ ==> common::opt_size_fits(
        args.memory_swap,
    )
}

/// `new`, where it is there, else `old`.
pub open spec fn or_old<A>(new: Option<A>, old: Option<A>) -> Option<A> {
    if new is Some {
        new
    } else {
        old
    }
}

/// A text for a change, where there is one.
pub open spec fn change(key: Seq<char>, value: Option<Seq<char>>) -> Seq<Seq<char>> {
    match value {
        Some(v) => seq![key + v],
        None => seq![],
    }
}

/// The decimal text of an optional number.
pub open spec fn opt_decimal(n: Option<u64>) -> Option<Seq<char>> {
    match n {
        Some(n) => Some(number::decimal(n as nat)),
        None => None,
    }
}

/// What is changed, one text each.
pub open spec fn changes_of(args: ContainerUpdateArgs) -> Seq<Seq<char>> {
    change(
        "cpus="@,
        match args.cpus {
            Some(n) => Some(number::decimal(n as nat)),
            None => None,
        },
    ) + change("memory="@, text::opt_str(args.memory)) + change(
        "memory-reservation="@,
        text::opt_str(args.memory_reservation),
    ) + change("memory-swap="@, text::opt_str(args.memory_swap)) + change(
        "pids-limit="@,
        opt_decimal(args.pids_limit),
    ) + change("cpu-shares="@, opt_decimal(args.cpu_shares)) + change(
        "cpu-quota="@,
        match args.cpu_quota {
            Some(n) => Some(number::decimal_int(n as int)),
            None => None,
        },
    ) + change("cpu-period="@, opt_decimal(args.cpu_period)) + change(
        "cpuset-cpus="@,
        text::opt_str(args.cpuset_cpus),
    ) + change("restart="@, text::opt_str(args.restart))
}

/// The limits that an update asks for. The sizes are given.
pub open spec fn asked_limits(
    args: ContainerUpdateArgs,
    reservation: Option<u64>,
    swap: Option<i64>,
) -> ResourceLimitsView {
    ResourceLimitsView {
        pids_limit: args.pids_limit,
        cpuset_cpus: text::opt_str(args.cpuset_cpus),
        ulimits: Seq::empty(),
        cpu_shares: args.cpu_shares,
        cpu_quota: args.cpu_quota,
        cpu_period: args.cpu_period,
        memory_reservation: reservation,
        memory_swap: swap,
    }
}

/// Limits with what an update asks for in them.
pub open spec fn updated_limits(old: ResourceLimitsView, new: ResourceLimitsView) -> ResourceLimitsView {
    ResourceLimitsView {
        pids_limit: or_old(new.pids_limit, old.pids_limit),
        cpuset_cpus: or_old(new.cpuset_cpus, old.cpuset_cpus),
        ulimits: old.ulimits,
        cpu_shares: or_old(new.cpu_shares, old.cpu_shares),
        cpu_quota: or_old(new.cpu_quota, old.cpu_quota),
        cpu_period: or_old(new.cpu_period, old.cpu_period),
        memory_reservation: or_old(new.memory_reservation, old.memory_reservation),
        memory_swap: or_old(new.memory_swap, old.memory_swap),
    }
}

/// A record with an update in it.
pub open spec fn updated_record(
    r: RecordView,
    update: ResourceUpdate,
    policy: Option<(Seq<char>, u32)>,
) -> RecordView {
    RecordView {
        cpus: match update.vcpus {
            Some(n) => n,
            None => r.cpus,
        },
        memory_mb: match update.memory_mb {
            Some(n) => n,
            None => r.memory_mb,
        },
        resource_limits: updated_limits(r.resource_limits, update.limits@),
        restart_policy: match policy {
            Some(p) => p.0,
            None => r.restart_policy,
        },
        max_restart_count: match policy {
            Some(p) => p.1,
            None => r.max_restart_count,
        },
        ..r
    }
}

/// The restart policy that the options ask for, where they ask for one.
pub open spec fn asked_policy(args: ContainerUpdateArgs) -> Option<(Seq<char>, u32)> {
    match args.restart {
        Some(r) => policy::policy_of(r@),
        None => None,
    }
}

/// Whether an update comes to `r`: the memory is read, then the reservation,
/// the swap and the restart policy; the first that fails decides. `memory` is
/// what the text of the memory was read as.
pub open spec fn is_update(
    record: RecordView,
    args: ContainerUpdateArgs,
    memory: Result<u32, String>,
    r: Result<UpdateOutcome, String>,
) -> bool {
    let reservation = common::opt_size(
        text::opt_str(args.memory_reservation),
        "--memory-reservation"@,
    );
    let swap = common::swap_limit(text::opt_str(args.memory_swap));
    match r {
        Ok(o) => {
            &&& args.memory is Some ==> memory is Ok
            &&& o.update.vcpus == args.cpus
            &&& o.update.memory_mb == if args.memory is Some {
                Some(memory->Ok_0)
            } else {
                None
            }
            &&& reservation == Ok::<Option<nat>, Seq<char>>(
                match o.update.limits.memory_reservation {
                    Some(n) => Some(n as nat),
                    None => None,
                },
            )
            &&& swap == Ok::<Option<int>, Seq<char>>(
                match o.update.limits.memory_swap {
                    Some(n) => Some(n as int),
                    None => None,
                },
            )
            &&& o.update.limits@ == asked_limits(
                args,
                o.update.limits.memory_reservation,
                o.update.limits.memory_swap,
            )
            &&& args.restart is Some ==> asked_policy(args) is Some
            &&& o.record@ == updated_record(record, o.update, asked_policy(args))
            &&& text::strs(o.changes@) == changes_of(args)
        },
        Err(e) => if args.memory is Some && memory is Err {
            e@ == "Invalid --memory: "@ + memory->Err_0@
        } else if reservation is Err {
            e@ == reservation->Err_0
        } else if swap is Err {
            e@ == swap->Err_0
        } else {
            args.restart is Some && asked_policy(args) is None && e@ == policy::invalid_policy(
                args.restart->0@,
            )
        },
    }
}

/// Adds a text for a change, where there is one.
fn push_change(changes: &mut Vec<String>, key: &str, value: Option<String>)
    ensures
        text::strs(final(changes)@) == text::strs(old(changes)@) + change(
            key@,
            text::opt_str(value),
        ),
{
    let ghost was = text::strs(changes@);
    match value {
        Some(v) => {
            changes.push(cat2(key, v.as_str()));
            assert(text::strs(changes@) =~= was + seq![key@ + v@]);
        },
        None => {
            assert(was =~= was + seq![]);
        },
    }
}

/// The decimal text of an optional number.
fn opt_u64_text(n: Option<u64>) -> (r: Option<String>)
    ensures
        text::opt_str(r) == opt_decimal(n),
{
    match n {
        Some(n) => Some(u64_text(n)),
        None => None,
    }
}

/// What is changed, one text each.
fn list_changes(args: &ContainerUpdateArgs) -> (r: Vec<String>)
    ensures
        text::strs(r@) == changes_of(*args),
{
    let mut changes: Vec<String> = Vec::new();
    assert(text::strs(changes@) =~= seq![]);
    let cpus: Option<String> = match args.cpus {
        Some(n) => Some(u32_text(n)),
        None => None,
    };
    let quota: Option<String> = match args.cpu_quota {
        Some(n) => Some(i64_text(n)),
        None => None,
    };
    push_change(&mut changes, "cpus=", cpus);
    push_change(&mut changes, "memory=", args.memory.clone());
    push_change(&mut changes, "memory-reservation=", args.memory_reservation.clone());
    push_change(&mut changes, "memory-swap=", args.memory_swap.clone());
    push_change(&mut changes, "pids-limit=", opt_u64_text(args.pids_limit));
    push_change(&mut changes, "cpu-shares=", opt_u64_text(args.cpu_shares));
    push_change(&mut changes, "cpu-quota=", quota);
    push_change(&mut changes, "cpu-period=", opt_u64_text(args.cpu_period));
    push_change(&mut changes, "cpuset-cpus=", args.cpuset_cpus.clone());
    push_change(&mut changes, "restart=", args.restart.clone());
    assert(text::strs(changes@) =~= changes_of(*args));
    changes
}

/// The limit of memory and swap that a text stands for.
pub fn parse_swap(swap: &Option<String>) -> (r: Result<Option<i64>, String>)
    requires
        swap is Some && swap->0@ != "-1"@ ==> common::opt_size_fits(*swap),
    ensures
        match r {
            Ok(n) => common::swap_limit(text::opt_str(*swap)) == Ok::<Option<int>, Seq<char>>(
                match n {
                    Some(n) => Some(n as int),
                    None => None,
                },
            ),
            Err(e) => common::swap_limit(text::opt_str(*swap)) == Err::<Option<int>, Seq<char>>(e@),
        },
{
    match swap {
        None => Ok(None),
        Some(s) => if str_eq(s.as_str(), "-1") {
            Ok(Some(-1))
        } else {
            match common::parse_opt_size(swap, "--memory-swap") {
                Ok(Some(n)) => Ok(Some(common::signed(n))),
                Ok(None) => Ok(None),
                Err(e) => Err(e),
            }
        },
    }
}

/// Puts what an update asks for into limits.
fn apply_limits(limits: &mut ResourceLimits, new: &ResourceLimits)
    ensures
        final(limits)@ == updated_limits(old(limits)@, new@),
{
    if new.pids_limit.is_some() {
        limits.pids_limit = new.pids_limit;
    }
    if new.cpuset_cpus.is_some() {
        limits.cpuset_cpus = new.cpuset_cpus.clone();
    }
    if new.cpu_shares.is_some() {
        limits.cpu_shares = new.cpu_shares;
    }
    if new.cpu_quota.is_some() {
        limits.cpu_quota = new.cpu_quota;
    }
    if new.cpu_period.is_some() {
        limits.cpu_period = new.cpu_period;
    }
    if new.memory_reservation.is_some() {
        limits.memory_reservation = new.memory_reservation;
    }
    if new.memory_swap.is_some() {
        limits.memory_swap = new.memory_swap;
    }
}

/// What an update of a box comes to. `memory` is what the text of the memory
/// was read as, where one is given.
pub fn apply_update(record: &BoxRecord, args: &ContainerUpdateArgs, memory: &Result<u32, String>) -> (r:
    Result<UpdateOutcome, String>)
    requires
        update_fits(*args),
    ensures
        is_update(record@, *args, *memory, r),
{
    let memory_mb: Option<u32> = if args.memory.is_some() {
        match memory {
            Ok(mb) => Some(*mb),
            Err(e) => {
                return Err(cat2("Invalid --memory: ", e.as_str()));
            },
        }
    } else {
        None
    };
    let memory_reservation: Option<u64> = match common::parse_opt_size(
        &args.memory_reservation,
        "--memory-reservation",
    ) {
        Ok(n) => n,
        Err(e) => {
            return Err(e);
        },
    };
    let memory_swap: Option<i64> = match parse_swap(&args.memory_swap) {
        Ok(n) => n,
        Err(e) => {
            return Err(e);
        },
    };
    let policy: Option<(String, u32)> = match &args.restart {
        Some(restart) => match parse_restart_policy(restart.as_str()) {
            Ok(p) => Some(p),
            Err(e) => {
                return Err(e);
            },
        },
        None => None,
    };
    let ulimits: Vec<String> = Vec::new();
    assert(text::strs(ulimits@) =~= Seq::empty());
    let update = ResourceUpdate {
        vcpus: args.cpus,
        memory_mb,
        limits: ResourceLimits {
            pids_limit: args.pids_limit,
            cpuset_cpus: args.cpuset_cpus.clone(),
            ulimits,
            cpu_shares: args.cpu_shares,
            cpu_quota: args.cpu_quota,
            cpu_period: args.cpu_period,
            memory_reservation,
            memory_swap,
        },
    };
    let mut record: BoxRecord = record.clone();
    match update.vcpus {
        Some(n) => {
            record.cpus = n;
        },
        None => {},
    }
    match update.memory_mb {
        Some(n) => {
            record.memory_mb = n;
        },
        None => {},
    }
    apply_limits(&mut record.resource_limits, &update.limits);
    match policy {
        Some((name, max)) => {
            record.restart_policy = name;
            record.max_restart_count = max;
        },
        None => {},
    }
    Ok(UpdateOutcome { record, update, changes: list_changes(args) })
}

/// What an update of a box comes to; `None` where a size does not fit into 64
/// bits.
pub fn try_apply_update(
    record: &BoxRecord,
    args: &ContainerUpdateArgs,
    memory: &Result<u32, String>,
) -> (r: Option<Result<UpdateOutcome, String>>)
    ensures
        match r {
            Some(o) => update_fits(*args) && is_update(record@, *args, *memory, o),
            None => !update_fits(*args),
        },
{
    if !check_opt_size(&args.memory_reservation) {
        return None;
    }
    let swap_fits: bool = match &args.memory_swap {
        Some(s) => str_eq(s.as_str(), "-1") || check_opt_size(&args.memory_swap),
        None => true,
    };
    if swap_fits {
        Some(apply_update(record, args, memory))
    } else {
        None
    }
}

/// An update without options changes nothing.
pub proof fn lemma_empty_update(
    record: RecordView,
    args: ContainerUpdateArgs,
    memory: Result<u32, String>,
    o: UpdateOutcome,
)
    requires
        is_update(record, args, memory, Ok(o)),
        changes_of(args).len() == 0,
    ensures
        o.record@ == record,
        !tier1(o.update),
        !tier2(o.update.limits@),
{
    assert(args.cpus is None && args.memory is None && args.memory_reservation is None
        && args.memory_swap is None && args.pids_limit is None && args.cpu_shares is None
        && args.cpu_quota is None && args.cpu_period is None && args.cpuset_cpus is None
        && args.restart is None);
    assert(o.update.limits@.memory_reservation is None);
    assert(o.update.limits@.memory_swap is None);
    assert(o.record@ =~= record);
}

/// What is said of an update without options, which stores nothing; nothing of
/// any other.
pub fn no_updates(args: &ContainerUpdateArgs) -> (r: Option<&'static str>)
    ensures
        match r {
            Some(line) => changes_of(*args).len() == 0 && line@ == "No updates specified."@,
            None => changes_of(*args).len() > 0,
        },
{
    let changes: Vec<String> = list_changes(args);
    assert(changes@.len() == text::strs(changes@).len());
    if changes.len() == 0 {
        Some("No updates specified.")
    } else {
        None
    }
}

/// How an update reaches the running box.
#[derive(Debug)]
pub enum LivePlan {
    /// Not at all; it is stored.
    StoreOnly,
    /// The commands are run in the box, and it is stored.
    Apply {
        /// Socket for running commands.
        socket: String,
    },
    /// The box cannot be reached; it is stored.
    NoSocket {
        /// What the user is told.
        warning: String,
    },
}

/// How an update reaches the box with that record. `rejection` is what the
/// runtime says of an update that a running box cannot take, `socket_exists`
/// tells whether there is a socket for running commands.
pub fn live_plan(
    record: &BoxRecord,
    update: &ResourceUpdate,
    rejection: &Result<(), String>,
    socket_exists: bool,
) -> (r: Result<LivePlan, String>)
    ensures
        ({
            let running = record@.status == "running"@;
            match r {
                Err(e) => running && tier1(*update) && rejection is Err && e@
                    == rejection->Err_0@,
                Ok(plan) => {
                    &&& !(running && tier1(*update) && rejection is Err)
                    &&& match plan {
                        LivePlan::StoreOnly => !running || !tier2(update.limits@),
                        LivePlan::Apply { socket } => running && tier2(update.limits@)
                            && socket_exists && socket@ == socket_paths::exec_socket_of(record@),
                        LivePlan::NoSocket { warning } => running && tier2(update.limits@)
                            && !socket_exists && warning@
                            == "Warning: exec socket not found at "@
                            + socket_paths::exec_socket_of(record@)
                            + ", changes saved but not applied live"@,
                    }
                },
            }
        }),
{
    if !str_eq(record.status.as_str(), "running") {
        return Ok(LivePlan::StoreOnly);
    }
    if update.has_tier1_changes() {
        match rejection {
            Err(e) => {
                return Err(e.clone());
            },
            Ok(_) => {},
        }
    }
    if !update.has_tier2_changes() {
        return Ok(LivePlan::StoreOnly);
    }
    let socket: String = exec_socket(record);
    if socket_exists {
        Ok(LivePlan::Apply { socket })
    } else {
        Ok(
            LivePlan::NoSocket {
                warning: cat3(
                    "Warning: exec socket not found at ",
                    socket.as_str(),
                    ", changes saved but not applied live",
                ),
            },
        )
    }
}

/// What the user is told of a command that failed in the box; nothing where it
/// succeeded.
pub fn command_warning(exit_code: i32, stderr: &str) -> (r: Option<String>)
    ensures
        match r {
            None => exit_code == 0,
            Some(w) => exit_code != 0 && w@ == "Warning: cgroup update failed (exit "@
                + number::decimal_int(exit_code as int) + "): "@ + split::trimmed(stderr@),
        },
{
    if exit_code == 0 {
        None
    } else {
        let code: String = i32_text(exit_code);
        Some(cat4("Warning: cgroup update failed (exit ", code.as_str(), "): ", trim(stderr)))
    }
}

/// What is asked for changes, and everything else of the box stays: each limit, the
/// CPUs, the memory and the policy are the new ones where they are given and the old
/// ones where they are not.
pub proof fn lemma_update_changes_what_is_asked(
    record: BoxRecord,
    args: ContainerUpdateArgs,
    memory: Result<u32, String>,
    o: UpdateOutcome,
)
    requires
        call_ensures(
            try_apply_update,
            (&record, &args, &memory),
            Some(Ok::<UpdateOutcome, String>(o)),
        ),
    ensures
        args.cpus is Some ==> o.record.cpus == args.cpus->0,
        args.cpus is None ==> o.record.cpus == record.cpus,
        args.memory is Some ==> memory is Ok && o.record.memory_mb == memory->Ok_0,
        args.memory is None ==> o.record.memory_mb == record.memory_mb,
        args.pids_limit is Some ==> o.record.resource_limits.pids_limit == args.pids_limit,
        args.pids_limit is None ==> o.record.resource_limits.pids_limit
            == record.resource_limits.pids_limit,
        args.cpu_shares is Some ==> o.record.resource_limits.cpu_shares == args.cpu_shares,
        args.cpu_shares is None ==> o.record.resource_limits.cpu_shares
            == record.resource_limits.cpu_shares,
        args.cpu_quota is Some ==> o.record.resource_limits.cpu_quota == args.cpu_quota,
        args.cpu_quota is None ==> o.record.resource_limits.cpu_quota
            == record.resource_limits.cpu_quota,
        args.cpu_period is Some ==> o.record.resource_limits.cpu_period == args.cpu_period,
        args.cpu_period is None ==> o.record.resource_limits.cpu_period
            == record.resource_limits.cpu_period,
        args.cpuset_cpus is Some ==> text::opt_str(o.record.resource_limits.cpuset_cpus) == Some(
            args.cpuset_cpus->0@,
        ),
        args.cpuset_cpus is None ==> text::opt_str(o.record.resource_limits.cpuset_cpus)
            == text::opt_str(record.resource_limits.cpuset_cpus),
        args.memory_reservation is None ==> o.record.resource_limits.memory_reservation
            == record.resource_limits.memory_reservation,
        args.memory_swap is None ==> o.record.resource_limits.memory_swap
            == record.resource_limits.memory_swap,
        args.memory_swap is Some && args.memory_swap->0@ == "-1"@
            ==> o.record.resource_limits.memory_swap == Some(-1i64),
        text::same_texts(o.record.resource_limits.ulimits@, record.resource_limits.ulimits@),
        args.restart is None ==> o.record.restart_policy@ == record.restart_policy@
            && o.record.max_restart_count == record.max_restart_count,
        o.record.id@ == record.id@ && o.record.name@ == record.name@ && o.record.image@ == record.image@,
        o.record.status@ == record.status@ && o.record.pid == record.pid,
        text::same_texts(o.record.port_map@, record.port_map@),
        text::same_texts(o.record.volume_names@, record.volume_names@),
{
    let l = o.record.resource_limits@;
    assert(o.record@ == updated_record(record@, o.update, asked_policy(args)));
    assert(o.record@.resource_limits == l);
    assert(record@.resource_limits == record.resource_limits@);
    text::lemma_same_texts(o.record.resource_limits.ulimits@, record.resource_limits.ulimits@);
    text::lemma_same_texts(o.record.port_map@, record.port_map@);
    text::lemma_same_texts(o.record.volume_names@, record.volume_names@);
    assert(l.ulimits == text::strs(record.resource_limits.ulimits@));
}

/// The policy that is asked for is the one that its words are read as, with its
/// limit, and words that are none are refused.
pub proof fn lemma_update_policy(
    record: BoxRecord,
    args: ContainerUpdateArgs,
    memory: Result<u32, String>,
    r: Option<Result<UpdateOutcome, String>>,
    words: &str,
    read: Result<(String, u32), String>,
)
    requires
        call_ensures(try_apply_update, (&record, &args, &memory), r),
        args.restart is Some,
        args.restart->0@ == words@,
        call_ensures(policy::parse_restart_policy, (words,), read),
    ensures
        r is Some && r->0 is Ok ==> read is Ok && r->0->Ok_0.record.restart_policy@ == (read->Ok_0).0@
            && r->0->Ok_0.record.max_restart_count == (read->Ok_0).1,
        r is Some && read is Err ==> r->0 is Err,
{
    if r is Some && r->0 is Ok {
        let o = r->0->Ok_0;
        assert(o.record@ == updated_record(record@, o.update, asked_policy(args)));
    }
}

/// One change that is asked for is one line of what is told.
pub proof fn lemma_changes_told(args: ContainerUpdateArgs, r: Option<&'static str>)
    requires
        call_ensures(no_updates, (&args,), r),
    ensures
        r is Some <==> args.cpus is None && args.memory is None && args.memory_reservation is None
            && args.memory_swap is None && args.pids_limit is None && args.cpu_shares is None
            && args.cpu_quota is None && args.cpu_period is None && args.cpuset_cpus is None
            && args.restart is None,
{
}

/// A running box takes no change of its CPUs or its memory where that is rejected.
/// What it can take is applied where it can be reached; what a box at rest is given
/// is only stored.
pub proof fn lemma_live_update(
    record: BoxRecord,
    update: ResourceUpdate,
    rejection: Result<(), String>,
    socket_exists: bool,
    r: Result<LivePlan, String>,
)
    requires
        call_ensures(live_plan, (&record, &update, &rejection, socket_exists), r),
    ensures
        ({
            let running = record.status@ == "running"@;
            let machine = update.vcpus is Some || update.memory_mb is Some;
            let l = update.limits;
            let limits = l.memory_reservation is Some || l.memory_swap is Some || l.pids_limit is Some
                || l.cpu_shares is Some || l.cpu_quota is Some || l.cpu_period is Some || l.cpuset_cpus
                is Some;
            &&& r is Err <==> running && machine && rejection is Err
            &&& r is Ok && !running ==> r->Ok_0 is StoreOnly
            &&& r is Ok && running && !limits ==> r->Ok_0 is StoreOnly
            &&& r is Ok && running && limits && socket_exists ==> r->Ok_0 is Apply
            &&& r is Ok && running && limits && !socket_exists ==> r->Ok_0 is NoSocket
            &&& r matches Ok(LivePlan::Apply { socket }) ==> (record.exec_socket_path@.len() > 0
                ==> socket@ == record.exec_socket_path@)
        }),
{
}

/// Swap is without limit where `-1` is asked for, and not touched where nothing is.
pub proof fn lemma_swap_read(swap: Option<String>, r: Result<Option<i64>, String>)
    requires
        swap is Some && swap->0@ != "-1"@ ==> common::opt_size_fits(swap),
        call_ensures(parse_swap, (&swap,), r),
    ensures
        swap is None ==> r is Ok && r->Ok_0 is None,
        swap is Some && swap->0@ == "-1"@ ==> r is Ok && r->Ok_0 == Some(-1i64),
        r is Ok ==> (r->Ok_0 is Some <==> swap is Some),
{
}

/// A reservation that is asked for is a size and becomes the box's.
pub proof fn lemma_reservation_updated(
    record: BoxRecord,
    args: ContainerUpdateArgs,
    memory: Result<u32, String>,
    s: &str,
    size: Option<Result<u64, String>>,
    o: UpdateOutcome,
)
    requires
        call_ensures(
            try_apply_update,
            (&record, &args, &memory),
            Some(Ok::<UpdateOutcome, String>(o)),
        ),
        args.memory_reservation is Some,
        args.memory_reservation->0@ == s@,
        call_ensures(common::checked_memory_bytes, (s,), size),
    ensures
        size is Some && size->0 is Ok,
        o.record.resource_limits.memory_reservation == Some(size->0->Ok_0),
{
    assert(o.record@ == updated_record(record@, o.update, asked_policy(args)));
    assert(o.record@.resource_limits == o.record.resource_limits@);
}

/// Each change that is asked for is told under its own name, in one line.
pub proof fn lemma_update_told(
    record: BoxRecord,
    args: ContainerUpdateArgs,
    memory: Result<u32, String>,
    o: UpdateOutcome,
)
    requires
        call_ensures(
            try_apply_update,
            (&record, &args, &memory),
            Some(Ok::<UpdateOutcome, String>(o)),
        ),
    ensures
        args.cpus is Some ==> o.changes@[0]@ == "cpus="@ + number::decimal(args.cpus->0 as nat),
        args.cpus is None && args.memory is Some ==> o.changes@[0]@ == "memory="@ + args.memory->0@,
        args.restart is Some ==> o.changes@.last()@ == "restart="@ + args.restart->0@,
        o.changes@.len() == told(args.cpus is Some) + told(args.memory is Some) + told(
            args.memory_reservation is Some,
        ) + told(args.memory_swap is Some) + told(args.pids_limit is Some) + told(
            args.cpu_shares is Some,
        ) + told(args.cpu_quota is Some) + told(args.cpu_period is Some) + told(
            args.cpuset_cpus is Some,
        ) + told(args.restart is Some),
{
    let l = text::strs(o.changes@);
    assert(l == changes_of(args));
    assert(l.len() == o.changes@.len());
    lemma_changes_lines(args);
    if l.len() > 0 {
        assert(l[0] == o.changes@[0]@);
        assert(l[l.len() - 1] == o.changes@.last()@);
    }
}

/// One line where there is something to tell.
pub open spec fn told(asked: bool) -> nat {
    if asked {
        1
    } else {
        0
    }
}

/// The lines of the changes.
#[verifier::rlimit(50)]
proof fn lemma_changes_lines(args: ContainerUpdateArgs)
    ensures
        ({
            let l = changes_of(args);
            &&& args.cpus is Some ==> l[0] == "cpus="@ + number::decimal(args.cpus->0 as nat)
            &&& args.cpus is None && args.memory is Some ==> l[0] == "memory="@ + args.memory->0@
            &&& args.restart is Some ==> l.len() > 0 && l.last() == "restart="@ + args.restart->0@
            &&& l.len() == told(args.cpus is Some) + told(args.memory is Some) + told(
                args.memory_reservation is Some,
            ) + told(args.memory_swap is Some) + told(args.pids_limit is Some) + told(
                args.cpu_shares is Some,
            ) + told(args.cpu_quota is Some) + told(args.cpu_period is Some) + told(
                args.cpuset_cpus is Some,
            ) + told(args.restart is Some)
        }),
{
}

/// A command that failed in the box is warned of, with its code, and no other is.
pub proof fn lemma_failed_command_warned(exit_code: i32, stderr: &str, r: Option<String>)
    requires
        call_ensures(command_warning, (exit_code, stderr), r),
    ensures
        r is Some <==> exit_code != 0,
        r is Some ==> text::has_suffix(r->0@, split::trimmed(stderr@)),
        r is Some ==> text::has_prefix(
            r->0@,
            "Warning: cgroup update failed (exit "@ + number::decimal_int(exit_code as int),
        ),
{
    if r is Some {
        let s = r->0@;
        let e = split::trimmed(stderr@);
        let a = "Warning: cgroup update failed (exit "@ + number::decimal_int(exit_code as int);
        assert(s.skip(s.len() - e.len()) =~= e);
        assert(s.take(a.len() as int) =~= a);
    }
}

} // verus!
