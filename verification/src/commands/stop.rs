//! `stop`: ends boxes in an orderly way.

use vstd::prelude::*;

use crate::commands::kill::signaled_exit_code;
use crate::state;
use crate::state::{BoxRecord, RecordView, StateFile};
use crate::text::cat2;

verus! {

/// The arguments of `stop`.
#[derive(Debug)]
pub struct StopArgs {
    pub boxes: Vec<String>,
    pub timeout: Option<u64>,
}

/// The signal that ends a box where its record names none.
pub const DEFAULT_STOP_SIGNAL: i32 = 15;

/// How many seconds a box has to end where nothing names a number.
pub const DEFAULT_STOP_TIMEOUT: u64 = 10;

/// The signal that ends a box, by the number of the one that its record names.
pub open spec fn signal_of(number: Option<i32>) -> i32 {
    match number {
        Some(n) => n,
        None => DEFAULT_STOP_SIGNAL,
    }
}

/// The signal that ends a box, by the number of the one that its record names.
pub fn stop_signal(number: Option<i32>) -> (r: i32)
    ensures
        r == signal_of(number),
{
    match number {
        Some(n) => n,
        None => DEFAULT_STOP_SIGNAL,
    }
}

/// How a box is ended.
#[derive(Clone, Copy, Debug, PartialEq, Eq, Structural)]
pub struct StopSettings {
    pub signal: i32,
    pub timeout: u64,
}

/// How a box is ended: by the signal that its record names, and with the time
/// that the command gives it, or else its record.
pub fn stop_settings(timeout: Option<u64>, record_signal: Option<i32>, record_timeout: Option<u64>) -> (r: StopSettings)
    ensures
        r.signal == signal_of(record_signal),
        r.timeout == (match (timeout, record_timeout) {
            (Some(t), _) => t,
            (None, Some(t)) => t,
            (None, None) => DEFAULT_STOP_TIMEOUT,
        }),
{
    let signal: i32 = stop_signal(record_signal);
    let timeout: u64 = match timeout {
        Some(t) => t,
        None => match record_timeout {
            Some(t) => t,
            None => DEFAULT_STOP_TIMEOUT,
        },
    };
    StopSettings { signal, timeout }
}

/// How a process came to its end.
#[derive(Clone, Copy, Debug, PartialEq, Eq, Structural)]
pub enum StopOutcome {
    AlreadyExited,
    GracefulExit,
    ForceKilled,
}

/// What a process exited with, as far as its end tells.
pub open spec fn inferred(outcome: StopOutcome, signal: i32) -> Option<int> {
    match outcome {
        StopOutcome::AlreadyExited => None,
        StopOutcome::GracefulExit => Some(128 + signal),
        StopOutcome::ForceKilled => Some(137),
    }
}

impl StopOutcome {
    /// What a process exited with, as far as its end tells.
    pub fn inferred_exit_code(self, stop_signal: i32) -> (r: Option<i32>)
        requires
            stop_signal <= i32::MAX - 128,
        ensures
            match inferred(self, stop_signal) {
                Some(n) => r matches Some(c) && c == n,
                None => r is None,
            },
    {
        match self {
            StopOutcome::AlreadyExited => None,
            StopOutcome::GracefulExit => Some(signaled_exit_code(stop_signal)),
            StopOutcome::ForceKilled => Some(137),
        }
    }
}

/// What a stopped box exited with: what its end tells, or else what was known
/// before.
pub open spec fn exit_code_of(previous: Option<i32>, outcome: Option<StopOutcome>, signal: i32) -> Option<int> {
    let told = match outcome {
        Some(o) => inferred(o, signal),
        None => None,
    };
    match told {
        Some(n) => Some(n),
        None => match previous {
            Some(c) => Some(c as int),
            None => None,
        },
    }
}

/// What a stopped box exited with.
pub fn stopped_exit_code(previous_exit_code: Option<i32>, outcome: Option<StopOutcome>, stop_signal: i32) -> (r: Option<i32>)
    requires
        stop_signal <= i32::MAX - 128,
    ensures
        match exit_code_of(previous_exit_code, outcome, stop_signal) {
            Some(n) => r matches Some(c) && c == n,
            None => r is None,
        },
{
    let told: Option<i32> = match outcome {
        Some(o) => o.inferred_exit_code(stop_signal),
        None => None,
    };
    match told {
        Some(n) => Some(n),
        None => previous_exit_code,
    }
}

/// A record of a box that was stopped.
pub open spec fn stopped(r: RecordView, exit_code: Option<i32>) -> RecordView {
    RecordView {
        status: "stopped"@,
        pid: None,
        stopped_by_user: true,
        exit_code,
        health_status: "none"@,
        health_retries: 0,
        ..r
    }
}

/// What becomes of the records once a box is stopped: a box that is to be
/// removed when it ends is, and any other keeps its record.
pub fn after_stop(state: &mut StateFile, box_id: &str, auto_remove: bool, exit_code: Option<i32>) -> (removed: bool)
    ensures
        removed == auto_remove,
        removed ==> final(state)@ == old(state)@.filter(|x: RecordView| x.id != box_id@),
        !removed ==> final(state)@.len() == old(state)@.len() && forall|i: int|
            0 <= i < old(state)@.len() ==> #[trigger] final(state)@[i] == if state::first_with_id(
                old(state)@,
                box_id@,
                i,
            ) {
                stopped(old(state)@[i], exit_code)
            } else {
                old(state)@[i]
            },
{
    if auto_remove {
        state.remove(box_id);
        return true;
    }
    if let Some(at) = state.position(box_id) {
        let mut record: BoxRecord = state.get(at).clone();
        record.status = "stopped".to_string();
        record.pid = None;
        record.stopped_by_user = true;
        record.exit_code = exit_code;
        record.health_status = "none".to_string();
        record.health_retries = 0;
        state.set(at, record);
    }
    false
}

/// The line that says which box is stopped.
pub fn stopped_line(name: &str, removed: bool) -> (r: String)
    ensures
        r@ == if removed { name@ + " (auto-removed)"@ } else { name@ },
{
    if removed {
        cat2(name, " (auto-removed)")
    } else {
        name.to_string()
    }
}

/// A stopped box that removes itself is gone, with every other box kept. Any other
/// stays, is stopped by the user, has no process, and tells its exit code; it keeps
/// what it is started with again, and so does every other box.
pub proof fn lemma_after_stop(
    state: &mut StateFile,
    box_id: &str,
    auto_remove: bool,
    exit_code: Option<i32>,
    removed: bool,
    i: int,
)
    requires
        call_ensures(after_stop, (state, box_id, auto_remove, exit_code), removed),
        0 <= i < old(state)@.len(),
    ensures
        removed == auto_remove,
        auto_remove && old(state)@[i].id != box_id@ ==> final(state)@.contains(old(state)@[i]),
        auto_remove ==> forall|k: int|
            0 <= k < final(state)@.len() ==> (#[trigger] final(state)@[k]).id != box_id@,
        !auto_remove ==> final(state)@.len() == old(state)@.len(),
        !auto_remove && old(state)@[i].id != box_id@ ==> final(state)@[i] == old(state)@[i],
        !auto_remove && state::first_with_id(old(state)@, box_id@, i) ==> {
            let after = final(state)@[i];
            let before = old(state)@[i];
            &&& after.status == "stopped"@ && after.pid is None && after.stopped_by_user
            &&& after.exit_code == exit_code
            &&& after.health_status == "none"@ && after.health_retries == 0
            &&& after.id == before.id && after.name == before.name && after.image == before.image
            &&& after.restart_policy == before.restart_policy && after.restart_count
                == before.restart_count
            &&& after.volume_names == before.volume_names && after.network_name == before.network_name
            &&& after.port_map == before.port_map && after.labels == before.labels
        },
{
    if auto_remove {
        let keep = |x: RecordView| x.id != box_id@;
        let kept = old(state)@.filter(keep);
        assert(final(state)@ =~= kept);
        assert forall|k: int| 0 <= k < final(state)@.len() implies (#[trigger] final(state)@[k]).id
            != box_id@ by {
            old(state)@.lemma_filter_pred(keep, k);
        }
        if old(state)@[i].id != box_id@ {
            old(state)@.lemma_filter_contains(keep, i);
        }
    }
}

/// A box that is stopped is not restarted by a policy that respects the user.
pub proof fn lemma_stopped_stays_down(r: RecordView, exit_code: Option<i32>)
    requires
        r.restart_policy == "unless-stopped"@ || r.restart_policy == "no"@,
    ensures
        !crate::policy::restarts(stopped(r, exit_code)),
{
    reveal_strlit("always");
    reveal_strlit("unless-stopped");
    reveal_strlit("no");
    reveal_strlit("on-failure");
    assert("always"@.len() == 6 && "unless-stopped"@.len() == 14 && "no"@.len() == 2
        && "on-failure"@.len() == 10);
}

/// The exit code of a stop is the one that the signal gives where the signal ended
/// the box, that of a kill where it had to be killed, and else the one that was
/// known before; a forced end gives another code than a graceful one by any other
/// signal.
pub proof fn lemma_stop_exit_code(
    previous: Option<i32>,
    signal: i32,
    unknown: Option<i32>,
    exited: Option<i32>,
    graceful: Option<i32>,
    forced: Option<i32>,
)
    requires
        signal <= i32::MAX - 128,
        call_ensures(stopped_exit_code, (previous, None::<StopOutcome>, signal), unknown),
        call_ensures(stopped_exit_code, (previous, Some(StopOutcome::AlreadyExited), signal), exited),
        call_ensures(stopped_exit_code, (previous, Some(StopOutcome::GracefulExit), signal), graceful),
        call_ensures(stopped_exit_code, (previous, Some(StopOutcome::ForceKilled), signal), forced),
    ensures
        unknown == previous,
        exited == previous,
        graceful is Some && graceful->0 - signal == 128,
        forced == Some(137i32),
        graceful == forced <==> signal == 9,
{
}

/// A timeout that is asked for goes before that of the box, and that before the
/// usual one; the signal is that of the box, and else the usual one.
pub proof fn lemma_stop_settings(
    asked: Option<u64>,
    signal: Option<i32>,
    own: Option<u64>,
    r: StopSettings,
)
    requires
        call_ensures(stop_settings, (asked, signal, own), r),
    ensures
        asked is Some ==> r.timeout == asked->0,
        asked is None && own is Some ==> r.timeout == own->0,
        asked is None && own is None ==> r.timeout == 10,
        signal is Some ==> r.signal == signal->0,
        signal is None ==> r.signal == 15,
{
}

/// What a stop came to tells an exit code exactly where the stop ended the box.
pub proof fn lemma_outcome_tells(signal: i32, exited: Option<i32>, graceful: Option<i32>, forced: Option<i32>)
    requires
        signal <= i32::MAX - 128,
        call_ensures(StopOutcome::inferred_exit_code, (StopOutcome::AlreadyExited, signal), exited),
        call_ensures(StopOutcome::inferred_exit_code, (StopOutcome::GracefulExit, signal), graceful),
        call_ensures(StopOutcome::inferred_exit_code, (StopOutcome::ForceKilled, signal), forced),
    ensures
        exited is None,
        graceful is Some && graceful->0 == signal + 128,
        forced == Some(137i32),
{
}

/// The signal is the one that is known, and else that of an ordinary end.
pub proof fn lemma_stop_signal(number: Option<i32>, r: i32)
    requires
        call_ensures(stop_signal, (number,), r),
    ensures
        number is Some ==> r == number->0,
        number is None ==> r == 15,
{
}

} // verus!
