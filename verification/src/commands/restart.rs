//! `restart`: stops boxes where they run, and starts them.

use vstd::prelude::*;

use crate::commands::stop;
use crate::commands::stop::{stop_signal, StopSettings};
use crate::state;
use crate::state::{is_active, BoxRecord, RecordView, StateFile};
use crate::text::{cat2, str_eq};

verus! {

/// The arguments of `restart`.
#[derive(Debug)]
pub struct RestartArgs {
    pub boxes: Vec<String>,
    pub timeout: u64,
}

/// How a box is restarted.
#[derive(Clone, Copy, Debug, PartialEq, Eq, Structural)]
pub enum RestartPlan {
    StopThenStart,
    StartOnly,
}

/// How a box is restarted by its status; nothing where it cannot be.
pub open spec fn plan_of(status: Seq<char>) -> Option<RestartPlan> {
    if state::active(status) {
        Some(RestartPlan::StopThenStart)
    } else if status == "created"@ || status == "stopped"@ || status == "dead"@ {
        Some(RestartPlan::StartOnly)
    } else {
        None
    }
}

/// How a box is restarted.
pub fn restart_plan(record: &BoxRecord) -> (r: Result<RestartPlan, String>)
    ensures
        match plan_of(record@.status) {
            Some(p) => r == Ok::<RestartPlan, String>(p),
            None => r matches Err(e) && e@ == "Cannot restart box in state: "@ + record@.status,
        },
{
    if is_active(record) {
        return Ok(RestartPlan::StopThenStart);
    }
    if str_eq(&record.status, "created") || str_eq(&record.status, "stopped") || str_eq(&record.status, "dead") {
        return Ok(RestartPlan::StartOnly);
    }
    Err(cat2("Cannot restart box in state: ", &record.status))
}

/// How many seconds a box has to end: as its record says, or else the command.
pub fn restart_timeout(record_timeout: Option<u64>, timeout: u64) -> (r: u64)
    ensures
        r == (match record_timeout {
            Some(t) => t,
            None => timeout,
        }),
{
    match record_timeout {
        Some(t) => t,
        None => timeout,
    }
}

/// How a running box is ended before it is started again: by the signal that its
/// record names, and with the time that its record gives it, or else the command.
pub fn restart_settings(record_signal: Option<i32>, record_timeout: Option<u64>, timeout: u64) -> (r: StopSettings)
    ensures
        r.signal == stop::signal_of(record_signal),
        r.timeout == (match record_timeout {
            Some(t) => t,
            None => timeout,
        }),
{
    StopSettings { signal: stop_signal(record_signal), timeout: restart_timeout(record_timeout, timeout) }
}

/// Marks the box as stopped before it is started again.
pub fn mark_stopped(state: &mut StateFile, box_id: &str)
    ensures
        final(state)@.len() == old(state)@.len(),
        forall|i: int|
            0 <= i < old(state)@.len() ==> #[trigger] final(state)@[i] == if state::first_with_id(
                old(state)@,
                box_id@,
                i,
            ) {
                (RecordView { status: "stopped"@, pid: None, ..old(state)@[i] })
            } else {
                old(state)@[i]
            },
{
    if let Some(at) = state.position(box_id) {
        let mut record: BoxRecord = state.get(at).clone();
        record.status = "stopped".to_string();
        record.pid = None;
        state.set(at, record);
    }
}

/// Once the running box is stopped, it is one that is started without being
/// stopped first.
pub proof fn lemma_stopped_starts()
    ensures
        plan_of("stopped"@) == Some(RestartPlan::StartOnly),
{
    reveal_strlit("stopped");
    reveal_strlit("running");
    reveal_strlit("paused");
    assert("stopped"@[0] == 's' && "running"@[0] == 'r' && "paused"@[0] == 'p');
}

/// A box that is active is stopped before it is started again, one at rest is only
/// started, and one may be started alone exactly where it may be started by `start`.
pub proof fn lemma_restart_stops_the_active(
    record: BoxRecord,
    r: Result<RestartPlan, String>,
    start: Result<(), String>,
)
    requires
        call_ensures(restart_plan, (&record,), r),
        call_ensures(crate::commands::start::check_start, (&record,), start),
    ensures
        record.status@ == "running"@ || record.status@ == "paused"@ ==> r == Ok::<RestartPlan, String>(
            RestartPlan::StopThenStart,
        ),
        start is Ok <==> r == Ok::<RestartPlan, String>(RestartPlan::StartOnly),
{
    reveal_strlit("running");
    reveal_strlit("paused");
    reveal_strlit("created");
    reveal_strlit("stopped");
    reveal_strlit("dead");
    assert("running"@[0] == 'r' && "paused"@[0] == 'p' && "created"@[0] == 'c' && "stopped"@[0] == 's'
        && "dead"@[0] == 'd');
}

/// The timeout of the box goes before the one that is asked for, and the usual
/// signal is used only where the box has none.
pub proof fn lemma_restart_settings(
    signal: Option<i32>,
    own: Option<u64>,
    asked: u64,
    r: StopSettings,
    timeout: u64,
)
    requires
        call_ensures(restart_settings, (signal, own, asked), r),
        call_ensures(restart_timeout, (own, asked), timeout),
    ensures
        own is Some ==> r.timeout == own->0,
        own is None ==> r.timeout == asked,
        timeout == r.timeout,
        signal is Some ==> r.signal == signal->0,
        signal is None ==> r.signal == 15,
{
}

/// A box that is stopped for a restart has no process and has stopped, but is not
/// said to be stopped by the user, and no other box changes.
pub proof fn lemma_stopped_for_restart(state: &mut StateFile, box_id: &str, i: int)
    requires
        call_ensures(mark_stopped, (state, box_id), ()),
        0 <= i < old(state)@.len(),
    ensures
        final(state)@.len() == old(state)@.len(),
        old(state)@[i].id != box_id@ ==> final(state)@[i] == old(state)@[i],
        state::first_with_id(old(state)@, box_id@, i) ==> {
            let before = old(state)@[i];
            let after = final(state)@[i];
            &&& after.status == "stopped"@ && after.pid is None
            &&& after.stopped_by_user == before.stopped_by_user
            &&& after.id == before.id && after.name == before.name && after.restart_count
                == before.restart_count && after.exit_code == before.exit_code
        },
{
}

} // verus!
