//! `start`: starts boxes that are not running.

use vstd::prelude::*;

use crate::state;
use crate::state::{BoxRecord, RecordView, StateFile, Timestamp};
use crate::text;
use crate::text::{cat2, cat3, str_eq};

verus! {

/// The arguments of `start`.
#[derive(Debug)]
pub struct StartArgs {
    pub boxes: Vec<String>,
}

/// Why a box cannot be started, where it cannot.
pub open spec fn start_error(name: Seq<char>, status: Seq<char>) -> Option<Seq<char>> {
    if status == "created"@ || status == "stopped"@ || status == "dead"@ {
        None
    } else if status == "running"@ {
        Some("Box "@ + name + " is already running"@)
    } else {
        Some("Cannot start box in state: "@ + status)
    }
}

/// Refuses to start a box that runs or is in a state from which none starts.
pub fn check_start(record: &BoxRecord) -> (r: Result<(), String>)
    ensures
        match r {
            Ok(_) => start_error(record@.name, record@.status) is None,
            Err(e) => start_error(record@.name, record@.status) == Some(e@),
        },
{
    if str_eq(&record.status, "created") || str_eq(&record.status, "stopped") || str_eq(&record.status, "dead") {
        return Ok(());
    }
    if str_eq(&record.status, "running") {
        return Err(cat3("Box ", &record.name, " is already running"));
    }
    Err(cat2("Cannot start box in state: ", &record.status))
}

/// The line before a box is started.
pub fn starting_line(name: &str) -> (r: String)
    ensures
        r@ == "Starting box "@ + name@ + "..."@,
{
    cat3("Starting box ", name, "...")
}

/// A record of a box that was started.
pub open spec fn started(r: RecordView, pid: Option<u32>, exec_socket: Option<Seq<char>>, now: Timestamp) -> RecordView {
    RecordView {
        status: "running"@,
        pid,
        exec_socket_path: match exec_socket {
            Some(s) => s,
            None => r.exec_socket_path,
        },
        started_at: Some(now),
        stopped_by_user: false,
        restart_count: 0,
        ..r
    }
}

/// Marks the box as started.
pub fn mark_started(
    state: &mut StateFile,
    box_id: &str,
    pid: Option<u32>,
    exec_socket: Option<String>,
    now: Timestamp,
)
    ensures
        final(state)@.len() == old(state)@.len(),
        forall|i: int|
            0 <= i < old(state)@.len() ==> #[trigger] final(state)@[i] == if state::first_with_id(
                old(state)@,
                box_id@,
                i,
            ) {
                started(old(state)@[i], pid, text::opt_str(exec_socket), now)
            } else {
                old(state)@[i]
            },
{
    if let Some(at) = state.position(box_id) {
        let mut record: BoxRecord = state.get(at).clone();
        record.status = "running".to_string();
        record.pid = pid;
        if let Some(socket) = exec_socket {
            record.exec_socket_path = socket;
        }
        record.started_at = Some(now);
        record.stopped_by_user = false;
        record.restart_count = 0;
        state.set(at, record);
    }
}

/// A box may be started exactly where it was made and not started yet, or has
/// stopped or died. One that runs or is paused may not.
pub proof fn lemma_start_needs_rest(record: BoxRecord, r: Result<(), String>)
    requires
        call_ensures(check_start, (&record,), r),
    ensures
        r is Ok <==> record.status@ == "created"@ || record.status@ == "stopped"@ || record.status@
            == "dead"@,
        state::active(record.status@) ==> r is Err,
{
    reveal_strlit("running");
    reveal_strlit("paused");
    reveal_strlit("created");
    reveal_strlit("stopped");
    reveal_strlit("dead");
    assert("running"@[0] == 'r' && "paused"@[0] == 'p' && "created"@[0] == 'c' && "stopped"@[0] == 's'
        && "dead"@[0] == 'd');
}

/// A started box runs as the process it was given, from now on, with its restarts
/// counted anew and no word of an earlier stop. It keeps its configuration, and no
/// other box changes.
pub proof fn lemma_started_runs(
    state: &mut StateFile,
    box_id: &str,
    pid: Option<u32>,
    exec_socket: Option<String>,
    now: Timestamp,
    i: int,
)
    requires
        call_ensures(mark_started, (state, box_id, pid, exec_socket, now), ()),
        0 <= i < old(state)@.len(),
    ensures
        final(state)@.len() == old(state)@.len(),
        old(state)@[i].id != box_id@ ==> final(state)@[i] == old(state)@[i],
        state::first_with_id(old(state)@, box_id@, i) ==> {
            let before = old(state)@[i];
            let after = final(state)@[i];
            &&& after.status == "running"@ && after.pid == pid
            &&& after.started_at == Some(now)
            &&& !after.stopped_by_user && after.restart_count == 0
            &&& exec_socket is Some ==> after.exec_socket_path == exec_socket->0@
            &&& exec_socket is None ==> after.exec_socket_path == before.exec_socket_path
            &&& after.id == before.id && after.name == before.name && after.image == before.image
            &&& after.port_map == before.port_map && after.volume_names == before.volume_names
            &&& after.created_at == before.created_at && after.restart_policy == before.restart_policy
        },
{
}

} // verus!
