//! Which boxes a command can act on.

use vstd::prelude::*;

use crate::state;
use crate::state::{is_active, BoxRecord};
use crate::text;
use crate::text::{cat5, cat7};

verus! {

/// What is said of a box that is not active.
pub open spec fn not_active(name: Seq<char>, status: Seq<char>, action: Seq<char>) -> Seq<char> {
    "Cannot "@ + action + " box "@ + name + " because it is "@ + status + (". Use `a3s-box start "@ + name
        + "` to start it or `a3s-box ps -a` to inspect state."@)
}

/// Refuses to act on a box that is neither running nor paused.
pub fn require_active(record: &BoxRecord, action: &str) -> (r: Result<(), String>)
    ensures
        match r {
            Ok(_) => state::active(record@.status),
            Err(e) => !state::active(record@.status) && e@ == not_active(record@.name, record@.status, action@),
        },
{
    if is_active(record) {
        return Ok(());
    }
    let tail = text::cat3(
        ". Use `a3s-box start ",
        &record.name,
        "` to start it or `a3s-box ps -a` to inspect state.",
    );
    Err(cat7("Cannot ", action, " box ", &record.name, " because it is ", &record.status, &tail))
}

/// What is said of a box without a recorded process.
pub open spec fn no_pid(name: Seq<char>, action: Seq<char>) -> Seq<char> {
    "Cannot "@ + action + " box "@ + name
        + " because it has no recorded PID. Run `a3s-box ps` to inspect state."@
}

/// The recorded process of a box.
pub fn require_pid(record: &BoxRecord, action: &str) -> (r: Result<u32, String>)
    ensures
        match record@.pid {
            Some(pid) => r == Ok::<u32, String>(pid),
            None => r matches Err(e) && e@ == no_pid(record@.name, action@),
        },
{
    match record.pid {
        Some(pid) => Ok(pid),
        None => Err(
            cat5(
                "Cannot ",
                action,
                " box ",
                &record.name,
                " because it has no recorded PID. Run `a3s-box ps` to inspect state.",
            ),
        ),
    }
}

/// A command that needs an active box is refused exactly where the box neither runs
/// nor is paused, and one that needs a process exactly where none is recorded; the
/// process it is given is the recorded one.
pub proof fn lemma_needs_an_active_box(
    record: BoxRecord,
    action: &str,
    active: Result<(), String>,
    pid: Result<u32, String>,
)
    requires
        call_ensures(require_active, (&record, action), active),
        call_ensures(require_pid, (&record, action), pid),
    ensures
        active is Ok <==> record.status@ == "running"@ || record.status@ == "paused"@,
        pid is Ok <==> record.pid is Some,
        pid is Ok ==> pid->Ok_0 == record.pid->0,
{
}

} // verus!
