//! `pause`: suspends boxes.

use vstd::prelude::*;

use crate::state;
use crate::state::{BoxRecord, RecordView, StateFile};
use crate::text::{cat4, cat7, str_eq};

verus! {

/// The arguments of `pause`.
#[derive(Debug)]
pub struct PauseArgs {
    pub boxes: Vec<String>,
}

/// What is said of a box that cannot be paused.
pub open spec fn cannot_pause(name: Seq<char>, status: Seq<char>) -> Seq<char> {
    "Cannot pause box "@ + name + " because it is "@ + status + ". Use `a3s-box start "@ + name
        + "` to start it or `a3s-box ps -a` to inspect state."@
}

/// Refuses to pause a box that is not running.
pub fn check_pause(record: &BoxRecord) -> (r: Result<(), String>)
    ensures
        match r {
            Ok(_) => record@.status == "running"@,
            Err(e) => record@.status != "running"@ && e@ == cannot_pause(record@.name, record@.status),
        },
{
    if str_eq(&record.status, "running") {
        return Ok(());
    }
    Err(
        cat7(
            "Cannot pause box ",
            &record.name,
            " because it is ",
            &record.status,
            ". Use `a3s-box start ",
            &record.name,
            "` to start it or `a3s-box ps -a` to inspect state.",
        ),
    )
}

/// Pauses a box of the records, where it runs and its process takes the signal.
/// `live` is the process of the box, or why there is none; `sent` is what came of
/// the signal.
pub fn pause_one(state: &mut StateFile, at: usize, live: Result<u32, String>, sent: Result<(), String>) -> (r: Result<
    String,
    String,
>)
    requires
        at < old(state)@.len(),
    ensures
        ({
            let record = old(state)@[at as int];
            if record.status != "running"@ {
                r matches Err(e) && e@ == cannot_pause(record.name, record.status) && final(state)@ == old(state)@
            } else {
                match (live, sent) {
                    (Err(e), _) => r matches Err(x) && x@ == e@ && final(state)@ == old(state)@,
                    (Ok(_), Err(e)) => r matches Err(x) && x@ == "Failed to pause box "@ + record.name
                        + " with SIGSTOP: "@ + e@ && final(state)@ == old(state)@,
                    (Ok(_), Ok(_)) => r matches Ok(line) && line@ == record.name && final(state)@
                        == old(state)@.update(at as int, RecordView { status: "paused"@, ..record }),
                }
            }
        }),
{
    let mut record: BoxRecord = state.get(at).clone();
    check_pause(&record)?;
    if let Err(e) = live {
        return Err(e);
    }
    let name = record.name.clone();
    if let Err(e) = sent {
        return Err(cat4("Failed to pause box ", &name, " with SIGSTOP: ", &e));
    }
    record.status = "paused".to_string();
    state.set(at, record);
    Ok(name)
}

/// Only a running box that is alive and takes the signal is paused. It then is
/// paused and keeps everything else, no other box changes, and a refusal changes
/// nothing.
pub proof fn lemma_pause_one_running(
    state: &mut StateFile,
    at: usize,
    live: Result<u32, String>,
    sent: Result<(), String>,
    r: Result<String, String>,
)
    requires
        at < old(state)@.len(),
        call_ensures(pause_one, (state, at, live, sent), r),
    ensures
        r is Ok <==> old(state)@[at as int].status == "running"@ && live is Ok && sent is Ok,
        r is Err ==> final(state)@ == old(state)@,
        r is Ok ==> {
            let before = old(state)@[at as int];
            let after = final(state)@[at as int];
            &&& final(state)@.len() == old(state)@.len()
            &&& after.status == "paused"@
            &&& after.id == before.id && after.name == before.name && after.pid == before.pid
            &&& after.health_status == before.health_status && after.exit_code == before.exit_code
            &&& forall|i: int|
                0 <= i < old(state)@.len() && i != at ==> #[trigger] final(state)@[i] == old(state)@[i]
            &&& r->Ok_0@ == before.name
        },
{
}

/// A box may be paused exactly where it is running.
pub proof fn lemma_pause_needs_running(record: BoxRecord, r: Result<(), String>)
    requires
        call_ensures(check_pause, (&record,), r),
    ensures
        r is Ok <==> record.status@ == "running"@,
{
}

} // verus!
