//! `rm`: removes boxes.

use vstd::prelude::*;

use crate::state;
use crate::state::{is_active, BoxRecord, RecordView, StateFile};
use crate::text::cat5;

verus! {

/// The arguments of `rm`.
#[derive(Debug)]
pub struct RmArgs {
    pub boxes: Vec<String>,
    pub force: bool,
}

/// What is said of an active box that is not removed.
pub open spec fn still_active(name: Seq<char>, status: Seq<char>) -> Seq<char> {
    "Box "@ + name + " is "@ + status + ". Use --force to remove an active box."@
}

/// The process to end before a box is removed, or why it is not removed: an
/// active box is removed only by force. A box without a recorded process has
/// none to end.
pub fn rm_plan(record: &BoxRecord, force: bool) -> (r: Result<Option<u32>, String>)
    ensures
        if state::active(record@.status) {
            if force {
                r == Ok::<Option<u32>, String>(record@.pid)
            } else {
                r matches Err(e) && e@ == still_active(record@.name, record@.status)
            }
        } else {
            r == Ok::<Option<u32>, String>(None)
        },
{
    if is_active(record) {
        if !force {
            return Err(
                cat5("Box ", &record.name, " is ", &record.status, ". Use --force to remove an active box."),
            );
        }
        return Ok(record.pid);
    }
    Ok(None)
}

/// Removes a box from the records: an active one only by force. What it gives is
/// the process to end and the line to print.
pub fn rm_one(state: &mut StateFile, at: usize, force: bool) -> (r: Result<(Option<u32>, String), String>)
    requires
        at < old(state)@.len(),
    ensures
        ({
            let record = old(state)@[at as int];
            if state::active(record.status) && !force {
                r matches Err(e) && e@ == still_active(record.name, record.status) && final(state)@ == old(state)@
            } else {
                r matches Ok((pid, line)) && line@ == record.name && pid == (if state::active(record.status) {
                    record.pid
                } else {
                    None
                }) && final(state)@ == old(state)@.filter(|x: RecordView| x.id != record.id)
            }
        }),
{
    let record: BoxRecord = state.get(at).clone();
    let pid: Option<u32> = rm_plan(&record, force)?;
    state.remove(&record.id);
    Ok((pid, record.name))
}

/// A removed box is in the records no more, and every other box stays.
pub proof fn lemma_removed_is_gone(records: Seq<RecordView>, id: Seq<char>, r: RecordView)
    ensures
        records.filter(|x: RecordView| x.id != id).contains(r) <==> records.contains(r) && r.id != id,
{
    crate::seqs::lemma_filter_contains(records, |x: RecordView| x.id != id, r);
}

/// An active box stays where no force is used. Every other box is removed: then no
/// box has its identifier, and every box with another one stays. The process to
/// stop first is told exactly where the box is active.
pub proof fn lemma_rm_removes_one(
    state: &mut StateFile,
    at: usize,
    force: bool,
    r: Result<(Option<u32>, String), String>,
)
    requires
        at < old(state)@.len(),
        call_ensures(rm_one, (state, at, force), r),
    ensures
        ({
            let record = old(state)@[at as int];
            let busy = record.status == "running"@ || record.status == "paused"@;
            &&& r is Err <==> busy && !force
            &&& r is Err ==> final(state)@ == old(state)@
            &&& r is Ok ==> forall|x: RecordView| #[trigger]
                final(state)@.contains(x) <==> old(state)@.contains(x) && x.id != record.id
            &&& r is Ok ==> (r->Ok_0).1@ == record.name
            &&& r is Ok && busy ==> (r->Ok_0).0 == record.pid
            &&& r is Ok && !busy ==> (r->Ok_0).0 is None
        }),
{
    let record = old(state)@[at as int];
    if r is Ok {
        assert forall|x: RecordView| #[trigger] final(state)@.contains(x) <==> old(state)@.contains(x)
            && x.id != record.id by {
            lemma_removed_is_gone(old(state)@, record.id, x);
        }
    }
}

/// An active box is removed only by force, and then its process is stopped first.
pub proof fn lemma_rm_needs_force(record: BoxRecord, force: bool, r: Result<Option<u32>, String>)
    requires
        call_ensures(rm_plan, (&record, force), r),
    ensures
        ({
            let busy = record.status@ == "running"@ || record.status@ == "paused"@;
            &&& r is Err <==> busy && !force
            &&& r is Ok ==> r->Ok_0 == (if busy {
                record.pid
            } else {
                None
            })
        }),
{
}

} // verus!
