//! `stats`: what boxes use.

use vstd::prelude::*;

use crate::seqs;
use crate::state;
use crate::state::{is_active, BoxRecord, RecordView, StateFile};
use crate::status;
use crate::status::require_active;

verus! {

/// The arguments of `stats`.
#[derive(Debug)]
pub struct StatsArgs {
    pub box_name: Option<String>,
    pub no_stream: bool,
}

/// The boxes that are shown: the one that is asked for, if it is active, or all
/// active ones. `found` is where the box that is asked for stands in the records,
/// or why it is not found.
pub fn select_targets(state: &StateFile, found: Option<Result<usize, String>>) -> (r: Result<Vec<BoxRecord>, String>)
    requires
        found matches Some(Ok(at)) ==> at < state@.len(),
    ensures
        match found {
            None => r matches Ok(l) && state::record_views(l@) == state@.filter(
                |x: RecordView| state::active(x.status),
            ),
            Some(Err(e)) => r matches Err(x) && x@ == e@,
            Some(Ok(at)) => if state::active(state@[at as int].status) {
                r matches Ok(l) && state::record_views(l@) == seq![state@[at as int]]
            } else {
                r matches Err(x) && x@ == status::not_active(
                    state@[at as int].name,
                    state@[at as int].status,
                    "show stats for"@,
                )
            },
        },
{
    if let Some(found) = found {
        let at: usize = found?;
        require_active(state.get(at), "show stats for")?;
        let mut one: Vec<BoxRecord> = Vec::new();
        one.push(state.get(at).clone());
        assert(state::record_views(one@) =~= seq![state@[at as int]]);
        return Ok(one);
    }
    let records = state.records();
    let ghost views = state@;
    let ghost p = |x: RecordView| state::active(x.status);
    let mut out: Vec<BoxRecord> = Vec::new();
    proof {
        seqs::lemma_filter_none(views, p);
        assert(state::record_views(out@) =~= Seq::empty());
    }
    for i in 0..records.len()
        invariant
            views == state::record_views(records@),
            p == (|x: RecordView| state::active(x.status)),
            state::record_views(out@) == views.take(i as int).filter(p),
    {
        proof {
            seqs::lemma_filter_step(views, p, i as int);
            assert(views[i as int] == records@[i as int]@);
        }
        if is_active(&records[i]) {
            let ghost before = out@;
            let one = records[i].clone();
            out.push(one);
            assert(state::record_views(out@) =~= state::record_views(before).push(one@));
        }
    }
    assert(views.take(records@.len() as int) =~= views);
    Ok(out)
}

/// What is asked of the system for a box: its process, and the most memory that
/// the box has, in bytes.
#[derive(Debug)]
pub struct StatsTarget {
    pub pid: u32,
    pub memory_limit_bytes: u64,
}

/// What is asked of the system for a box; nothing for a box without a recorded
/// process.
pub fn build_box_stats(record: &BoxRecord) -> (r: Option<StatsTarget>)
    ensures
        match record@.pid {
            Some(pid) => r matches Some(t) && t.pid == pid && t.memory_limit_bytes == record@.memory_mb * 1024 * 1024,
            None => r is None,
        },
{
    match record.pid {
        Some(pid) => Some(
            StatsTarget { pid, memory_limit_bytes: record.memory_mb as u64 * 1024 * 1024 },
        ),
        None => None,
    }
}

/// What comes after the boxes are looked through.
#[derive(Clone, Copy, Debug, PartialEq, Eq, Structural)]
pub enum StatsStep {
    /// Nothing is active: say so and end.
    NoneActive,
    /// Print one table and end.
    PrintOnce,
    /// Clear the screen, print the table, wait and look again.
    PrintAndRepeat,
}

/// What comes after the boxes are looked through.
pub fn stats_step(targets: usize, no_stream: bool) -> (r: StatsStep)
    ensures
        r == if targets == 0 {
            StatsStep::NoneActive
        } else if no_stream {
            StatsStep::PrintOnce
        } else {
            StatsStep::PrintAndRepeat
        },
{
    if targets == 0 {
        StatsStep::NoneActive
    } else if no_stream {
        StatsStep::PrintOnce
    } else {
        StatsStep::PrintAndRepeat
    }
}

/// Without a name every active box is shown, and no other; with one that box alone,
/// and only where it is active.
pub proof fn lemma_active_are_shown(
    state: StateFile,
    found: Option<Result<usize, String>>,
    i: int,
    r: Result<Vec<BoxRecord>, String>,
)
    requires
        found matches Some(Ok(at)) ==> at < state@.len(),
        call_ensures(select_targets, (&state, found), r),
        0 <= i < state@.len(),
    ensures
        found is None ==> r is Ok,
        found is None && (state@[i].status == "running"@ || state@[i].status == "paused"@)
            ==> state::record_views((r->Ok_0)@).contains(state@[i]),
        r is Ok ==> forall|k: int|
            0 <= k < (r->Ok_0)@.len() ==> (#[trigger] (r->Ok_0)@[k])@.status == "running"@
                || (r->Ok_0)@[k]@.status == "paused"@,
        found matches Some(Err(_)) ==> r is Err,
        found matches Some(Ok(at)) ==> (r is Ok <==> state@[at as int].status == "running"@
            || state@[at as int].status == "paused"@),
        found is Some && r is Ok ==> (r->Ok_0)@.len() == 1 && (r->Ok_0)@[0]@
            == state@[found->0->Ok_0 as int],
{
    if r is Ok {
        let l = (r->Ok_0)@;
        let views = state::record_views(l);
        assert(views.len() == l.len());
        assert forall|k: int| 0 <= k < l.len() implies (#[trigger] l[k])@.status == "running"@
            || l[k]@.status == "paused"@ by {
            assert(views[k] == l[k]@);
            if found is None {
                state@.lemma_filter_pred(|x: RecordView| state::active(x.status), k);
            }
        }
        if found is Some {
            assert(views[0] == l[0]@);
        }
    }
    if found is None && state::active(state@[i].status) {
        state@.lemma_filter_contains(|x: RecordView| state::active(x.status), i);
    }
}

/// A box is watched by its own process, against its own memory, in bytes; one without
/// a process is not.
pub proof fn lemma_watched(record: BoxRecord, r: Option<StatsTarget>)
    requires
        call_ensures(build_box_stats, (&record,), r),
    ensures
        r is Some <==> record.pid is Some,
        r is Some ==> r->0.pid == record.pid->0 && r->0.memory_limit_bytes
            == record.memory_mb * 1024 * 1024,
{
    assert(record@.pid == record.pid);
    assert(record@.memory_mb == record.memory_mb);
    if r is Some {
        assert(r->0.memory_limit_bytes == record.memory_mb * 1024 * 1024);
    }
}

/// It goes on only where there is something to show and one look is not enough.
pub proof fn lemma_stats_repeat(targets: usize, no_stream: bool, r: StatsStep)
    requires
        call_ensures(stats_step, (targets, no_stream), r),
    ensures
        r is NoneActive <==> targets == 0,
        r is PrintAndRepeat <==> targets > 0 && !no_stream,
{
}

} // verus!
