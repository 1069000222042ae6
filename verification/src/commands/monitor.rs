//! `monitor`: restart boxes that have died or become unhealthy.
//!
//! Points in time are nanoseconds of a clock that does not go back. A box whose
//! restarts keep failing is retried with growing delays.

use vstd::prelude::*;

use crate::commands::stop::{StopSettings, DEFAULT_STOP_SIGNAL, DEFAULT_STOP_TIMEOUT};
use crate::sizes;
use crate::sizes::round_div;
use crate::number;
use crate::number::{i32_text, u128_text, u32_text};
use crate::policy;
use crate::policy::should_restart;
use crate::seqs;
use crate::state;
use crate::state::{is_active, BoxRecord, HealthCheck, RecordView, StateFile};
use crate::strmap::StrMap;
use crate::text;
use crate::text::{cat7, str_eq};

verus! {

/// Minimum backoff delay before retrying a restart.
pub const MIN_BACKOFF: u64 = 1_000_000_000;

/// Maximum backoff delay (cap).
pub const MAX_BACKOFF: u64 = 60_000_000_000;

/// How long a box must stay alive before its backoff resets.
pub const STABLE_THRESHOLD: u64 = 30_000_000_000;

/// Arguments of `monitor`.
#[derive(Debug)]
pub struct MonitorArgs {
    /// Poll interval in seconds
    pub interval: u64,
}

/// Per-box backoff state for restart attempts.
#[derive(Clone, Copy, Debug, PartialEq, Eq, Structural)]
pub struct BackoffEntry {
    /// Current backoff delay.
    pub delay: u64,
    /// When the last restart attempt was made.
    pub last_attempt: i128,
    /// When the box was last seen running (to detect stability).
    pub last_seen_running: Option<u64>,
}

/// The time from `since` to `now`; none where `now` comes first.
pub open spec fn elapsed(since: int, now: int) -> int {
    if now >= since {
        now - since
    } else {
        0
    }
}

/// The delay after another attempt.
pub open spec fn longer(delay: u64) -> u64 {
    if 2 * delay <= MAX_BACKOFF {
        (2 * delay) as u64
    } else {
        MAX_BACKOFF
    }
}

impl BackoffEntry {
    /// The state of a box that has not been restarted yet.
    pub open spec fn fresh(now: u64) -> BackoffEntry {
        BackoffEntry {
            delay: MIN_BACKOFF,
            last_attempt: (now - MAX_BACKOFF) as i128,
            last_seen_running: None,
        }
    }

    /// Whether a restart may be tried.
    pub open spec fn is_ready(self, now: u64) -> bool {
        elapsed(self.last_attempt as int, now as int) >= self.delay
    }

    /// The state after a restart was tried.
    pub open spec fn attempted(self, now: u64) -> BackoffEntry {
        BackoffEntry { delay: longer(self.delay), last_attempt: now as i128, ..self }
    }

    /// The state after the box was seen running.
    pub open spec fn seen_running(self, now: u64) -> BackoffEntry {
        match self.last_seen_running {
            None => BackoffEntry { last_seen_running: Some(now), ..self },
            Some(since) => if elapsed(since as int, now as int) >= STABLE_THRESHOLD {
                BackoffEntry { delay: MIN_BACKOFF, ..self }
            } else {
                self
            },
        }
    }

    /// The state after the box was seen dead.
    pub open spec fn seen_dead(self) -> BackoffEntry {
        BackoffEntry { last_seen_running: None, ..self }
    }

    /// The state of a box that has not been restarted yet: its first restart
    /// may be tried at once.
    pub fn new(now: u64) -> (r: Self)
        ensures
            r == BackoffEntry::fresh(now),
    {
        BackoffEntry {
            delay: MIN_BACKOFF,
            last_attempt: now as i128 - MAX_BACKOFF as i128,
            last_seen_running: None,
        }
    }

    /// Check if enough time has passed since the last attempt.
    pub fn ready(&self, now: u64) -> (r: bool)
        ensures
            r == self.is_ready(now),
    {
        let now: i128 = now as i128;
        if now >= self.last_attempt {
            // The difference fits, for `last_attempt` lies below `now` and a
            // distance of 64 bits settles the question.
            if self.last_attempt < now - 0x1_0000_0000_0000_0000 {
                true
            } else {
                now - self.last_attempt >= self.delay as i128
            }
        } else {
            self.delay == 0
        }
    }

    /// Record a restart attempt and increase backoff.
    pub fn record_attempt(&mut self, now: u64)
        ensures
            *final(self) == old(self).attempted(now),
    {
        self.last_attempt = now as i128;
        self.delay = if self.delay <= MAX_BACKOFF / 2 {
            self.delay * 2
        } else {
            MAX_BACKOFF
        };
    }

    /// Mark the box as currently running. If it stays running long enough, the
    /// backoff resets.
    pub fn mark_running(&mut self, now: u64)
        ensures
            *final(self) == old(self).seen_running(now),
    {
        match self.last_seen_running {
            Some(since) => {
                if now >= since && now - since >= STABLE_THRESHOLD {
                    self.delay = MIN_BACKOFF;
                }
            },
            None => {
                self.last_seen_running = Some(now);
            },
        }
    }

    /// Mark the box as no longer running.
    pub fn mark_dead(&mut self)
        ensures
            *final(self) == old(self).seen_dead(),
    {
        self.last_seen_running = None;
    }
}

/// Tracks backoff state for all boxes.
#[derive(Debug)]
pub struct BackoffTracker {
    /// The state of each box, by identifier.
    pub entries: StrMap<BackoffEntry>,
}

/// The state of a box; that of a box without one where it has none.
pub open spec fn entry_of(m: Map<Seq<char>, BackoffEntry>, id: Seq<char>, now: u64) -> BackoffEntry {
    if m.dom().contains(id) {
        m[id]
    } else {
        BackoffEntry::fresh(now)
    }
}

/// Whether a restart of the box may be tried.
pub open spec fn may_restart(m: Map<Seq<char>, BackoffEntry>, id: Seq<char>, now: u64) -> bool {
    m.dom().contains(id) ==> m[id].is_ready(now)
}

/// The delay of the box.
pub open spec fn delay_of(m: Map<Seq<char>, BackoffEntry>, id: Seq<char>) -> u64 {
    if m.dom().contains(id) {
        m[id].delay
    } else {
        MIN_BACKOFF
    }
}

/// The states after the box was seen dead.
pub open spec fn with_dead(m: Map<Seq<char>, BackoffEntry>, id: Seq<char>) -> Map<
    Seq<char>,
    BackoffEntry,
> {
    if m.dom().contains(id) {
        m.insert(id, m[id].seen_dead())
    } else {
        m
    }
}

impl BackoffTracker {
    /// No box has been restarted yet.
    pub fn new() -> (r: Self)
        ensures
            r.entries@ == Map::<Seq<char>, BackoffEntry>::empty(),
    {
        BackoffTracker { entries: StrMap::new() }
    }

    /// The state of a box; that of a box without one where it has none.
    fn entry(&self, box_id: &str, now: u64) -> (r: BackoffEntry)
        ensures
            r == entry_of(self.entries@, box_id@, now),
    {
        match self.entries.get(box_id) {
            Some(e) => *e,
            None => BackoffEntry::new(now),
        }
    }

    /// Check if a box is ready for a restart attempt.
    pub fn ready(&self, box_id: &str, now: u64) -> (r: bool)
        ensures
            r == may_restart(self.entries@, box_id@, now),
    {
        match self.entries.get(box_id) {
            Some(e) => e.ready(now),
            None => true,
        }
    }

    /// Record a restart attempt for a box.
    pub fn record_attempt(&mut self, box_id: &str, now: u64)
        ensures
            final(self).entries@ == old(self).entries@.insert(
                box_id@,
                entry_of(old(self).entries@, box_id@, now).attempted(now),
            ),
    {
        let mut e: BackoffEntry = self.entry(box_id, now);
        e.record_attempt(now);
        self.entries.insert(box_id.to_string(), e);
    }

    /// Mark a box as currently running (for stability tracking).
    pub fn mark_running(&mut self, box_id: &str, now: u64)
        ensures
            final(self).entries@ == old(self).entries@.insert(
                box_id@,
                entry_of(old(self).entries@, box_id@, now).seen_running(now),
            ),
    {
        let mut e: BackoffEntry = self.entry(box_id, now);
        e.mark_running(now);
        self.entries.insert(box_id.to_string(), e);
    }

    /// Mark a box as dead.
    pub fn mark_dead(&mut self, box_id: &str)
        ensures
            final(self).entries@ == with_dead(old(self).entries@, box_id@),
    {
        let found: Option<BackoffEntry> = match self.entries.get(box_id) {
            Some(e) => Some(*e),
            None => None,
        };
        match found {
            Some(e) => {
                let mut e = e;
                e.mark_dead();
                self.entries.insert(box_id.to_string(), e);
            },
            None => {},
        }
    }

    /// Get the current backoff delay for a box.
    pub fn current_delay(&self, box_id: &str) -> (r: u64)
        ensures
            r == delay_of(self.entries@, box_id@),
    {
        match self.entries.get(box_id) {
            Some(e) => e.delay,
            None => MIN_BACKOFF,
        }
    }
}

// ---------------------------------------------------------------------------
// What holds of the delays
// ---------------------------------------------------------------------------

/// Whether all delays lie between the shortest and the longest.
pub open spec fn delays_bounded(m: Map<Seq<char>, BackoffEntry>) -> bool {
    forall|id: Seq<char>| #[trigger]
        m.dom().contains(id) ==> MIN_BACKOFF <= m[id].delay <= MAX_BACKOFF
}

/// Whatever happens to a box, all delays stay between the shortest and the
/// longest.
pub proof fn lemma_delays_bounded(m: Map<Seq<char>, BackoffEntry>, id: Seq<char>, now: u64)
    requires
        delays_bounded(m),
    ensures
        delays_bounded(Map::<Seq<char>, BackoffEntry>::empty()),
        delays_bounded(m.insert(id, entry_of(m, id, now).attempted(now))),
        delays_bounded(m.insert(id, entry_of(m, id, now).seen_running(now))),
        delays_bounded(with_dead(m, id)),
        MIN_BACKOFF <= delay_of(m, id) <= MAX_BACKOFF,
{
}

/// The delay after `n` attempts in a row without a stable run.
pub open spec fn delay_after(n: nat) -> u64
    decreases n,
{
    if n == 0 {
        MIN_BACKOFF
    } else {
        longer(delay_after((n - 1) as nat))
    }
}

/// Attempts in a row double the delay, from one second up to a minute: 2, 4, 8,
/// 16, 32 and then 60 seconds.
pub proof fn lemma_exponential(n: nat)
    ensures
        MIN_BACKOFF <= delay_after(n) <= MAX_BACKOFF,
        n <= 5 ==> delay_after(n) == MIN_BACKOFF * sizes::two_to(n),
        n >= 6 ==> delay_after(n) == MAX_BACKOFF,
        delay_after(n) <= delay_after(n + 1),
    decreases n,
{
    reveal_with_fuel(sizes::two_to, 7);
    reveal_with_fuel(delay_after, 8);
    if n > 0 {
        lemma_exponential((n - 1) as nat);
    }
}

/// A box that has just been restarted is not restarted again before its delay
/// has passed, and it is then.
pub proof fn lemma_backoff_holds(
    m: Map<Seq<char>, BackoffEntry>,
    id: Seq<char>,
    at: u64,
    now: u64,
)
    requires
        delays_bounded(m),
        at <= now,
    ensures
        ({
            let after = m.insert(id, entry_of(m, id, at).attempted(at));
            may_restart(after, id, now) <==> now - at >= delay_of(after, id)
        }),
{
}

/// What happens to one box does not touch another.
pub proof fn lemma_boxes_independent(
    m: Map<Seq<char>, BackoffEntry>,
    id: Seq<char>,
    other: Seq<char>,
    e: BackoffEntry,
    now: u64,
)
    requires
        id != other,
    ensures
        may_restart(m.insert(id, e), other, now) == may_restart(m, other, now),
        delay_of(m.insert(id, e), other) == delay_of(m, other),
        may_restart(with_dead(m, id), other, now) == may_restart(m, other, now),
{
}

/// A box that has run for the threshold without a break is back at the shortest
/// delay.
pub proof fn lemma_stable_resets(e: BackoffEntry, first: u64, later: u64)
    requires
        e.last_seen_running is None,
        first + STABLE_THRESHOLD <= later,
    ensures
        e.seen_running(first).seen_running(later).delay == MIN_BACKOFF,
        e.seen_running(first).seen_dead().seen_running(later).delay == e.delay,
{
}

// ---------------------------------------------------------------------------
// One poll
// ---------------------------------------------------------------------------

/// Why a box is restarted.
#[derive(Debug, Clone, Copy, PartialEq, Eq, Structural)]
pub enum RestartReason {
    /// It has died.
    Dead,
    /// It is unhealthy.
    Unhealthy,
}

/// Whether a running box is restarted because it is unhealthy.
pub open spec fn unhealthy_candidate(r: RecordView) -> bool {
    r.status == "running"@ && r.health_status == "unhealthy"@ && r.health_check is Some
        && policy::restarts(r)
}

/// Whether a running box is restarted because it is unhealthy.
pub fn is_unhealthy_restart_candidate(record: &BoxRecord) -> (r: bool)
    ensures
        r == unhealthy_candidate(record@),
{
    str_eq(record.status.as_str(), "running") && str_eq(record.health_status.as_str(), "unhealthy")
        && record.health_check.is_some() && should_restart(record)
}

/// Whether a box is restarted because it has died.
pub open spec fn dead_candidate(r: RecordView) -> bool {
    r.status == "dead"@ && policy::restarts(r)
}

/// The exit code in words.
pub open spec fn exit_words(code: Option<i32>) -> Seq<char> {
    match code {
        Some(c) => number::decimal_int(c as int),
        None => "unknown"@,
    }
}

/// The exit code in words.
pub fn format_exit_code(exit_code: Option<i32>) -> (r: String)
    ensures
        r@ == exit_words(exit_code),
{
    match exit_code {
        Some(code) => i32_text(code),
        None => "unknown".to_string(),
    }
}

/// What is said when a box is restarted.
pub open spec fn restart_words(r: RecordView, reason: RestartReason) -> Seq<char> {
    match reason {
        RestartReason::Dead => "monitor: restarting dead box "@ + r.name + " ("@ + r.short_id
            + ", policy: "@ + r.restart_policy + ", exit: "@ + exit_words(r.exit_code) + ")..."@,
        RestartReason::Unhealthy => "monitor: box "@ + r.name + " ("@ + r.short_id + ", policy: "@
            + r.restart_policy + ") is unhealthy, restarting..."@,
    }
}

/// What is said when a box is restarted.
pub fn restart_log_line(record: &BoxRecord, reason: RestartReason) -> (r: String)
    ensures
        r@ == restart_words(record@, reason),
{
    match reason {
        RestartReason::Dead => {
            let mut s: String = cat7(
                "monitor: restarting dead box ",
                record.name.as_str(),
                " (",
                record.short_id.as_str(),
                ", policy: ",
                record.restart_policy.as_str(),
                ", exit: ",
            );
            s.append(format_exit_code(record.exit_code).as_str());
            s.append(")...");
            s
        },
        RestartReason::Unhealthy => cat7(
            "monitor: box ",
            record.name.as_str(),
            " (",
            record.short_id.as_str(),
            ", policy: ",
            record.restart_policy.as_str(),
            ") is unhealthy, restarting...",
        ),
    }
}

/// A delay in whole seconds.
pub open spec fn seconds(delay: u64) -> Seq<char> {
    number::decimal(sizes::nearest(delay as nat, 1_000_000_000))
}

/// A delay in whole seconds.
fn seconds_text(delay: u64) -> (r: String)
    ensures
        r@ == seconds(delay),
{
    u128_text(round_div(delay as u128, 1_000_000_000))
}

/// What is said of a box that has to wait.
pub open spec fn backoff_words(r: RecordView, delay: u64) -> Seq<char> {
    "monitor: box "@ + r.name + " ("@ + r.short_id + ") backing off ("@ + seconds(delay)
        + "s remaining)"@
}

/// What is said of a box that has to wait.
pub fn backoff_log_line(record: &BoxRecord, delay: u64) -> (r: String)
    ensures
        r@ == backoff_words(record@, delay),
{
    let secs: String = seconds_text(delay);
    cat7(
        "monitor: box ",
        record.name.as_str(),
        " (",
        record.short_id.as_str(),
        ") backing off (",
        secs.as_str(),
        "s remaining)",
    )
}

/// The states after all boxes that run were seen running.
pub open spec fn all_seen(
    m: Map<Seq<char>, BackoffEntry>,
    records: Seq<RecordView>,
    now: u64,
) -> Map<Seq<char>, BackoffEntry>
    decreases records.len(),
{
    if records.len() == 0 {
        m
    } else {
        let before = all_seen(m, records.drop_last(), now);
        let r = records.last();
        if state::active(r.status) {
            before.insert(r.id, entry_of(before, r.id, now).seen_running(now))
        } else {
            before
        }
    }
}

/// Track active boxes for stability detection.
pub fn note_active(tracker: &mut BackoffTracker, state: &StateFile, now: u64)
    ensures
        final(tracker).entries@ == all_seen(old(tracker).entries@, state@, now),
{
    let ghost start = tracker.entries@;
    let mut i: usize = 0;
    assert(state@.take(0) =~= Seq::<RecordView>::empty());
    while i < state.len()
        invariant
            i <= state@.len(),
            tracker.entries@ == all_seen(start, state@.take(i as int), now),
        decreases state@.len() - i,
    {
        let record: &BoxRecord = state.get(i);
        proof {
            assert(state@.take(i + 1).drop_last() =~= state@.take(i as int));
            assert(state@.take(i + 1).last() == record@);
        }
        if is_active(record) {
            tracker.mark_running(record.id.as_str(), now);
        }
        i = i + 1;
    }
    assert(state@.take(i as int) =~= state@);
}

/// The identifiers of the records that meet a condition.
pub open spec fn ids_where(records: Seq<RecordView>, p: spec_fn(RecordView) -> bool) -> Seq<
    Seq<char>,
> {
    records.filter(p).map_values(|r: RecordView| r.id)
}

/// The boxes that a poll looks at, by identifier: those that have died, then
/// those that are unhealthy.
pub open spec fn candidate_ids(records: Seq<RecordView>) -> Seq<Seq<char>> {
    ids_where(records, |r: RecordView| dead_candidate(r)) + ids_where(
        records,
        |r: RecordView| unhealthy_candidate(r),
    )
}

/// The boxes that need a restart, by identifier: the dead ones whose policy
/// restarts them.
pub fn pending_restarts(state: &StateFile) -> (r: Vec<String>)
    ensures
        text::strs(r@) == ids_where(state@, |r: RecordView| dead_candidate(r)),
{
    broadcast use crate::text::lemma_strs_push;

    let ghost p = |r: RecordView| dead_candidate(r);
    let ghost id = |r: RecordView| r.id;
    let mut out: Vec<String> = Vec::new();
    let mut i: usize = 0;
    proof {
        seqs::lemma_filter_none(state@, p);
        assert(text::strs(out@) =~= state@.take(0).filter(p).map_values(id));
    }
    while i < state.len()
        invariant
            i <= state@.len(),
            p == (|r: RecordView| dead_candidate(r)),
            id == (|r: RecordView| r.id),
            text::strs(out@) == state@.take(i as int).filter(p).map_values(id),
        decreases state@.len() - i,
    {
        let record: &BoxRecord = state.get(i);
        proof {
            seqs::lemma_filter_step(state@, p, i as int);
            let f = state@.take(i as int).filter(p);
            assert(f.push(record@).map_values(id) =~= f.map_values(id).push(record@.id));
        }
        if str_eq(record.status.as_str(), "dead") && should_restart(record) {
            out.push(record.id.clone());
        }
        i = i + 1;
    }
    assert(state@.take(i as int) =~= state@);
    out
}

/// The boxes that a poll looks at, by identifier.
pub fn restart_candidates(state: &StateFile) -> (r: Vec<String>)
    ensures
        text::strs(r@) == candidate_ids(state@),
{
    broadcast use crate::text::lemma_strs_push;

    let ghost p = |r: RecordView| unhealthy_candidate(r);
    let ghost id = |r: RecordView| r.id;
    let mut out: Vec<String> = pending_restarts(state);
    let ghost first = text::strs(out@);
    let mut i: usize = 0;
    proof {
        seqs::lemma_filter_none(state@, p);
        assert(first =~= first + state@.take(0).filter(p).map_values(id));
    }
    while i < state.len()
        invariant
            i <= state@.len(),
            p == (|r: RecordView| unhealthy_candidate(r)),
            id == (|r: RecordView| r.id),
            text::strs(out@) == first + state@.take(i as int).filter(p).map_values(id),
        decreases state@.len() - i,
    {
        let record: &BoxRecord = state.get(i);
        proof {
            seqs::lemma_filter_step(state@, p, i as int);
            let f = state@.take(i as int).filter(p);
            assert(first + f.push(record@).map_values(id) =~= (first + f.map_values(id)).push(
                record@.id,
            ));
        }
        if is_unhealthy_restart_candidate(record) {
            out.push(record.id.clone());
        }
        i = i + 1;
    }
    assert(state@.take(i as int) =~= state@);
    out
}

/// How the process of an unhealthy box is ended before the box is restarted.
#[derive(Clone, Copy, Debug, PartialEq, Eq, Structural)]
pub struct UnhealthyStop {
    /// The process.
    pub pid: u32,
    /// The signal, and the seconds that the process has to end.
    pub settings: StopSettings,
}

/// How the process of a box is ended before the box is restarted: where it is
/// unhealthy and its process is known, by the default signal and with the default
/// time.
pub open spec fn stop_before(r: RecordView, reason: RestartReason) -> Option<UnhealthyStop> {
    match (reason, r.pid) {
        (RestartReason::Unhealthy, Some(pid)) => Some(
            UnhealthyStop {
                pid,
                settings: StopSettings { signal: DEFAULT_STOP_SIGNAL, timeout: DEFAULT_STOP_TIMEOUT },
            },
        ),
        _ => None,
    }
}

/// What a poll does with a candidate.
#[derive(Debug)]
pub enum CandidateAction {
    /// Nothing: there is no such box any more.
    Gone,
    /// Nothing yet: the box has to wait.
    BackOff {
        /// What is said.
        line: String,
    },
    /// The box is started again from its record.
    Restart {
        /// The record.
        record: BoxRecord,
        /// Why.
        reason: RestartReason,
        /// What is said.
        line: String,
        /// How its process is ended first, where it is.
        stop: Option<UnhealthyStop>,
    },
}

/// Whether `a` is what a poll does with a candidate.
pub open spec fn is_candidate_action(
    m: Map<Seq<char>, BackoffEntry>,
    records: Seq<RecordView>,
    id: Seq<char>,
    now: u64,
    a: CandidateAction,
) -> bool {
    match a {
        CandidateAction::Gone => forall|j: int|
            0 <= j < records.len() ==> (#[trigger] records[j]).id != id,
        CandidateAction::BackOff { line } => exists|i: int|
            state::first_with_id(records, id, i) && !may_restart(m, id, now) && line@
                == backoff_words(records[i], delay_of(m, id)),
        CandidateAction::Restart { record, reason, line, stop } => exists|i: int|
            state::first_with_id(records, id, i) && may_restart(m, id, now) && record@
                == records[i] && reason == (if unhealthy_candidate(records[i]) {
                RestartReason::Unhealthy
            } else {
                RestartReason::Dead
            }) && line@ == restart_words(records[i], reason) && stop == stop_before(records[i], reason),
    }
}

/// What a poll does with a candidate. A box that is restarted no longer counts
/// as running. An unhealthy one is stopped first: see [`mark_unhealthy_dead`].
pub fn consider_candidate(tracker: &mut BackoffTracker, state: &StateFile, box_id: &str, now: u64) -> (r:
    CandidateAction)
    ensures
        is_candidate_action(old(tracker).entries@, state@, box_id@, now, r),
        final(tracker).entries@ == if r is Restart {
            with_dead(old(tracker).entries@, box_id@)
        } else {
            old(tracker).entries@
        },
{
    let record: BoxRecord = match state.find_by_id(box_id) {
        Some(r) => r.clone(),
        None => {
            return CandidateAction::Gone;
        },
    };
    let ghost at = choose|i: int|
        state::first_with_id(state@, box_id@, i) && record@ == state@[i];
    assert(state::first_with_id(state@, box_id@, at));
    if !tracker.ready(box_id, now) {
        let delay: u64 = tracker.current_delay(box_id);
        return CandidateAction::BackOff { line: backoff_log_line(&record, delay) };
    }
    let reason: RestartReason = if is_unhealthy_restart_candidate(&record) {
        RestartReason::Unhealthy
    } else {
        RestartReason::Dead
    };
    let line: String = restart_log_line(&record, reason);
    tracker.mark_dead(box_id);
    let settings = StopSettings { signal: DEFAULT_STOP_SIGNAL, timeout: DEFAULT_STOP_TIMEOUT };
    let stop: Option<UnhealthyStop> = match (reason, record.pid) {
        (RestartReason::Unhealthy, Some(pid)) => Some(UnhealthyStop { pid, settings }),
        _ => None,
    };
    CandidateAction::Restart { record, reason, line, stop }
}

/// A record of an unhealthy box that was stopped to be restarted.
pub open spec fn stopped_unhealthy(r: RecordView) -> RecordView {
    RecordView {
        status: "dead"@,
        pid: None,
        health_status: "none"@,
        health_retries: 0,
        ..r
    }
}

/// Marks an unhealthy box that was stopped as dead, where the state knows it.
pub fn mark_unhealthy_dead(state: &mut StateFile, box_id: &str)
    ensures
        final(state)@.len() == old(state)@.len(),
        forall|i: int|
            0 <= i < old(state)@.len() ==> #[trigger] final(state)@[i] == if state::first_with_id(
                old(state)@,
                box_id@,
                i,
            ) {
                stopped_unhealthy(old(state)@[i])
            } else {
                old(state)@[i]
            },
{
    match state.position(box_id) {
        Some(at) => {
            let mut record: BoxRecord = state.get(at).clone();
            record.status = "dead".to_string();
            record.pid = None;
            record.health_status = "none".to_string();
            record.health_retries = 0;
            state.set(at, record);
        },
        None => {},
    }
}

/// Takes note of a restart that was tried, and says what is said of it.
/// `outcome` is the restart counter of the box, or what went wrong.
pub fn note_attempt(
    tracker: &mut BackoffTracker,
    record: &BoxRecord,
    outcome: &Result<u32, String>,
    now: u64,
) -> (line: String)
    ensures
        ({
            let id = record@.id;
            let after = old(tracker).entries@.insert(
                id,
                entry_of(old(tracker).entries@, id, now).attempted(now),
            );
            &&& final(tracker).entries@ == after
            &&& line@ == match *outcome {
                Ok(count) => "monitor: box "@ + record@.name + " ("@ + record@.short_id
                    + ") restarted (count: "@ + number::decimal(count as nat) + ")"@,
                Err(e) => "monitor: failed to restart box "@ + record@.name + " ("@
                    + record@.short_id + "): "@ + e@ + " (next retry in "@ + seconds(
                    delay_of(after, id),
                ) + "s)"@,
            }
        }),
{
    tracker.record_attempt(record.id.as_str(), now);
    match outcome {
        Ok(count) => {
            let n: String = u32_text(*count);
            cat7(
                "monitor: box ",
                record.name.as_str(),
                " (",
                record.short_id.as_str(),
                ") restarted (count: ",
                n.as_str(),
                ")",
            )
        },
        Err(e) => {
            let delay: u64 = tracker.current_delay(record.id.as_str());
            let mut s: String = cat7(
                "monitor: failed to restart box ",
                record.name.as_str(),
                " (",
                record.short_id.as_str(),
                "): ",
                e.as_str(),
                " (next retry in ",
            );
            s.append(seconds_text(delay).as_str());
            s.append("s)");
            s
        },
    }
}

/// A health check that is due.
#[derive(Debug)]
pub struct Probe {
    /// Identifier of the box.
    pub box_id: String,
    /// Socket for running commands in the box.
    pub exec_socket_path: String,
    /// The check.
    pub health_check: HealthCheck,
}

/// The records whose health check is due: those for which `due` says so and
/// that have one.
pub open spec fn due_records(records: Seq<RecordView>, due: Seq<bool>) -> Seq<RecordView>
    decreases records.len(),
{
    if records.len() == 0 {
        seq![]
    } else {
        let before = due_records(records.drop_last(), due.drop_last());
        if due.last() && records.last().health_check is Some {
            before.push(records.last())
        } else {
            before
        }
    }
}

/// Whether the probe is that of the box with that record.
pub open spec fn probes(p: Probe, r: RecordView) -> bool {
    p.box_id@ == r.id && p.exec_socket_path@ == r.exec_socket_path && Some(p.health_check@)
        == r.health_check
}

/// The health checks that are due. `due` tells of each box whether the time for
/// its check has come.
pub fn due_probes(state: &StateFile, due: &Vec<bool>) -> (r: Vec<Probe>)
    requires
        due.len() == state@.len(),
    ensures
        r@.len() == due_records(state@, due@).len(),
        forall|i: int|
            0 <= i < r@.len() ==> probes(#[trigger] r@[i], due_records(state@, due@)[i]),
{
    let mut out: Vec<Probe> = Vec::new();
    let mut i: usize = 0;
    while i < state.len()
        invariant
            i <= state@.len() == due.len(),
            out@.len() == due_records(state@.take(i as int), due@.take(i as int)).len(),
            forall|j: int|
                0 <= j < out@.len() ==> probes(
                    #[trigger] out@[j],
                    due_records(state@.take(i as int), due@.take(i as int))[j],
                ),
        decreases state@.len() - i,
    {
        let record: &BoxRecord = state.get(i);
        proof {
            assert(state@.take(i + 1).drop_last() =~= state@.take(i as int));
            assert(due@.take(i + 1).drop_last() =~= due@.take(i as int));
            assert(state@.take(i + 1).last() == record@);
            assert(due@.take(i + 1).last() == due@[i as int]);
        }
        if due[i] {
            match &record.health_check {
                Some(hc) => {
                    out.push(
                        Probe {
                            box_id: record.id.clone(),
                            exec_socket_path: record.exec_socket_path.clone(),
                            health_check: hc.clone(),
                        },
                    );
                },
                None => {},
            }
        }
        i = i + 1;
    }
    proof {
        assert(state@.take(i as int) =~= state@);
        assert(due@.take(i as int) =~= due@);
    }
    out
}

// ---------------------------------------------------------------------------
// When a box is restarted
// ---------------------------------------------------------------------------

/// A box is restarted for its health only while it runs, has a check, has failed it,
/// and is to be restarted at all.
pub proof fn lemma_unhealthy_candidates(record: BoxRecord, restarts: bool, r: bool)
    requires
        call_ensures(is_unhealthy_restart_candidate, (&record,), r),
        call_ensures(policy::should_restart, (&record,), restarts),
    ensures
        r <==> record.status@ == "running"@ && record.health_status@ == "unhealthy"@
            && record.health_check is Some && restarts,
{
    assert(record@.health_check is Some <==> record.health_check is Some);
}

/// The boxes to restart are the dead ones and the unhealthy ones that are to be
/// restarted: each of them, and no other.
pub proof fn lemma_candidates_are_down(state: StateFile, i: int, r: Vec<String>, pending: Vec<String>)
    requires
        call_ensures(restart_candidates, (&state,), r),
        call_ensures(pending_restarts, (&state,), pending),
        0 <= i < state@.len(),
    ensures
        state@[i].status == "dead"@ && policy::restarts(state@[i]) ==> text::strs(r@).contains(
            state@[i].id,
        ) && text::strs(pending@).contains(state@[i].id),
        state@[i].status == "running"@ && state@[i].health_status == "unhealthy"@
            && state@[i].health_check is Some && policy::restarts(state@[i]) ==> text::strs(
            r@,
        ).contains(state@[i].id),
        forall|k: int|
            0 <= k < pending@.len() ==> is_down(state@, (#[trigger] pending@[k])@),
{
    let dead = |r: RecordView| dead_candidate(r);
    let ill = |r: RecordView| unhealthy_candidate(r);
    let first = ids_where(state@, dead);
    let second = ids_where(state@, ill);
    lemma_ids_where(state@, dead, i);
    lemma_ids_where(state@, ill, i);
    assert(text::strs(r@) == first + second);
    assert(text::strs(pending@) == first);
    if dead(state@[i]) {
        let k = choose|k: int| 0 <= k < first.len() && first[k] == state@[i].id;
        assert((first + second)[k] == state@[i].id);
    }
    if ill(state@[i]) {
        let k = choose|k: int| 0 <= k < second.len() && second[k] == state@[i].id;
        assert((first + second)[first.len() + k] == state@[i].id);
    }
    assert(text::strs(pending@).len() == pending@.len());
    assert forall|k: int| 0 <= k < pending@.len() implies is_down(state@, (#[trigger] pending@[k])@) by {
        assert(text::strs(pending@)[k] == pending@[k]@);
        let kept = state@.filter(dead);
        assert(first[k] == kept[k].id);
        assert(kept.contains(kept[k]));
        seqs::lemma_filter_contains(state@, dead, kept[k]);
        let n = choose|n: int| 0 <= n < state@.len() && state@[n] == kept[k];
        assert(state@[n].status == "dead"@);
    }
}

/// Some box with this identifier is dead.
pub open spec fn is_down(records: Seq<RecordView>, id: Seq<char>) -> bool {
    exists|n: int|
        0 <= n < records.len() && (#[trigger] records[n]).id == id && records[n].status == "dead"@
}

/// The identifier of each record that is meant is listed.
proof fn lemma_ids_where(records: Seq<RecordView>, p: spec_fn(RecordView) -> bool, i: int)
    requires
        0 <= i < records.len(),
    ensures
        p(records[i]) ==> ids_where(records, p).contains(records[i].id),
{
    if p(records[i]) {
        let kept = records.filter(p);
        seqs::lemma_filter_contains(records, p, records[i]);
        assert(records.contains(records[i]));
        let n = choose|n: int| 0 <= n < kept.len() && kept[n] == records[i];
        assert(ids_where(records, p)[n] == records[i].id);
    }
}

/// After an attempt the next one waits twice as long, but never more than a
/// minute; the wait is over when so much time has gone by.
pub proof fn lemma_attempts_double(entry: &mut BackoffEntry, now: u64, later: u64, ready: bool)
    requires
        call_ensures(BackoffEntry::record_attempt, (entry, now), ()),
        call_ensures(BackoffEntry::ready, (&*final(entry), later), ready),
        now <= later,
        old(entry).delay <= 60_000_000_000,
    ensures
        2 * old(entry).delay <= 60_000_000_000 ==> final(entry).delay == 2 * old(entry).delay,
        2 * old(entry).delay > 60_000_000_000 ==> final(entry).delay == 60_000_000_000,
        final(entry).last_seen_running == old(entry).last_seen_running,
        ready <==> later - now >= final(entry).delay,
{
}

/// A box that was never tried may be tried at once.
pub proof fn lemma_first_attempt_is_due(now: u64, e: BackoffEntry, ready: bool)
    requires
        now >= 60_000_000_000,
        call_ensures(BackoffEntry::new, (now,), e),
        call_ensures(BackoffEntry::ready, (&e, now), ready),
    ensures
        ready,
        e.last_seen_running is None,
{
}

/// A candidate is restarted exactly where it is still there and its wait is over. It
/// is stopped first where it is its health that failed and it has a process.
pub proof fn lemma_candidate_considered(
    tracker: &mut BackoffTracker,
    state: StateFile,
    box_id: &str,
    now: u64,
    due: bool,
    r: CandidateAction,
)
    requires
        call_ensures(BackoffTracker::ready, (&*old(tracker), box_id, now), due),
        call_ensures(consider_candidate, (tracker, &state, box_id, now), r),
    ensures
        r is Gone <==> forall|j: int| 0 <= j < state@.len() ==> (#[trigger] state@[j]).id != box_id@,
        r is Restart ==> due,
        r is BackOff ==> !due,
        r matches CandidateAction::Restart { record, reason, line, stop } ==> {
            &&& record@.id == box_id@
            &&& stop is Some ==> reason is Unhealthy && record@.pid == Some(stop->0.pid)
            &&& reason is Unhealthy ==> record@.health_status == "unhealthy"@ && record@.status
                == "running"@
            &&& reason is Unhealthy && record@.pid is Some ==> stop is Some
        },
        !(r is Restart) ==> final(tracker).entries@ == old(tracker).entries@,
{
    assert(due == may_restart(old(tracker).entries@, box_id@, now));
    match r {
        CandidateAction::Gone => {},
        CandidateAction::BackOff { line } => {
            let i = choose|i: int|
                state::first_with_id(state@, box_id@, i) && !may_restart(
                    old(tracker).entries@,
                    box_id@,
                    now,
                ) && line@ == backoff_words(state@[i], delay_of(old(tracker).entries@, box_id@));
            assert(state@[i].id == box_id@);
        },
        CandidateAction::Restart { record, reason, line, stop } => {
            let i = choose|i: int|
                state::first_with_id(state@, box_id@, i) && may_restart(
                    old(tracker).entries@,
                    box_id@,
                    now,
                ) && record@ == state@[i] && reason == (if unhealthy_candidate(state@[i]) {
                    RestartReason::Unhealthy
                } else {
                    RestartReason::Dead
                }) && line@ == restart_words(state@[i], reason) && stop == stop_before(
                    state@[i],
                    reason,
                );
            assert(state@[i].id == box_id@);
        },
    }
}

/// A box that was stopped for its health is dead, without a process and with its
/// health forgotten, and stays to be restarted; no other box changes.
pub proof fn lemma_unhealthy_is_dead(state: &mut StateFile, box_id: &str, i: int)
    requires
        call_ensures(mark_unhealthy_dead, (state, box_id), ()),
        0 <= i < old(state)@.len(),
    ensures
        final(state)@.len() == old(state)@.len(),
        old(state)@[i].id != box_id@ ==> final(state)@[i] == old(state)@[i],
        state::first_with_id(old(state)@, box_id@, i) ==> {
            let before = old(state)@[i];
            let after = final(state)@[i];
            &&& after.status == "dead"@ && after.pid is None
            &&& after.health_status == "none"@ && after.health_retries == 0
            &&& after.id == before.id && after.name == before.name && after.restart_count
                == before.restart_count && after.restart_policy == before.restart_policy
            &&& after.stopped_by_user == before.stopped_by_user
            &&& policy::restarts(after) == policy::restarts(before)
        },
{
}

/// An attempt counts for its own box alone, whether it succeeds or not.
pub proof fn lemma_attempt_noted(
    tracker: &mut BackoffTracker,
    record: BoxRecord,
    outcome: Result<u32, String>,
    now: u64,
    other: Seq<char>,
    line: String,
)
    requires
        call_ensures(note_attempt, (tracker, &record, &outcome, now), line),
        other != record.id@,
    ensures
        final(tracker).entries@.contains_key(record.id@),
        final(tracker).entries@[record.id@].last_attempt == now,
        old(tracker).entries@.contains_key(other) <==> final(tracker).entries@.contains_key(other),
        old(tracker).entries@.contains_key(other) ==> final(tracker).entries@[other]
            == old(tracker).entries@[other],
{
}

/// A box that is probed is one whose time has come and that has a check; it is probed
/// as itself, and every such box is.
pub proof fn lemma_probed_when_due(state: StateFile, due: Vec<bool>, i: int, r: Vec<Probe>)
    requires
        due@.len() == state@.len(),
        call_ensures(due_probes, (&state, &due), r),
        0 <= i < state@.len(),
        due@[i],
        state@[i].health_check is Some,
    ensures
        exists|k: int| 0 <= k < r@.len() && (#[trigger] r@[k]).box_id@ == state@[i].id
            && r@[k].exec_socket_path@ == state@[i].exec_socket_path && r@[k].health_check@
            == state@[i].health_check->0,
{
    lemma_due_records(state@, due@, i);
    let l = due_records(state@, due@);
    let k = choose|k: int| 0 <= k < l.len() && l[k] == state@[i];
    assert(probes(r@[k], l[k]));
}

/// Each record that is due and has a check is among the due ones.
proof fn lemma_due_records(records: Seq<RecordView>, due: Seq<bool>, i: int)
    requires
        due.len() == records.len(),
        0 <= i < records.len(),
        due[i],
        records[i].health_check is Some,
    ensures
        due_records(records, due).contains(records[i]),
    decreases records.len(),
{
    let r = records.drop_last();
    let d = due.drop_last();
    let before = due_records(r, d);
    let all = due_records(records, due);
    if i < r.len() {
        assert(r[i] == records[i] && d[i] == due[i]);
        lemma_due_records(r, d, i);
        let k = choose|k: int| 0 <= k < before.len() && before[k] == records[i];
        assert(all[k] == records[i]);
    } else {
        assert(all[all.len() - 1] == records[i]);
    }
}

/// Nobody is probed whose time has not come.
pub proof fn lemma_not_probed_before(state: StateFile, due: Vec<bool>, r: Vec<Probe>)
    requires
        due@.len() == state@.len(),
        call_ensures(due_probes, (&state, &due), r),
        forall|i: int| 0 <= i < due@.len() ==> !#[trigger] due@[i],
    ensures
        r@.len() == 0,
{
    lemma_none_due(state@, due@);
}

/// Without a due one there is none.
proof fn lemma_none_due(records: Seq<RecordView>, due: Seq<bool>)
    requires
        due.len() == records.len(),
        forall|i: int| 0 <= i < due.len() ==> !#[trigger] due[i],
    ensures
        due_records(records, due).len() == 0,
    decreases records.len(),
{
    if records.len() > 0 {
        let d = due.drop_last();
        assert forall|i: int| 0 <= i < d.len() implies !#[trigger] d[i] by {
            assert(d[i] == due[i]);
        }
        lemma_none_due(records.drop_last(), d);
        assert(!due[due.len() - 1]);
    }
}

/// A box that has run without a break for half a minute waits as little as at first,
/// and until then what it waits stays; its death ends the run.
pub proof fn lemma_stable_run_resets(entry: &mut BackoffEntry, since: u64, now: u64)
    requires
        old(entry).last_seen_running == Some(since),
        since <= now,
        call_ensures(BackoffEntry::mark_running, (entry, now), ()),
    ensures
        now - since >= 30_000_000_000 ==> final(entry).delay == 1_000_000_000,
        now - since < 30_000_000_000 ==> final(entry).delay == old(entry).delay,
        final(entry).last_seen_running == old(entry).last_seen_running,
        final(entry).last_attempt == old(entry).last_attempt,
{
}

/// A box that is first seen running is so from then on, and a dead one is not; neither
/// changes what it waits.
pub proof fn lemma_run_begins_and_ends(starts: &mut BackoffEntry, dies: &mut BackoffEntry, now: u64)
    requires
        old(starts).last_seen_running is None,
        call_ensures(BackoffEntry::mark_running, (starts, now), ()),
        call_ensures(BackoffEntry::mark_dead, (dies,), ()),
    ensures
        final(starts).last_seen_running == Some(now) && final(starts).delay == old(starts).delay,
        final(dies).last_seen_running is None && final(dies).delay == old(dies).delay,
        final(dies).last_attempt == old(dies).last_attempt,
{
}

/// What is noted of one box is noted of no other.
pub proof fn lemma_tracked_apart(
    runs: &mut BackoffTracker,
    dies: &mut BackoffTracker,
    box_id: &str,
    now: u64,
    other: Seq<char>,
)
    requires
        other != box_id@,
        call_ensures(BackoffTracker::mark_running, (runs, box_id, now), ()),
        call_ensures(BackoffTracker::mark_dead, (dies, box_id), ()),
    ensures
        final(runs).entries@.contains_key(box_id@),
        final(runs).entries@[box_id@].last_seen_running is Some,
        final(dies).entries@.contains_key(box_id@) <==> old(dies).entries@.contains_key(box_id@),
        final(dies).entries@.contains_key(box_id@) ==> final(dies).entries@[box_id@].last_seen_running
            is None,
        final(runs).entries@.contains_key(other) <==> old(runs).entries@.contains_key(other),
        old(runs).entries@.contains_key(other) ==> final(runs).entries@[other]
            == old(runs).entries@[other],
        final(dies).entries@.contains_key(other) <==> old(dies).entries@.contains_key(other),
        old(dies).entries@.contains_key(other) ==> final(dies).entries@[other]
            == old(dies).entries@[other],
{
}

/// Every active box is noted as running, and one that is not in the state is as it was.
pub proof fn lemma_active_are_noted(tracker: &mut BackoffTracker, state: StateFile, now: u64, i: int, other: Seq<char>)
    requires
        call_ensures(note_active, (tracker, &state, now), ()),
        0 <= i < state@.len(),
        forall|j: int| 0 <= j < state@.len() ==> (#[trigger] state@[j]).id != other,
    ensures
        state@[i].status == "running"@ || state@[i].status == "paused"@
            ==> final(tracker).entries@.contains_key(state@[i].id)
            && final(tracker).entries@[state@[i].id].last_seen_running is Some,
        final(tracker).entries@.contains_key(other) <==> old(tracker).entries@.contains_key(other),
        old(tracker).entries@.contains_key(other) ==> final(tracker).entries@[other]
            == old(tracker).entries@[other],
{
    lemma_all_seen(old(tracker).entries@, state@, now, i, other);
}

/// Each active record is seen, and no other.
proof fn lemma_all_seen(
    m: Map<Seq<char>, BackoffEntry>,
    records: Seq<RecordView>,
    now: u64,
    i: int,
    other: Seq<char>,
)
    requires
        forall|j: int| 0 <= j < records.len() ==> (#[trigger] records[j]).id != other,
    ensures
        0 <= i < records.len() && state::active(records[i].status) ==> all_seen(m, records, now).contains_key(
            records[i].id,
        ) && all_seen(m, records, now)[records[i].id].last_seen_running is Some,
        all_seen(m, records, now).contains_key(other) <==> m.contains_key(other),
        m.contains_key(other) ==> all_seen(m, records, now)[other] == m[other],
    decreases records.len(),
{
    if records.len() > 0 {
        let b = records.drop_last();
        assert forall|j: int| 0 <= j < b.len() implies (#[trigger] b[j]).id != other by {
            assert(b[j] == records[j]);
        }
        lemma_all_seen(m, b, now, i, other);
        assert(records[records.len() - 1].id != other);
        if 0 <= i < b.len() {
            assert(b[i] == records[i]);
        }
    }
}

/// The wait that is told is that of the box, and a second at first.
pub proof fn lemma_current_delay(tracker: BackoffTracker, box_id: &str, r: u64)
    requires
        call_ensures(BackoffTracker::current_delay, (&tracker, box_id), r),
    ensures
        tracker.entries@.contains_key(box_id@) ==> r == tracker.entries@[box_id@].delay,
        !tracker.entries@.contains_key(box_id@) ==> r == 1_000_000_000,
{
}

/// What is told of a restart names the box and its policy, and the exit code where it
/// was dead; an exit code that is not known is said not to be.
pub proof fn lemma_restart_told(
    record: BoxRecord,
    dead: String,
    ill: String,
    code: Option<i32>,
    words: String,
)
    requires
        call_ensures(restart_log_line, (&record, RestartReason::Dead), dead),
        call_ensures(restart_log_line, (&record, RestartReason::Unhealthy), ill),
        call_ensures(format_exit_code, (code,), words),
    ensures
        text::has_prefix(dead@, "monitor: restarting dead box "@ + record.name@),
        text::has_prefix(ill@, "monitor: box "@ + record.name@),
        text::has_suffix(ill@, "is unhealthy, restarting..."@),
        code is Some ==> words@ == number::decimal_int(code->0 as int),
        code is None ==> words@ == "unknown"@,
{
    let a = "monitor: restarting dead box "@ + record.name@;
    let b = "monitor: box "@ + record.name@;
    assert(dead@.take(a.len() as int) =~= a);
    assert(ill@.take(b.len() as int) =~= b);
    reveal_strlit(") is unhealthy, restarting...");
    reveal_strlit("is unhealthy, restarting...");
    let end = "is unhealthy, restarting..."@;
    assert(ill@.skip(ill@.len() - end.len()) =~= end);
}

} // verus!
