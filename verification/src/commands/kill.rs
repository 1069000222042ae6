//! `kill`: sends a signal to boxes.

use vstd::prelude::*;

use crate::case;
use crate::case::to_uppercase;
use crate::number;
use crate::number::{i32_text, parse_i32, u32_text};
use crate::state;
use crate::state::{BoxRecord, RecordView, StateFile};
use crate::text;
use crate::text::{cat2, cat4, str_eq, strip_prefix};

verus! {

/// The signals of Linux.
pub const SIGHUP: i32 = 1;

pub const SIGINT: i32 = 2;

pub const SIGQUIT: i32 = 3;

pub const SIGKILL: i32 = 9;

pub const SIGUSR1: i32 = 10;

pub const SIGUSR2: i32 = 12;

pub const SIGTERM: i32 = 15;

pub const SIGCONT: i32 = 18;

pub const SIGSTOP: i32 = 19;

/// The arguments of `kill`.
#[derive(Debug)]
pub struct KillArgs {
    pub boxes: Vec<String>,
    pub signal: String,
}

/// The signal of a name in capital letters without its prefix.
pub open spec fn named_signal(name: Seq<char>) -> Option<i32> {
    if name == "KILL"@ {
        Some(SIGKILL)
    } else if name == "TERM"@ {
        Some(SIGTERM)
    } else if name == "INT"@ {
        Some(SIGINT)
    } else if name == "HUP"@ {
        Some(SIGHUP)
    } else if name == "QUIT"@ {
        Some(SIGQUIT)
    } else if name == "USR1"@ {
        Some(SIGUSR1)
    } else if name == "USR2"@ {
        Some(SIGUSR2)
    } else if name == "STOP"@ {
        Some(SIGSTOP)
    } else if name == "CONT"@ {
        Some(SIGCONT)
    } else {
        None
    }
}

/// The signal that a text in capital letters names, by its name with or without
/// the prefix `SIG`, or by its number.
pub open spec fn signal_in(upper: Seq<char>) -> Option<i32> {
    let name = if text::has_prefix(upper, "SIG"@) { upper.skip(3) } else { upper };
    match named_signal(name) {
        Some(s) => Some(s),
        None => number::parsed_i32(name),
    }
}

/// The signal that a text names, in small or in capital letters.
pub open spec fn signal_of(name: Seq<char>) -> Option<i32> {
    signal_in(case::uppercase_of(name))
}

/// The signal that a text in capital letters names.
pub fn read_signal(upper: &str) -> (r: Option<i32>)
    ensures
        r == signal_in(upper@),
{
    proof {
        reveal_strlit("SIG");
        assert("SIG"@.len() == 3);
    }
    let name: &str = match strip_prefix(upper, "SIG") {
        Some(rest) => rest,
        None => upper,
    };
    if str_eq(name, "KILL") {
        Some(SIGKILL)
    } else if str_eq(name, "TERM") {
        Some(SIGTERM)
    } else if str_eq(name, "INT") {
        Some(SIGINT)
    } else if str_eq(name, "HUP") {
        Some(SIGHUP)
    } else if str_eq(name, "QUIT") {
        Some(SIGQUIT)
    } else if str_eq(name, "USR1") {
        Some(SIGUSR1)
    } else if str_eq(name, "USR2") {
        Some(SIGUSR2)
    } else if str_eq(name, "STOP") {
        Some(SIGSTOP)
    } else if str_eq(name, "CONT") {
        Some(SIGCONT)
    } else {
        parse_i32(name)
    }
}

/// The signal that a text names.
pub fn parse_signal(name: &str) -> (r: Result<i32, String>)
    ensures
        match signal_of(name@) {
            Some(s) => r == Ok::<i32, String>(s),
            None => r matches Err(e) && e@ == "Unknown signal: "@ + name@,
        },
{
    let upper = to_uppercase(name);
    match read_signal(&upper) {
        Some(s) => Ok(s),
        None => Err(cat2("Unknown signal: ", name)),
    }
}

/// Whether a signal ends a box.
pub open spec fn stopping(signal: i32) -> bool {
    signal == SIGKILL || signal == SIGTERM || signal == SIGINT || signal == SIGHUP || signal == SIGQUIT
}

/// Whether a signal ends a box.
pub fn is_stopping_signal(signal: i32) -> (r: bool)
    ensures
        r == stopping(signal),
{
    signal == SIGKILL || signal == SIGTERM || signal == SIGINT || signal == SIGHUP || signal == SIGQUIT
}

/// What a box that a signal ended exits with.
pub fn signaled_exit_code(signal: i32) -> (r: i32)
    requires
        signal <= i32::MAX - 128,
    ensures
        r == 128 + signal,
{
    128 + signal
}

/// The status that a signal gives a box without ending it.
pub open spec fn transition(signal: i32) -> Option<Seq<char>> {
    if signal == SIGSTOP {
        Some("paused"@)
    } else if signal == SIGCONT {
        Some("running"@)
    } else {
        None
    }
}

/// The status that a signal gives a box without ending it.
pub fn signal_status_transition(signal: i32) -> (r: Option<&'static str>)
    ensures
        match transition(signal) {
            Some(s) => r matches Some(x) && x@ == s,
            None => r is None,
        },
{
    if signal == SIGSTOP {
        Some("paused")
    } else if signal == SIGCONT {
        Some("running")
    } else {
        None
    }
}

/// Whether a box has to go on before a signal can end it: a paused box takes no
/// signal but the one that cannot be held back.
pub fn resumes_first(record: &BoxRecord, signal: i32) -> (r: bool)
    ensures
        r == (record@.status == "paused"@ && stopping(signal) && signal != SIGKILL),
{
    str_eq(&record.status, "paused") && is_stopping_signal(signal) && signal != SIGKILL
}

/// What is said where a signal cannot be sent.
pub fn send_failed(signal: i32, name: &str, pid: u32, error: &str) -> (r: String)
    ensures
        r@ == "Failed to send signal "@ + number::decimal_int(signal as int) + " to box "@ + name@ + (" (PID "@
            + number::decimal(pid as nat) + "): "@ + error@),
{
    let s = i32_text(signal);
    let p = u32_text(pid);
    let tail = cat4(" (PID ", &p, "): ", error);
    let head = cat4("Failed to send signal ", &s, " to box ", name);
    let r = cat2(&head, &tail);
    assert(r@ =~= "Failed to send signal "@ + number::decimal_int(signal as int) + " to box "@ + name@ + (" (PID "@
        + number::decimal(pid as nat) + "): "@ + error@));
    r
}

/// A record of a box that a signal ended.
pub open spec fn killed(r: RecordView, signal: i32) -> RecordView {
    RecordView {
        status: "stopped"@,
        pid: None,
        stopped_by_user: true,
        exit_code: Some((128 + signal) as i32),
        health_status: "none"@,
        health_retries: 0,
        ..r
    }
}

/// A record once a signal is delivered.
pub open spec fn signalled(r: RecordView, signal: i32) -> RecordView {
    if stopping(signal) {
        killed(r, signal)
    } else {
        match transition(signal) {
            Some(s) => RecordView { status: s, ..r },
            None => r,
        }
    }
}

/// What becomes of the records once a signal is delivered: a box that is to be
/// removed when it ends is, and any other keeps its record with what came of
/// the signal.
pub fn after_signal(state: &mut StateFile, box_id: &str, auto_remove: bool, signal: i32) -> (removed: bool)
    ensures
        removed == (stopping(signal) && auto_remove),
        removed ==> final(state)@ == old(state)@.filter(|x: RecordView| x.id != box_id@),
        !removed ==> final(state)@.len() == old(state)@.len() && forall|i: int|
            0 <= i < old(state)@.len() ==> #[trigger] final(state)@[i] == if state::first_with_id(
                old(state)@,
                box_id@,
                i,
            ) {
                signalled(old(state)@[i], signal)
            } else {
                old(state)@[i]
            },
{
    if is_stopping_signal(signal) {
        if auto_remove {
            state.remove(box_id);
            return true;
        }
        if let Some(at) = state.position(box_id) {
            let mut record: BoxRecord = state.get(at).clone();
            record.status = "stopped".to_string();
            record.pid = None;
            record.stopped_by_user = true;
            record.exit_code = Some(signaled_exit_code(signal));
            record.health_status = "none".to_string();
            record.health_retries = 0;
            state.set(at, record);
        }
    } else if let Some(status) = signal_status_transition(signal) {
        if let Some(at) = state.position(box_id) {
            let mut record: BoxRecord = state.get(at).clone();
            record.status = status.to_string();
            state.set(at, record);
        }
    }
    false
}

/// The line that says which box took a signal.
pub fn signalled_line(name: &str, removed: bool) -> (r: String)
    ensures
        r@ == if removed { name@ + " (auto-removed)"@ } else { name@ },
{
    if removed {
        cat2(name, " (auto-removed)")
    } else {
        name.to_string()
    }
}

/// A signal that ends a box leaves it neither running nor paused; one that
/// pauses it leaves it paused and one that lets it go on leaves it running.
pub proof fn lemma_signal_status(r: RecordView, signal: i32)
    ensures
        stopping(signal) ==> !state::active(signalled(r, signal).status),
        signal == SIGSTOP ==> signalled(r, signal).status == "paused"@,
        signal == SIGCONT ==> signalled(r, signal).status == "running"@,
        signalled(r, signal).id == r.id && signalled(r, signal).name == r.name,
{
    reveal_strlit("stopped");
    reveal_strlit("running");
    reveal_strlit("paused");
    assert("stopped"@[0] == 's' && "running"@[0] == 'r' && "paused"@[0] == 'p');
}

/// Each name that a signal has gives the number the system knows it by, with `SIG`
/// before it or without, and no two names of signals give the same.
pub proof fn lemma_signal_numbers(s: &str, r: Option<i32>)
    requires
        call_ensures(read_signal, (s,), r),
    ensures
        s@ == "KILL"@ ==> r == Some(9i32),
        s@ == "TERM"@ ==> r == Some(15i32),
        s@ == "INT"@ ==> r == Some(2i32),
        s@ == "HUP"@ ==> r == Some(1i32),
        s@ == "QUIT"@ ==> r == Some(3i32),
        s@ == "USR1"@ ==> r == Some(10i32),
        s@ == "USR2"@ ==> r == Some(12i32),
        s@ == "STOP"@ ==> r == Some(19i32),
        s@ == "CONT"@ ==> r == Some(18i32),
{
    reveal_strlit("KILL");
    reveal_strlit("TERM");
    reveal_strlit("INT");
    reveal_strlit("HUP");
    reveal_strlit("QUIT");
    reveal_strlit("USR1");
    reveal_strlit("USR2");
    reveal_strlit("STOP");
    reveal_strlit("CONT");
    reveal_strlit("SIG");
    assert("SIG"@[1] == 'I');
    assert("KILL"@.len() == 4 && "KILL"@[0] == 'K' && "TERM"@.len() == 4 && "TERM"@[0] == 'T');
    assert("INT"@.len() == 3 && "INT"@[0] == 'I' && "HUP"@.len() == 3 && "HUP"@[0] == 'H');
    assert("QUIT"@.len() == 4 && "QUIT"@[0] == 'Q' && "STOP"@.len() == 4 && "STOP"@[0] == 'S');
    assert("STOP"@[1] == 'T');
    assert("USR1"@[3] == '1' && "USR2"@[3] == '2' && "USR1"@[0] == 'U' && "USR2"@[0] == 'U');
    assert("CONT"@.len() == 4 && "CONT"@[0] == 'C' && "USR1"@.len() == 4 && "USR2"@.len() == 4);
    if text::has_prefix(s@, "SIG"@) {
        assert(s@.take(3)[0] == s@[0] && s@.take(3)[1] == s@[1]);
        assert("SIG"@[0] == 'S');
    }
}

/// `SIG` before a name or a number changes nothing.
pub proof fn lemma_sig_prefix(name: &str, long: &str, r: Option<i32>, with: Option<i32>)
    requires
        call_ensures(read_signal, (name,), r),
        call_ensures(read_signal, (long,), with),
        long@ == "SIG"@ + name@,
        !text::has_prefix(name@, "SIG"@),
    ensures
        with == r,
{
    reveal_strlit("SIG");
    assert("SIG"@.len() == 3);
    assert(long@.take(3) =~= "SIG"@);
    assert(long@.skip(3) =~= name@);
}

/// The signals that end a box are those that a process ends by: the five of
/// hanging up, interrupting, quitting, killing and terminating. Stopping and
/// continuing end nothing.
pub proof fn lemma_stopping_signals(signal: i32, r: bool, status: Option<&'static str>)
    requires
        call_ensures(is_stopping_signal, (signal,), r),
        call_ensures(signal_status_transition, (signal,), status),
    ensures
        r <==> signal == 1 || signal == 2 || signal == 3 || signal == 9 || signal == 15,
        signal == 19 ==> status is Some && status->0@ == "paused"@,
        signal == 18 ==> status is Some && status->0@ == "running"@,
        status is Some <==> signal == 18 || signal == 19,
        !(r && status is Some),
{
}

/// The exit code of a box that a signal has ended is the signal and 128.
pub proof fn lemma_signal_exit_code(signal: i32, r: i32)
    requires
        signal <= i32::MAX - 128,
        call_ensures(signaled_exit_code, (signal,), r),
    ensures
        r - signal == 128,
{
}

/// After a signal that ends a box, a box that removes itself is gone and every other
/// box is kept; any other has stopped, with the exit code of the signal. After a
/// signal that stops or continues it, it is paused or runs, and after any other it
/// is what it was. No other box changes.
pub proof fn lemma_after_signal(
    state: &mut StateFile,
    box_id: &str,
    auto_remove: bool,
    signal: i32,
    removed: bool,
    i: int,
)
    requires
        0 <= signal <= 64,
        call_ensures(after_signal, (state, box_id, auto_remove, signal), removed),
        0 <= i < old(state)@.len(),
    ensures
        ({
            let ends = signal == 1 || signal == 2 || signal == 3 || signal == 9 || signal == 15;
            let before = old(state)@[i];
            let after = final(state)@[i];
            &&& removed <==> ends && auto_remove
            &&& removed && before.id != box_id@ ==> final(state)@.contains(before)
            &&& removed ==> forall|k: int|
                0 <= k < final(state)@.len() ==> (#[trigger] final(state)@[k]).id != box_id@
            &&& !removed ==> final(state)@.len() == old(state)@.len()
            &&& !removed && before.id != box_id@ ==> after == before
            &&& !removed && ends && state::first_with_id(old(state)@, box_id@, i) ==> {
                &&& after.status == "stopped"@ && after.pid is None && after.stopped_by_user
                &&& after.exit_code is Some && after.exit_code->0 == signal + 128
                &&& after.health_status == "none"@ && after.health_retries == 0
                &&& after.name == before.name && after.id == before.id && after.restart_policy
                    == before.restart_policy
            }
            &&& signal == 19 && state::first_with_id(old(state)@, box_id@, i) ==> after.status
                == "paused"@ && after.pid == before.pid && after.exit_code == before.exit_code
            &&& signal == 18 && state::first_with_id(old(state)@, box_id@, i) ==> after.status
                == "running"@ && after.pid == before.pid && after.exit_code == before.exit_code
            &&& !ends && signal != 18 && signal != 19 ==> after == before
        }),
{
    if removed {
        let keep = |x: RecordView| x.id != box_id@;
        assert(final(state)@ =~= old(state)@.filter(keep));
        assert forall|k: int| 0 <= k < final(state)@.len() implies (#[trigger] final(state)@[k]).id
            != box_id@ by {
            old(state)@.lemma_filter_pred(keep, k);
        }
        if old(state)@[i].id != box_id@ {
            old(state)@.lemma_filter_contains(keep, i);
        }
    }
}

/// A paused box is resumed before a signal that it would have to take itself, which
/// is each that ends it but the kill.
pub proof fn lemma_resumed_to_take_a_signal(record: BoxRecord, signal: i32, r: bool)
    requires
        call_ensures(resumes_first, (&record, signal), r),
    ensures
        r ==> record.status@ == "paused"@,
        record.status@ == "paused"@ && (signal == 1 || signal == 2 || signal == 3 || signal == 15) ==> r,
        signal == 9 || signal == 18 || signal == 19 || signal == 10 || signal == 12 ==> !r,
{
}

/// A signal that is known is sent by its number, and one that is not is refused by its
/// name.
pub proof fn lemma_signal_read(name: &str, upper: &str, read: Option<i32>, r: Result<i32, String>)
    requires
        upper@ == case::uppercase_of(name@),
        call_ensures(read_signal, (upper,), read),
        call_ensures(parse_signal, (name,), r),
    ensures
        r is Ok <==> read is Some,
        r is Ok ==> r->Ok_0 == read->0,
        r is Err ==> text::has_suffix(r->Err_0@, name@),
{
    if r is Err {
        text::lemma_cat_holds_both("Unknown signal: "@, name@);
    }
}

/// A signal may be given by its number.
pub proof fn lemma_signal_by_number(s: &str, n: u16, r: Option<i32>)
    requires
        call_ensures(read_signal, (s,), r),
        s@ == number::decimal(n as nat),
    ensures
        r == Some(n as i32),
{
    number::lemma_decimal_value(n as nat);
    let d = s@;
    assert(number::is_digit(d[0]));
    reveal_strlit("KILL");
    reveal_strlit("TERM");
    reveal_strlit("INT");
    reveal_strlit("HUP");
    reveal_strlit("QUIT");
    reveal_strlit("USR1");
    reveal_strlit("USR2");
    reveal_strlit("STOP");
    reveal_strlit("CONT");
    reveal_strlit("SIG");
    assert("KILL"@[0] == 'K' && "TERM"@[0] == 'T' && "INT"@[0] == 'I' && "HUP"@[0] == 'H' && "QUIT"@[0]
        == 'Q' && "USR1"@[0] == 'U' && "USR2"@[0] == 'U' && "STOP"@[0] == 'S' && "CONT"@[0] == 'C'
        && "SIG"@[0] == 'S');
    if text::has_prefix(d, "SIG"@) {
        assert(d.take(3)[0] == d[0]);
    }
    assert(number::parsed_i32(d) == Some(n as i32));
}

} // verus!
