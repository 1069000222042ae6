//! `logs`: what a box has written to its console.

use vstd::prelude::*;

use crate::bytes;
use crate::bytes::clip;
use crate::duration;
use crate::duration::parse_duration_secs;
use crate::number;
use crate::number::parse_u64;
use crate::split;
use crate::split::{split_whitespace, trim_end};
use crate::state::{BoxRecord, LogDriver, Timestamp};
use crate::text;
use crate::text::{cat2, cat3, cat4, str_eq};
use crate::time;
use crate::time::{parse_utc, seconds_ago};

verus! {

/// Arguments of `logs`.
#[derive(Debug)]
pub struct LogsArgs {
    /// Box name or ID
    pub box_name: String,
    /// Follow log output
    pub follow: bool,
    /// Number of lines to show from the end, or "all"
    pub tail: Option<String>,
    /// Show logs since timestamp (e.g., "2024-01-01T00:00:00Z", "1h", "30m")
    pub since: Option<String>,
    /// Show logs until timestamp (e.g., "2024-01-01T12:00:00Z", "1h", "30m")
    pub until: Option<String>,
    /// Show timestamps on each line
    pub timestamps: bool,
}

/// Where the log of a box is.
#[derive(Debug)]
pub struct LogSource {
    /// The file.
    pub path: String,
    /// Whether each line of it is a JSON document.
    pub structured: bool,
}

/// A line of a structured log.
#[derive(Debug)]
pub struct LogEntry {
    /// When it was written.
    pub time: String,
    /// What was written, with its end of line.
    pub log: String,
}

// ---------------------------------------------------------------------------
// Where the log is
// ---------------------------------------------------------------------------

/// A box whose logging is turned off has no log.
pub fn check_logging(record: &BoxRecord) -> (r: Result<(), String>)
    ensures
        match r {
            Ok(_) => record@.log_config.driver != LogDriver::Disabled,
            Err(e) => record@.log_config.driver == LogDriver::Disabled && e@
                == "Logging is disabled for box "@ + record@.name + " (log-driver=none)"@,
        },
{
    if record.log_config.driver == LogDriver::Disabled {
        Err(
            cat3(
                "Logging is disabled for box ",
                record.name.as_str(),
                " (log-driver=none)",
            ),
        )
    } else {
        Ok(())
    }
}

/// Where the log of a box is: the structured log, else the console's; nothing
/// where there is neither. `json_log` is where the structured log would be.
pub fn resolve_log_source(
    record: &BoxRecord,
    json_log: &str,
    json_exists: bool,
    console_exists: bool,
) -> (r: Option<LogSource>)
    ensures
        match r {
            Some(s) => if json_exists {
                s.structured && s.path@ == json_log@
            } else {
                console_exists && !s.structured && s.path@ == record@.console_log
            },
            None => !json_exists && !console_exists,
        },
{
    if json_exists {
        return Some(LogSource { path: json_log.to_string(), structured: true });
    }
    if console_exists {
        return Some(LogSource { path: record.console_log.clone(), structured: false });
    }
    None
}

/// Whether `logs` waits for a log that is not there yet.
pub fn waits_for_log(follow: bool, record: &BoxRecord) -> (r: bool)
    ensures
        r == (follow && record@.status == "running"@),
{
    follow && str_eq(record.status.as_str(), "running")
}

/// What a look for a log that is waited for comes to.
#[derive(Debug)]
pub enum WaitForLog {
    /// It is there.
    Found {
        /// Where it is.
        source: LogSource,
    },
    /// It will not come.
    GiveUp,
    /// It may still come: look again after a while.
    Again,
}

/// Milliseconds between two looks for more of a log.
pub const LOG_POLL_MS: u64 = 200;

/// What a look for a log that is waited for comes to. `record` is the box's
/// record, where the state still has one, and `source` is where its log is.
pub fn wait_for_log_source(record: Option<&BoxRecord>, source: Option<LogSource>) -> (r: WaitForLog)
    ensures
        match record {
            None => r is GiveUp,
            Some(rec) => match source {
                Some(s) => r == (WaitForLog::Found { source: s }),
                None => if rec@.status != "running"@ || rec@.log_config.driver
                    == LogDriver::Disabled {
                    r is GiveUp
                } else {
                    r is Again
                },
            },
        },
{
    match record {
        None => WaitForLog::GiveUp,
        Some(rec) => match source {
            Some(source) => WaitForLog::Found { source },
            None => if !str_eq(rec.status.as_str(), "running") || rec.log_config.driver
                == LogDriver::Disabled {
                WaitForLog::GiveUp
            } else {
                WaitForLog::Again
            },
        },
    }
}

// ---------------------------------------------------------------------------
// Points in time
// ---------------------------------------------------------------------------

/// What `{:?}` writes of a text.
pub uninterp spec fn debug_of(s: Seq<char>) -> Seq<char>;

/// `format!` with `{:?}` of a `str`: the text in quotation marks, with what
/// cannot stand there escaped. It is named after the text alone.
#[verifier::external_body]
pub(crate) fn debug_text(s: &str) -> (r: String)
    ensures
        r@ == debug_of(s@),
{
    format!("{s:?}")
}

/// The seconds that a relative time stands for, or what is said of a text that
/// stands for none. No time at all is no relative time.
pub open spec fn relative_of(s: Seq<char>) -> Result<u64, Seq<char>> {
    match duration::duration_of(s) {
        None => Err(duration::duration_error(s)),
        Some(n) => if n == 0 {
            Err("Invalid duration: "@ + debug_of(s) + " (resolved to 0)"@)
        } else {
            Ok(n)
        },
    }
}

/// Parse a relative duration (e.g. `30s`, `5m`, `1h`, `2d`, `1h30m`) into
/// seconds for `--since`/`--until`. A zero duration is rejected because a
/// relative time offset of 0 is not meaningful for log filtering.
pub fn parse_duration(s: &str) -> (r: Result<u64, String>)
    ensures
        match r {
            Ok(n) => relative_of(s@) == Ok::<u64, Seq<char>>(n),
            Err(e) => relative_of(s@) == Err::<u64, Seq<char>>(e@),
        },
{
    match parse_duration_secs(s) {
        Err(e) => Err(e),
        Ok(n) => if n == 0 {
            let shown: String = debug_text(s);
            Err(cat3("Invalid duration: ", shown.as_str(), " (resolved to 0)"))
        } else {
            Ok(n)
        },
    }
}

/// Parse a time filter string into a point in time.
///
/// Accepts:
/// - ISO 8601 timestamps: "2024-01-01T00:00:00Z"
/// - Relative durations: "1h", "30m", "2h30m", "1d"
pub fn parse_time_filter(s: &str, now: Timestamp) -> (r: Result<Timestamp, String>)
    requires
        duration::duration_of(s@) is Some ==> time::reaches_back(
            now,
            duration::duration_of(s@)->0 as nat,
        ),
    ensures
        match time::utc_of(s@) {
            Some((secs, nanos)) => r == Ok::<Timestamp, String>(Timestamp { secs, nanos }),
            None => match r {
                Ok(t) => relative_of(s@) is Ok && t == time::back(
                    now,
                    relative_of(s@)->Ok_0 as nat,
                ),
                Err(e) => relative_of(s@) == Err::<u64, Seq<char>>(e@),
            },
        },
{
    match parse_utc(s) {
        Some(t) => Ok(t),
        None => match parse_duration(s) {
            Ok(n) => Ok(seconds_ago(now, n)),
            Err(e) => Err(e),
        },
    }
}

/// Whether a point in time lies in a range. A range may be open at either end.
pub open spec fn within(t: Timestamp, since: Option<Timestamp>, until: Option<Timestamp>) -> bool {
    (since is Some ==> !t.before(since->0)) && (until is Some ==> !until->0.before(t))
}

/// Whether a point in time lies in a range.
pub fn is_within(t: &Timestamp, since: &Option<Timestamp>, until: &Option<Timestamp>) -> (r: bool)
    ensures
        r == within(*t, *since, *until),
{
    match since {
        Some(s) => if t.is_before(s) {
            return false;
        },
        None => {},
    }
    match until {
        Some(u) => if u.is_before(t) {
            return false;
        },
        None => {},
    }
    true
}

/// The word at the beginning of a line that may be its time.
pub open spec fn time_word(line: Seq<char>) -> Option<Seq<char>> {
    let words = split::word_list(bytes::clipped(line, 35));
    if words.len() == 0 {
        None
    } else {
        Some(words[0])
    }
}

/// The point in time at the beginning of a line.
pub open spec fn line_time(line: Seq<char>) -> Option<(i64, u32)> {
    match time_word(line) {
        Some(w) => time::utc_of(w),
        None => None,
    }
}

/// The word at the beginning of a line that may be its time.
pub fn first_word(line: &str) -> (r: Option<String>)
    requires
        bytes::cuttable(line@, 35),
    ensures
        text::opt_str(r) == time_word(line@),
{
    let prefix: &str = clip(line, 35);
    let words: Vec<String> = split_whitespace(prefix);
    if words.len() == 0 {
        None
    } else {
        assert(text::strs(words@)[0] == words@[0]@);
        Some(words[0].clone())
    }
}

/// Try to extract an ISO 8601 timestamp from the beginning of a log line.
pub fn extract_line_timestamp(line: &str) -> (r: Option<Timestamp>)
    requires
        bytes::cuttable(line@, 35),
    ensures
        time::opt_time(r) == line_time(line@),
{
    match first_word(line) {
        Some(w) => parse_utc(w.as_str()),
        None => None,
    }
}

/// Whether a line whose time is given falls into a range. A line without a time
/// does.
pub fn time_in_range(t: &Option<Timestamp>, since: &Option<Timestamp>, until: &Option<Timestamp>) -> (r:
    bool)
    ensures
        r == (t is Some ==> within(t->0, *since, *until)),
{
    match t {
        Some(t) => is_within(t, since, until),
        None => true,
    }
}

/// Whether a line falls into a range, by the time at its beginning.
pub open spec fn in_range(
    line: Seq<char>,
    since: Option<Timestamp>,
    until: Option<Timestamp>,
) -> bool {
    match line_time(line) {
        Some((secs, nanos)) => within(Timestamp { secs, nanos }, since, until),
        None => true,
    }
}

/// Check if a log line falls within the [since, until] time range.
///
/// Tries to extract a timestamp from the beginning of the line. If no timestamp
/// is found, the line is included (permissive).
pub fn line_in_range(line: &str, since: &Option<Timestamp>, until: &Option<Timestamp>) -> (r: bool)
    requires
        bytes::cuttable(line@, 35),
    ensures
        r == in_range(line@, *since, *until),
{
    let t: Option<Timestamp> = extract_line_timestamp(line);
    time_in_range(&t, since, until)
}

/// An open range takes every line.
pub proof fn lemma_open_range(line: Seq<char>)
    ensures
        in_range(line, None, None),
{
}

// ---------------------------------------------------------------------------
// What is printed
// ---------------------------------------------------------------------------

/// What is printed of a structured line: its text, with its time in front where
/// that is asked for; nothing where its time lies outside the range. A line
/// that could not be read is printed as it is.
pub open spec fn json_output(
    raw: Seq<char>,
    entry: Option<(Seq<char>, Seq<char>)>,
    timestamps: bool,
    since: Option<Timestamp>,
    until: Option<Timestamp>,
) -> Option<Seq<char>> {
    match entry {
        None => Some(raw + "\n"@),
        Some((written, log)) => {
            let outside = match time::utc_of(written) {
                Some((secs, nanos)) => !within(Timestamp { secs, nanos }, since, until),
                None => false,
            };
            if outside {
                None
            } else if timestamps {
                Some(written + " "@ + log)
            } else {
                Some(log)
            }
        },
    }
}

/// What a line of a structured log holds.
pub open spec fn entry_parts(e: Option<LogEntry>) -> Option<(Seq<char>, Seq<char>)> {
    match e {
        Some(e) => Some((e.time@, e.log@)),
        None => None,
    }
}

/// What is printed of a structured line. `entry` is what it was read as, where
/// it could be read.
pub fn print_json_line(
    raw: &str,
    entry: &Option<LogEntry>,
    timestamps: bool,
    since: &Option<Timestamp>,
    until: &Option<Timestamp>,
) -> (r: Option<String>)
    ensures
        text::opt_str(r) == json_output(
            raw@,
            entry_parts(*entry),
            timestamps,
            *since,
            *until,
        ),
{
    match entry {
        None => Some(cat2(raw, "\n")),
        Some(e) => {
            let t: Option<Timestamp> = parse_utc(e.time.as_str());
            if !time_in_range(&t, since, until) {
                None
            } else if timestamps {
                Some(cat3(e.time.as_str(), " ", e.log.as_str()))
            } else {
                Some(e.log.clone())
            }
        },
    }
}

/// A line with its end, with the present time in front where that is asked for.
pub open spec fn line_output(line: Seq<char>, timestamps: bool, now: Seq<char>) -> Seq<char> {
    if timestamps {
        now + " "@ + line + "\n"@
    } else {
        line + "\n"@
    }
}

/// Print a log line, optionally prepending a timestamp.
pub fn print_line(line: &str, timestamps: bool, now: &str) -> (r: String)
    ensures
        r@ == line_output(line@, timestamps, now@),
{
    if timestamps {
        cat4(now, " ", line, "\n")
    } else {
        cat2(line, "\n")
    }
}

/// What decides on the lines that are printed.
#[derive(Debug)]
pub struct LogFilter {
    /// Whether a time is put in front of each line.
    pub timestamps: bool,
    /// From when on.
    pub since: Option<Timestamp>,
    /// Up to when.
    pub until: Option<Timestamp>,
    /// The present time in words.
    pub now: String,
}

/// A line of a log as it was read.
#[derive(Debug)]
pub struct RawLine {
    /// The line.
    pub text: String,
    /// What it holds, where the log is structured and the line could be read.
    pub entry: Option<LogEntry>,
}

/// Whether the lines can be shown by their time.
pub open spec fn can_filter(lines: Seq<RawLine>, structured: bool, f: LogFilter) -> bool {
    !structured && (f.since is Some || f.until is Some) ==> forall|i: int|
        0 <= i < lines.len() ==> bytes::cuttable((#[trigger] lines[i]).text@, 35)
}

/// What is printed of a line.
pub open spec fn shown_line(line: RawLine, structured: bool, f: LogFilter) -> Option<Seq<char>> {
    if structured {
        json_output(line.text@, entry_parts(line.entry), f.timestamps, f.since, f.until)
    } else if (f.since is Some || f.until is Some) && !in_range(line.text@, f.since, f.until) {
        None
    } else {
        Some(line_output(line.text@, f.timestamps, f.now@))
    }
}

/// What is printed of the lines, one after the other.
pub open spec fn shown_lines(lines: Seq<RawLine>, structured: bool, f: LogFilter) -> Seq<Seq<char>>
    decreases lines.len(),
{
    if lines.len() == 0 {
        seq![]
    } else {
        let before = shown_lines(lines.drop_last(), structured, f);
        match shown_line(lines.last(), structured, f) {
            Some(s) => before.push(s),
            None => before,
        }
    }
}

/// What is printed of a line.
pub fn show_line(line: &RawLine, structured: bool, f: &LogFilter) -> (r: Option<String>)
    requires
        !structured && (f.since is Some || f.until is Some) ==> bytes::cuttable(line.text@, 35),
    ensures
        text::opt_str(r) == shown_line(*line, structured, *f),
{
    if structured {
        return print_json_line(line.text.as_str(), &line.entry, f.timestamps, &f.since, &f.until);
    }
    let filtered: bool = f.since.is_some() || f.until.is_some();
    if filtered && !line_in_range(line.text.as_str(), &f.since, &f.until) {
        return None;
    }
    Some(print_line(line.text.as_str(), f.timestamps, f.now.as_str()))
}

/// How many lines from the end a text asks for: as many as it says, or all of
/// them; nothing where it says no number.
pub open spec fn tail_of(s: Seq<char>) -> Option<usize> {
    if s == "all"@ {
        Some(usize::MAX)
    } else {
        match number::parsed_u64(s) {
            Some(n) => if n <= usize::MAX {
                Some(n as usize)
            } else {
                None
            },
            None => None,
        }
    }
}

/// How many lines from the end a text asks for.
pub fn parse_tail(s: &str) -> (r: Option<usize>)
    ensures
        r == tail_of(s@),
{
    if str_eq(s, "all") {
        return Some(usize::MAX);
    }
    match parse_u64(s) {
        Some(n) => if n <= usize::MAX as u64 {
            Some(n as usize)
        } else {
            None
        },
        None => None,
    }
}

/// The lines of a log that are looked at first: the last ones where a number is
/// given, none where the log is only followed, else all.
pub open spec fn first_lines(lines: Seq<RawLine>, tail: Option<usize>, follow: bool) -> Seq<RawLine> {
    match tail {
        Some(n) => if lines.len() <= n {
            lines
        } else {
            lines.skip(lines.len() - n)
        },
        None => if follow {
            seq![]
        } else {
            lines
        },
    }
}

/// What is printed of a log at first.
pub fn stream_logs(
    lines: &Vec<RawLine>,
    structured: bool,
    tail: Option<usize>,
    follow: bool,
    f: &LogFilter,
) -> (r: Vec<String>)
    requires
        can_filter(first_lines(lines@, tail, follow), structured, *f),
    ensures
        text::strs(r@) == shown_lines(first_lines(lines@, tail, follow), structured, *f),
{
    broadcast use crate::text::lemma_strs_push;

    let start: usize = match tail {
        Some(n) => if lines.len() <= n {
            0
        } else {
            lines.len() - n
        },
        None => if follow {
            lines.len()
        } else {
            0
        },
    };
    let ghost chosen = first_lines(lines@, tail, follow);
    let mut out: Vec<String> = Vec::new();
    let mut i: usize = start;
    proof {
        assert(chosen =~= lines@.skip(start as int));
        assert(chosen.take(0) =~= Seq::<RawLine>::empty());
        assert(text::strs(out@) =~= Seq::<Seq<char>>::empty());
    }
    while i < lines.len()
        invariant
            start <= i <= lines.len(),
            chosen == lines@.skip(start as int),
            can_filter(chosen, structured, *f),
            text::strs(out@) == shown_lines(chosen.take(i - start), structured, *f),
        decreases lines.len() - i,
    {
        proof {
            assert(chosen.take(i - start + 1).drop_last() =~= chosen.take(i - start));
            assert(chosen.take(i - start + 1).last() == lines@[i as int]);
            assert(chosen[i - start] == lines@[i as int]);
        }
        match show_line(&lines[i], structured, f) {
            Some(s) => {
                out.push(s);
            },
            None => {},
        }
        i = i + 1;
    }
    assert(chosen.take(i - start) =~= chosen);
    out
}

/// What is printed of a line that a followed log has gained: in a structured
/// log as ever; else the line as it was read, with its own end, and by its time
/// without the white space that it ends with.
pub fn follow_line(line: &RawLine, structured: bool, f: &LogFilter) -> (r: Option<String>)
    requires
        !structured && (f.since is Some || f.until is Some) ==> bytes::cuttable(
            split::without_trailing(line.text@),
            35,
        ),
    ensures
        ({
            let trimmed = split::without_trailing(line.text@);
            text::opt_str(r) == if structured {
                json_output(trimmed, entry_parts(line.entry), f.timestamps, f.since, f.until)
            } else if (f.since is Some || f.until is Some) && !in_range(trimmed, f.since, f.until) {
                None
            } else if f.timestamps {
                Some(f.now@ + " "@ + line.text@)
            } else {
                Some(line.text@)
            }
        }),
{
    let trimmed: &str = trim_end(line.text.as_str());
    if structured {
        return print_json_line(trimmed, &line.entry, f.timestamps, &f.since, &f.until);
    }
    let filtered: bool = f.since.is_some() || f.until.is_some();
    if filtered && !line_in_range(trimmed, &f.since, &f.until) {
        return None;
    }
    if f.timestamps {
        Some(cat3(f.now.as_str(), " ", line.text.as_str()))
    } else {
        Some(line.text.clone())
    }
}

/// A tail that is long enough, or none, shows the whole log.
pub proof fn lemma_tail_covers(lines: Seq<RawLine>, n: usize)
    requires
        lines.len() <= n,
    ensures
        first_lines(lines, Some(n), false) == first_lines(lines, None, false),
        first_lines(lines, Some(n), true) == lines,
{
}

// ---------------------------------------------------------------------------
// Which lines are shown
// ---------------------------------------------------------------------------

/// The range is closed at its end: without `--since`, whatever was written at or
/// before `--until` is shown, and nothing that was written later, to the nanosecond.
pub proof fn lemma_until_is_the_end(t: Timestamp, until: Timestamp, r: bool)
    requires
        call_ensures(is_within, (&t, &None::<Timestamp>, &Some(until)), r),
    ensures
        t.secs < until.secs ==> r,
        t.secs == until.secs && t.nanos <= until.nanos ==> r,
        t.secs == until.secs && t.nanos > until.nanos ==> !r,
        t.secs > until.secs ==> !r,
{
}

/// The range is closed at its beginning: without `--until`, whatever was written at
/// or after `--since` is shown, and nothing that was written earlier.
pub proof fn lemma_since_is_the_beginning(t: Timestamp, since: Timestamp, r: bool)
    requires
        call_ensures(is_within, (&t, &Some(since), &None::<Timestamp>), r),
    ensures
        t.secs > since.secs ==> r,
        t.secs == since.secs && t.nanos >= since.nanos ==> r,
        t.secs == since.secs && t.nanos < since.nanos ==> !r,
        t.secs < since.secs ==> !r,
{
}

/// With both bounds a time is in the range exactly where it is in the range of each
/// alone, and with none it always is.
pub proof fn lemma_bounds_combine(
    t: Timestamp,
    since: Timestamp,
    until: Timestamp,
    both: bool,
    first: bool,
    second: bool,
    open: bool,
)
    requires
        call_ensures(is_within, (&t, &Some(since), &Some(until)), both),
        call_ensures(is_within, (&t, &Some(since), &None::<Timestamp>), first),
        call_ensures(is_within, (&t, &None::<Timestamp>, &Some(until)), second),
        call_ensures(is_within, (&t, &None::<Timestamp>, &None::<Timestamp>), open),
    ensures
        both == (first && second),
        open,
{
}

/// A line is in the range where its time is, and a line without a time always is.
pub proof fn lemma_line_goes_by_its_time(
    line: &str,
    since: Option<Timestamp>,
    until: Option<Timestamp>,
    t: Option<Timestamp>,
    r: bool,
)
    requires
        call_ensures(extract_line_timestamp, (line,), t),
        call_ensures(line_in_range, (line, &since, &until), r),
    ensures
        t is None ==> r,
        t is Some && until is Some && t->0.secs > until->0.secs ==> !r,
        t is Some && since is Some && t->0.secs < since->0.secs ==> !r,
        t is Some && since is None && until is Some && t->0.secs < until->0.secs ==> r,
        t is Some && until is None && since is Some && t->0.secs > since->0.secs ==> r,
        since is None && until is None ==> r,
        forall|w: bool| t is Some && call_ensures(is_within, (&t->0, &since, &until), w) ==> r == w,
{
}

/// A line later than `--until`, or earlier than `--since`, is not shown, by the time
/// at its beginning or, in a structured log, by the time of its entry; and with
/// `--timestamps` nothing else is shown than without.
pub proof fn lemma_line_outside_is_hidden(
    line: RawLine,
    structured: bool,
    f: LogFilter,
    r: Option<String>,
)
    requires
        call_ensures(show_line, (&line, structured, &f), r),
    ensures
        ({
            let at = if structured {
                if line.entry is Some {
                    time::utc_of(line.entry->0.time@)
                } else {
                    None
                }
            } else {
                line_time(line.text@)
            };
            let late = at is Some && f.until is Some && ((at->0).0 > f.until->0.secs || ((at->0).0
                == f.until->0.secs && (at->0).1 > f.until->0.nanos));
            let early = at is Some && f.since is Some && ((at->0).0 < f.since->0.secs || ((at->0).0
                == f.since->0.secs && (at->0).1 < f.since->0.nanos));
            r is None <==> late || early
        }),
{
}

/// What is shown of a plain line is the line, behind the time of showing it where
/// times are asked for; of an entry its text, behind its own time; and of a line of a
/// structured log that is no entry, the line as it is.
pub proof fn lemma_shown_text(line: RawLine, structured: bool, f: LogFilter, r: String)
    requires
        call_ensures(show_line, (&line, structured, &f), Some(r)),
    ensures
        !structured && !f.timestamps ==> r@ == line.text@ + "\n"@,
        !structured && f.timestamps ==> r@ == f.now@ + " "@ + line.text@ + "\n"@,
        structured && line.entry is None ==> r@ == line.text@ + "\n"@,
        structured && line.entry is Some && !f.timestamps ==> r@ == line.entry->0.log@,
        structured && line.entry is Some && f.timestamps ==> r@ == line.entry->0.time@ + " "@
            + line.entry->0.log@,
{
}

/// Of a log that is cut at one place, first the lines before the place are shown
/// and then those behind it: each line is shown or not for itself, in the order of
/// the log.
pub proof fn lemma_lines_in_order(
    first: Seq<RawLine>,
    second: Seq<RawLine>,
    structured: bool,
    f: LogFilter,
)
    ensures
        shown_lines(first + second, structured, f) == shown_lines(first, structured, f)
            + shown_lines(second, structured, f),
    decreases second.len(),
{
    if second.len() == 0 {
        assert(first + second =~= first);
        assert(shown_lines(second, structured, f) =~= seq![]);
        assert(shown_lines(first, structured, f) + seq![] =~= shown_lines(first, structured, f));
    } else {
        let all = first + second;
        assert(all.drop_last() =~= first + second.drop_last());
        assert(all.last() == second.last());
        lemma_lines_in_order(first, second.drop_last(), structured, f);
        let a = shown_lines(first, structured, f);
        let b = shown_lines(second.drop_last(), structured, f);
        match shown_line(second.last(), structured, f) {
            Some(s) => {
                assert((a + b).push(s) =~= a + b.push(s));
            },
            None => {},
        }
    }
}

/// Without a filter every line is shown.
pub proof fn lemma_unfiltered_all_shown(
    lines: Seq<RawLine>,
    structured: bool,
    f: LogFilter,
)
    requires
        f.since is None,
        f.until is None,
    ensures
        shown_lines(lines, structured, f).len() == lines.len(),
        forall|i: int|
            0 <= i < lines.len() ==> Some(#[trigger] shown_lines(lines, structured, f)[i])
                == shown_line(lines[i], structured, f),
    decreases lines.len(),
{
    if lines.len() > 0 {
        lemma_unfiltered_all_shown(lines.drop_last(), structured, f);
        let before = shown_lines(lines.drop_last(), structured, f);
        assert forall|i: int| 0 <= i < lines.len() implies Some(
            #[trigger] shown_lines(lines, structured, f)[i],
        ) == shown_line(lines[i], structured, f) by {
            if i < lines.len() - 1 {
                assert(shown_lines(lines, structured, f)[i] == before[i]);
                assert(lines.drop_last()[i] == lines[i]);
            }
        }
    }
}

/// `--tail n` shows the last `n` lines of a log, in their order, or the whole log
/// where it has no more; `--follow` alone shows nothing of what was there before.
pub proof fn lemma_tail_is_the_end(
    lines: Vec<RawLine>,
    structured: bool,
    tail: usize,
    follow: bool,
    f: LogFilter,
    r: Vec<String>,
)
    requires
        call_ensures(stream_logs, (&lines, structured, Some(tail), follow, &f), r),
        f.since is None,
        f.until is None,
    ensures
        r@.len() == if tail < lines@.len() {
            tail as nat
        } else {
            lines@.len()
        },
        forall|i: int|
            0 <= i < r@.len() ==> Some((#[trigger] r@[i])@) == shown_line(
                lines@[lines@.len() - r@.len() + i],
                structured,
                f,
            ),
{
    let l = first_lines(lines@, Some(tail), follow);
    lemma_unfiltered_all_shown(l, structured, f);
    assert(text::strs(r@).len() == r@.len());
    assert forall|i: int| 0 <= i < r@.len() implies Some((#[trigger] r@[i])@) == shown_line(
        lines@[lines@.len() - r@.len() + i],
        structured,
        f,
    ) by {
        assert(text::strs(r@)[i] == r@[i]@);
        assert(l[i] == lines@[lines@.len() - r@.len() + i]);
    }
}

/// Without `--tail` the whole log is shown, and nothing of it where it is only
/// followed.
pub proof fn lemma_whole_or_followed(
    lines: Vec<RawLine>,
    structured: bool,
    f: LogFilter,
    whole: Vec<String>,
    followed: Vec<String>,
)
    requires
        call_ensures(stream_logs, (&lines, structured, None::<usize>, false, &f), whole),
        call_ensures(stream_logs, (&lines, structured, None::<usize>, true, &f), followed),
    ensures
        followed@.len() == 0,
        f.since is None && f.until is None ==> whole@.len() == lines@.len(),
{
    assert(text::strs(followed@).len() == followed@.len());
    assert(text::strs(whole@).len() == whole@.len());
    if f.since is None && f.until is None {
        lemma_unfiltered_all_shown(lines@, structured, f);
    }
}

/// A number of lines is read as it is written, and `all` asks for every line.
pub proof fn lemma_tail_read(s: &str, n: usize, r: Option<usize>)
    requires
        call_ensures(parse_tail, (s,), r),
    ensures
        s@ == "all"@ ==> r == Some(usize::MAX),
        s@ == number::decimal(n as nat) ==> r == Some(n),
        s@.len() == 0 ==> r is None,
{
    reveal_strlit("all");
    number::lemma_decimal_value(n as nat);
    if s@ == number::decimal(n as nat) {
        number::lemma_u64_round_trip(n as u64);
        assert(number::is_digit(s@[0]));
        assert("all"@[0] == 'a');
    }
}

/// The structured log is read where it is there, the console's only where it is
/// not, and there is no log only where there is neither.
pub proof fn lemma_structured_log_first(
    record: BoxRecord,
    json_log: &str,
    json_exists: bool,
    console_exists: bool,
    r: Option<LogSource>,
)
    requires
        call_ensures(resolve_log_source, (&record, json_log, json_exists, console_exists), r),
    ensures
        r is Some <==> json_exists || console_exists,
        r is Some ==> r->0.structured == json_exists,
        r is Some && json_exists ==> r->0.path@ == json_log@,
        r is Some && !json_exists ==> r->0.path@ == record.console_log@,
{
}

/// A log is waited for only while its box runs and writes one.
pub proof fn lemma_wait_for_log_ends(
    record: BoxRecord,
    source: Option<LogSource>,
    follow: bool,
    waits: bool,
    r: WaitForLog,
    gone: WaitForLog,
)
    requires
        call_ensures(wait_for_log_source, (Some(&record), source), r),
        call_ensures(wait_for_log_source, (None::<&BoxRecord>, source), gone),
        call_ensures(waits_for_log, (follow, &record), waits),
    ensures
        gone is GiveUp,
        r is Again ==> source is None && record.status@ == "running"@ && record.log_config.driver
            != LogDriver::Disabled,
        r is Found <==> source is Some,
        r is Found ==> r->source == source->0,
        waits ==> follow && record.status@ == "running"@,
        follow && record.status@ == "running"@ ==> waits,
{
}

/// A box that logs nothing is refused by name, and no other is.
pub proof fn lemma_disabled_log_refused(record: BoxRecord, r: Result<(), String>)
    requires
        call_ensures(check_logging, (&record,), r),
    ensures
        r is Err <==> record.log_config.driver == LogDriver::Disabled,
{
}

/// A time before now is so much earlier as the duration says, and no duration is no
/// time.
pub proof fn lemma_time_filter_read(
    s: &str,
    now: Timestamp,
    secs: Result<u64, String>,
    r: Result<Timestamp, String>,
)
    requires
        duration::duration_of(s@) is Some ==> time::reaches_back(
            now,
            duration::duration_of(s@)->0 as nat,
        ),
        call_ensures(duration::parse_duration_secs, (s,), secs),
        call_ensures(parse_time_filter, (s, now), r),
    ensures
        time::utc_of(s@) is Some ==> r is Ok && (r->Ok_0.secs, r->Ok_0.nanos) == time::utc_of(s@)->0,
        time::utc_of(s@) is None && r is Ok ==> secs is Ok && r->Ok_0.secs == now.secs - secs->Ok_0
            && r->Ok_0.nanos == now.nanos && r->Ok_0.secs < now.secs,
        time::utc_of(s@) is None && secs is Ok && secs->Ok_0 > 0 ==> r is Ok,
        time::utc_of(s@) is None && secs is Ok && secs->Ok_0 == 0 ==> r is Err,
        time::utc_of(s@) is None && secs is Err ==> r is Err,
{
}

/// A line that is followed is shown where it would be shown of the log.
pub proof fn lemma_followed_like_shown(
    line: RawLine,
    trimmed: RawLine,
    structured: bool,
    f: LogFilter,
    followed: Option<String>,
    shown: Option<String>,
)
    requires
        trimmed.text@ == split::without_trailing(line.text@),
        trimmed.entry == line.entry,
        call_ensures(follow_line, (&line, structured, &f), followed),
        call_ensures(show_line, (&trimmed, structured, &f), shown),
    ensures
        followed is Some <==> shown is Some,
        structured && followed is Some ==> followed->0@ == shown->0@,
        !structured && followed is Some && !f.timestamps ==> followed->0@ == line.text@,
        !structured && followed is Some && f.timestamps ==> followed->0@ == f.now@ + " "@ + line.text@,
{
}

/// The time of a plain line is looked for in its first word, where that is short enough.
pub proof fn lemma_first_word_of_line(line: &str, word: Seq<char>, rest: Seq<char>, r: Option<String>)
    requires
        crate::case::plain(line@),
        line@ == word + seq![' '] + rest,
        0 < word.len() < 35,
        forall|i: int| 0 <= i < word.len() ==> !split::is_white(#[trigger] word[i]),
        call_ensures(first_word, (line,), r),
    ensures
        r is Some,
        r->0@ == word,
{
    bytes::lemma_clip_plain(line@, 35);
    let t = bytes::clipped(line@, 35);
    let n = word.len() as int;
    assert forall|j: int| 0 <= j < n implies !split::is_white(t[j]) by {
        assert(t[j] == word[j]);
    }
    assert(t[n] == ' ');
    assert(!split::is_white(t.first()));
    assert(split::without_leading(t) == t);
    split::lemma_word_len(t, n);
    assert(t.take(n) =~= word);
    assert(split::word_list(t)[0] == word);
}

/// An entry of a structured log is shown by its own time: what is outside the range is
/// not shown, and anything else is.
pub proof fn lemma_entry_by_its_time(
    raw: &str,
    e: LogEntry,
    timestamps: bool,
    since: Option<Timestamp>,
    until: Option<Timestamp>,
    r: Option<String>,
)
    requires
        call_ensures(print_json_line, (raw, &Some(e), timestamps, &since, &until), r),
    ensures
        time::utc_of(e.time@) is None ==> r is Some,
        time::utc_of(e.time@) is Some && until is Some && (time::utc_of(e.time@)->0).0 > until->0.secs
            ==> r is None,
        time::utc_of(e.time@) is Some && since is Some && (time::utc_of(e.time@)->0).0 < since->0.secs
            ==> r is None,
        since is None && until is None ==> r is Some,
        r is Some && !timestamps ==> r->0@ == e.log@,
        r is Some && timestamps ==> r->0@ == e.time@ + " "@ + e.log@,
{
}

} // verus!
