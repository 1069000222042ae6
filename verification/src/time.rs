//! Points in time as text.

use vstd::prelude::*;

use crate::state::Timestamp;
use crate::text;

verus! {

/// The point in time, in seconds and nanoseconds, that
/// `chrono::DateTime::parse_from_rfc3339` reads from a text.
pub uninterp spec fn rfc3339_of(s: Seq<char>) -> Option<(i64, u32)>;

/// The point in time, in seconds and nanoseconds, that a text is parsed into as
/// a `chrono::DateTime<chrono::Utc>`.
pub uninterp spec fn utc_of(s: Seq<char>) -> Option<(i64, u32)>;

/// What `chrono::DateTime::format` writes of a point in time, in seconds and
/// nanoseconds, with a pattern; nothing for a point in time that chrono does not
/// represent.
pub uninterp spec fn formatted_utc(secs: i64, nanos: u32, pattern: Seq<char>) -> Option<Seq<char>>;

/// What `chrono::DateTime::to_rfc3339` writes of a point in time in UTC, in
/// seconds and nanoseconds.
pub uninterp spec fn rfc3339_text(secs: i64, nanos: u32) -> Seq<char>;

/// What an optional point in time holds.
pub open spec fn opt_time(o: Option<Timestamp>) -> Option<(i64, u32)> {
    match o {
        Some(t) => Some((t.secs, t.nanos)),
        None => None,
    }
}

/// The pattern of the time in an event: up to microseconds.
pub const EVENT_PATTERN: &'static str = "%Y-%m-%dT%H:%M:%S%.6fZ";

/// The pattern of the time in a listing: up to minutes.
pub const LIST_PATTERN: &'static str = "%Y-%m-%d %H:%M";

/// `chrono::DateTime::parse_from_rfc3339`: the point in time that an RFC 3339
/// text stands for, whatever its offset, or nothing where the text is no such
/// text. It is named after the text alone.
#[verifier::external_body]
pub(crate) fn parse_rfc3339(s: &str) -> (r: Option<Timestamp>)
    ensures
        opt_time(r) == rfc3339_of(s@),
{
    match chrono::DateTime::parse_from_rfc3339(s) {
        Ok(t) => Some(Timestamp { secs: t.timestamp(), nanos: t.timestamp_subsec_nanos() }),
        Err(_) => None,
    }
}

/// `str::parse` into `chrono::DateTime<chrono::Utc>`: the point in time that a
/// text of the relaxed form of RFC 3339 stands for, or nothing where it is no
/// such text. It is named after the text alone.
#[verifier::external_body]
pub(crate) fn parse_utc(s: &str) -> (r: Option<Timestamp>)
    ensures
        opt_time(r) == utc_of(s@),
{
    match s.parse::<chrono::DateTime<chrono::Utc>>() {
        Ok(t) => Some(Timestamp { secs: t.timestamp(), nanos: t.timestamp_subsec_nanos() }),
        Err(_) => None,
    }
}

/// `chrono::DateTime::format`: a point in time in words, by one of the patterns
/// of this module; nothing where chrono does not represent the point in time.
/// It is named after the point in time and the pattern. chrono represents every
/// point in time from its first second to its last.
#[verifier::external_body]
pub(crate) fn format_utc(t: Timestamp, pattern: &str) -> (r: Option<String>)
    requires
        pattern@ == EVENT_PATTERN@ || pattern@ == LIST_PATTERN@,
    ensures
        text::opt_str(r) == formatted_utc(t.secs, t.nanos, pattern@),
        representable(t) ==> r is Some,
{
    let time = chrono::DateTime::<chrono::Utc>::from_timestamp(t.secs, t.nanos)?;
    Some(time.format(pattern).to_string())
}

/// `chrono::DateTime::to_rfc3339`: a point in time in UTC as an RFC 3339 text.
/// It is named after the point in time.
#[verifier::external_body]
pub(crate) fn to_rfc3339(t: Timestamp) -> (r: String)
    requires
        representable(t),
    ensures
        r@ == rfc3339_text(t.secs, t.nanos),
{
    chrono::DateTime::<chrono::Utc>::from_timestamp(t.secs, t.nanos).unwrap().to_rfc3339()
}

/// The first second that chrono represents.
pub const FIRST_SECOND: i64 = -8_334_601_228_800;

/// The last second that chrono represents.
pub const LAST_SECOND: i64 = 8_210_266_876_799;

/// Whether chrono represents a point in time.
pub open spec fn representable(t: Timestamp) -> bool {
    FIRST_SECOND <= t.secs <= LAST_SECOND && t.nanos < 1_000_000_000
}

/// The number of seconds that the longest duration of chrono has.
pub const LONGEST_SECONDS: i64 = 9_223_372_036_854_775;

/// Whether a point in time a number of seconds back can be represented.
pub open spec fn reaches_back(now: Timestamp, secs: nat) -> bool {
    secs <= LONGEST_SECONDS && now.secs - secs >= FIRST_SECOND
}

/// The point in time a number of seconds back.
pub open spec fn back(now: Timestamp, secs: nat) -> Timestamp {
    Timestamp { secs: (now.secs - secs) as i64, nanos: now.nanos }
}

/// The point in time a number of seconds back.
pub fn seconds_ago(now: Timestamp, secs: u64) -> (r: Timestamp)
    requires
        reaches_back(now, secs as nat),
    ensures
        r == back(now, secs as nat),
{
    Timestamp { secs: now.secs - secs as i64, nanos: now.nanos }
}

/// So many seconds before a point in time lies that much earlier, with the same part
/// of a second; going further back comes to the same in one step or in two.
pub proof fn lemma_seconds_ago(now: Timestamp, a: u64, b: u64, first: Timestamp, second: Timestamp, both: Timestamp)
    requires
        a + b <= u64::MAX,
        reaches_back(now, (a + b) as nat),
        call_ensures(seconds_ago, (now, a), first),
        call_ensures(seconds_ago, (first, b), second),
        call_ensures(seconds_ago, (now, (a + b) as u64), both),
    ensures
        first.secs == now.secs - a,
        first.nanos == now.nanos,
        second == both,
{
}

} // verus!
