//! `events`: what happens to the boxes, seen from one look at the state to the
//! next.

use vstd::prelude::*;

use crate::bytes;
use crate::bytes::clip;
use crate::duration;
use crate::number;
use crate::number::parse_i64;
use crate::split;
use crate::split::{split_once, trim};
use crate::state;
use crate::state::{BoxRecord, RecordView, StateFile, Timestamp};
use crate::strmap;
use crate::strmap::StrMap;
use crate::text;
use crate::text::{cat5, chars_of, str_eq, string_between};
use crate::time;
use crate::time::{format_utc, parse_rfc3339, seconds_ago, EVENT_PATTERN};

verus! {

/// Arguments of `events`.
#[derive(Debug)]
pub struct EventsArgs {
    /// Show events since timestamp (RFC3339 or relative like "5m", "1h")
    pub since: Option<String>,
    /// Show events until timestamp (RFC3339 or relative)
    pub until: Option<String>,
    /// Filter events (e.g., "type=container", "event=start", "name=mybox")
    pub filter: Vec<String>,
    /// Output in JSON format
    pub json: bool,
}

/// A single event record.
#[derive(Debug)]
pub struct Event {
    /// When it happened.
    pub time: Timestamp,
    /// What it happened to.
    pub event_type: String,
    /// What happened.
    pub action: String,
    /// The box that it happened to.
    pub actor: Actor,
}

/// The box of an event.
#[derive(Debug)]
pub struct Actor {
    /// Identifier of the box.
    pub id: String,
    /// Name of the box.
    pub name: String,
    /// Image of the box.
    pub image: String,
}

/// What an [`Event`] holds.
#[verifier::ext_equal]
pub struct EventView {
    pub time: Timestamp,
    pub event_type: Seq<char>,
    pub action: Seq<char>,
    pub id: Seq<char>,
    pub name: Seq<char>,
    pub image: Seq<char>,
}

impl View for Event {
    type V = EventView;

    open spec fn view(&self) -> EventView {
        EventView {
            time: self.time,
            event_type: self.event_type@,
            action: self.action@,
            id: self.actor.id@,
            name: self.actor.name@,
            image: self.actor.image@,
        }
    }
}

/// What a sequence of events holds.
pub open spec fn event_views(v: Seq<Event>) -> Seq<EventView> {
    v.map_values(|e: Event| e@)
}

/// The line of an event, but for its time.
pub open spec fn event_words(e: EventView) -> Seq<char> {
    " "@ + e.event_type + " "@ + e.action + " "@ + bytes::clipped(e.id, 12) + " (name="@ + e.name
        + ", image="@ + e.image + ")"@
}

impl Event {
    /// The line of an event; nothing where its time cannot be represented.
    pub fn line(&self) -> (r: Option<String>)
        requires
            bytes::cuttable(self@.id, 12),
        ensures
            match (r, time::formatted_utc(self.time.secs, self.time.nanos, EVENT_PATTERN@)) {
                (Some(s), Some(t)) => s@ == t + event_words(self@),
                (None, None) => true,
                _ => false,
            },
    {
        match format_utc(self.time, EVENT_PATTERN) {
            None => None,
            Some(t) => {
                let mut s: String = t;
                let ghost head = s@;
                s.append(self.words().as_str());
                Some(s)
            },
        }
    }

    /// The line of an event, but for its time.
    pub fn words(&self) -> (r: String)
        requires
            bytes::cuttable(self@.id, 12),
        ensures
            r@ == event_words(self@),
    {
        let id: &str = clip(self.actor.id.as_str(), 12);
        let mut s: String = cat5(" ", self.event_type.as_str(), " ", self.action.as_str(), " ");
        s.append(id);
        s.append(" (name=");
        s.append(self.actor.name.as_str());
        s.append(", image=");
        s.append(self.actor.image.as_str());
        s.append(")");
        s
    }
}

// ---------------------------------------------------------------------------
// Points in time
// ---------------------------------------------------------------------------

/// The seconds that a relative time stands for: a number with an optional unit
/// `s`, `m`, `h` or `d` behind it.
pub open spec fn relative_seconds(s: Seq<char>) -> Option<nat> {
    let k = duration::leading_digits(s);
    let digits = s.take(k as int);
    let unit = s.skip(k as int);
    match number::parsed_i64(digits) {
        None => None,
        Some(n) => {
            let factor = if unit.len() == 0 || unit == seq!['s'] {
                1int
            } else if unit == seq!['m'] {
                60
            } else if unit == seq!['h'] {
                3600
            } else if unit == seq!['d'] {
                86400
            } else {
                0
            };
            if factor == 0 || n * factor > i64::MAX {
                None
            } else {
                Some((n * factor) as nat)
            }
        },
    }
}

/// The seconds that a relative time stands for.
pub fn parse_relative(s: &str) -> (r: Option<u64>)
    ensures
        match r {
            Some(n) => relative_seconds(s@) == Some(n as nat),
            None => relative_seconds(s@) is None,
        },
{
    let v: Vec<char> = chars_of(s);
    let mut k: usize = 0;
    while k < v.len() && '0' <= v[k] && v[k] <= '9'
        invariant
            k <= v.len(),
            v@ == s@,
            forall|j: int| 0 <= j < k ==> number::is_digit(#[trigger] s@[j]),
        decreases v.len() - k,
    {
        k = k + 1;
    }
    let num: String = string_between(&v, 0, k);
    proof {
        duration::lemma_leading_digits(s@, k as int);
        assert(num@ =~= s@.take(k as int));
        if num@.len() > 0 {
            assert(number::is_digit(s@[0]));
            assert(num@[0] == s@[0]);
        }
    }
    let n: i64 = match parse_i64(num.as_str()) {
        Some(n) => n,
        None => {
            return None;
        },
    };
    assert(n >= 0);
    let ghost unit = s@.skip(k as int);
    let factor: i64 = if k == v.len() {
        assert(unit.len() == 0);
        1
    } else if k + 1 == v.len() {
        assert(unit =~= seq![v@[k as int]]);
        match v[k] {
            's' => {
                1
            },
            'm' => {
                60
            },
            'h' => {
                3600
            },
            'd' => {
                86400
            },
            _ => {
                proof {
                    assert(unit[0] == v@[k as int]);
                    assert(seq!['s'][0] == 's' && seq!['m'][0] == 'm' && seq!['h'][0] == 'h'
                        && seq!['d'][0] == 'd');
                }
                return None;
            },
        }
    } else {
        assert(unit.len() >= 2);
        return None;
    };
    proof {
        if k + 1 == v.len() {
            assert(unit[0] == v@[k as int]);
            assert(seq!['s'][0] == 's' && seq!['m'][0] == 'm' && seq!['h'][0] == 'h'
                && seq!['d'][0] == 'd');
        }
    }
    match n.checked_mul(factor) {
        Some(secs) => {
            assert(secs >= 0) by (nonlinear_arith)
                requires
                    secs == n * factor,
                    n >= 0,
                    factor >= 1,
            ;
            Some(secs as u64)
        },
        None => {
            assert(n * factor >= 0) by (nonlinear_arith)
                requires
                    n >= 0,
                    factor >= 1,
            ;
            None
        },
    }
}

/// The point in time that a text stands for: an RFC 3339 time, else a time ago.
pub open spec fn time_arg(s: Seq<char>, now: Timestamp) -> Option<Timestamp> {
    let t = split::trimmed(s);
    match time::rfc3339_of(t) {
        Some((secs, nanos)) => Some(Timestamp { secs, nanos }),
        None => match relative_seconds(t) {
            Some(n) => Some(time::back(now, n)),
            None => None,
        },
    }
}

/// Parse a `--since`/`--until` argument: an RFC3339 timestamp, or a relative
/// duration like `30s`, `5m`, `1h`, `2d` interpreted as that long ago.
pub fn parse_time_arg(s: &str, now: Timestamp) -> (r: Option<Timestamp>)
    requires
        relative_seconds(split::trimmed(s@)) is Some ==> time::reaches_back(
            now,
            relative_seconds(split::trimmed(s@))->0,
        ),
    ensures
        r == time_arg(s@, now),
{
    let t: &str = trim(s);
    match parse_rfc3339(t) {
        Some(found) => Some(found),
        None => match parse_relative(t) {
            Some(n) => Some(seconds_ago(now, n)),
            None => None,
        },
    }
}

/// Whether the watch is over: its deadline has passed.
pub fn deadline_passed(until: &Option<Timestamp>, now: &Timestamp) -> (r: bool)
    ensures
        r == (until is Some && until->0.before(*now)),
{
    match until {
        Some(deadline) => deadline.is_before(now),
        None => false,
    }
}

// ---------------------------------------------------------------------------
// Filters
// ---------------------------------------------------------------------------

/// What the texts of the form KEY=VALUE define; others are passed over.
pub open spec fn filter_map(filters: Seq<Seq<char>>) -> Map<Seq<char>, Seq<char>>
    decreases filters.len(),
{
    if filters.len() == 0 {
        Map::empty()
    } else {
        let before = filter_map(filters.drop_last());
        match split::cut(filters.last(), '=') {
            Some((k, v)) => before.insert(k, v),
            None => before,
        }
    }
}

/// What the filters define.
pub fn parse_filters(filters: &Vec<String>) -> (r: StrMap<String>)
    ensures
        strmap::texts(r@) == filter_map(text::strs(filters@)),
{
    let ghost fs = text::strs(filters@);
    let mut map: StrMap<String> = StrMap::new();
    let mut i: usize = 0;
    proof {
        assert(fs.take(0) =~= Seq::<Seq<char>>::empty());
        assert(strmap::texts(map@) =~= Map::empty());
    }
    while i < filters.len()
        invariant
            i <= filters.len(),
            fs == text::strs(filters@),
            strmap::texts(map@) == filter_map(fs.take(i as int)),
        decreases filters.len() - i,
    {
        let ghost was = strmap::texts(map@);
        proof {
            assert(fs.take(i + 1).drop_last() =~= fs.take(i as int));
            assert(fs.take(i + 1).last() == filters@[i as int]@);
        }
        match split_once(filters[i].as_str(), '=') {
            Some((k, v)) => {
                let key: String = k.to_string();
                let value: String = v.to_string();
                map.insert(key, value);
                assert(strmap::texts(map@) =~= was.insert(k@, v@));
            },
            None => {},
        }
        i = i + 1;
    }
    assert(fs.take(i as int) =~= fs);
    map
}

/// Whether an event meets a filter. A filter of another kind is met.
pub open spec fn meets(e: EventView, key: Seq<char>, value: Seq<char>) -> bool {
    if key == "type"@ {
        e.event_type == value
    } else if key == "event"@ || key == "action"@ {
        e.action == value
    } else if key == "name"@ {
        e.name == value
    } else if key == "image"@ {
        e.image == value
    } else {
        true
    }
}

/// Whether an event meets all filters.
pub open spec fn meets_all(e: EventView, filters: Map<Seq<char>, Seq<char>>) -> bool {
    forall|k: Seq<char>| #[trigger] filters.dom().contains(k) ==> meets(e, k, filters[k])
}

/// Whether an event meets a filter.
fn event_meets(event: &Event, key: &str, value: &str) -> (r: bool)
    ensures
        r == meets(event@, key@, value@),
{
    if str_eq(key, "type") {
        str_eq(event.event_type.as_str(), value)
    } else if str_eq(key, "event") || str_eq(key, "action") {
        str_eq(event.action.as_str(), value)
    } else if str_eq(key, "name") {
        str_eq(event.actor.name.as_str(), value)
    } else if str_eq(key, "image") {
        str_eq(event.actor.image.as_str(), value)
    } else {
        true
    }
}

/// Whether an event meets all filters.
pub fn matches_filters(event: &Event, filters: &StrMap<String>) -> (r: bool)
    ensures
        r == meets_all(event@, strmap::texts(filters@)),
{
    let n: usize = filters.len();
    let ghost m = strmap::texts(filters@);
    let mut i: usize = 0;
    while i < n
        invariant
            i <= n,
            n == filters.key_list().len(),
            m == strmap::texts(filters@),
            forall|j: int|
                0 <= j < i ==> meets(
                    event@,
                    #[trigger] filters.key_list()[j],
                    m[filters.key_list()[j]],
                ),
        decreases n - i,
    {
        let (key, value) = filters.entry(i);
        if !event_meets(event, key.as_str(), value.as_str()) {
            assert(m.dom().contains(key@) && !meets(event@, key@, m[key@]));
            return false;
        }
        i = i + 1;
    }
    proof {
        assert forall|k: Seq<char>| #[trigger] m.dom().contains(k) implies meets(event@, k, m[k]) by {
            strmap::lemma_keys(filters, k);
            let j = choose|j: int| 0 <= j < filters.key_list().len() && filters.key_list()[j] == k;
            assert(meets(event@, filters.key_list()[j], m[filters.key_list()[j]]));
        }
    }
    true
}

// ---------------------------------------------------------------------------
// What happened
// ---------------------------------------------------------------------------

/// What happened to a box whose status changed, where something did.
pub open spec fn action_of(old: Option<Seq<char>>, new: Seq<char>) -> Option<Seq<char>> {
    match old {
        None => if new == "created"@ {
            Some("create"@)
        } else if new == "running"@ {
            Some("start"@)
        } else if new == "dead"@ {
            Some("die"@)
        } else {
            None
        },
        Some(o) => if o == new {
            None
        } else if o == "created"@ && new == "running"@ {
            Some("start"@)
        } else if o == "running"@ && new == "paused"@ {
            Some("pause"@)
        } else if o == "paused"@ && new == "running"@ {
            Some("unpause"@)
        } else if o == "dead"@ && new == "running"@ {
            Some("restart"@)
        } else if (o == "exited"@ || o == "stopped"@) && new == "running"@ {
            Some("start"@)
        } else if new == "dead"@ || new == "exited"@ {
            Some("die"@)
        } else if new == "stopped"@ {
            Some("stop"@)
        } else {
            Some("update"@)
        },
    }
}

/// What an optional borrowed text holds.
pub open spec fn opt_slice(o: Option<&str>) -> Option<Seq<char>> {
    match o {
        Some(s) => Some(s@),
        None => None,
    }
}

/// What happened to a box whose status changed, where something did.
pub fn status_to_action(old: Option<&str>, new: &str) -> (r: Option<&'static str>)
    ensures
        opt_slice(r) == action_of(opt_slice(old), new@),
{
    match old {
        None => if str_eq(new, "created") {
            Some("create")
        } else if str_eq(new, "running") {
            Some("start")
        } else if str_eq(new, "dead") {
            Some("die")
        } else {
            None
        },
        Some(o) => if str_eq(o, new) {
            None
        } else if str_eq(o, "created") && str_eq(new, "running") {
            Some("start")
        } else if str_eq(o, "running") && str_eq(new, "paused") {
            Some("pause")
        } else if str_eq(o, "paused") && str_eq(new, "running") {
            Some("unpause")
        } else if str_eq(o, "dead") && str_eq(new, "running") {
            Some("restart")
        } else if (str_eq(o, "exited") || str_eq(o, "stopped")) && str_eq(new, "running") {
            Some("start")
        } else if str_eq(new, "dead") || str_eq(new, "exited") {
            Some("die")
        } else if str_eq(new, "stopped") {
            Some("stop")
        } else {
            Some("update")
        },
    }
}

/// Something has happened to a box that was known before exactly where its
/// status is another one than before.
pub proof fn lemma_action_iff_change(old: Seq<char>, new: Seq<char>)
    ensures
        action_of(Some(old), new) is Some <==> old != new,
{
}

/// The statuses of all boxes by identifier; of records with the same identifier
/// the last counts.
pub open spec fn statuses(records: Seq<RecordView>) -> Map<Seq<char>, Seq<char>>
    decreases records.len(),
{
    if records.len() == 0 {
        Map::empty()
    } else {
        statuses(records.drop_last()).insert(records.last().id, records.last().status)
    }
}

/// Snapshot of box statuses for change detection.
pub fn take_snapshot(state: &StateFile) -> (r: StrMap<String>)
    ensures
        strmap::texts(r@) == statuses(state@),
{
    let mut map: StrMap<String> = StrMap::new();
    let mut i: usize = 0;
    proof {
        assert(state@.take(0) =~= Seq::<RecordView>::empty());
        assert(strmap::texts(map@) =~= Map::empty());
    }
    while i < state.len()
        invariant
            i <= state@.len(),
            strmap::texts(map@) == statuses(state@.take(i as int)),
        decreases state@.len() - i,
    {
        let ghost was = strmap::texts(map@);
        let record: &BoxRecord = state.get(i);
        map.insert(record.id.clone(), record.status.clone());
        proof {
            assert(state@.take(i + 1).drop_last() =~= state@.take(i as int));
            assert(strmap::texts(map@) =~= was.insert(record@.id, record@.status));
        }
        i = i + 1;
    }
    assert(state@.take(i as int) =~= state@);
    map
}

/// The names and images of boxes by identifier.
pub open spec fn who_is(m: Map<Seq<char>, (String, String)>) -> Map<
    Seq<char>,
    (Seq<char>, Seq<char>),
> {
    m.map_values(|p: (String, String)| (p.0@, p.1@))
}

/// What is known of the boxes, with those that were not known before.
pub open spec fn known(
    m: Map<Seq<char>, (Seq<char>, Seq<char>)>,
    records: Seq<RecordView>,
) -> Map<Seq<char>, (Seq<char>, Seq<char>)>
    decreases records.len(),
{
    if records.len() == 0 {
        m
    } else {
        let before = known(m, records.drop_last());
        let r = records.last();
        if before.dom().contains(r.id) {
            before
        } else {
            before.insert(r.id, (r.name, r.image))
        }
    }
}

/// Takes note of the names and images of boxes that were not known before.
pub fn note_actors(actors: &mut StrMap<(String, String)>, state: &StateFile)
    ensures
        who_is(final(actors)@) == known(who_is(old(actors)@), state@),
{
    let ghost start = who_is(actors@);
    let mut i: usize = 0;
    assert(state@.take(0) =~= Seq::<RecordView>::empty());
    while i < state.len()
        invariant
            i <= state@.len(),
            who_is(actors@) == known(start, state@.take(i as int)),
        decreases state@.len() - i,
    {
        let ghost was = who_is(actors@);
        let record: &BoxRecord = state.get(i);
        proof {
            assert(state@.take(i + 1).drop_last() =~= state@.take(i as int));
            assert(state@.take(i + 1).last() == record@);
        }
        if !actors.contains_key(record.id.as_str()) {
            actors.insert(record.id.clone(), (record.name.clone(), record.image.clone()));
            assert(who_is(actors@) =~= was.insert(record@.id, (record@.name, record@.image)));
        }
        i = i + 1;
    }
    assert(state@.take(i as int) =~= state@);
}

/// The event of a box; one that is not known has neither name nor image.
pub open spec fn box_event(
    actors: Map<Seq<char>, (Seq<char>, Seq<char>)>,
    id: Seq<char>,
    action: Seq<char>,
    now: Timestamp,
) -> EventView {
    let (name, image) = if actors.dom().contains(id) {
        actors[id]
    } else {
        (Seq::empty(), Seq::empty())
    };
    EventView { time: now, event_type: "container"@, action, id, name, image }
}

/// Whether an event is shown: it meets the filters and is recent enough.
pub open spec fn shown(
    e: EventView,
    filters: Map<Seq<char>, Seq<char>>,
    since: Option<Timestamp>,
) -> bool {
    meets_all(e, filters) && (since is Some ==> !e.time.before(since->0))
}

/// The event of a box, where it is shown.
pub open spec fn shown_event(
    actors: Map<Seq<char>, (Seq<char>, Seq<char>)>,
    id: Seq<char>,
    action: Option<Seq<char>>,
    filters: Map<Seq<char>, Seq<char>>,
    since: Option<Timestamp>,
    now: Timestamp,
) -> Seq<EventView> {
    match action {
        None => seq![],
        Some(a) => {
            let e = box_event(actors, id, a, now);
            if shown(e, filters, since) {
                seq![e]
            } else {
                seq![]
            }
        },
    }
}

/// The status of a box in a snapshot.
pub open spec fn status_in(m: Map<Seq<char>, Seq<char>>, id: Seq<char>) -> Option<Seq<char>> {
    if m.dom().contains(id) {
        Some(m[id])
    } else {
        None
    }
}

/// What happened to the box between two snapshots, the second of which knows
/// it.
pub open spec fn change_of(
    prev: Map<Seq<char>, Seq<char>>,
    current: Map<Seq<char>, Seq<char>>,
    id: Seq<char>,
) -> Option<Seq<char>> {
    action_of(status_in(prev, id), current[id])
}

/// What happened to the box that the second of two snapshots may not know.
pub open spec fn removal_of(current: Map<Seq<char>, Seq<char>>, id: Seq<char>) -> Option<
    Seq<char>,
> {
    if current.dom().contains(id) {
        None
    } else {
        Some("destroy"@)
    }
}

/// The events of the boxes in turn.
pub open spec fn events_of(
    ids: Seq<Seq<char>>,
    action: spec_fn(Seq<char>) -> Option<Seq<char>>,
    actors: Map<Seq<char>, (Seq<char>, Seq<char>)>,
    filters: Map<Seq<char>, Seq<char>>,
    since: Option<Timestamp>,
    now: Timestamp,
) -> Seq<EventView>
    decreases ids.len(),
{
    if ids.len() == 0 {
        seq![]
    } else {
        events_of(ids.drop_last(), action, actors, filters, since, now) + shown_event(
            actors,
            ids.last(),
            action(ids.last()),
            filters,
            since,
            now,
        )
    }
}

/// Adds the event of a box, where it is shown.
fn push_event(
    out: &mut Vec<Event>,
    actors: &StrMap<(String, String)>,
    id: &str,
    action: &str,
    filters: &StrMap<String>,
    since: &Option<Timestamp>,
    now: Timestamp,
)
    ensures
        event_views(final(out)@) == event_views(old(out)@) + shown_event(
            who_is(actors@),
            id@,
            Some(action@),
            strmap::texts(filters@),
            *since,
            now,
        ),
{
    let (name, image): (String, String) = match actors.get(id) {
        Some(p) => (p.0.clone(), p.1.clone()),
        None => (String::new(), String::new()),
    };
    let event = Event {
        time: now,
        event_type: "container".to_string(),
        action: action.to_string(),
        actor: Actor { id: id.to_string(), name, image },
    };
    let ghost was = event_views(out@);
    let ghost e = event@;
    proof {
        assert(e =~= box_event(who_is(actors@), id@, action@, now));
    }
    let recent: bool = match since {
        Some(s) => !now.is_before(s),
        None => true,
    };
    if matches_filters(&event, filters) && recent {
        out.push(event);
        assert(event_views(out@) =~= was + seq![e]);
    } else {
        assert(was =~= was + seq![]);
    }
}

/// What happened between two snapshots: first to the boxes of the second in
/// turn, then to those that it no longer has.
pub fn detect_events(
    prev: &StrMap<String>,
    current: &StrMap<String>,
    actors: &StrMap<(String, String)>,
    filters: &StrMap<String>,
    since: &Option<Timestamp>,
    now: Timestamp,
) -> (r: Vec<Event>)
    ensures
        ({
            let p = strmap::texts(prev@);
            let c = strmap::texts(current@);
            let f = strmap::texts(filters@);
            let w = who_is(actors@);
            event_views(r@) == events_of(
                current.key_list(),
                |id: Seq<char>| change_of(p, c, id),
                w,
                f,
                *since,
                now,
            ) + events_of(prev.key_list(), |id: Seq<char>| removal_of(c, id), w, f, *since, now)
        }),
{
    let ghost p = strmap::texts(prev@);
    let ghost c = strmap::texts(current@);
    let ghost f = strmap::texts(filters@);
    let ghost w = who_is(actors@);
    let ghost changed = |id: Seq<char>| change_of(p, c, id);
    let ghost removed = |id: Seq<char>| removal_of(c, id);
    let mut out: Vec<Event> = Vec::new();
    let n: usize = current.len();
    let mut i: usize = 0;
    proof {
        assert(current.key_list().take(0) =~= Seq::<Seq<char>>::empty());
        assert(event_views(out@) =~= Seq::<EventView>::empty());
    }
    while i < n
        invariant
            i <= n,
            n == current.key_list().len(),
            p == strmap::texts(prev@),
            c == strmap::texts(current@),
            f == strmap::texts(filters@),
            w == who_is(actors@),
            changed == (|id: Seq<char>| change_of(p, c, id)),
            event_views(out@) == events_of(
                current.key_list().take(i as int),
                changed,
                w,
                f,
                *since,
                now,
            ),
        decreases n - i,
    {
        let (id, status) = current.entry(i);
        let old: Option<&str> = match prev.get(id.as_str()) {
            Some(s) => Some(s.as_str()),
            None => None,
        };
        proof {
            assert(current.key_list().take(i + 1).drop_last() =~= current.key_list().take(i as int));
            assert(current.key_list().take(i + 1).last() == id@);
            assert(opt_slice(old) == status_in(p, id@));
        }
        match status_to_action(old, status.as_str()) {
            Some(action) => {
                push_event(&mut out, actors, id.as_str(), action, filters, since, now);
            },
            None => {
                assert(event_views(out@) =~= event_views(out@) + seq![]);
            },
        }
        i = i + 1;
    }
    let ghost first = event_views(out@);
    assert(current.key_list().take(i as int) =~= current.key_list());
    let m: usize = prev.len();
    let mut i: usize = 0;
    proof {
        assert(prev.key_list().take(0) =~= Seq::<Seq<char>>::empty());
        assert(first =~= first + events_of(prev.key_list().take(0), removed, w, f, *since, now));
    }
    while i < m
        invariant
            i <= m,
            m == prev.key_list().len(),
            c == strmap::texts(current@),
            f == strmap::texts(filters@),
            w == who_is(actors@),
            removed == (|id: Seq<char>| removal_of(c, id)),
            event_views(out@) == first + events_of(
                prev.key_list().take(i as int),
                removed,
                w,
                f,
                *since,
                now,
            ),
        decreases m - i,
    {
        let (id, _) = prev.entry(i);
        proof {
            assert(prev.key_list().take(i + 1).drop_last() =~= prev.key_list().take(i as int));
            assert(prev.key_list().take(i + 1).last() == id@);
        }
        let ghost done = events_of(prev.key_list().take(i as int), removed, w, f, *since, now);
        if !current.contains_key(id.as_str()) {
            push_event(&mut out, actors, id.as_str(), "destroy", filters, since, now);
            proof {
                let e = shown_event(w, id@, Some("destroy"@), f, *since, now);
                assert(first + done + e =~= first + (done + e));
            }
        } else {
            assert(first + done =~= first + (done + seq![]));
        }
        i = i + 1;
    }
    assert(prev.key_list().take(i as int) =~= prev.key_list());
    out
}

// ---------------------------------------------------------------------------
// What is told, and to whom
// ---------------------------------------------------------------------------

/// What a box does is told by what it does: it is created, starts, pauses and goes
/// on, restarts after it died, stops and dies. A box that is as it was does nothing.
pub proof fn lemma_actions_told(old: &str, new: &str, r: Option<&'static str>, first: Option<&'static str>)
    requires
        call_ensures(status_to_action, (Some(old), new), r),
        call_ensures(status_to_action, (None::<&str>, new), first),
    ensures
        old@ == new@ ==> r is None,
        old@ != new@ ==> r is Some,
        old@ == "created"@ && new@ == "running"@ ==> r->0@ == "start"@,
        old@ == "stopped"@ && new@ == "running"@ ==> r->0@ == "start"@,
        old@ == "running"@ && new@ == "paused"@ ==> r->0@ == "pause"@,
        old@ == "paused"@ && new@ == "running"@ ==> r->0@ == "unpause"@,
        old@ == "dead"@ && new@ == "running"@ ==> r->0@ == "restart"@,
        old@ == "running"@ && new@ == "dead"@ ==> r->0@ == "die"@,
        old@ == "running"@ && new@ == "stopped"@ ==> r->0@ == "stop"@,
        old@ == "paused"@ && new@ == "stopped"@ ==> r->0@ == "stop"@,
        new@ == "created"@ ==> first is Some && first->0@ == "create"@,
        new@ == "running"@ ==> first is Some && first->0@ == "start"@,
        new@ == "dead"@ ==> first is Some && first->0@ == "die"@,
        new@ == "paused"@ || new@ == "stopped"@ ==> first is None,
{
    reveal_strlit("created");
    reveal_strlit("running");
    reveal_strlit("paused");
    reveal_strlit("dead");
    reveal_strlit("exited");
    reveal_strlit("stopped");
    assert("created"@[0] == 'c' && "running"@[0] == 'r' && "paused"@[0] == 'p' && "dead"@[0] == 'd'
        && "exited"@[0] == 'e' && "stopped"@[0] == 's');
}

/// An event is shown where it meets every filter; a filter on one thing looks at that
/// thing alone, and a filter on something else is passed over.
pub proof fn lemma_filter_looks_at_one_thing(event: Event, filters: StrMap<String>, k: Seq<char>, r: bool)
    requires
        call_ensures(matches_filters, (&event, &filters), r),
        filters@.dom() == set![k],
    ensures
        k == "type"@ ==> (r <==> event.event_type@ == filters@[k]@),
        k == "action"@ || k == "event"@ ==> (r <==> event.action@ == filters@[k]@),
        k == "name"@ ==> (r <==> event.actor.name@ == filters@[k]@),
        k == "image"@ ==> (r <==> event.actor.image@ == filters@[k]@),
        k != "type"@ && k != "action"@ && k != "event"@ && k != "name"@ && k != "image"@ ==> r,
{
    reveal_strlit("type");
    reveal_strlit("action");
    reveal_strlit("event");
    reveal_strlit("name");
    reveal_strlit("image");
    assert("type"@.len() == 4 && "name"@.len() == 4 && "type"@[0] == 't' && "name"@[0] == 'n');
    assert("event"@.len() == 5 && "image"@.len() == 5 && "event"@[0] == 'e' && "image"@[0] == 'i');
    assert("action"@.len() == 6);
    let m = strmap::texts(filters@);
    assert(m.dom() =~= filters@.dom());
    assert(m.dom().contains(k));
    assert(m[k] == filters@[k]@);
    assert forall|j: Seq<char>| #[trigger] m.dom().contains(j) implies j == k by {
        assert(filters@.dom().contains(j));
    }
    assert(r == meets_all(event@, m));
    assert(meets_all(event@, m) <==> meets(event@, k, m[k]));
}

/// More filters let less through: what meets them all meets each of them.
pub proof fn lemma_filters_narrow(
    event: Event,
    few: StrMap<String>,
    many: StrMap<String>,
    by_few: bool,
    by_many: bool,
)
    requires
        call_ensures(matches_filters, (&event, &few), by_few),
        call_ensures(matches_filters, (&event, &many), by_many),
        forall|k: Seq<char>| #[trigger]
            few@.contains_key(k) ==> many@.contains_key(k) && many@[k] == few@[k],
    ensures
        by_many ==> by_few,
        few@.dom() == Set::<Seq<char>>::empty() ==> by_few,
{
    let f = strmap::texts(few@);
    let m = strmap::texts(many@);
    if by_many {
        assert forall|k: Seq<char>| #[trigger] f.dom().contains(k) implies meets(event@, k, f[k]) by {
            assert(few@.contains_key(k));
            assert(m.dom().contains(k));
            assert(f[k] == m[k]);
        }
    }
    if few@.dom() == Set::<Seq<char>>::empty() {
        assert forall|k: Seq<char>| #[trigger] f.dom().contains(k) implies meets(event@, k, f[k]) by {
            assert(few@.dom().contains(k));
        }
    }
}

/// The deadline has passed only after it, and never where there is none.
pub proof fn lemma_deadline(until: Option<Timestamp>, now: Timestamp, r: bool)
    requires
        call_ensures(deadline_passed, (&until, &now), r),
    ensures
        until is None ==> !r,
        until is Some && now.secs > until->0.secs ==> r,
        until is Some && now.secs < until->0.secs ==> !r,
        until is Some && now.secs == until->0.secs ==> (r <==> now.nanos > until->0.nanos),
{
}

/// A number with a unit behind it is so many of the unit: a minute has 60 seconds, an
/// hour 60 minutes, a day 24 hours; a bare number is one of seconds.
pub proof fn lemma_relative_units(n: u32, s: &str, r: Option<u64>)
    requires
        call_ensures(parse_relative, (s,), r),
    ensures
        s@ == number::decimal(n as nat) || s@ == number::decimal(n as nat).push('s') ==> r is Some
            && r->0 == n,
        s@ == number::decimal(n as nat).push('m') ==> r is Some && r->0 == n * 60,
        s@ == number::decimal(n as nat).push('h') ==> r is Some && r->0 == n * (60 * 60),
        s@ == number::decimal(n as nat).push('d') ==> r is Some && r->0 == n * (24 * 60 * 60),
        s@.len() == 0 ==> r is None,
{
    let d = number::decimal(n as nat);
    let k = d.len() as int;
    number::lemma_decimal_value(n as nat);
    number::lemma_i64_round_trip(n as i64);
    assert(number::decimal_int(n as int) == d);
    if s@.len() >= k && s@.take(k) == d && (s@.len() == k || !number::is_digit(s@[k])) {
        assert forall|j: int| 0 <= j < k implies number::is_digit(#[trigger] s@[j]) by {
            assert(s@.take(k)[j] == d[j]);
        }
        duration::lemma_leading_digits(s@, k);
    }
    assert(d.take(k) =~= d);
    assert(d.push('s').take(k) =~= d && d.push('s').skip(k) =~= seq!['s']);
    assert(d.push('m').take(k) =~= d && d.push('m').skip(k) =~= seq!['m']);
    assert(d.push('h').take(k) =~= d && d.push('h').skip(k) =~= seq!['h']);
    assert(d.push('d').take(k) =~= d && d.push('d').skip(k) =~= seq!['d']);
    assert(seq!['m'][0] != seq!['s'][0] && seq!['h'][0] != seq!['s'][0] && seq!['d'][0] != seq!['s'][0]);
    assert(seq!['h'][0] != seq!['m'][0] && seq!['d'][0] != seq!['m'][0] && seq!['d'][0] != seq!['h'][0]);
    if s@.len() == 0 {
        assert(s@.take(0).len() == 0);
    }
}

/// What is taken down of a state is the status of each box, by its identifier.
pub proof fn lemma_snapshot_has_every_box(state: StateFile, i: int, r: StrMap<String>)
    requires
        call_ensures(take_snapshot, (&state,), r),
        0 <= i < state@.len(),
        forall|j: int| i < j < state@.len() ==> (#[trigger] state@[j]).id != state@[i].id,
    ensures
        r@.contains_key(state@[i].id),
        r@[state@[i].id]@ == state@[i].status,
{
    lemma_statuses(state@, i);
    let m = strmap::texts(r@);
    assert(m.contains_key(state@[i].id));
}

/// The last record of a box gives its status.
proof fn lemma_statuses(records: Seq<RecordView>, i: int)
    requires
        0 <= i < records.len(),
        forall|j: int| i < j < records.len() ==> (#[trigger] records[j]).id != records[i].id,
    ensures
        statuses(records).contains_key(records[i].id),
        statuses(records)[records[i].id] == records[i].status,
    decreases records.len(),
{
    if i < records.len() - 1 {
        let before = records.drop_last();
        assert forall|j: int| i < j < before.len() implies (#[trigger] before[j]).id != before[i].id by {
            assert(before[j] == records[j]);
        }
        lemma_statuses(before, i);
        assert(records[records.len() - 1].id != records[i].id);
    }
}

/// An event of a box tells the box it is of, what it did and when, under the name and
/// with the image it is known by.
pub proof fn lemma_event_of_the_box(
    actors: Map<Seq<char>, (Seq<char>, Seq<char>)>,
    id: Seq<char>,
    action: Seq<char>,
    now: Timestamp,
)
    ensures
        ({
            let e = box_event(actors, id, action, now);
            &&& e.id == id && e.action == action && e.time == now && e.event_type == "container"@
            &&& actors.contains_key(id) ==> (e.name, e.image) == actors[id]
            &&& !actors.contains_key(id) ==> e.name.len() == 0 && e.image.len() == 0
        }),
{
}

/// A box once known keeps its name and image, a new one is known as it is recorded,
/// and no other is.
pub proof fn lemma_known_stay_known(
    m: Map<Seq<char>, (Seq<char>, Seq<char>)>,
    records: Seq<RecordView>,
    i: int,
)
    ensures
        forall|id: Seq<char>| #[trigger]
            m.contains_key(id) ==> known(m, records).contains_key(id) && known(m, records)[id] == m[id],
        0 <= i < records.len() ==> known(m, records).contains_key(records[i].id),
        0 <= i < records.len() && !m.contains_key(records[i].id) && (forall|j: int|
            0 <= j < i ==> (#[trigger] records[j]).id != records[i].id) ==> known(m, records)[records[i].id]
            == (records[i].name, records[i].image),
    decreases records.len(),
{
    if records.len() > 0 {
        let before = records.drop_last();
        lemma_known_stay_known(m, before, i);
        if 0 <= i < records.len() - 1 {
            assert(before[i] == records[i]);
            if !m.contains_key(records[i].id) && (forall|j: int|
                0 <= j < i ==> (#[trigger] records[j]).id != records[i].id) {
                assert forall|j: int| 0 <= j < i implies (#[trigger] before[j]).id != before[i].id by {
                    assert(before[j] == records[j]);
                }
            }
        } else if i == records.len() - 1 {
            if !m.contains_key(records[i].id) && (forall|j: int|
                0 <= j < i ==> (#[trigger] records[j]).id != records[i].id) {
                lemma_not_known(m, before, records[i].id);
            }
        }
    }
}

/// A box that is in no record is not known by them.
proof fn lemma_not_known(
    m: Map<Seq<char>, (Seq<char>, Seq<char>)>,
    records: Seq<RecordView>,
    id: Seq<char>,
)
    requires
        !m.contains_key(id),
        forall|j: int| 0 <= j < records.len() ==> (#[trigger] records[j]).id != id,
    ensures
        !known(m, records).contains_key(id),
    decreases records.len(),
{
    if records.len() > 0 {
        let before = records.drop_last();
        assert forall|j: int| 0 <= j < before.len() implies (#[trigger] before[j]).id != id by {
            assert(before[j] == records[j]);
        }
        lemma_not_known(m, before, id);
        assert(records[records.len() - 1].id != id);
    }
}

/// Every event that is shown meets the filters and is not earlier than asked, and is
/// of a box whose status has changed or that is gone.
pub proof fn lemma_events_are_of_changes(
    ids: Seq<Seq<char>>,
    action: spec_fn(Seq<char>) -> Option<Seq<char>>,
    actors: Map<Seq<char>, (Seq<char>, Seq<char>)>,
    filters: Map<Seq<char>, Seq<char>>,
    since: Option<Timestamp>,
    now: Timestamp,
)
    ensures
        forall|k: int|
            0 <= k < events_of(ids, action, actors, filters, since, now).len() ==> {
                let e = #[trigger] events_of(ids, action, actors, filters, since, now)[k];
                &&& ids.contains(e.id)
                &&& action(e.id) == Some(e.action)
                &&& e.time == now
                &&& meets_all(e, filters)
                &&& since is Some ==> now.secs >= since->0.secs
            },
    decreases ids.len(),
{
    if ids.len() > 0 {
        let before = ids.drop_last();
        lemma_events_are_of_changes(before, action, actors, filters, since, now);
        let l = events_of(before, action, actors, filters, since, now);
        let all = events_of(ids, action, actors, filters, since, now);
        assert forall|k: int| 0 <= k < all.len() implies {
            let e = #[trigger] all[k];
            &&& ids.contains(e.id)
            &&& action(e.id) == Some(e.action)
            &&& e.time == now
            &&& meets_all(e, filters)
            &&& since is Some ==> now.secs >= since->0.secs
        } by {
            if k < l.len() {
                assert(all[k] == l[k]);
                let e = l[k];
                assert(before.contains(e.id));
                let n = choose|n: int| 0 <= n < before.len() && before[n] == e.id;
                assert(ids[n] == e.id);
            } else {
                assert(ids[ids.len() - 1] == ids.last());
            }
        }
    }
}

/// Without filters and without a beginning, every change is shown: each box whose
/// action is told gives one event.
pub proof fn lemma_every_change_is_shown(
    ids: Seq<Seq<char>>,
    action: spec_fn(Seq<char>) -> Option<Seq<char>>,
    actors: Map<Seq<char>, (Seq<char>, Seq<char>)>,
    now: Timestamp,
    i: int,
)
    requires
        0 <= i < ids.len(),
        action(ids[i]) is Some,
    ensures
        events_of(ids, action, actors, Map::empty(), None, now).contains(
            box_event(actors, ids[i], action(ids[i])->0, now),
        ),
    decreases ids.len(),
{
    let before = ids.drop_last();
    let none = Map::<Seq<char>, Seq<char>>::empty();
    let l = events_of(before, action, actors, none, None, now);
    let all = events_of(ids, action, actors, none, None, now);
    let e = box_event(actors, ids[i], action(ids[i])->0, now);
    if i < before.len() {
        assert(before[i] == ids[i]);
        lemma_every_change_is_shown(before, action, actors, now, i);
        let k = choose|k: int| 0 <= k < l.len() && l[k] == e;
        assert(all[k] == e);
    } else {
        assert(ids.last() == ids[i]);
        assert(meets_all(e, none));
        assert(all[l.len() as int] == e);
    }
}

/// A filter is the text before its first `=` and what is behind it, and the last one of
/// a key holds; a text without `=` is no filter.
pub proof fn lemma_filters_read(filters: Vec<String>, key: Seq<char>, value: Seq<char>, r: StrMap<String>)
    requires
        call_ensures(parse_filters, (&filters,), r),
        filters@.len() > 0,
        !key.contains('='),
    ensures
        filters@.last()@ == key + seq!['='] + value ==> r@.contains_key(key) && r@[key]@ == value,
        (forall|i: int| 0 <= i < filters@.len() ==> !(#[trigger] filters@[i])@.contains('=')) ==> r@.dom()
            =~= Set::<Seq<char>>::empty(),
{
    let l = text::strs(filters@);
    let m = strmap::texts(r@);
    assert(l.last() == filters@.last()@);
    if l.last() == key + seq!['='] + value {
        let s = l.last();
        let n = key.len() as int;
        assert(s[n] == '=');
        assert forall|j: int| 0 <= j < n implies s[j] != '=' by {
            assert(s[j] == key[j]);
            assert(key.contains(key[j]));
        }
        split::lemma_cut_at(s, '=', n);
        assert(s.contains('='));
        assert(s.take(n) =~= key);
        assert(s.skip(n + 1) =~= value);
        assert(m == filter_map(l.drop_last()).insert(key, value));
        assert(m.contains_key(key) && m[key] == value);
        assert(r@.contains_key(key) && m[key] == r@[key]@);
    }
    if forall|i: int| 0 <= i < filters@.len() ==> !(#[trigger] filters@[i])@.contains('=') {
        assert forall|i: int| 0 <= i < l.len() implies !(#[trigger] l[i]).contains('=') by {
            assert(l[i] == filters@[i]@);
        }
        lemma_no_filters(l);
        assert(r@.dom() =~= m.dom());
    }
}

/// Texts without `=` are no filters.
proof fn lemma_no_filters(l: Seq<Seq<char>>)
    requires
        forall|i: int| 0 <= i < l.len() ==> !(#[trigger] l[i]).contains('='),
    ensures
        filter_map(l) == Map::<Seq<char>, Seq<char>>::empty(),
    decreases l.len(),
{
    if l.len() > 0 {
        let b = l.drop_last();
        assert forall|i: int| 0 <= i < b.len() implies !(#[trigger] b[i]).contains('=') by {
            assert(b[i] == l[i]);
        }
        lemma_no_filters(b);
        assert(!l[l.len() - 1].contains('='));
        split::lemma_cut(l.last(), '=');
    }
}

/// A time is taken as it is written, and else as so many seconds before now.
pub proof fn lemma_time_read(s: &str, now: Timestamp, bare: &str, ago: Option<u64>, r: Option<Timestamp>)
    requires
        relative_seconds(split::trimmed(s@)) is Some ==> time::reaches_back(
            now,
            relative_seconds(split::trimmed(s@))->0,
        ),
        bare@ == split::trimmed(s@),
        call_ensures(parse_relative, (bare,), ago),
        call_ensures(parse_time_arg, (s, now), r),
    ensures
        time::rfc3339_of(bare@) is Some ==> r is Some && (r->0.secs, r->0.nanos) == time::rfc3339_of(
            bare@,
        )->0,
        time::rfc3339_of(bare@) is None ==> (r is Some <==> ago is Some),
        time::rfc3339_of(bare@) is None && r is Some ==> r->0.secs == now.secs - ago->0 && r->0.nanos
            == now.nanos,
{
}

/// Nothing is told of boxes that are as they were: a state that is looked at twice gives
/// no event.
pub proof fn lemma_no_change_no_event(
    state: StrMap<String>,
    actors: StrMap<(String, String)>,
    filters: StrMap<String>,
    since: Option<Timestamp>,
    now: Timestamp,
    r: Vec<Event>,
)
    requires
        call_ensures(detect_events, (&state, &state, &actors, &filters, &since, now), r),
    ensures
        r@.len() == 0,
{
    let p = strmap::texts(state@);
    let f = strmap::texts(filters@);
    let w = who_is(actors@);
    let changes = |id: Seq<char>| change_of(p, p, id);
    let removals = |id: Seq<char>| removal_of(p, id);
    let ids = state.key_list();
    assert forall|i: int| 0 <= i < ids.len() implies changes(#[trigger] ids[i]) is None && removals(
        ids[i],
    ) is None by {
        strmap::lemma_keys(&state, ids[i]);
        assert(ids.contains(ids[i]));
        assert(p.dom().contains(ids[i]));
        lemma_action_iff_change(p[ids[i]], p[ids[i]]);
    }
    lemma_nothing_told(ids, changes, w, f, since, now);
    lemma_nothing_told(ids, removals, w, f, since, now);
    assert(event_views(r@).len() == r@.len());
}

/// Without an action nothing is told.
proof fn lemma_nothing_told(
    ids: Seq<Seq<char>>,
    action: spec_fn(Seq<char>) -> Option<Seq<char>>,
    actors: Map<Seq<char>, (Seq<char>, Seq<char>)>,
    filters: Map<Seq<char>, Seq<char>>,
    since: Option<Timestamp>,
    now: Timestamp,
)
    requires
        forall|i: int| 0 <= i < ids.len() ==> action(#[trigger] ids[i]) is None,
    ensures
        events_of(ids, action, actors, filters, since, now).len() == 0,
    decreases ids.len(),
{
    if ids.len() > 0 {
        let b = ids.drop_last();
        assert forall|i: int| 0 <= i < b.len() implies action(#[trigger] b[i]) is None by {
            assert(b[i] == ids[i]);
        }
        lemma_nothing_told(b, action, actors, filters, since, now);
        assert(action(ids[ids.len() - 1]) is None);
    }
}

/// A box that is gone is told to be destroyed, and one that has another status what it
/// did, under its own identifier.
pub proof fn lemma_change_is_told(
    prev: StrMap<String>,
    current: StrMap<String>,
    actors: StrMap<(String, String)>,
    filters: StrMap<String>,
    now: Timestamp,
    id: Seq<char>,
    r: Vec<Event>,
)
    requires
        call_ensures(detect_events, (&prev, &current, &actors, &filters, &None::<Timestamp>, now), r),
        filters@.dom() == Set::<Seq<char>>::empty(),
    ensures
        prev@.contains_key(id) && !current@.contains_key(id) ==> tells(r@, id, "destroy"@),
        prev@.contains_key(id) && current@.contains_key(id) && prev@[id]@ == "running"@ && current@[id]@
            == "paused"@ ==> tells(r@, id, "pause"@),
        !prev@.contains_key(id) && current@.contains_key(id) && current@[id]@ == "created"@ ==> tells(
            r@,
            id,
            "create"@,
        ),
{
    let p = strmap::texts(prev@);
    let c = strmap::texts(current@);
    let f = strmap::texts(filters@);
    let w = who_is(actors@);
    assert(f =~= Map::<Seq<char>, Seq<char>>::empty());
    let changes = |id: Seq<char>| change_of(p, c, id);
    let removals = |id: Seq<char>| removal_of(c, id);
    let a = events_of(current.key_list(), changes, w, f, None, now);
    let b = events_of(prev.key_list(), removals, w, f, None, now);
    let all = event_views(r@);
    assert(all == a + b);
    assert(all.len() == r@.len());
    assert(p.dom().contains(id) <==> prev@.contains_key(id));
    assert(c.dom().contains(id) <==> current@.contains_key(id));
    strmap::lemma_keys(&prev, id);
    strmap::lemma_keys(&current, id);
    reveal_strlit("created");
    reveal_strlit("running");
    reveal_strlit("paused");
    assert("created"@[0] == 'c' && "running"@[0] == 'r' && "paused"@[0] == 'p');
    if prev@.contains_key(id) && !current@.contains_key(id) {
        let i = choose|i: int| 0 <= i < prev.key_list().len() && prev.key_list()[i] == id;
        assert(removals(id) == Some("destroy"@));
        lemma_every_change_is_shown(prev.key_list(), removals, w, now, i);
        let e = box_event(w, id, "destroy"@, now);
        let k = choose|k: int| 0 <= k < b.len() && b[k] == e;
        assert(all[a.len() + k] == e);
        assert(r@[a.len() + k]@ == e);
    }
    if current@.contains_key(id) && changes(id) is Some {
        let i = choose|i: int| 0 <= i < current.key_list().len() && current.key_list()[i] == id;
        lemma_every_change_is_shown(current.key_list(), changes, w, now, i);
        let e = box_event(w, id, changes(id)->0, now);
        let k = choose|k: int| 0 <= k < a.len() && a[k] == e;
        assert(all[k] == e);
        assert(r@[k]@ == e);
        assert(tells(r@, id, changes(id)->0));
    }
    if current@.contains_key(id) {
        assert(c[id] == current@[id]@);
    }
    if prev@.contains_key(id) {
        assert(p[id] == prev@[id]@);
    }
}

/// One of the events tells that the box did this.
pub open spec fn tells(events: Seq<Event>, id: Seq<char>, action: Seq<char>) -> bool {
    exists|k: int|
        0 <= k < events.len() && (#[trigger] events[k]).actor.id@ == id && events[k].action@ == action
}

/// The words of an event begin with its kind and what was done, tell the name of the box,
/// and end with its image.
pub proof fn lemma_event_words(event: Event, r: String)
    requires
        bytes::cuttable(event@.id, 12),
        call_ensures(Event::words, (&event,), r),
    ensures
        text::has_prefix(r@, " "@ + event.event_type@ + " "@ + event.action@ + " "@),
        text::has_substring(r@, event.actor.name@),
        text::has_suffix(r@, event.actor.image@ + ")"@),
{
    let e = event@;
    let head = " "@ + e.event_type + " "@ + e.action + " "@;
    let before = head + bytes::clipped(e.id, 12) + " (name="@;
    let front = before + e.name;
    let whole = front + ", image="@ + e.image + ")"@;
    assert(r@ == whole);
    lemma_beginning(head, bytes::clipped(e.id, 12) + " (name="@ + e.name + ", image="@ + e.image + ")"@, whole);
    lemma_middle(before, e.name, ", image="@ + e.image + ")"@, whole);
    lemma_ending(front + ", image="@, e.image + ")"@, whole);
}

/// A text begins with what stands at its beginning.
proof fn lemma_beginning(a: Seq<char>, b: Seq<char>, s: Seq<char>)
    requires
        s =~= a + b,
    ensures
        text::has_prefix(s, a),
{
    text::lemma_cat_holds_both(a, b);
}

/// A text ends with what stands at its end.
proof fn lemma_ending(a: Seq<char>, b: Seq<char>, s: Seq<char>)
    requires
        s =~= a + b,
    ensures
        text::has_suffix(s, b),
{
    text::lemma_cat_holds_both(a, b);
}

/// A text holds what stands in its middle.
proof fn lemma_middle(a: Seq<char>, b: Seq<char>, c: Seq<char>, s: Seq<char>)
    requires
        s =~= a + b + c,
    ensures
        text::has_substring(s, b),
{
    let at = a.len() as int;
    assert(s.subrange(at, at + b.len()) =~= b);
    assert(text::occurs_at(s, b, at));
}

/// A box that is known keeps what it is known by, and a new one is known from then on.
pub proof fn lemma_actors_noted(actors: &mut StrMap<(String, String)>, state: StateFile, i: int, id: Seq<char>)
    requires
        call_ensures(note_actors, (actors, &state), ()),
        0 <= i < state@.len(),
    ensures
        old(actors)@.contains_key(id) ==> final(actors)@.contains_key(id) && final(actors)@[id].0@
            == old(actors)@[id].0@ && final(actors)@[id].1@ == old(actors)@[id].1@,
        final(actors)@.contains_key(state@[i].id),
        !old(actors)@.contains_key(state@[i].id) && (forall|j: int|
            0 <= j < i ==> (#[trigger] state@[j]).id != state@[i].id) ==> final(actors)@[state@[i].id].0@
            == state@[i].name && final(actors)@[state@[i].id].1@ == state@[i].image,
{
    let m = who_is(old(actors)@);
    let n = who_is(final(actors)@);
    lemma_known_stay_known(m, state@, i);
    let k = state@[i].id;
    assert(n.contains_key(k) <==> final(actors)@.contains_key(k));
    assert(m.contains_key(k) <==> old(actors)@.contains_key(k));
    assert(m.contains_key(id) <==> old(actors)@.contains_key(id));
    assert(n.contains_key(id) <==> final(actors)@.contains_key(id));
    assert(n.contains_key(k));
    assert(n[k] == (final(actors)@[k].0@, final(actors)@[k].1@));
    if m.contains_key(id) {
        assert(n[id] == m[id]);
        assert(n[id] == (final(actors)@[id].0@, final(actors)@[id].1@));
        assert(m[id] == (old(actors)@[id].0@, old(actors)@[id].1@));
    }
}

/// A box that exited and starts again starts, one that exits or dies dies, and any change
/// that has no name of its own is an update.
pub proof fn lemma_other_actions(old: &str, new: &str, r: Option<&'static str>)
    requires
        call_ensures(status_to_action, (Some(old), new), r),
    ensures
        old@ == "exited"@ && new@ == "running"@ ==> r is Some && r->0@ == "start"@,
        old@ != new@ && (new@ == "exited"@ || new@ == "dead"@) ==> r is Some && r->0@ == "die"@,
        old@ != new@ && new@ == "stopped"@ ==> r is Some && r->0@ == "stop"@,
        old@ != new@ && new@ == "created"@ ==> r is Some && r->0@ == "update"@,
        old@ != new@ && new@ == "paused"@ && old@ != "running"@ ==> r is Some && r->0@ == "update"@,
{
    reveal_strlit("created");
    reveal_strlit("running");
    reveal_strlit("paused");
    reveal_strlit("dead");
    reveal_strlit("exited");
    reveal_strlit("stopped");
    assert("created"@[0] == 'c' && "running"@[0] == 'r' && "paused"@[0] == 'p' && "dead"@[0] == 'd'
        && "exited"@[0] == 'e' && "stopped"@[0] == 's');
}

} // verus!
