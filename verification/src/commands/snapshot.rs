//! `snapshot`: keeps the state of boxes and makes boxes from it.

use vstd::prelude::*;

use crate::bytes;
use crate::bytes::clip;
use crate::commands::compose_service;
use crate::commands::compose_service::{box_dir, box_file};
use crate::layout;
use crate::layout::pad;
use crate::number;
use crate::number::{i64_text, usize_text};
use crate::sizes;
use crate::sizes::size_in_words;
use crate::state;
use crate::state::{BoxRecord, LogConfig, NetworkMode, RecordView, ResourceLimits, StateFile, Timestamp};
use crate::strmap;
use crate::strmap::StrMap;
use crate::text;
use crate::text::{cat2, cat3, cat5, clone_opt_strings, clone_strings, str_eq};
use crate::time;
use crate::time::{format_utc, LIST_PATTERN};

verus! {

/// The arguments of `snapshot create`.
#[derive(Debug)]
pub struct SnapshotCreateArgs {
    pub box_id: String,
    pub name: Option<String>,
    pub description: Option<String>,
}

/// The arguments of `snapshot restore`.
#[derive(Debug)]
pub struct SnapshotRestoreArgs {
    pub snapshot: String,
    pub name: Option<String>,
}

/// The arguments of `snapshot ls`.
#[derive(Debug)]
pub struct SnapshotLsArgs {
    pub json: bool,
}

/// The arguments of `snapshot rm`.
#[derive(Debug)]
pub struct SnapshotRmArgs {
    pub ids: Vec<String>,
}

/// The arguments of `snapshot inspect`.
#[derive(Debug)]
pub struct SnapshotInspectArgs {
    pub id: String,
}

/// What `snapshot` does.
#[derive(Debug)]
pub enum SnapshotAction {
    Create(SnapshotCreateArgs),
    Restore(SnapshotRestoreArgs),
    Ls(SnapshotLsArgs),
    Rm(SnapshotRmArgs),
    Inspect(SnapshotInspectArgs),
}

/// The arguments of `snapshot`.
#[derive(Debug)]
pub struct SnapshotArgs {
    pub action: SnapshotAction,
}

/// What is kept of a box with a snapshot.
#[derive(Debug)]
pub struct SnapshotMetadata {
    pub id: String,
    pub name: String,
    pub source_box_id: String,
    pub image: String,
    pub vcpus: u32,
    pub memory_mb: u32,
    pub volumes: Vec<String>,
    pub env: StrMap<String>,
    pub cmd: Vec<String>,
    pub entrypoint: Option<Vec<String>>,
    pub workdir: Option<String>,
    pub port_map: Vec<String>,
    pub labels: StrMap<String>,
    pub description: String,
    pub size_bytes: u64,
    pub created_at: Timestamp,
}

/// What is kept of a box with a snapshot.
pub struct MetadataView {
    pub id: Seq<char>,
    pub name: Seq<char>,
    pub source_box_id: Seq<char>,
    pub image: Seq<char>,
    pub vcpus: u32,
    pub memory_mb: u32,
    pub volumes: Seq<Seq<char>>,
    pub env: Map<Seq<char>, Seq<char>>,
    pub cmd: Seq<Seq<char>>,
    pub entrypoint: Option<Seq<Seq<char>>>,
    pub workdir: Option<Seq<char>>,
    pub port_map: Seq<Seq<char>>,
    pub labels: Map<Seq<char>, Seq<char>>,
    pub description: Seq<char>,
    pub size_bytes: u64,
    pub created_at: Timestamp,
}

impl View for SnapshotMetadata {
    type V = MetadataView;

    open spec fn view(&self) -> MetadataView {
        MetadataView {
            id: self.id@,
            name: self.name@,
            source_box_id: self.source_box_id@,
            image: self.image@,
            vcpus: self.vcpus,
            memory_mb: self.memory_mb,
            volumes: text::strs(self.volumes@),
            env: strmap::texts(self.env@),
            cmd: text::strs(self.cmd@),
            entrypoint: text::opt_strs(self.entrypoint),
            workdir: text::opt_str(self.workdir),
            port_map: text::strs(self.port_map@),
            labels: strmap::texts(self.labels@),
            description: self.description@,
            size_bytes: self.size_bytes,
            created_at: self.created_at,
        }
    }
}

/// A point in time in nanoseconds, where they fit into 64 bits.
pub open spec fn nanos_of(t: Timestamp) -> Option<int> {
    let n = t.secs * 1_000_000_000 + t.nanos;
    if i64::MIN <= n <= i64::MAX {
        Some(n)
    } else {
        None
    }
}

/// A point in time in nanoseconds, where they fit into 64 bits.
pub fn timestamp_nanos(t: Timestamp) -> (r: Option<i64>)
    ensures
        match nanos_of(t) {
            Some(n) => r matches Some(k) && k == n,
            None => r is None,
        },
{
    let n: i128 = t.secs as i128 * 1_000_000_000 + t.nanos as i128;
    if i64::MIN as i128 <= n && n <= i64::MAX as i128 {
        Some(n as i64)
    } else {
        None
    }
}

/// The identifier of a snapshot made at a point in time.
pub open spec fn id_at(now: Timestamp) -> Seq<char> {
    "snap-"@ + number::decimal_int(match nanos_of(now) {
        Some(n) => n,
        None => 0,
    })
}

/// The identifier of a snapshot made at a point in time.
pub fn snapshot_id(now: Timestamp) -> (r: String)
    ensures
        r@ == id_at(now),
{
    let n: i64 = match timestamp_nanos(now) {
        Some(n) => n,
        None => 0,
    };
    let s = i64_text(n);
    cat2("snap-", &s)
}

/// What is kept of a box with a snapshot made at a point in time.
pub open spec fn metadata_of(args: SnapshotCreateArgs, r: RecordView, now: Timestamp) -> MetadataView {
    MetadataView {
        id: id_at(now),
        name: match text::opt_str(args.name) {
            Some(n) => n,
            None => r.name + "-snapshot"@,
        },
        source_box_id: r.id,
        image: r.image,
        vcpus: r.cpus,
        memory_mb: r.memory_mb,
        volumes: r.volumes,
        env: r.env,
        cmd: r.cmd,
        entrypoint: r.entrypoint,
        workdir: r.workdir,
        port_map: r.port_map,
        labels: r.labels,
        description: match text::opt_str(args.description) {
            Some(d) => d,
            None => ""@,
        },
        size_bytes: 0,
        created_at: now,
    }
}

/// What is kept of a box with a snapshot made at a point in time.
pub fn snapshot_metadata(args: &SnapshotCreateArgs, record: &BoxRecord, now: Timestamp) -> (r: SnapshotMetadata)
    ensures
        r@ == metadata_of(*args, record@, now),
{
    let name = match &args.name {
        Some(n) => n.clone(),
        None => cat2(&record.name, "-snapshot"),
    };
    let description = match &args.description {
        Some(d) => d.clone(),
        None => "".to_string(),
    };
    SnapshotMetadata {
        id: snapshot_id(now),
        name,
        source_box_id: record.id.clone(),
        image: record.image.clone(),
        vcpus: record.cpus,
        memory_mb: record.memory_mb,
        volumes: clone_strings(&record.volumes),
        env: record.env.clone(),
        cmd: clone_strings(&record.cmd),
        entrypoint: clone_opt_strings(&record.entrypoint),
        workdir: record.workdir.clone(),
        port_map: clone_strings(&record.port_map),
        labels: record.labels.clone(),
        description,
        size_bytes: 0,
        created_at: now,
    }
}

/// What is said where a box has no file system to keep.
pub fn rootfs_missing(name: &str, box_dir: &str) -> (r: String)
    ensures
        r@ == "Rootfs not found for box '"@ + name@ + "' under "@ + box_dir@
            + " (looked for merged/ and rootfs/); snapshot a running box"@,
{
    cat5(
        "Rootfs not found for box '",
        name,
        "' under ",
        box_dir,
        " (looked for merged/ and rootfs/); snapshot a running box",
    )
}

/// What a box is restored with: its identifiers, its name where none is asked
/// for, the directory of the installation and the point in time.
#[derive(Debug)]
pub struct RestoreFacts {
    pub box_id: String,
    pub short_id: String,
    pub generated_name: String,
    pub home: String,
    pub now: Timestamp,
}

/// The record of a box restored from a snapshot.
pub open spec fn restored(meta: MetadataView, name: Option<Seq<char>>, facts: RestoreFacts) -> RecordView {
    let dir = compose_service::box_dir_of(facts.home@, facts.box_id@);
    RecordView {
        id: facts.box_id@,
        short_id: facts.short_id@,
        name: match name {
            Some(n) => n,
            None => facts.generated_name@,
        },
        image: meta.image,
        status: "created"@,
        pid: None,
        cpus: meta.vcpus,
        memory_mb: meta.memory_mb,
        volumes: meta.volumes,
        env: meta.env,
        cmd: meta.cmd,
        entrypoint: meta.entrypoint,
        box_dir: dir,
        exec_socket_path: compose_service::box_file_of(dir, "sockets"@, "exec.sock"@),
        console_log: compose_service::box_file_of(dir, "logs"@, "console.log"@),
        created_at: facts.now,
        started_at: None,
        auto_remove: false,
        hostname: None,
        user: None,
        workdir: meta.workdir,
        restart_policy: "no"@,
        port_map: meta.port_map,
        labels: meta.labels,
        stopped_by_user: false,
        restart_count: 0,
        max_restart_count: 0,
        exit_code: None,
        health_check: None,
        healthcheck_disabled: false,
        health_status: "none"@,
        health_retries: 0,
        health_last_check: None,
        network_mode: state::NetworkModeView::Tsi,
        network_name: None,
        volume_names: Seq::empty(),
        tmpfs: Seq::empty(),
        anonymous_volumes: Seq::empty(),
        resource_limits: state::no_limits(),
        log_config: state::default_log_config(),
        add_host: Seq::empty(),
        platform: None,
        init: false,
        read_only: false,
        cap_add: Seq::empty(),
        cap_drop: Seq::empty(),
        security_opt: Seq::empty(),
        privileged: false,
        devices: Seq::empty(),
        gpus: None,
        shm_size: None,
        stop_signal: None,
        stop_timeout: None,
        oom_kill_disable: false,
        oom_score_adj: None,
    }
}

/// No texts.
fn none() -> (r: Vec<String>)
    ensures
        text::strs(r@) == Seq::<Seq<char>>::empty(),
{
    let r: Vec<String> = Vec::new();
    assert(text::strs(r@) =~= Seq::empty());
    r
}

/// The record of a box restored from a snapshot.
pub fn restore_record(meta: &SnapshotMetadata, name: &Option<String>, facts: &RestoreFacts) -> (r: BoxRecord)
    ensures
        r@ == restored(meta@, text::opt_str(*name), *facts),
{
    let dir = box_dir(&facts.home, &facts.box_id);
    BoxRecord {
        id: facts.box_id.clone(),
        short_id: facts.short_id.clone(),
        name: match name {
            Some(n) => n.clone(),
            None => facts.generated_name.clone(),
        },
        image: meta.image.clone(),
        status: "created".to_string(),
        pid: None,
        cpus: meta.vcpus,
        memory_mb: meta.memory_mb,
        volumes: clone_strings(&meta.volumes),
        env: meta.env.clone(),
        cmd: clone_strings(&meta.cmd),
        entrypoint: clone_opt_strings(&meta.entrypoint),
        exec_socket_path: box_file(&dir, "sockets", "exec.sock"),
        console_log: box_file(&dir, "logs", "console.log"),
        box_dir: dir,
        created_at: facts.now,
        started_at: None,
        auto_remove: false,
        hostname: None,
        user: None,
        workdir: meta.workdir.clone(),
        restart_policy: "no".to_string(),
        port_map: clone_strings(&meta.port_map),
        labels: meta.labels.clone(),
        stopped_by_user: false,
        restart_count: 0,
        max_restart_count: 0,
        exit_code: None,
        health_check: None,
        healthcheck_disabled: false,
        health_status: "none".to_string(),
        health_retries: 0,
        health_last_check: None,
        network_mode: NetworkMode::Tsi,
        network_name: None,
        volume_names: none(),
        tmpfs: none(),
        anonymous_volumes: none(),
        resource_limits: ResourceLimits::default(),
        log_config: LogConfig::default(),
        add_host: none(),
        platform: None,
        init: false,
        read_only: false,
        cap_add: none(),
        cap_drop: none(),
        security_opt: none(),
        privileged: false,
        devices: none(),
        gpus: None,
        shm_size: None,
        stop_signal: None,
        stop_timeout: None,
        oom_kill_disable: false,
        oom_score_adj: None,
    }
}

/// The place of a box by its identifier, its name, or the beginning of its
/// identifier, in this order; or what is said where it is none or several.
pub open spec fn found_box(records: Seq<RecordView>, query: Seq<char>) -> Result<usize, Seq<char>> {
    let by_id = state::places(records, |x: RecordView| x.id == query);
    let by_name = state::places(records, |x: RecordView| x.name == query);
    let by_prefix = state::places(records, |x: RecordView| text::has_prefix(x.id, query));
    if by_id.len() > 0 {
        Ok(by_id[0])
    } else if by_name.len() > 0 {
        Ok(by_name[0])
    } else if by_prefix.len() == 0 {
        Err("No box found matching '"@ + query + "'"@)
    } else if by_prefix.len() == 1 {
        Ok(by_prefix[0])
    } else {
        Err("Ambiguous box reference '"@ + query + "': matches "@ + number::decimal(by_prefix.len()) + " boxes"@)
    }
}

/// The first place at which records have a property.
proof fn lemma_first_place(s: Seq<RecordView>, p: spec_fn(RecordView) -> bool, n: int)
    requires
        s.len() <= usize::MAX,
        0 <= n <= s.len(),
        forall|j: int| 0 <= j < n ==> !p(#[trigger] s[j]),
    ensures
        n < s.len() && p(s[n]) ==> state::places(s, p).len() > 0 && state::places(s, p)[0] == n,
        n == s.len() ==> state::places(s, p).len() == 0,
    decreases s.len(),
{
    if s.len() > 0 {
        let t = s.drop_last();
        if n < s.len() {
            assert forall|j: int| 0 <= j < n implies !p(#[trigger] t[j]) by {
                assert(!p(s[j]));
            }
            lemma_first_place(t, p, n);
            if n < t.len() {
                assert(t[n] == s[n]);
            }
        } else {
            assert forall|j: int| 0 <= j < n - 1 implies !p(#[trigger] t[j]) by {
                assert(!p(s[j]));
            }
            lemma_first_place(t, p, n - 1);
            assert(!p(s[n - 1]));
        }
    }
}

/// The place of a box by its identifier, its name, or the beginning of its
/// identifier, in this order.
pub fn resolve_box(state: &StateFile, id_or_name: &str) -> (r: Result<usize, String>)
    ensures
        match r {
            Ok(at) => at < state@.len() && found_box(state@, id_or_name@) == Ok::<usize, Seq<char>>(at),
            Err(e) => found_box(state@, id_or_name@) == Err::<usize, Seq<char>>(e@),
        },
{
    let ghost by_id = |x: RecordView| x.id == id_or_name@;
    let ghost by_name = |x: RecordView| x.name == id_or_name@;
    let n: usize = state.len();
    match state.position(id_or_name) {
        Some(at) => {
            proof {
                lemma_first_place(state@, by_id, at as int);
            }
            return Ok(at);
        },
        None => {
            proof {
                lemma_first_place(state@, by_id, state@.len() as int);
            }
        },
    }
    for i in 0..n
        invariant
            n == state@.len(),
            by_id == (|x: RecordView| x.id == id_or_name@),
            by_name == (|x: RecordView| x.name == id_or_name@),
            state::places(state@, by_id).len() == 0,
            forall|j: int| 0 <= j < i ==> !by_name(#[trigger] state@[j]),
    {
        if str_eq(&state.get(i).name, id_or_name) {
            proof {
                lemma_first_place(state@, by_name, i as int);
            }
            return Ok(i);
        }
    }
    proof {
        lemma_first_place(state@, by_name, n as int);
        state::lemma_places(state@, |x: RecordView| text::has_prefix(x.id, id_or_name@));
    }
    let matches = state.find_by_id_prefix(id_or_name);
    if matches.len() == 0 {
        return Err(cat3("No box found matching '", id_or_name, "'"));
    }
    if matches.len() == 1 {
        return Ok(matches[0]);
    }
    let count = usize_text(matches.len());
    Err(cat5("Ambiguous box reference '", id_or_name, "': matches ", &count, " boxes"))
}

/// The places of snapshots with a name, in order.
pub open spec fn named(l: Seq<SnapshotMetadata>, name: Seq<char>) -> Seq<usize>
    decreases l.len(),
{
    if l.len() == 0 {
        Seq::empty()
    } else {
        let before = named(l.drop_last(), name);
        if l.last().name@ == name {
            before.push((l.len() - 1) as usize)
        } else {
            before
        }
    }
}

/// A snapshot by its identifier or its name: where the store knows no snapshot
/// with that identifier, the one of all with that name, or what is said where it
/// is none or several.
pub fn resolve_snapshot(by_id: Option<SnapshotMetadata>, all: Vec<SnapshotMetadata>, id_or_name: &str) -> (r: Result<
    SnapshotMetadata,
    String,
>)
    ensures
        match by_id {
            Some(m) => r matches Ok(x) && x == m,
            None => {
                let places = named(all@, id_or_name@);
                if places.len() == 0 {
                    r matches Err(e) && e@ == "No snapshot found matching '"@ + id_or_name@ + "'"@
                } else if places.len() == 1 {
                    r matches Ok(x) && x == all@[places[0] as int]
                } else {
                    r matches Err(e) && e@ == "Ambiguous snapshot reference '"@ + id_or_name@ + "': matches "@
                        + number::decimal(places.len()) + " snapshots"@
                }
            },
        },
{
    if let Some(m) = by_id {
        return Ok(m);
    }
    let mut places: Vec<usize> = Vec::new();
    for i in 0..all.len()
        invariant
            places@ == named(all@.take(i as int), id_or_name@),
            forall|k: int| 0 <= k < places@.len() ==> (#[trigger] places@[k]) < i,
    {
        assert(all@.take(i + 1).drop_last() =~= all@.take(i as int));
        if str_eq(&all[i].name, id_or_name) {
            places.push(i);
        }
    }
    assert(all@.take(all@.len() as int) =~= all@);
    if places.len() == 0 {
        return Err(cat3("No snapshot found matching '", id_or_name, "'"));
    }
    if places.len() == 1 {
        let mut all = all;
        return Ok(all.swap_remove(places[0]));
    }
    let count = usize_text(places.len());
    Err(cat5("Ambiguous snapshot reference '", id_or_name, "': matches ", &count, " snapshots"))
}

/// A number of bytes in words.
pub fn format_size(bytes: u64) -> (r: String)
    ensures
        r@ == sizes::size_words(bytes as nat, ""@, true),
{
    size_in_words(bytes, "", true)
}

/// The columns of the listing.
pub open spec fn columns(
    id: Seq<char>,
    name: Seq<char>,
    source: Seq<char>,
    image: Seq<char>,
    size: Seq<char>,
    created: Seq<char>,
) -> Seq<char> {
    layout::padded(id, 30) + " "@ + (layout::padded(name, 20) + " "@ + (layout::padded(source, 15) + " "@ + (
    layout::padded(image, 12) + " "@ + (layout::padded(size, 10) + " "@ + created))))
}

/// The columns of the listing.
fn columns_line(id: &str, name: &str, source: &str, image: &str, size: &str, created: &str) -> (r: String)
    ensures
        r@ == columns(id@, name@, source@, image@, size@, created@),
{
    let size = pad(size, 10);
    let image = pad(image, 12);
    let source = pad(source, 15);
    let name = pad(name, 20);
    let id = pad(id, 30);
    let rest = cat3(&size, " ", created);
    let rest = cat3(&image, " ", &rest);
    let rest = cat3(&source, " ", &rest);
    let rest = cat3(&name, " ", &rest);
    cat3(&id, " ", &rest)
}

/// The line of a snapshot.
pub open spec fn snapshot_line_of(m: MetadataView) -> Seq<char> {
    columns(
        m.id,
        m.name,
        bytes::clipped(m.source_box_id, 12),
        bytes::clipped(m.image, 10),
        sizes::size_words(m.size_bytes as nat, ""@, true),
        time::formatted_utc(m.created_at.secs, m.created_at.nanos, LIST_PATTERN@)->0,
    )
}

/// The line of a snapshot; nothing where its time cannot be written.
pub fn snapshot_line(m: &SnapshotMetadata) -> (r: Option<String>)
    requires
        bytes::cuttable(m@.source_box_id, 12),
        bytes::cuttable(m@.image, 10),
    ensures
        text::opt_str(r) == (match time::formatted_utc(m@.created_at.secs, m@.created_at.nanos, LIST_PATTERN@) {
            Some(_) => Some(snapshot_line_of(m@)),
            None => None,
        }),
        time::representable(m@.created_at) ==> r is Some,
{
    let size = format_size(m.size_bytes);
    match format_utc(m.created_at, LIST_PATTERN) {
        None => None,
        Some(created) => Some(
            columns_line(&m.id, &m.name, clip(&m.source_box_id, 12), clip(&m.image, 10), &size, &created),
        ),
    }
}

/// The heading of the listing.
pub fn snapshot_heading() -> (r: String)
    ensures
        r@ == columns("SNAPSHOT ID"@, "NAME"@, "SOURCE BOX"@, "IMAGE"@, "SIZE"@, "CREATED"@),
{
    columns_line("SNAPSHOT ID", "NAME", "SOURCE BOX", "IMAGE", "SIZE", "CREATED")
}

/// What is said of a snapshot that is not there.
pub fn snapshot_not_found(id: &str) -> (r: String)
    ensures
        r@ == "Snapshot '"@ + id@ + "' not found"@,
{
    cat3("Snapshot '", id, "' not found")
}

/// A box restored from a snapshot of a box is set up as that box is: image,
/// processors, memory, volumes, environment, command, directory, ports, labels.
pub proof fn lemma_restored_as_kept(args: SnapshotCreateArgs, r: RecordView, name: Option<Seq<char>>, facts: RestoreFacts, now: Timestamp)
    ensures
        ({
            let back = restored(metadata_of(args, r, now), name, facts);
            &&& back.image == r.image && back.cpus == r.cpus && back.memory_mb == r.memory_mb
            &&& back.volumes == r.volumes && back.env == r.env && back.labels == r.labels
            &&& back.cmd == r.cmd && back.entrypoint == r.entrypoint && back.workdir == r.workdir
            &&& back.port_map == r.port_map
            &&& back.status == "created"@ && back.pid is None
        }),
{
}

/// A snapshot is of the box it was taken of: it holds the box's image, machine,
/// command, variables, volumes, ports and labels, under the name it was given or the
/// name of the box with `-snapshot` behind it.
pub proof fn lemma_snapshot_of_the_box(
    args: SnapshotCreateArgs,
    record: BoxRecord,
    now: Timestamp,
    m: SnapshotMetadata,
)
    requires
        call_ensures(snapshot_metadata, (&args, &record, now), m),
    ensures
        m.source_box_id@ == record.id@,
        m.image@ == record.image@,
        m.vcpus == record.cpus && m.memory_mb == record.memory_mb,
        text::same_texts(m.volumes@, record.volumes@),
        text::same_texts(m.cmd@, record.cmd@),
        text::same_texts(m.port_map@, record.port_map@),
        strmap::texts(m.env@) == strmap::texts(record.env@),
        strmap::texts(m.labels@) == strmap::texts(record.labels@),
        text::opt_strs(m.entrypoint) == text::opt_strs(record.entrypoint),
        text::opt_str(m.workdir) == text::opt_str(record.workdir),
        args.name is Some ==> m.name@ == args.name->0@,
        args.name is None ==> m.name@ == record.name@ + "-snapshot"@,
        args.description is Some ==> m.description@ == args.description->0@,
        args.description is None ==> m.description@ == ""@,
        m.created_at == now,
{
    text::lemma_same_texts(m.volumes@, record.volumes@);
    text::lemma_same_texts(m.cmd@, record.cmd@);
    text::lemma_same_texts(m.port_map@, record.port_map@);
    assert(m@ == metadata_of(args, record@, now));
}

/// A box that is restored is a new one, under its own identifier and name, at rest,
/// and holds what the snapshot holds.
pub proof fn lemma_restored_is_at_rest(
    m: SnapshotMetadata,
    name: Option<String>,
    facts: RestoreFacts,
    r: BoxRecord,
    start: Result<(), String>,
)
    requires
        call_ensures(restore_record, (&m, &name, &facts), r),
        call_ensures(crate::commands::start::check_start, (&r,), start),
    ensures
        start is Ok,
        r.id@ == facts.box_id@ && r.short_id@ == facts.short_id@,
        name is Some ==> r.name@ == name->0@,
        name is None ==> r.name@ == facts.generated_name@,
        r.image@ == m.image@,
        r.cpus == m.vcpus && r.memory_mb == m.memory_mb,
        text::same_texts(r.volumes@, m.volumes@),
        text::same_texts(r.cmd@, m.cmd@),
        text::same_texts(r.port_map@, m.port_map@),
        strmap::texts(r.env@) == strmap::texts(m.env@),
        strmap::texts(r.labels@) == strmap::texts(m.labels@),
        text::opt_strs(r.entrypoint) == text::opt_strs(m.entrypoint),
        text::opt_str(r.workdir) == text::opt_str(m.workdir),
        r.pid is None && r.started_at is None && r.exit_code is None && !r.stopped_by_user,
        r.created_at == facts.now,
        crate::cleanup::network_of(r@) is None,
        r.volume_names@.len() == 0 && r.anonymous_volumes@.len() == 0,
        !r.privileged && !r.auto_remove,
{
    crate::commands::start::lemma_start_needs_rest(r, start);
    text::lemma_same_texts(r.volumes@, m.volumes@);
    text::lemma_same_texts(r.cmd@, m.cmd@);
    text::lemma_same_texts(r.port_map@, m.port_map@);
    assert(r@ == restored(m@, text::opt_str(name), facts));
    assert(text::strs(r.volume_names@).len() == r.volume_names@.len());
    assert(text::strs(r.anonymous_volumes@).len() == r.anonymous_volumes@.len());
}

/// A box that is asked for by its whole identifier is found whatever else is there;
/// by its name, where no box has it for an identifier; and by the beginning of an
/// identifier, where it is that of one box alone.
pub proof fn lemma_box_resolved(state: StateFile, query: &str, r: Result<usize, String>)
    requires
        state@.len() <= usize::MAX,
        call_ensures(resolve_box, (&state, query), r),
    ensures
        r matches Ok(at) ==> at < state@.len() && (state@[at as int].id == query@ || state@[at as int].name
            == query@ || text::has_prefix(state@[at as int].id, query@)),
        forall|i: int|
            0 <= i < state@.len() && (#[trigger] state@[i]).id == query@ ==> r is Ok
                && state@[r->Ok_0 as int].id == query@,
        (forall|i: int| 0 <= i < state@.len() ==> (#[trigger] state@[i]).id != query@) ==> forall|i: int|
            0 <= i < state@.len() && (#[trigger] state@[i]).name == query@ ==> r is Ok
                && state@[r->Ok_0 as int].name == query@,
        (forall|i: int|
            0 <= i < state@.len() ==> (#[trigger] state@[i]).name != query@ && !text::has_prefix(
                state@[i].id,
                query@,
            )) ==> r is Err,
{
    let by_id = |x: RecordView| x.id == query@;
    let by_name = |x: RecordView| x.name == query@;
    let by_prefix = |x: RecordView| text::has_prefix(x.id, query@);
    state::lemma_places(state@, by_id);
    state::lemma_places(state@, by_name);
    state::lemma_places(state@, by_prefix);
    assert(query@.take(query@.len() as int) =~= query@);
    let ids = state::places(state@, by_id);
    let names = state::places(state@, by_name);
    let starts = state::places(state@, by_prefix);
    assert(ids.len() > 0 ==> by_id(state@[ids[0] as int]));
    assert(names.len() > 0 ==> by_name(state@[names[0] as int]));
    assert(starts.len() > 0 ==> by_prefix(state@[starts[0] as int]));
    assert forall|i: int| 0 <= i < state@.len() && (#[trigger] state@[i]).id == query@ implies ids.len()
        > 0 by {
        assert(by_id(state@[i]));
        assert(ids.contains(i as usize));
    }
    assert forall|i: int| 0 <= i < state@.len() && (#[trigger] state@[i]).name == query@ implies names.len()
        > 0 by {
        assert(by_name(state@[i]));
        assert(names.contains(i as usize));
    }
}

/// A snapshot's name is made of the nanosecond it was taken in: two of different
/// nanoseconds have different names.
pub proof fn lemma_snapshot_ids_differ(a: Timestamp, b: Timestamp, x: String, y: String)
    requires
        a.nanos < 1_000_000_000 && b.nanos < 1_000_000_000,
        0 <= a.secs <= 9_000_000_000 && 0 <= b.secs <= 9_000_000_000,
        call_ensures(snapshot_id, (a,), x),
        call_ensures(snapshot_id, (b,), y),
        a != b,
    ensures
        x@ != y@,
{
    let m = a.secs * 1_000_000_000 + a.nanos;
    let n = b.secs * 1_000_000_000 + b.nanos;
    assert(m != n);
    number::lemma_i64_round_trip(m as i64);
    number::lemma_i64_round_trip(n as i64);
    if x@ == y@ {
        let head = "snap-"@;
        assert(x@.skip(head.len() as int) =~= number::decimal_int(m));
        assert(y@.skip(head.len() as int) =~= number::decimal_int(n));
    }
}

/// A snapshot that is asked for by its identifier is that one. By a name it is the
/// only one that has it, and none where two have it or none has.
pub proof fn lemma_snapshot_resolved(
    by_id: Option<SnapshotMetadata>,
    all: Vec<SnapshotMetadata>,
    query: &str,
    r: Result<SnapshotMetadata, String>,
)
    requires
        all@.len() <= usize::MAX,
        call_ensures(resolve_snapshot, (by_id, all, query), r),
    ensures
        by_id is Some ==> r is Ok && r->Ok_0 == by_id->0,
        by_id is None && r is Ok ==> r->Ok_0.name@ == query@,
        by_id is None && (forall|i: int| 0 <= i < all@.len() ==> (#[trigger] all@[i]).name@ != query@)
            ==> r is Err,
        forall|i: int, j: int|
            by_id is None && 0 <= i < j < all@.len() && (#[trigger] all@[i]).name@ == query@ && (
            #[trigger] all@[j]).name@ == query@ ==> r is Err,
{
    lemma_named(all@, query@);
    let places = named(all@, query@);
    assert forall|i: int, j: int|
        by_id is None && 0 <= i < j < all@.len() && (#[trigger] all@[i]).name@ == query@ && (
        #[trigger] all@[j]).name@ == query@ implies r is Err by {
        let a = choose|k: int| 0 <= k < places.len() && places[k] == i as usize;
        let b = choose|k: int| 0 <= k < places.len() && places[k] == j as usize;
        assert(places.contains(i as usize) && places.contains(j as usize));
        assert(a != b);
    }
    if places.len() > 0 {
        assert(all@[places[0] as int].name@ == query@);
    }
}

/// The places of a name are those that have it.
proof fn lemma_named(l: Seq<SnapshotMetadata>, name: Seq<char>)
    requires
        l.len() <= usize::MAX,
    ensures
        forall|k: int|
            0 <= k < named(l, name).len() ==> (#[trigger] named(l, name)[k]) < l.len()
                && l[named(l, name)[k] as int].name@ == name,
        forall|i: int|
            0 <= i < l.len() && (#[trigger] l[i]).name@ == name ==> named(l, name).contains(i as usize),
    decreases l.len(),
{
    if l.len() > 0 {
        lemma_named(l.drop_last(), name);
        let before = named(l.drop_last(), name);
        let now = named(l, name);
        assert forall|k: int| 0 <= k < now.len() implies (#[trigger] now[k]) < l.len()
            && l[now[k] as int].name@ == name by {
            if k < before.len() {
                assert(now[k] == before[k]);
                assert(l.drop_last()[before[k] as int] == l[before[k] as int]);
            }
        }
        assert forall|i: int| 0 <= i < l.len() && (#[trigger] l[i]).name@ == name implies now.contains(
            i as usize,
        ) by {
            if i < l.len() - 1 {
                assert(l.drop_last()[i] == l[i]);
                assert(before.contains(i as usize));
                let k = choose|k: int| 0 <= k < before.len() && before[k] == i as usize;
                assert(now[k] == before[k]);
            } else {
                assert(now[now.len() - 1] == i as usize);
            }
        }
    }
}

/// What belongs to a restored box lies below its own directory, and a line about a
/// snapshot begins with its identifier.
pub proof fn lemma_restored_places(
    m: SnapshotMetadata,
    name: Option<String>,
    facts: RestoreFacts,
    home: &str,
    id: &str,
    dir: String,
    r: BoxRecord,
)
    requires
        home@ == facts.home@,
        id@ == facts.box_id@,
        call_ensures(compose_service::box_dir, (home, id), dir),
        call_ensures(restore_record, (&m, &name, &facts), r),
    ensures
        r.box_dir@ == dir@,
        text::has_suffix(r.console_log@, "console.log"@),
        text::has_suffix(r.exec_socket_path@, "exec.sock"@),
        text::has_prefix(snapshot_line_of(m@), m.id@),
        text::has_substring(snapshot_line_of(m@), m.name@),
{
    reveal_strlit("console.log");
    reveal_strlit("exec.sock");
    reveal_strlit(" ");
    let a = r.console_log@;
    assert(a.skip(a.len() - 11) =~= "console.log"@);
    let b = r.exec_socket_path@;
    assert(b.skip(b.len() - 9) =~= "exec.sock"@);
    let line = snapshot_line_of(m@);
    assert(line.take(m.id@.len() as int) =~= m.id@);
    let at = layout::padded(m.id@, 30).len() as int + 1;
    assert(line.subrange(at, at + m.name@.len()) =~= m.name@);
    assert(text::occurs_at(line, m.name@, at));
}

/// The beginning of an identifier means a box only where no other box begins so: with two
/// of them none is found, and with one that one is.
pub proof fn lemma_ambiguous_beginning(state: StateFile, query: &str, i: int, j: int, r: Result<usize, String>)
    requires
        state@.len() <= usize::MAX,
        call_ensures(resolve_box, (&state, query), r),
        0 <= i < state@.len(),
        text::has_prefix(state@[i].id, query@),
        forall|k: int|
            0 <= k < state@.len() ==> (#[trigger] state@[k]).id != query@ && state@[k].name != query@,
    ensures
        i < j < state@.len() && text::has_prefix(state@[j].id, query@) ==> r is Err,
        (forall|k: int|
            0 <= k < state@.len() && k != i ==> !text::has_prefix((#[trigger] state@[k]).id, query@)) ==> r
            is Ok && r->Ok_0 == i,
{
    let by_id = |x: RecordView| x.id == query@;
    let by_name = |x: RecordView| x.name == query@;
    let by_prefix = |x: RecordView| text::has_prefix(x.id, query@);
    state::lemma_places(state@, by_id);
    state::lemma_places(state@, by_name);
    state::lemma_places(state@, by_prefix);
    let ids = state::places(state@, by_id);
    let names = state::places(state@, by_name);
    let starts = state::places(state@, by_prefix);
    assert(ids.len() == 0) by {
        if ids.len() > 0 {
            assert(by_id(state@[ids[0] as int]));
        }
    }
    assert(names.len() == 0) by {
        if names.len() > 0 {
            assert(by_name(state@[names[0] as int]));
        }
    }
    assert(by_prefix(state@[i]));
    assert(starts.contains(i as usize));
    if i < j < state@.len() && text::has_prefix(state@[j].id, query@) {
        assert(by_prefix(state@[j]));
        assert(starts.contains(j as usize));
        let a = choose|a: int| 0 <= a < starts.len() && starts[a] == i as usize;
        let b = choose|b: int| 0 <= b < starts.len() && starts[b] == j as usize;
        assert(a != b);
    }
    if forall|k: int|
        0 <= k < state@.len() && k != i ==> !text::has_prefix((#[trigger] state@[k]).id, query@) {
        lemma_one_place(state@, by_prefix, i);
    }
}

/// One record that is meant is in one place.
proof fn lemma_one_place(s: Seq<RecordView>, p: spec_fn(RecordView) -> bool, i: int)
    requires
        s.len() <= usize::MAX,
        0 <= i < s.len(),
        p(s[i]),
        forall|k: int| 0 <= k < s.len() && k != i ==> !p(#[trigger] s[k]),
    ensures
        state::places(s, p) == seq![i as usize],
    decreases s.len(),
{
    let b = s.drop_last();
    if i == s.len() - 1 {
        assert forall|k: int| 0 <= k < b.len() implies !p(#[trigger] b[k]) by {
            assert(b[k] == s[k]);
        }
        lemma_no_place(b, p);
        assert(state::places(s, p) =~= seq![i as usize]);
    } else {
        assert(b[i] == s[i]);
        assert forall|k: int| 0 <= k < b.len() && k != i implies !p(#[trigger] b[k]) by {
            assert(b[k] == s[k]);
        }
        lemma_one_place(b, p, i);
        assert(!p(s[s.len() - 1]));
    }
}

/// Without a record that is meant there is no place.
proof fn lemma_no_place(s: Seq<RecordView>, p: spec_fn(RecordView) -> bool)
    requires
        forall|k: int| 0 <= k < s.len() ==> !p(#[trigger] s[k]),
    ensures
        state::places(s, p) == Seq::<usize>::empty(),
    decreases s.len(),
{
    if s.len() > 0 {
        let b = s.drop_last();
        assert forall|k: int| 0 <= k < b.len() implies !p(#[trigger] b[k]) by {
            assert(b[k] == s[k]);
        }
        lemma_no_place(b, p);
        assert(!p(s[s.len() - 1]));
    }
}

} // verus!
