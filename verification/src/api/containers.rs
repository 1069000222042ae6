//! Containers.

use vstd::prelude::*;
use vstd::set_lib::{lemma_int_range, lemma_map_size, lemma_subset_equality, set_int_range};

use crate::api::models::{ContainerCreateRequest, HostConfig};
use crate::commands::image_inspect::text_map_members;
use crate::config;
use crate::config::list_env;
use crate::json;
use crate::json::{
    all_contents, empty_list, list_value, new_members, number_value, object_value, put, put_count, put_object, put_text,
    single, text_value, JsonView,
};
use crate::split;
use crate::split::join;
use crate::state;
use crate::state::{is_active, BoxRecord, RecordView, StateFile};
use crate::strmap;
use crate::strmap::StrMap;
use crate::text;
use crate::text::{cat2, cat3, clone_opt_strings, clone_strings};

verus! {

/// Which containers are listed.
#[derive(Debug)]
pub struct ListQuery {
    /// All of them, and not only the active ones.
    pub all: bool,
    /// The last created, whatever their status.
    pub limit: Option<usize>,
    pub size: Option<bool>,
    pub filters: Option<String>,
}

/// What is told of a container. `mode` is how it is attached to the network, as a
/// document.
pub open spec fn container_doc(r: RecordView, mode: JsonView) -> JsonView {
    JsonView::Object(
        json::nothing().insert("Id"@, JsonView::Text(r.id)).insert(
            "Names"@,
            JsonView::List(seq![JsonView::Text("/"@ + r.name)]),
        ).insert("Image"@, JsonView::Text(r.image)).insert("ImageID"@, JsonView::Text(""@)).insert(
            "Command"@,
            JsonView::Text(split::joined(r.cmd, " "@)),
        ).insert("Created"@, JsonView::Number(r.created_at.secs as int)).insert("State"@, JsonView::Text(r.status)).insert(
            "Status"@,
            JsonView::Text(r.status),
        ).insert("Ports"@, JsonView::List(Seq::empty())).insert(
            "Labels"@,
            JsonView::Object(json::text_members(r.labels)),
        ).insert("SizeRw"@, JsonView::Number(0)).insert("SizeRootFs"@, JsonView::Number(0)).insert(
            "HostConfig"@,
            JsonView::Object(json::nothing().insert("NetworkMode"@, mode)),
        ).insert(
            "NetworkSettings"@,
            JsonView::Object(json::nothing().insert("Networks"@, JsonView::Object(json::nothing()))),
        ).insert("Mounts"@, JsonView::List(Seq::empty())),
    )
}

/// What is told of a container.
pub fn container_value(record: &BoxRecord, mode: serde_json::Value) -> (r: serde_json::Value)
    ensures
        json::contents(r) == container_doc(record@, json::contents(mode)),
{
    let name = cat2("/", &record.name);
    let command = join(&record.cmd, " ");
    let m = put_text(new_members(), "Id", &record.id);
    let m = put(m, "Names", single(text_value(&name)));
    let m = put_text(m, "Image", &record.image);
    let m = put_text(m, "ImageID", "");
    let m = put_text(m, "Command", &command);
    let m = put(m, "Created", number_value(record.created_at.secs));
    let m = put_text(m, "State", &record.status);
    let m = put_text(m, "Status", &record.status);
    let m = put(m, "Ports", empty_list());
    let m = put_object(m, "Labels", text_map_members(&record.labels));
    let m = put_count(m, "SizeRw", 0);
    let m = put_count(m, "SizeRootFs", 0);
    let m = put_object(m, "HostConfig", put(new_members(), "NetworkMode", mode));
    let m = put_object(m, "NetworkSettings", put_object(new_members(), "Networks", new_members()));
    object_value(put(m, "Mounts", empty_list()))
}

/// Whether the record at place `j` was made after the one at place `i`; of two
/// that were made at the same time, the one that stands later.
pub open spec fn newer(records: Seq<RecordView>, j: int, i: int) -> bool {
    let (a, b) = (records[i].created_at, records[j].created_at);
    a.before(b) || (a == b && i < j)
}

/// How many of the first `k` records were made after the one at place `i`.
pub open spec fn newer_among(records: Seq<RecordView>, i: int, k: int) -> nat
    decreases k,
{
    if k <= 0 {
        0
    } else {
        newer_among(records, i, k - 1) + if newer(records, k - 1, i) { 1nat } else { 0nat }
    }
}

/// Whether the record at place `i` is one of the `n` that were made last.
pub open spec fn among_last(records: Seq<RecordView>, n: usize, i: int) -> bool {
    newer_among(records, i, records.len() as int) < n
}

/// Whether a query asks for the record at place `i`: with a limit, for the ones
/// that were made last, whatever their status; else for the active ones, or for
/// all.
pub open spec fn asked_for(records: Seq<RecordView>, all: bool, limit: Option<usize>, i: int) -> bool {
    match limit {
        Some(n) => among_last(records, n, i),
        None => all || state::active(records[i].status),
    }
}

/// What is told of the containers that a query asks for among the first `k`
/// records: `modes` says of each record how the box is attached to the network.
pub open spec fn listing(
    records: Seq<RecordView>,
    modes: Seq<JsonView>,
    all: bool,
    limit: Option<usize>,
    k: int,
) -> Seq<JsonView>
    decreases k,
{
    if k <= 0 {
        Seq::empty()
    } else {
        let before = listing(records, modes, all, limit, k - 1);
        if asked_for(records, all, limit, k - 1) {
            before.push(container_doc(records[k - 1], modes[k - 1]))
        } else {
            before
        }
    }
}

/// How many records were made after the one at place `i`.
fn count_newer(records: &Vec<BoxRecord>, i: usize) -> (r: usize)
    requires
        i < records.len(),
    ensures
        r == newer_among(state::record_views(records@), i as int, records@.len() as int),
{
    let ghost views = state::record_views(records@);
    let mut n: usize = 0;
    for j in 0..records.len()
        invariant
            i < records.len(),
            views == state::record_views(records@),
            n <= j,
            n == newer_among(views, i as int, j as int),
    {
        proof {
            assert(views[i as int] == records@[i as int]@ && views[j as int] == records@[j as int]@);
        }
        let (a, b) = (&records[i].created_at, &records[j].created_at);
        if a.is_before(b) || (!b.is_before(a) && i < j) {
            n = n + 1;
        }
    }
    n
}

/// The containers that a query asks for, in the order of the state.
pub fn list(query: &ListQuery, state: &StateFile, modes: Vec<serde_json::Value>) -> (r: serde_json::Value)
    requires
        modes@.len() == state@.len(),
    ensures
        json::contents(r) == JsonView::List(
            listing(state@, json::all_contents(modes@), query.all, query.limit, state@.len() as int),
        ),
{
    let records = state.records();
    let ghost views = state@;
    let ghost given = json::all_contents(modes@);
    let mut out: Vec<serde_json::Value> = Vec::new();
    assert(json::all_contents(out@) =~= Seq::empty());
    for i in 0..records.len()
        invariant
            views == state::record_views(records@),
            modes@.len() == records@.len(),
            given == json::all_contents(modes@),
            json::all_contents(out@) == listing(views, given, query.all, query.limit, i as int),
    {
        proof {
            assert(views[i as int] == records@[i as int]@);
            assert(given[i as int] == json::contents(modes@[i as int]));
        }
        let asked: bool = match query.limit {
            Some(n) => count_newer(records, i) < n,
            None => query.all || is_active(&records[i]),
        };
        if asked {
            let ghost before = out@;
            let one = container_value(&records[i], json::copy(&modes[i]));
            out.push(one);
            assert(json::all_contents(out@) =~= json::all_contents(before).push(json::contents(one)));
        }
    }
    list_value(out)
}

/// Whatever was made after `j` was made after `i` too, where `j` was.
proof fn lemma_newer_grows(records: Seq<RecordView>, i: int, j: int, k: int)
    requires
        0 <= i < records.len(),
        0 <= j < records.len(),
        newer(records, j, i),
        0 <= k <= records.len(),
    ensures
        newer_among(records, j, k) + (if j < k { 1nat } else { 0nat }) <= newer_among(records, i, k),
    decreases k,
{
    if k > 0 {
        lemma_newer_grows(records, i, j, k - 1);
    }
}

/// Of two different records one was made after the other.
proof fn lemma_newer_total(records: Seq<RecordView>, i: int, j: int)
    requires
        i != j,
    ensures
        newer(records, i, j) || newer(records, j, i),
{
    let (a, b) = (records[i].created_at, records[j].created_at);
    assert(a.before(b) || b.before(a) || a == b);
}

/// With a limit, every container that is listed was made after every one that is
/// not.
pub proof fn lemma_last_are_listed(records: Seq<RecordView>, all: bool, n: usize, i: int, j: int)
    requires
        0 <= i < records.len(),
        0 <= j < records.len(),
        asked_for(records, all, Some(n), i),
        !asked_for(records, all, Some(n), j),
    ensures
        newer(records, i, j),
{
    if !newer(records, i, j) {
        lemma_newer_total(records, i, j);
        lemma_newer_grows(records, i, j, records.len() as int);
    }
}

/// No more records were made after one than there are others.
proof fn lemma_newer_bounded(records: Seq<RecordView>, i: int, k: int)
    requires
        0 <= k,
    ensures
        newer_among(records, i, k) + (if 0 <= i < k { 1nat } else { 0nat }) <= k,
    decreases k,
{
    if k > 0 {
        lemma_newer_bounded(records, i, k - 1);
    }
}

/// A listing is as long as there are places that the query asks for.
proof fn lemma_listing_counts(
    records: Seq<RecordView>,
    modes: Seq<JsonView>,
    all: bool,
    limit: Option<usize>,
    k: int,
)
    requires
        0 <= k,
    ensures
        ({
            let asked = Set::new(|i: int| 0 <= i < k && asked_for(records, all, limit, i));
            asked.finite() && listing(records, modes, all, limit, k).len() == asked.len()
        }),
    decreases k,
{
    let asked = Set::new(|i: int| 0 <= i < k && asked_for(records, all, limit, i));
    if k == 0 {
        assert(asked =~= Set::empty());
    } else {
        lemma_listing_counts(records, modes, all, limit, k - 1);
        let before = Set::new(|i: int| 0 <= i < k - 1 && asked_for(records, all, limit, i));
        if asked_for(records, all, limit, k - 1) {
            assert(asked =~= before.insert(k - 1));
        } else {
            assert(asked =~= before);
        }
    }
}

/// With a limit, as many containers are listed as it allows, or all of them where
/// there are no more.
pub proof fn lemma_limit_is_met(records: Seq<RecordView>, modes: Seq<JsonView>, all: bool, n: usize)
    ensures
        listing(records, modes, all, Some(n), records.len() as int).len() == if n < records.len() {
            n as nat
        } else {
            records.len()
        },
{
    let len = records.len() as int;
    let rank = |i: int| newer_among(records, i, len) as int;
    let places = set_int_range(0, len);
    let ranks = places.map(rank);
    lemma_int_range(0, len);
    assert forall|i: int, j: int| places.contains(i) && places.contains(j) && rank(i) == rank(j) implies i == j by {
        if i != j {
            lemma_newer_total(records, i, j);
            if newer(records, i, j) {
                lemma_newer_grows(records, j, i, len);
            } else {
                lemma_newer_grows(records, i, j, len);
            }
        }
    }
    assert(vstd::relations::injective_on(rank, places));
    lemma_map_size(places, ranks, rank);
    assert forall|m: int| ranks.contains(m) implies places.contains(m) by {
        let i = choose|i: int| places.contains(i) && rank(i) == m;
        lemma_newer_bounded(records, i, len);
    }
    lemma_subset_equality(ranks, places);
    let asked = Set::new(|i: int| 0 <= i < len && asked_for(records, all, Some(n), i));
    lemma_listing_counts(records, modes, all, Some(n), len);
    let top = if n < len { n as int } else { len };
    let low = set_int_range(0, top);
    lemma_int_range(0, top);
    assert(low =~= asked.map(rank)) by {
        assert forall|m: int| low.contains(m) implies asked.map(rank).contains(m) by {
            assert(ranks.contains(m));
            let i = choose|i: int| places.contains(i) && rank(i) == m;
            assert(asked.contains(i));
        }
        assert forall|m: int| asked.map(rank).contains(m) implies low.contains(m) by {
            let i = choose|i: int| asked.contains(i) && rank(i) == m;
            lemma_newer_bounded(records, i, len);
        }
    }
    assert(vstd::relations::injective_on(rank, asked));
    lemma_map_size(asked, low, rank);
}

/// What is asked of `run` for a container.
#[derive(Debug)]
pub struct RunRequest {
    pub image: String,
    pub name: Option<String>,
    pub detach: bool,
    pub rm: bool,
    pub interactive: bool,
    pub tty: bool,
    pub env: Vec<String>,
    pub volume: Vec<String>,
    pub publish: Vec<String>,
    pub network: Option<String>,
    pub hostname: Option<String>,
    pub user: Option<String>,
    pub workdir: Option<String>,
    pub entrypoint: Option<Vec<String>>,
    pub label: Vec<String>,
    pub restart: String,
    pub memory: Option<u32>,
    pub privileged: bool,
    pub read_only: bool,
    pub cmd: Vec<String>,
}

/// A number of bytes in whole megabytes, towards zero.
pub open spec fn whole_megabytes(bytes: int) -> int {
    if bytes >= 0 {
        bytes / 1048576
    } else {
        -((-bytes) / 1048576)
    }
}

/// A number of bytes in megabytes, in the 32 bits that hold it.
pub open spec fn megabytes(bytes: i64) -> int {
    whole_megabytes(bytes as int) % 0x1_0000_0000
}

/// A number of bytes in megabytes, in the 32 bits that hold it.
pub fn to_megabytes(bytes: i64) -> (r: u32)
    ensures
        r == megabytes(bytes),
{
    let b: i128 = bytes as i128;
    if b >= 0 {
        let q: i128 = b / 1048576;
        (q % 0x1_0000_0000) as u32
    } else {
        let q: i128 = (-b) / 1048576;
        let left: i128 = q % 0x1_0000_0000;
        if left == 0 {
            assert((-q) % 0x1_0000_0000 == 0) by (nonlinear_arith)
                requires
                    q % 0x1_0000_0000 == 0,
            ;
            0
        } else {
            assert((-q) % 0x1_0000_0000 == 0x1_0000_0000 - left) by (nonlinear_arith)
                requires
                    left == q % 0x1_0000_0000,
                    0 < left < 0x1_0000_0000,
            ;
            (0x1_0000_0000 - left) as u32
        }
    }
}

/// What a host configuration says of a truth value; no where it says nothing.
pub open spec fn says(o: Option<bool>) -> bool {
    o == Some(true)
}

/// Whether a request for `run` is what a request for a container asks for.
pub open spec fn asks_for(req: ContainerCreateRequest, name: Option<Seq<char>>, r: RunRequest) -> bool {
    let host = req.host_config;
    &&& r.image@ == req.image@
    &&& text::opt_str(r.name) == name
    &&& r.detach && !r.interactive && !r.tty
    &&& r.rm == (host is Some && says(host->0.auto_remove))
    &&& text::strs(r.env@) == (match text::opt_strs(req.env) {
        Some(l) => l,
        None => Seq::empty(),
    })
    &&& r.volume@.len() == 0 && r.publish@.len() == 0
    &&& text::opt_str(r.network) == (match host {
        Some(h) => text::opt_str(h.network_mode),
        None => None,
    })
    &&& text::opt_str(r.hostname) == text::opt_str(req.hostname)
    &&& text::opt_str(r.user) == text::opt_str(req.user)
    &&& text::opt_str(r.workdir) == text::opt_str(req.working_dir)
    &&& text::opt_strs(r.entrypoint) == text::opt_strs(req.entrypoint)
    &&& labels_are(req.labels, text::strs(r.label@))
    &&& r.restart@ == restart_of(host)
    &&& (match host {
        Some(h) => match h.memory {
            Some(m) => r.memory matches Some(n) && n == megabytes(m),
            None => r.memory is None,
        },
        None => r.memory is None,
    })
    &&& r.privileged == (host is Some && says(host->0.privileged))
    &&& r.read_only == (host is Some && says(host->0.readonly_rootfs))
    &&& text::strs(r.cmd@) == (match text::opt_strs(req.cmd) {
        Some(l) => l,
        None => Seq::empty(),
    })
}

/// The restart policy that a host configuration names.
pub open spec fn restart_of(host: Option<HostConfig>) -> Seq<char> {
    match host {
        Some(h) => match h.restart_policy {
            Some(p) => p.name@,
            None => "no"@,
        },
        None => "no"@,
    }
}

/// Whether texts are the labels of a request, KEY=VALUE, each once.
pub open spec fn labels_are(labels: Option<StrMap<String>>, l: Seq<Seq<char>>) -> bool {
    match labels {
        Some(m) => exists|pairs: Seq<(Seq<char>, Seq<char>)>| #[trigger]
            config::lists(pairs, strmap::texts(m@)) && l == pair_lines(pairs),
        None => l.len() == 0,
    }
}

/// Pairs as texts, KEY=VALUE.
pub open spec fn pair_lines(pairs: Seq<(Seq<char>, Seq<char>)>) -> Seq<Seq<char>> {
    pairs.map_values(|p: (Seq<char>, Seq<char>)| p.0 + "="@ + p.1)
}

/// Pairs as texts, KEY=VALUE.
pub fn pair_texts(pairs: &Vec<(String, String)>) -> (r: Vec<String>)
    ensures
        text::strs(r@) == pair_lines(config::pair_texts(pairs@)),
{
    let mut out: Vec<String> = Vec::new();
    for i in 0..pairs.len()
        invariant
            out.len() == i,
            forall|k: int| 0 <= k < i ==> (#[trigger] out@[k])@ == pairs@[k].0@ + "="@ + pairs@[k].1@,
    {
        out.push(cat3(&pairs[i].0, "=", &pairs[i].1));
    }
    assert(text::strs(out@) =~= pair_lines(config::pair_texts(pairs@)));
    out
}

/// A list of texts, or none.
fn or_none(o: &Option<Vec<String>>) -> (r: Vec<String>)
    ensures
        text::strs(r@) == (match text::opt_strs(*o) {
            Some(l) => l,
            None => Seq::empty(),
        }),
{
    match o {
        Some(l) => clone_strings(l),
        None => {
            let none: Vec<String> = Vec::new();
            assert(text::strs(none@) =~= Seq::empty());
            none
        },
    }
}

/// What a host configuration says of a truth value.
fn is_said(o: Option<bool>) -> (r: bool)
    ensures
        r == says(o),
{
    match o {
        Some(b) => b,
        None => false,
    }
}

/// What is asked of `run` for a container.
pub fn run_request(req: &ContainerCreateRequest, name: &Option<String>) -> (r: RunRequest)
    ensures
        asks_for(*req, text::opt_str(*name), r),
{
    let label: Vec<String> = match &req.labels {
        Some(m) => {
            let pairs = list_env(m);
            let l = pair_texts(&pairs);
            assert(config::lists(config::pair_texts(pairs@), strmap::texts(m@)) && text::strs(l@) == pair_lines(
                config::pair_texts(pairs@),
            ));
            l
        },
        None => Vec::new(),
    };
    assert(labels_are(req.labels, text::strs(label@)));
    let (rm, network, restart, memory, privileged, read_only): (
        bool,
        Option<String>,
        String,
        Option<u32>,
        bool,
        bool,
    ) = match &req.host_config {
        Some(h) => {
            let restart = match &h.restart_policy {
                Some(p) => p.name.clone(),
                None => "no".to_string(),
            };
            let memory: Option<u32> = match h.memory {
                Some(m) => Some(to_megabytes(m)),
                None => None,
            };
            (
                is_said(h.auto_remove),
                h.network_mode.clone(),
                restart,
                memory,
                is_said(h.privileged),
                is_said(h.readonly_rootfs),
            )
        },
        None => (false, None, "no".to_string(), None, false, false),
    };
    RunRequest {
        image: req.image.clone(),
        name: name.clone(),
        detach: true,
        rm,
        interactive: false,
        tty: false,
        env: or_none(&req.env),
        volume: Vec::new(),
        publish: Vec::new(),
        network,
        hostname: req.hostname.clone(),
        user: req.user.clone(),
        workdir: req.working_dir.clone(),
        entrypoint: clone_opt_strings(&req.entrypoint),
        label,
        restart,
        memory,
        privileged,
        read_only,
        cmd: or_none(&req.cmd),
    }
}

/// The answer once a container is made.
pub open spec fn created_doc(box_id: Seq<char>) -> JsonView {
    JsonView::Object(
        json::nothing().insert("Id"@, JsonView::Text(box_id)).insert("Warnings"@, JsonView::List(Seq::empty())),
    )
}

/// The answer once a container is made.
pub fn created_value(box_id: &str) -> (r: serde_json::Value)
    ensures
        json::contents(r) == created_doc(box_id@),
{
    let m = put_text(new_members(), "Id", box_id);
    object_value(put(m, "Warnings", empty_list()))
}

/// What is told of a box is its own: its identifier, its name behind a slash, its
/// image, its status, its command, the second it was created in and its labels.
pub proof fn lemma_container_told(record: BoxRecord, mode: serde_json::Value, k: Seq<char>, r: serde_json::Value)
    requires
        call_ensures(container_value, (&record, mode), r),
    ensures
        ({
            let doc = json::contents(r);
            &&& json::member_of(doc, "Id"@) == JsonView::Text(record.id@)
            &&& json::item_of(json::member_of(doc, "Names"@), 0) == JsonView::Text("/"@ + record.name@)
            &&& json::member_of(doc, "Image"@) == JsonView::Text(record.image@)
            &&& json::member_of(doc, "State"@) == JsonView::Text(record.status@)
            &&& json::member_of(doc, "Status"@) == JsonView::Text(record.status@)
            &&& json::member_of(doc, "Created"@) == JsonView::Number(record.created_at.secs as int)
            &&& json::member_of(doc, "Command"@) == JsonView::Text(
                split::joined(text::strs(record.cmd@), " "@),
            )
            &&& record.labels@.contains_key(k) ==> json::member_of(json::member_of(doc, "Labels"@), k)
                == JsonView::Text(record.labels@[k]@)
            &&& json::member_of(json::member_of(doc, "HostConfig"@), "NetworkMode"@) == json::contents(
                mode,
            )
        }),
{
    reveal_strlit("Id");
    reveal_strlit("Names");
    reveal_strlit("Image");
    reveal_strlit("ImageID");
    reveal_strlit("Command");
    reveal_strlit("Created");
    reveal_strlit("State");
    reveal_strlit("Status");
    reveal_strlit("Ports");
    reveal_strlit("Labels");
    reveal_strlit("SizeRw");
    reveal_strlit("SizeRootFs");
    reveal_strlit("HostConfig");
    reveal_strlit("NetworkSettings");
    reveal_strlit("Mounts");
    assert("Id"@.len() == 2);
    assert("Names"@.len() == 5 && "Names"@[0] == 'N');
    assert("Image"@.len() == 5 && "Image"@[0] == 'I');
    assert("ImageID"@.len() == 7 && "ImageID"@[0] == 'I');
    assert("Command"@.len() == 7 && "Command"@[0] == 'C' && "Command"@[1] == 'o');
    assert("Created"@.len() == 7 && "Created"@[0] == 'C' && "Created"@[1] == 'r');
    assert("State"@.len() == 5 && "State"@[0] == 'S');
    assert("Status"@.len() == 6 && "Status"@[0] == 'S' && "Status"@[1] == 't');
    assert("Ports"@.len() == 5 && "Ports"@[0] == 'P');
    assert("Labels"@.len() == 6 && "Labels"@[0] == 'L');
    assert("SizeRw"@.len() == 6 && "SizeRw"@[0] == 'S' && "SizeRw"@[1] == 'i');
    assert("SizeRootFs"@.len() == 10 && "SizeRootFs"@[0] == 'S');
    assert("HostConfig"@.len() == 10 && "HostConfig"@[0] == 'H');
    assert("NetworkSettings"@.len() == 15);
    assert("Mounts"@.len() == 6 && "Mounts"@[0] == 'M');
    let labels = strmap::texts(record.labels@);
    assert(record@.labels == labels);
    if record.labels@.contains_key(k) {
        assert(labels.contains_key(k) && labels[k] == record.labels@[k]@);
        assert(json::text_members(labels).contains_key(k));
    }
}

/// Without a limit the active boxes are listed, and all of them where all are asked
/// for.
pub proof fn lemma_active_are_listed(
    query: ListQuery,
    state: StateFile,
    modes: Vec<serde_json::Value>,
    i: int,
    r: serde_json::Value,
)
    requires
        modes@.len() == state@.len(),
        call_ensures(list, (&query, &state, modes), r),
        query.limit is None,
        0 <= i < state@.len(),
    ensures
        json::contents(r) is List,
        query.all || state@[i].status == "running"@ || state@[i].status == "paused"@
            ==> json::contents(r)->List_0.contains(
            container_doc(state@[i], json::contents(modes@[i])),
        ),
        query.all ==> json::contents(r)->List_0.len() == state@.len(),
        !query.all && (forall|k: int|
            0 <= k < state@.len() ==> (#[trigger] state@[k]).status != "running"@ && state@[k].status
                != "paused"@) ==> json::contents(r)->List_0.len() == 0,
{
    let m = json::all_contents(modes@);
    assert(m[i] == json::contents(modes@[i]));
    lemma_listing_holds(state@, m, query.all, state@.len() as int, i);
}

/// What is meant is listed.
proof fn lemma_listing_holds(records: Seq<RecordView>, modes: Seq<JsonView>, all: bool, k: int, i: int)
    requires
        0 <= k <= records.len(),
    ensures
        0 <= i < k && (all || state::active(records[i].status)) ==> listing(
            records,
            modes,
            all,
            None,
            k,
        ).contains(container_doc(records[i], modes[i])),
        all ==> listing(records, modes, all, None, k).len() == k,
        !all && (forall|j: int|
            0 <= j < records.len() ==> (#[trigger] records[j]).status != "running"@ && records[j].status
                != "paused"@) ==> listing(records, modes, all, None, k).len() == 0,
    decreases k,
{
    if k > 0 {
        lemma_listing_holds(records, modes, all, k - 1, i);
        let before = listing(records, modes, all, None, k - 1);
        let now = listing(records, modes, all, None, k);
        if 0 <= i < k && (all || state::active(records[i].status)) {
            let d = container_doc(records[i], modes[i]);
            if i < k - 1 {
                let n = choose|n: int| 0 <= n < before.len() && before[n] == d;
                assert(now[n] == d);
            } else {
                assert(now[now.len() - 1] == d);
            }
        }
        assert(records[k - 1].status == records[k - 1].status);
    }
}

/// A box that is asked for over the API is run as it was asked for: detached, with the
/// image, the variables, the command and the user that were given, and with what the
/// host is told to do.
pub proof fn lemma_run_as_requested(req: ContainerCreateRequest, name: Option<String>, r: RunRequest)
    requires
        call_ensures(run_request, (&req, &name), r),
    ensures
        r.image@ == req.image@,
        name is Some ==> r.name is Some && r.name->0@ == name->0@,
        name is None ==> r.name is None,
        r.detach && !r.interactive && !r.tty,
        req.cmd is Some ==> text::same_texts(r.cmd@, req.cmd->0@),
        req.cmd is None ==> r.cmd@.len() == 0,
        req.env is Some ==> text::same_texts(r.env@, req.env->0@),
        req.env is None ==> r.env@.len() == 0,
        req.entrypoint is Some ==> r.entrypoint is Some && text::same_texts(
            r.entrypoint->0@,
            req.entrypoint->0@,
        ),
        text::opt_str(r.user) == text::opt_str(req.user),
        text::opt_str(r.workdir) == text::opt_str(req.working_dir),
        text::opt_str(r.hostname) == text::opt_str(req.hostname),
        req.host_config is None ==> !r.privileged && !r.read_only && !r.rm && r.network is None
            && r.memory is None && r.restart@ == "no"@,
        req.host_config is Some ==> {
            let h = req.host_config->0;
            &&& r.privileged <==> h.privileged == Some(true)
            &&& r.read_only <==> h.readonly_rootfs == Some(true)
            &&& r.rm <==> h.auto_remove == Some(true)
            &&& text::opt_str(r.network) == text::opt_str(h.network_mode)
            &&& r.memory is Some <==> h.memory is Some
            &&& h.restart_policy is Some ==> r.restart@ == h.restart_policy->0.name@
            &&& h.restart_policy is None ==> r.restart@ == "no"@
        },
        req.labels is None ==> r.label@.len() == 0,
{
    if req.cmd is Some {
        text::lemma_same_texts(r.cmd@, req.cmd->0@);
    }
    if req.env is Some {
        text::lemma_same_texts(r.env@, req.env->0@);
    }
    if req.entrypoint is Some {
        assert(text::opt_strs(r.entrypoint) == text::opt_strs(req.entrypoint));
        text::lemma_same_texts(r.entrypoint->0@, req.entrypoint->0@);
    }
    assert(text::strs(r.cmd@).len() == r.cmd@.len());
    assert(text::strs(r.env@).len() == r.env@.len());
    assert(text::strs(r.label@).len() == r.label@.len());
}

/// Bytes come to so many whole megabytes, of 1024 times 1024 bytes each.
pub proof fn lemma_megabytes(bytes: i64, r: u32)
    requires
        call_ensures(to_megabytes, (bytes,), r),
        0 <= bytes < 0x1_0000_0000 * 0x10_0000,
    ensures
        r * (1024 * 1024) <= bytes < (r + 1) * (1024 * 1024),
{
    let q = bytes as int / 1048576;
    assert(0 <= q < 0x1_0000_0000);
    assert(q % 0x1_0000_0000 == q);
    assert(r == q);
    assert(q * 1048576 <= bytes < (q + 1) * 1048576);
}

/// A pair is told as its key, an `=` and its value, in its place.
pub proof fn lemma_pairs_told(pairs: Vec<(String, String)>, i: int, r: Vec<String>)
    requires
        call_ensures(pair_texts, (&pairs,), r),
        0 <= i < pairs@.len(),
    ensures
        r@.len() == pairs@.len(),
        r@[i]@ == pairs@[i].0@ + "="@ + pairs@[i].1@,
{
    assert(text::strs(r@).len() == r@.len());
    assert(config::pair_texts(pairs@).len() == pairs@.len());
    assert(text::strs(r@)[i] == r@[i]@);
    assert(config::pair_texts(pairs@)[i] == (pairs@[i].0@, pairs@[i].1@));
}

/// With a limit the boxes that were created last are listed: none that is left out was
/// created after one that is listed.
pub proof fn lemma_limit_keeps_the_latest(records: Seq<RecordView>, all: bool, n: usize, i: int, j: int)
    requires
        0 <= i < records.len(),
        0 <= j < records.len(),
        asked_for(records, all, Some(n), i),
        !asked_for(records, all, Some(n), j),
    ensures
        records[i].created_at.secs >= records[j].created_at.secs,
        records[i].created_at.secs == records[j].created_at.secs ==> records[i].created_at.nanos
            >= records[j].created_at.nanos,
{
    lemma_last_are_listed(records, all, n, i, j);
}

/// Each label of a request is a label of the run, as `KEY=VALUE`.
pub proof fn lemma_labels_requested(req: ContainerCreateRequest, name: Option<String>, k: Seq<char>, r: RunRequest)
    requires
        call_ensures(run_request, (&req, &name), r),
        req.labels is Some,
        req.labels->0@.contains_key(k),
    ensures
        text::strs(r.label@).contains(k + "="@ + req.labels->0@[k]@),
{
    let m = strmap::texts(req.labels->0@);
    let pairs = choose|pairs: Seq<(Seq<char>, Seq<char>)>| #[trigger]
        config::lists(pairs, m) && text::strs(r.label@) == pair_lines(pairs);
    assert(m.dom().contains(k));
    let i = choose|i: int| 0 <= i < pairs.len() && (#[trigger] pairs[i]).0 == k;
    assert(m[k] == req.labels->0@[k]@);
    assert(text::strs(r.label@)[i] == k + "="@ + req.labels->0@[k]@);
}

} // verus!
