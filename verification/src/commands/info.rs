//! `info`: what this installation is and holds.

use vstd::prelude::*;

use crate::number;
use crate::number::usize_text;
use crate::state;
use crate::state::{is_active, RecordView, StateFile};
use crate::text;
use crate::text::{cat2, cat3, cat4, cat5, str_eq};

verus! {

/// The arguments of `info`.
#[derive(Debug)]
pub struct InfoArgs;

/// The line about virtualization: the backend with details, or why there is none.
pub fn virtualization_line(support: &Result<(String, String), String>) -> (r: String)
    ensures
        r@ == (match *support {
            Ok((backend, details)) => "Virtualization: "@ + backend@ + " ("@ + details@ + ")"@,
            Err(e) => "Virtualization: not available ("@ + e@ + ")"@,
        }),
{
    match support {
        Ok((backend, details)) => cat5("Virtualization: ", backend, " (", details, ")"),
        Err(e) => cat3("Virtualization: not available (", e, ")"),
    }
}

/// What the platform can do.
#[derive(Debug)]
pub struct PlatformCapabilities {
    pub os: String,
    pub architecture: String,
    pub vm_backend: String,
    pub host_guest_channel: String,
    pub bridge_networking: String,
    pub published_ports: bool,
    pub tee_attestation: bool,
    pub sealed_storage: bool,
}

/// Whether something is available, in a word.
pub open spec fn available(value: bool) -> Seq<char> {
    if value {
        "available"@
    } else {
        "unavailable"@
    }
}

/// Whether something is available, in a word.
pub fn availability(value: bool) -> (r: &'static str)
    ensures
        r@ == available(value),
{
    if value {
        "available"
    } else {
        "unavailable"
    }
}

/// The lines about what the platform can do.
pub open spec fn capabilities(c: PlatformCapabilities) -> Seq<Seq<char>> {
    seq![
        "Host platform: "@ + c.os@ + "/"@ + c.architecture@,
        "VM backend: "@ + c.vm_backend@,
        "Control channel: "@ + c.host_guest_channel@,
        "Bridge networking: "@ + c.bridge_networking@,
        "Published ports: "@ + if c.published_ports { "tcp"@ } else { "unsupported"@ },
        "TEE: attestation "@ + available(c.tee_attestation) + ", sealed storage "@ + available(c.sealed_storage),
    ]
}

/// The lines about what the platform can do.
pub fn capability_lines(c: &PlatformCapabilities) -> (r: Vec<String>)
    ensures
        text::strs(r@) == capabilities(*c),
{
    let mut out: Vec<String> = Vec::new();
    out.push(cat4("Host platform: ", &c.os, "/", &c.architecture));
    out.push(cat2("VM backend: ", &c.vm_backend));
    out.push(cat2("Control channel: ", &c.host_guest_channel));
    out.push(cat2("Bridge networking: ", &c.bridge_networking));
    out.push(cat2("Published ports: ", if c.published_ports { "tcp" } else { "unsupported" }));
    out.push(
        cat4("TEE: attestation ", availability(c.tee_attestation), ", sealed storage ", availability(c.sealed_storage)),
    );
    assert(text::strs(out@) =~= capabilities(*c));
    out
}

/// How many boxes there are, and in which states.
#[derive(Clone, Copy, Debug, PartialEq, Eq, Structural)]
pub struct BoxCounts {
    pub total: usize,
    pub active: usize,
    pub running: usize,
    pub paused: usize,
}

/// How many of the first boxes have a status.
pub open spec fn with_status(records: Seq<RecordView>, status: Seq<char>) -> nat {
    records.filter(|x: RecordView| x.status == status).len()
}

/// No more boxes have a status than there are boxes.
pub proof fn lemma_counts_bounded(records: Seq<RecordView>, status: Seq<char>)
    ensures
        with_status(records, status) <= records.len(),
    decreases records.len(),
{
    reveal(Seq::filter);
    if records.len() > 0 {
        lemma_counts_bounded(records.drop_last(), status);
    }
}

/// How many boxes there are, and in which states.
pub fn box_counts(state: &StateFile) -> (r: BoxCounts)
    ensures
        r.total == state@.len(),
        r.running == with_status(state@, "running"@),
        r.paused == with_status(state@, "paused"@),
        r.active == r.running + r.paused,
        r.active == state@.filter(|x: RecordView| state::active(x.status)).len(),
{
    let records = state.records();
    let ghost views = state@;
    let ghost run = |x: RecordView| x.status == "running"@;
    let ghost hold = |x: RecordView| x.status == "paused"@;
    let ghost act = |x: RecordView| state::active(x.status);
    let mut running: usize = 0;
    let mut paused: usize = 0;
    let mut active: usize = 0;
    proof {
        crate::seqs::lemma_filter_none(views, run);
        crate::seqs::lemma_filter_none(views, hold);
        crate::seqs::lemma_filter_none(views, act);
        reveal_strlit("running");
        reveal_strlit("paused");
        assert("running"@[0] == 'r' && "paused"@[0] == 'p');
    }
    for i in 0..records.len()
        invariant
            views == state::record_views(records@),
            run == (|x: RecordView| x.status == "running"@),
            hold == (|x: RecordView| x.status == "paused"@),
            act == (|x: RecordView| state::active(x.status)),
            running == views.take(i as int).filter(run).len(),
            paused == views.take(i as int).filter(hold).len(),
            active == views.take(i as int).filter(act).len(),
            active == running + paused,
            active <= i,
            "running"@[0] == 'r' && "paused"@[0] == 'p',
    {
        proof {
            crate::seqs::lemma_filter_step(views, run, i as int);
            crate::seqs::lemma_filter_step(views, hold, i as int);
            crate::seqs::lemma_filter_step(views, act, i as int);
            assert(views[i as int] == records@[i as int]@);
        }
        if str_eq(&records[i].status, "running") {
            running = running + 1;
        }
        if str_eq(&records[i].status, "paused") {
            paused = paused + 1;
        }
        if is_active(&records[i]) {
            active = active + 1;
        }
    }
    assert(views.take(records@.len() as int) =~= views);
    BoxCounts { total: records.len(), active, running, paused }
}

/// The line about the boxes; none are counted where the records cannot be read.
pub fn boxes_line(counts: Option<BoxCounts>) -> (r: String)
    ensures
        ({
            let (total, active, running, paused) = match counts {
                Some(c) => (c.total as nat, c.active as nat, c.running as nat, c.paused as nat),
                None => (0nat, 0nat, 0nat, 0nat),
            };
            r@ == "Boxes: "@ + number::decimal(total) + " total, "@ + number::decimal(active) + " active ("@ + (
            number::decimal(running) + " running, "@ + number::decimal(paused) + " paused)"@)
        }),
{
    let c = match counts {
        Some(c) => c,
        None => BoxCounts { total: 0, active: 0, running: 0, paused: 0 },
    };
    let total = usize_text(c.total);
    let active = usize_text(c.active);
    let running = usize_text(c.running);
    let paused = usize_text(c.paused);
    let tail = cat4(&running, " running, ", &paused, " paused)");
    let head = cat5("Boxes: ", &total, " total, ", &active, " active (");
    cat2(&head, &tail)
}

/// The bytes of all images.
pub open spec fn total_size(sizes: Seq<u64>) -> nat
    decreases sizes.len(),
{
    if sizes.len() == 0 {
        0
    } else {
        total_size(sizes.drop_last()) + sizes.last() as nat
    }
}

/// The bytes of the first images are no more than those of all.
proof fn lemma_total_prefix(sizes: Seq<u64>, n: int)
    requires
        0 <= n <= sizes.len(),
    ensures
        total_size(sizes.take(n)) <= total_size(sizes),
    decreases sizes.len() - n,
{
    if n < sizes.len() {
        lemma_total_prefix(sizes, n + 1);
        assert(sizes.take(n + 1).drop_last() =~= sizes.take(n));
    } else {
        assert(sizes.take(n) =~= sizes);
    }
}

/// The bytes of all images.
pub fn sum_sizes(sizes: &Vec<u64>) -> (r: u64)
    requires
        total_size(sizes@) <= u64::MAX,
    ensures
        r == total_size(sizes@),
{
    let mut sum: u64 = 0;
    for i in 0..sizes.len()
        invariant
            total_size(sizes@) <= u64::MAX,
            sum == total_size(sizes@.take(i as int)),
    {
        proof {
            lemma_total_prefix(sizes@, i + 1);
            assert(sizes@.take(i + 1).drop_last() =~= sizes@.take(i as int));
        }
        sum = sum + sizes[i];
    }
    assert(sizes@.take(sizes@.len() as int) =~= sizes@);
    sum
}

/// The line about the images: how many there are and their size in words, or
/// that there are none where the store cannot be read.
pub fn images_line(cached: Option<(usize, &str)>) -> (r: String)
    ensures
        r@ == (match cached {
            Some((n, size)) => "Images: "@ + number::decimal(n as nat) + " cached ("@ + size@ + ")"@,
            None => "Images: 0 cached"@,
        }),
{
    match cached {
        Some((n, size)) => {
            let count = usize_text(n);
            cat5("Images: ", &count, " cached (", size, ")")
        },
        None => "Images: 0 cached".to_string(),
    }
}

/// Every box is counted once in the whole, and the active ones are those that run and
/// those that are paused; there are never more of them than boxes.
pub proof fn lemma_boxes_counted(state: StateFile, r: BoxCounts)
    requires
        call_ensures(box_counts, (&state,), r),
    ensures
        r.total == state@.len(),
        r.active == r.running + r.paused,
        r.active <= r.total,
        (forall|i: int| 0 <= i < state@.len() ==> (#[trigger] state@[i]).status != "running"@) ==> r.running
            == 0,
        (forall|i: int| 0 <= i < state@.len() ==> (#[trigger] state@[i]).status == "running"@) ==> r.running
            == state@.len(),
        (forall|i: int| 0 <= i < state@.len() ==> (#[trigger] state@[i]).status == "paused"@) ==> r.paused
            == state@.len(),
{
    lemma_counts_all(state@, "running"@);
    lemma_counts_all(state@, "paused"@);
    state@.lemma_filter_len(|x: RecordView| state::active(x.status));
}

/// All are counted where all are meant, and none where none is.
proof fn lemma_counts_all(records: Seq<RecordView>, status: Seq<char>)
    ensures
        (forall|i: int| 0 <= i < records.len() ==> (#[trigger] records[i]).status == status) ==> with_status(
            records,
            status,
        ) == records.len(),
        (forall|i: int| 0 <= i < records.len() ==> (#[trigger] records[i]).status != status) ==> with_status(
            records,
            status,
        ) == 0,
    decreases records.len(),
{
    reveal(Seq::filter);
    if records.len() > 0 {
        let before = records.drop_last();
        lemma_counts_all(before, status);
        let p = |x: RecordView| x.status == status;
        assert(before.push(records.last()) =~= records);
        if forall|i: int| 0 <= i < records.len() ==> (#[trigger] records[i]).status == status {
            assert forall|i: int| 0 <= i < before.len() implies (#[trigger] before[i]).status == status by {
                assert(before[i] == records[i]);
            }
            assert(records[records.len() - 1].status == status);
        }
        if forall|i: int| 0 <= i < records.len() ==> (#[trigger] records[i]).status != status {
            assert forall|i: int| 0 <= i < before.len() implies (#[trigger] before[i]).status != status by {
                assert(before[i] == records[i]);
            }
            assert(records[records.len() - 1].status != status);
        }
    }
}

/// The sizes of two lists add up to that of both, and one size is itself.
pub proof fn lemma_sizes_add_up(a: Seq<u64>, b: Seq<u64>)
    ensures
        total_size(a + b) == total_size(a) + total_size(b),
        a.len() == 1 ==> total_size(a) == a[0],
    decreases b.len(),
{
    if a.len() == 1 {
        assert(a.drop_last().len() == 0);
        assert(total_size(a.drop_last()) == 0);
    }
    if b.len() == 0 {
        assert(a + b =~= a);
    } else {
        let all = a + b;
        assert(all.drop_last() =~= a + b.drop_last());
        assert(all.last() == b.last());
        lemma_sizes_add_up(a, b.drop_last());
    }
}

/// The sum of sizes is that of each added to the rest.
pub proof fn lemma_sum_of_sizes(sizes: Vec<u64>, more: Vec<u64>, n: u64, r: u64, s: u64)
    requires
        more@ == sizes@.push(n),
        total_size(more@) <= u64::MAX,
        call_ensures(sum_sizes, (&sizes,), r),
        call_ensures(sum_sizes, (&more,), s),
    ensures
        s == r + n,
        sizes@.len() == 0 ==> r == 0,
{
    assert(more@.drop_last() =~= sizes@);
}

/// What is said to be available is, and each capability is told on its own line.
pub proof fn lemma_capabilities_told(c: PlatformCapabilities, value: bool, word: &'static str, r: Vec<String>)
    requires
        call_ensures(availability, (value,), word),
        call_ensures(capability_lines, (&c,), r),
    ensures
        value ==> word@ == "available"@,
        !value ==> word@ == "unavailable"@,
        r@.len() == 6,
        text::has_suffix(r@[0]@, c.architecture@),
        text::has_suffix(r@[1]@, c.vm_backend@),
        text::has_suffix(r@[2]@, c.host_guest_channel@),
        text::has_suffix(r@[3]@, c.bridge_networking@),
        c.published_ports ==> text::has_suffix(r@[4]@, "tcp"@),
        !c.published_ports ==> text::has_suffix(r@[4]@, "unsupported"@),
{
    let s = text::strs(r@);
    assert(s.len() == r@.len());
    assert(s[0] == r@[0]@ && s[1] == r@[1]@ && s[2] == r@[2]@ && s[3] == r@[3]@ && s[4] == r@[4]@);
    let ports = if c.published_ports {
        "tcp"@
    } else {
        "unsupported"@
    };
    assert(s[0].skip(s[0].len() - c.architecture@.len()) =~= c.architecture@);
    assert(s[1].skip(s[1].len() - c.vm_backend@.len()) =~= c.vm_backend@);
    assert(s[2].skip(s[2].len() - c.host_guest_channel@.len()) =~= c.host_guest_channel@);
    assert(s[3].skip(s[3].len() - c.bridge_networking@.len()) =~= c.bridge_networking@);
    assert(s[4].skip(s[4].len() - ports.len()) =~= ports);
}

/// The numbers of boxes that are told are those that were counted, and none where none
/// were.
pub proof fn lemma_boxes_told(c: BoxCounts, r: String, n: usize, size: &str, images: String, none: String)
    requires
        call_ensures(boxes_line, (Some(c),), r),
        call_ensures(images_line, (Some((n, size)),), images),
        call_ensures(images_line, (None::<(usize, &str)>,), none),
    ensures
        text::has_prefix(r@, "Boxes: "@ + number::decimal(c.total as nat) + " total"@),
        text::has_suffix(r@, number::decimal(c.paused as nat) + " paused)"@),
        text::has_substring(r@, number::decimal(c.active as nat) + " active"@),
        text::has_prefix(images@, "Images: "@ + number::decimal(n as nat) + " cached"@),
        text::has_suffix(images@, "("@ + size@ + ")"@),
        none@ == "Images: 0 cached"@,
{
    reveal_strlit(" total");
    reveal_strlit(" total, ");
    reveal_strlit(" active");
    reveal_strlit(" active (");
    reveal_strlit(" cached");
    reveal_strlit(" cached (");
    reveal_strlit("(");
    let a = "Boxes: "@ + number::decimal(c.total as nat) + " total"@;
    assert(r@.take(a.len() as int) =~= a);
    let b = number::decimal(c.paused as nat) + " paused)"@;
    assert(r@.skip(r@.len() - b.len()) =~= b);
    let m = number::decimal(c.active as nat) + " active"@;
    let at = (a.len() + 2) as int;
    assert(r@.subrange(at, at + m.len()) =~= m);
    assert(text::occurs_at(r@, m, at));
    let d = "Images: "@ + number::decimal(n as nat) + " cached"@;
    assert(images@.take(d.len() as int) =~= d);
    let e = "("@ + size@ + ")"@;
    assert(images@.skip(images@.len() - e.len()) =~= e);
}

} // verus!
