//! `system-prune`: removes what nothing uses.

use vstd::prelude::*;

use crate::commands::image_prune::{prune_mode, ImagePruneMode};
use crate::number;
use crate::number::usize_text;
use crate::state;
use crate::state::BoxRecord;
use crate::text;
use crate::text::{cat2, cat7, str_eq};

verus! {

/// The arguments of `system-prune`.
#[derive(Debug)]
pub struct SystemPruneArgs {
    pub all: bool,
    pub force: bool,
}

/// What is printed in place of pruning, where it is not forced.
pub fn prune_warning(all: bool) -> (r: Vec<String>)
    ensures
        text::strs(r@) == seq![
            "WARNING: This will remove:"@,
            "  - all created, stopped, and dead boxes"@,
            "  - all networks not used by at least one box"@,
            if all { "  - all images not used by active boxes"@ } else { "  - all dangling images"@ },
            ""@,
            "Use --force to skip this prompt."@,
        ],
{
    let mut out: Vec<String> = Vec::new();
    out.push("WARNING: This will remove:".to_string());
    out.push("  - all created, stopped, and dead boxes".to_string());
    out.push("  - all networks not used by at least one box".to_string());
    if all {
        out.push("  - all images not used by active boxes".to_string());
    } else {
        out.push("  - all dangling images".to_string());
    }
    out.push("".to_string());
    out.push("Use --force to skip this prompt.".to_string());
    assert(text::strs(out@) =~= seq![
        "WARNING: This will remove:"@,
        "  - all created, stopped, and dead boxes"@,
        "  - all networks not used by at least one box"@,
        if all { "  - all images not used by active boxes"@ } else { "  - all dangling images"@ },
        ""@,
        "Use --force to skip this prompt."@,
    ]);
    out
}

/// Whether a box with a status is pruned.
pub open spec fn prunable(status: Seq<char>) -> bool {
    status == "stopped"@ || status == "dead"@ || status == "created"@
}

/// Whether a box is pruned.
pub fn is_prunable_box(record: &BoxRecord) -> (r: bool)
    ensures
        r == prunable(record@.status),
{
    str_eq(&record.status, "stopped") || str_eq(&record.status, "dead") || str_eq(&record.status, "created")
}

/// Which images are pruned.
pub fn image_prune_mode(all: bool) -> (r: ImagePruneMode)
    ensures
        r == if all { ImagePruneMode::Unused } else { ImagePruneMode::Dangling },
{
    prune_mode(all)
}

/// The boxes to prune, by their places.
pub fn prunable_boxes(records: &Vec<BoxRecord>) -> (r: Vec<usize>)
    ensures
        forall|k: int| 0 <= k < r@.len() ==> (#[trigger] r@[k]) < records@.len() && prunable(
            records@[r@[k] as int]@.status,
        ),
        forall|i: int| 0 <= i < records@.len() && prunable((#[trigger] records@[i])@.status) ==> r@.contains(i as usize),
        forall|j: int, k: int| 0 <= j < k < r@.len() ==> r@[j] < r@[k],
{
    let mut out: Vec<usize> = Vec::new();
    for i in 0..records.len()
        invariant
            forall|k: int|
                0 <= k < out@.len() ==> (#[trigger] out@[k]) < i && prunable(records@[out@[k] as int]@.status),
            forall|j: int| 0 <= j < i && prunable((#[trigger] records@[j])@.status) ==> out@.contains(j as usize),
            forall|j: int, k: int| 0 <= j < k < out@.len() ==> out@[j] < out@[k],
    {
        let ghost before = out@;
        if is_prunable_box(&records[i]) {
            out.push(i);
            proof {
                assert forall|j: int| 0 <= j < i + 1 && prunable((#[trigger] records@[j])@.status) implies out@.contains(
                    j as usize,
                ) by {
                    if j < i {
                        let k = choose|k: int| 0 <= k < before.len() && before[k] == j as usize;
                        assert(out@[k] == j as usize);
                    } else {
                        assert(out@[before.len() as int] == i);
                    }
                }
            }
        }
    }
    out
}

/// The line for a box that is removed.
pub fn removed_box_line(name: &str) -> (r: String)
    ensures
        r@ == "Removed box: "@ + name@,
{
    cat2("Removed box: ", name)
}

/// The line for an image that is removed.
pub fn removed_image_line(reference: &str) -> (r: String)
    ensures
        r@ == "Removed image: "@ + reference@,
{
    cat2("Removed image: ", reference)
}

/// The line for a network that is removed.
pub fn removed_network_line(name: &str) -> (r: String)
    ensures
        r@ == "Removed network: "@ + name@,
{
    cat2("Removed network: ", name)
}

/// The line that says what pruning came to, with the bytes in words.
pub fn summary_line(boxes: usize, images: usize, networks: usize, freed: &str) -> (r: String)
    ensures
        r@ == "Removed "@ + number::decimal(boxes as nat) + " box(es), "@ + number::decimal(images as nat)
            + " image(s), "@ + number::decimal(networks as nat) + (" network(s), freed "@ + freed@),
{
    let b = usize_text(boxes);
    let i = usize_text(images);
    let n = usize_text(networks);
    let tail = cat2(" network(s), freed ", freed);
    cat7("Removed ", &b, " box(es), ", &i, " image(s), ", &n, &tail)
}

/// No active box is pruned.
pub proof fn lemma_active_boxes_stay(status: Seq<char>)
    requires
        state::active(status),
    ensures
        !prunable(status),
{
    reveal_strlit("running");
    reveal_strlit("paused");
    reveal_strlit("stopped");
    reveal_strlit("dead");
    reveal_strlit("created");
    assert("running"@[0] == 'r' && "paused"@[0] == 'p');
    assert("stopped"@[0] == 's' && "dead"@[0] == 'd' && "created"@[0] == 'c');
}

/// Boxes that were created, have stopped or are dead are removed; one that runs or is
/// paused never is.
pub proof fn lemma_active_box_stays(record: BoxRecord, r: bool)
    requires
        call_ensures(is_prunable_box, (&record,), r),
    ensures
        record.status@ == "running"@ || record.status@ == "paused"@ ==> !r,
        record.status@ == "created"@ || record.status@ == "stopped"@ || record.status@ == "dead"@ ==> r,
{
    reveal_strlit("running");
    reveal_strlit("paused");
    reveal_strlit("created");
    reveal_strlit("stopped");
    reveal_strlit("dead");
    assert("running"@[0] == 'r' && "paused"@[0] == 'p' && "created"@[0] == 'c' && "stopped"@[0] == 's'
        && "dead"@[0] == 'd');
}

/// Each box that may be removed is, and no other, in their order.
pub proof fn lemma_boxes_pruned(records: Vec<BoxRecord>, i: int, one: bool, r: Vec<usize>)
    requires
        records@.len() <= usize::MAX,
        0 <= i < records@.len(),
        call_ensures(is_prunable_box, (&records@[i],), one),
        call_ensures(prunable_boxes, (&records,), r),
    ensures
        r@.contains(i as usize) <==> one,
        forall|j: int, k: int| 0 <= j < k < r@.len() ==> r@[j] < r@[k],
{
    if r@.contains(i as usize) {
        let k = choose|k: int| 0 <= k < r@.len() && r@[k] == i as usize;
        assert(prunable(records@[r@[k] as int]@.status));
    }
    if one {
        assert(prunable(records@[i]@.status));
    }
}

/// Unused images go only where all are asked for, and the warning says which go.
pub proof fn lemma_system_prune_mode(all: bool, mode: ImagePruneMode, warning: Vec<String>)
    requires
        call_ensures(image_prune_mode, (all,), mode),
        call_ensures(prune_warning, (all,), warning),
    ensures
        mode is Unused <==> all,
        warning@.len() == 6,
        all ==> warning@[3]@ == "  - all images not used by active boxes"@,
        !all ==> warning@[3]@ == "  - all dangling images"@,
{
    let s = text::strs(warning@);
    assert(s.len() == warning@.len());
    assert(s[3] == warning@[3]@);
}

} // verus!
