//! Which images boxes use.

use vstd::prelude::*;

use crate::commands::image_prune::ImagePruneMode;
use crate::oci::opt_view;
use crate::state;
use crate::state::{is_active, RecordView, StateFile};
use crate::text;
use crate::text::str_eq;

verus! {

/// Whether an image is among those that are used, by its reference or by the
/// full form of it.
pub open spec fn protected_by(reference: Seq<char>, full: Option<Seq<char>>, used: Seq<Seq<char>>) -> bool {
    used.contains(reference) || (full is Some && used.contains(full->0))
}

/// Whether a text is in a list.
pub fn contains_text(list: &Vec<String>, s: &str) -> (r: bool)
    ensures
        r == text::strs(list@).contains(s@),
{
    let ghost all = text::strs(list@);
    for i in 0..list.len()
        invariant
            all == text::strs(list@),
            forall|j: int| 0 <= j < i ==> all[j] != s@,
    {
        assert(all[i as int] == list@[i as int]@);
        if str_eq(&list[i], s) {
            return true;
        }
    }
    false
}

/// Whether an image is among those that are used. `full` is the full form of its
/// reference, where it has one.
pub fn is_protected_reference(reference: &str, full: Option<&str>, used: &Vec<String>) -> (r: bool)
    ensures
        r == protected_by(reference@, opt_view(full), text::strs(used@)),
{
    if contains_text(used, reference) {
        return true;
    }
    match full {
        Some(f) => contains_text(used, f),
        None => false,
    }
}

/// Which boxes count.
#[derive(Clone, Copy, Debug, PartialEq, Eq, Structural)]
pub enum ImageReferenceScope {
    /// Those that are active.
    ActiveBoxes,
    /// All of them.
    AllBoxes,
}

/// Whether a box with a status counts.
pub open spec fn counts(scope: ImageReferenceScope, status: Seq<char>) -> bool {
    scope == ImageReferenceScope::AllBoxes || state::active(status)
}

/// The references of the images that boxes use, each with its full form where it
/// has one: what `full` says for each record.
pub open spec fn references(
    records: Seq<RecordView>,
    full: Seq<Option<String>>,
    scope: ImageReferenceScope,
) -> Seq<Seq<char>>
    decreases records.len(),
{
    if records.len() == 0 {
        Seq::empty()
    } else {
        let before = references(records.drop_last(), full.drop_last(), scope);
        if counts(scope, records.last().status) {
            match text::opt_str(full.last()) {
                Some(f) => before.push(records.last().image).push(f),
                None => before.push(records.last().image),
            }
        } else {
            before
        }
    }
}

/// The references of the images that boxes use.
pub fn referenced_images(state: &StateFile, scope: ImageReferenceScope, full: &Vec<Option<String>>) -> (r: Vec<String>)
    requires
        full@.len() == state@.len(),
    ensures
        text::strs(r@) == references(state@, full@, scope),
{
    let records = state.records();
    let ghost views = state@;
    let mut out: Vec<String> = Vec::new();
    assert(text::strs(out@) =~= Seq::empty());
    for i in 0..records.len()
        invariant
            views == state::record_views(records@),
            full@.len() == records@.len(),
            text::strs(out@) == references(views.take(i as int), full@.take(i as int), scope),
    {
        proof {
            assert(views.take(i + 1).drop_last() =~= views.take(i as int));
            assert(full@.take(i + 1).drop_last() =~= full@.take(i as int));
            assert(views[i as int] == records@[i as int]@);
        }
        if scope == ImageReferenceScope::AllBoxes || is_active(&records[i]) {
            let ghost before = out@;
            let image = records[i].image.clone();
            out.push(image);
            assert(text::strs(out@) =~= text::strs(before).push(image@));
            if let Some(f) = &full[i] {
                let ghost middle = out@;
                let f = f.clone();
                out.push(f);
                assert(text::strs(out@) =~= text::strs(middle).push(f@));
            }
        }
    }
    proof {
        assert(views.take(records@.len() as int) =~= views);
        assert(full@.take(records@.len() as int) =~= full@);
    }
    out
}

/// The references of the images that active boxes use.
pub fn active_image_references(state: &StateFile, full: &Vec<Option<String>>) -> (r: Vec<String>)
    requires
        full@.len() == state@.len(),
    ensures
        text::strs(r@) == references(state@, full@, ImageReferenceScope::ActiveBoxes),
{
    referenced_images(state, ImageReferenceScope::ActiveBoxes, full)
}

/// The image of a box that counts is among those that are used, by its reference
/// and by the full form of it.
pub proof fn lemma_used_image_protected(
    records: Seq<RecordView>,
    full: Seq<Option<String>>,
    scope: ImageReferenceScope,
    i: int,
)
    requires
        full.len() == records.len(),
        0 <= i < records.len(),
        counts(scope, records[i].status),
    ensures
        references(records, full, scope).contains(records[i].image),
        full[i] is Some ==> references(records, full, scope).contains(full[i]->0@),
    decreases records.len(),
{
    let before = references(records.drop_last(), full.drop_last(), scope);
    let all = references(records, full, scope);
    if i < records.len() - 1 {
        lemma_used_image_protected(records.drop_last(), full.drop_last(), scope, i);
        let j = choose|j: int| 0 <= j < before.len() && before[j] == records[i].image;
        assert(all[j] == before[j]);
        if full[i] is Some {
            let k = choose|k: int| 0 <= k < before.len() && before[k] == full[i]->0@;
            assert(all[k] == before[k]);
        }
    } else {
        assert(all[before.len() as int] == records[i].image);
        if full[i] is Some {
            assert(all[before.len() as int + 1] == full[i]->0@);
        }
    }
}

/// An image of the store: its reference, the full form of it where it has one,
/// and whether it dangles.
#[derive(Debug)]
pub struct StoredReference {
    pub reference: String,
    pub full: Option<String>,
    pub dangling: bool,
}

/// Whether an image is pruned: none that is used is, and without `--all` only
/// one that dangles.
pub open spec fn pruned(image: StoredReference, used: Seq<Seq<char>>, mode: ImagePruneMode) -> bool {
    &&& !protected_by(image.reference@, text::opt_str(image.full), used)
    &&& mode == ImagePruneMode::Unused || image.dangling
}

/// Whether an image is pruned.
pub fn is_prunable_reference(image: &StoredReference, used: &Vec<String>, mode: ImagePruneMode) -> (r: bool)
    ensures
        r == pruned(*image, text::strs(used@), mode),
{
    let full: Option<&str> = match &image.full {
        Some(f) => Some(f.as_str()),
        None => None,
    };
    !is_protected_reference(image.reference.as_str(), full, used) && (mode == ImagePruneMode::Unused
        || image.dangling)
}

/// The places of the images that are pruned, in order.
pub open spec fn pruned_places(
    images: Seq<StoredReference>,
    used: Seq<Seq<char>>,
    mode: ImagePruneMode,
    k: int,
) -> Seq<usize>
    decreases k,
{
    if k <= 0 {
        Seq::empty()
    } else {
        let before = pruned_places(images, used, mode, k - 1);
        if pruned(images[k - 1], used, mode) {
            before.push((k - 1) as usize)
        } else {
            before
        }
    }
}

/// The places of the images that are pruned, in order.
pub fn prunable_images(images: &Vec<StoredReference>, used: &Vec<String>, mode: ImagePruneMode) -> (r: Vec<usize>)
    ensures
        r@ == pruned_places(images@, text::strs(used@), mode, images@.len() as int),
{
    let mut out: Vec<usize> = Vec::new();
    for i in 0..images.len()
        invariant
            out@ == pruned_places(images@, text::strs(used@), mode, i as int),
    {
        if is_prunable_reference(&images[i], used, mode) {
            out.push(i);
        }
    }
    out
}

/// Whether a box whose image has that reference, and that full form of it, refers
/// to a name.
pub open spec fn refers_to(image: Seq<char>, full: Option<Seq<char>>, name: Seq<char>) -> bool {
    name == image || full == Some(name)
}

/// An image that any box refers to, by its reference or by the full form of it,
/// is never pruned.
pub proof fn lemma_referenced_image_stays(
    records: Seq<RecordView>,
    full: Seq<Option<String>>,
    image: StoredReference,
    mode: ImagePruneMode,
    i: int,
)
    requires
        full.len() == records.len(),
        0 <= i < records.len(),
        refers_to(records[i].image, text::opt_str(full[i]), image.reference@) || (image.full is Some && refers_to(
            records[i].image,
            text::opt_str(full[i]),
            image.full->0@,
        )),
    ensures
        !pruned(image, references(records, full, ImageReferenceScope::AllBoxes), mode),
{
    lemma_used_image_protected(records, full, ImageReferenceScope::AllBoxes, i);
}

/// An image is protected exactly where its reference or its full name is in use.
pub proof fn lemma_protected_when_used(
    reference: &str,
    full: Option<&str>,
    used: Vec<String>,
    i: int,
    r: bool,
)
    requires
        call_ensures(is_protected_reference, (reference, full, &used), r),
    ensures
        0 <= i < used@.len() && used@[i]@ == reference@ ==> r,
        0 <= i < used@.len() && full is Some && used@[i]@ == full->0@ ==> r,
        (forall|k: int|
            0 <= k < used@.len() ==> (#[trigger] used@[k])@ != reference@ && (full is Some ==> used@[k]@
                != full->0@)) ==> !r,
{
    let u = text::strs(used@);
    if 0 <= i < used@.len() {
        assert(u[i] == used@[i]@);
    }
    if r {
        let x = if u.contains(reference@) {
            reference@
        } else {
            full->0@
        };
        let k = choose|k: int| 0 <= k < u.len() && u[k] == x;
        assert(used@[k]@ == x);
    }
}

/// The images that are in use are those of the boxes: of all, or of the active ones
/// alone.
pub proof fn lemma_images_of_boxes(
    state: StateFile,
    full: Vec<Option<String>>,
    i: int,
    all: Vec<String>,
    active: Vec<String>,
)
    requires
        full@.len() == state@.len(),
        0 <= i < state@.len(),
        call_ensures(referenced_images, (&state, ImageReferenceScope::AllBoxes, &full), all),
        call_ensures(active_image_references, (&state, &full), active),
    ensures
        text::strs(all@).contains(state@[i].image),
        state@[i].status == "running"@ || state@[i].status == "paused"@ ==> text::strs(
            active@,
        ).contains(state@[i].image),
        (forall|k: int|
            0 <= k < state@.len() ==> (#[trigger] state@[k]).status != "running"@ && state@[k].status
                != "paused"@) ==> active@.len() == 0,
{
    lemma_used_image_protected(state@, full@, ImageReferenceScope::AllBoxes, i);
    if state::active(state@[i].status) {
        lemma_used_image_protected(state@, full@, ImageReferenceScope::ActiveBoxes, i);
    }
    if forall|k: int|
        0 <= k < state@.len() ==> (#[trigger] state@[k]).status != "running"@ && state@[k].status
            != "paused"@ {
        lemma_none_active(state@, full@);
        assert(text::strs(active@).len() == active@.len());
    }
}

/// Without an active box no image is in use by one.
proof fn lemma_none_active(records: Seq<RecordView>, full: Seq<Option<String>>)
    requires
        forall|k: int|
            0 <= k < records.len() ==> (#[trigger] records[k]).status != "running"@ && records[k].status
                != "paused"@,
    ensures
        references(records, full, ImageReferenceScope::ActiveBoxes).len() == 0,
    decreases records.len(),
{
    if records.len() > 0 {
        let before = records.drop_last();
        assert forall|k: int| 0 <= k < before.len() implies (#[trigger] before[k]).status != "running"@
            && before[k].status != "paused"@ by {
            assert(before[k] == records[k]);
        }
        lemma_none_active(before, full.drop_last());
        assert(records[records.len() - 1].status != "running"@);
    }
}

/// An image that is pruned is not in use, and is dangling where only those are meant.
pub proof fn lemma_pruned_is_free(
    image: StoredReference,
    used: Vec<String>,
    dangling: bool,
    unused: bool,
    i: int,
)
    requires
        call_ensures(is_prunable_reference, (&image, &used, ImagePruneMode::Dangling), dangling),
        call_ensures(is_prunable_reference, (&image, &used, ImagePruneMode::Unused), unused),
    ensures
        dangling ==> image.dangling && unused,
        unused && image.dangling ==> dangling,
        0 <= i < used@.len() && used@[i]@ == image.reference@ ==> !dangling && !unused,
        0 <= i < used@.len() && image.full is Some && used@[i]@ == image.full->0@ ==> !dangling && !unused,
        used@.len() == 0 ==> unused,
{
    let u = text::strs(used@);
    assert(u.len() == used@.len());
    if 0 <= i < used@.len() {
        assert(u[i] == used@[i]@);
    }
}

/// The images that are pruned are those that may be, each of them and no other.
pub proof fn lemma_pruned_are_prunable(
    images: Vec<StoredReference>,
    used: Vec<String>,
    mode: ImagePruneMode,
    i: usize,
    one: bool,
    r: Vec<usize>,
)
    requires
        images@.len() <= usize::MAX,
        i < images@.len(),
        call_ensures(prunable_images, (&images, &used, mode), r),
        call_ensures(is_prunable_reference, (&images@[i as int], &used, mode), one),
    ensures
        r@.contains(i) <==> one,
{
    lemma_places_pruned(images@, text::strs(used@), mode, images@.len() as int, i);
}

/// The places of what is pruned.
proof fn lemma_places_pruned(
    images: Seq<StoredReference>,
    used: Seq<Seq<char>>,
    mode: ImagePruneMode,
    k: int,
    i: usize,
)
    requires
        0 <= k <= images.len() <= usize::MAX,
        i < images.len(),
    ensures
        pruned_places(images, used, mode, k).contains(i) <==> i < k && pruned(images[i as int], used, mode),
    decreases k,
{
    if k > 0 {
        lemma_places_pruned(images, used, mode, k - 1, i);
        let before = pruned_places(images, used, mode, k - 1);
        let all = pruned_places(images, used, mode, k);
        if before.contains(i) {
            let n = choose|n: int| 0 <= n < before.len() && before[n] == i;
            assert(all[n] == i);
        }
        if i == k - 1 && pruned(images[i as int], used, mode) {
            assert(all[all.len() - 1] == i);
        }
        if all.contains(i) {
            let n = choose|n: int| 0 <= n < all.len() && all[n] == i;
            if n < before.len() {
                assert(before[n] == i);
            }
        }
    }
}

} // verus!
