//! `image-prune`: removes images that nothing needs.

use vstd::prelude::*;

use crate::number;
use crate::number::usize_text;
use crate::seqs;
use crate::text;
use crate::text::{cat3, cat4, cat5};

verus! {

/// The arguments of `image-prune`.
#[derive(Debug)]
pub struct ImagePruneArgs {
    pub all: bool,
    pub force: bool,
}

/// Which images are pruned.
#[derive(Clone, Copy, Debug, PartialEq, Eq, Structural)]
pub enum ImagePruneMode {
    /// Those without a name.
    Dangling,
    /// Those that no box uses.
    Unused,
}

/// Which images are pruned.
pub fn prune_mode(all: bool) -> (r: ImagePruneMode)
    ensures
        r == if all { ImagePruneMode::Unused } else { ImagePruneMode::Dangling },
{
    if all {
        ImagePruneMode::Unused
    } else {
        ImagePruneMode::Dangling
    }
}

/// What is said where no image is to be pruned.
pub fn empty_message(mode: ImagePruneMode) -> (r: &'static str)
    ensures
        r@ == match mode {
            ImagePruneMode::Dangling => "No dangling images to remove."@,
            ImagePruneMode::Unused => "No unused images to remove."@,
        },
{
    match mode {
        ImagePruneMode::Dangling => "No dangling images to remove.",
        ImagePruneMode::Unused => "No unused images to remove.",
    }
}

/// An image to prune: its reference, its size, and its size in words.
#[derive(Debug)]
pub struct Prunable {
    pub reference: String,
    pub size_bytes: u64,
    pub size: String,
}

/// The line that warns of one image.
pub open spec fn warning_line(p: Prunable) -> Seq<char> {
    "  "@ + p.reference@ + " ("@ + p.size@ + ")"@
}

/// What is printed in place of pruning, where it is not forced: the images, and
/// how to force it.
pub open spec fn warning(images: Seq<Prunable>) -> Seq<Seq<char>> {
    seq!["WARNING: This will remove "@ + number::decimal(images.len()) + " image(s):"@] + images.map_values(
        |p: Prunable| warning_line(p),
    ) + seq![""@, "Use --force to skip this prompt."@]
}

/// What is printed in place of pruning, where it is not forced.
pub fn prune_warning(images: &Vec<Prunable>) -> (r: Vec<String>)
    ensures
        text::strs(r@) == warning(images@),
{
    let count = usize_text(images.len());
    let mut out: Vec<String> = Vec::new();
    out.push(cat3("WARNING: This will remove ", &count, " image(s):"));
    let ghost head = seq!["WARNING: This will remove "@ + number::decimal(images@.len()) + " image(s):"@];
    assert(text::strs(out@) =~= head + images@.take(0).map_values(|p: Prunable| warning_line(p)));
    for i in 0..images.len()
        invariant
            text::strs(out@) == head + images@.take(i as int).map_values(|p: Prunable| warning_line(p)),
    {
        let ghost before = out@;
        let line = cat5("  ", &images[i].reference, " (", &images[i].size, ")");
        out.push(line);
        assert(text::strs(out@) =~= text::strs(before).push(line@));
        assert(images@.take(i + 1) =~= images@.take(i as int).push(images@[i as int]));
        assert(text::strs(out@) =~= head + images@.take(i + 1).map_values(|p: Prunable| warning_line(p)));
    }
    assert(images@.take(images@.len() as int) =~= images@);
    out.push("".to_string());
    out.push("Use --force to skip this prompt.".to_string());
    assert(text::strs(out@) =~= warning(images@));
    out
}

/// What pruning came to.
#[derive(Debug)]
pub struct PruneTally {
    pub freed: u64,
    pub count: usize,
    pub errors: Vec<String>,
}

/// The bytes of the images that were removed.
pub open spec fn freed_bytes(images: Seq<Prunable>, outcomes: Seq<Result<(), String>>) -> nat
    decreases images.len(),
{
    if images.len() == 0 {
        0
    } else {
        freed_bytes(images.drop_last(), outcomes.drop_last()) + if outcomes.last() is Ok {
            images.last().size_bytes as nat
        } else {
            0nat
        }
    }
}

/// How many images were removed.
pub open spec fn removed_count(outcomes: Seq<Result<(), String>>) -> nat {
    outcomes.filter(|o: Result<(), String>| o is Ok).len()
}

/// What is said of the images that could not be removed, in order.
pub open spec fn failures(images: Seq<Prunable>, outcomes: Seq<Result<(), String>>) -> Seq<Seq<char>>
    decreases images.len(),
{
    if images.len() == 0 {
        Seq::empty()
    } else {
        let before = failures(images.drop_last(), outcomes.drop_last());
        match outcomes.last() {
            Ok(_) => before,
            Err(e) => before.push(images.last().reference@ + ": "@ + e@),
        }
    }
}

/// The bytes of the first images are no more than those of all.
proof fn lemma_freed_prefix(images: Seq<Prunable>, outcomes: Seq<Result<(), String>>, n: int)
    requires
        images.len() == outcomes.len(),
        0 <= n <= images.len(),
    ensures
        freed_bytes(images.take(n), outcomes.take(n)) <= freed_bytes(images, outcomes),
    decreases images.len() - n,
{
    if n < images.len() {
        lemma_freed_prefix(images, outcomes, n + 1);
        assert(images.take(n + 1).drop_last() =~= images.take(n));
        assert(outcomes.take(n + 1).drop_last() =~= outcomes.take(n));
    } else {
        assert(images.take(n) =~= images);
        assert(outcomes.take(n) =~= outcomes);
    }
}

/// What pruning came to, by what came of removing each image.
pub fn tally(images: &Vec<Prunable>, outcomes: &Vec<Result<(), String>>) -> (r: PruneTally)
    requires
        images@.len() == outcomes@.len(),
        freed_bytes(images@, outcomes@) <= u64::MAX,
    ensures
        r.freed == freed_bytes(images@, outcomes@),
        r.count == removed_count(outcomes@),
        text::strs(r.errors@) == failures(images@, outcomes@),
{
    let mut freed: u64 = 0;
    let mut count: usize = 0;
    let mut errors: Vec<String> = Vec::new();
    let ghost went = |o: Result<(), String>| o is Ok;
    proof {
        seqs::lemma_filter_none(outcomes@, went);
        assert(text::strs(errors@) =~= Seq::empty());
    }
    for i in 0..images.len()
        invariant
            went == (|o: Result<(), String>| o is Ok),
            images@.len() == outcomes@.len(),
            freed_bytes(images@, outcomes@) <= u64::MAX,
            freed == freed_bytes(images@.take(i as int), outcomes@.take(i as int)),
            count == outcomes@.take(i as int).filter(went).len(),
            count <= i,
            text::strs(errors@) == failures(images@.take(i as int), outcomes@.take(i as int)),
    {
        proof {
            assert(images@.take(i + 1).drop_last() =~= images@.take(i as int));
            assert(outcomes@.take(i + 1).drop_last() =~= outcomes@.take(i as int));
            lemma_freed_prefix(images@, outcomes@, i + 1);
            seqs::lemma_filter_step(outcomes@, went, i as int);
        }
        match &outcomes[i] {
            Ok(_) => {
                freed = freed + images[i].size_bytes;
                count = count + 1;
            },
            Err(e) => {
                let ghost before = errors@;
                let line = cat3(&images[i].reference, ": ", e);
                errors.push(line);
                assert(text::strs(errors@) =~= text::strs(before).push(line@));
            },
        }
    }
    proof {
        assert(images@.take(images@.len() as int) =~= images@);
        assert(outcomes@.take(images@.len() as int) =~= outcomes@);
    }
    PruneTally { freed, count, errors }
}

/// The line that says what pruning came to, with the bytes in words.
pub fn pruned_line(count: usize, freed: &str) -> (r: String)
    ensures
        r@ == "Removed "@ + number::decimal(count as nat) + " image(s), freed "@ + freed@,
{
    let n = usize_text(count);
    cat4("Removed ", &n, " image(s), freed ", freed)
}

/// Every image is either counted as removed or reported as failed.
pub proof fn lemma_all_accounted(images: Seq<Prunable>, outcomes: Seq<Result<(), String>>)
    requires
        images.len() == outcomes.len(),
    ensures
        removed_count(outcomes) + failures(images, outcomes).len() == images.len(),
    decreases images.len(),
{
    reveal(Seq::filter);
    if images.len() > 0 {
        lemma_all_accounted(images.drop_last(), outcomes.drop_last());
    }
}

/// Only dangling images are pruned where not all are asked for.
pub proof fn lemma_prune_mode(all: bool, r: ImagePruneMode)
    requires
        call_ensures(prune_mode, (all,), r),
    ensures
        r is Unused <==> all,
        r is Dangling <==> !all,
{
}

/// What was freed and how many were removed goes by those that were: one that could
/// not be removed frees nothing and is told of.
pub proof fn lemma_tally_of_one_more(
    images: Vec<Prunable>,
    outcomes: Vec<Result<(), String>>,
    more: Vec<Prunable>,
    others: Vec<Result<(), String>>,
    r: PruneTally,
    s: PruneTally,
)
    requires
        images@.len() == outcomes@.len(),
        more@.len() == images@.len() + 1,
        others@.len() == more@.len(),
        more@.drop_last() == images@,
        others@.drop_last() == outcomes@,
        freed_bytes(more@, others@) <= u64::MAX,
        call_ensures(tally, (&images, &outcomes), r),
        call_ensures(tally, (&more, &others), s),
    ensures
        others@.last() is Ok ==> s.freed == r.freed + more@.last().size_bytes && s.count == r.count + 1
            && s.errors@.len() == r.errors@.len(),
        others@.last() is Err ==> s.freed == r.freed && s.count == r.count && s.errors@.len()
            == r.errors@.len() + 1 && text::has_prefix(s.errors@.last()@, more@.last().reference@),
{
    let p = |o: Result<(), String>| o is Ok;
    crate::seqs::lemma_filter_push(outcomes@, p, others@.last());
    assert(others@ =~= outcomes@.push(others@.last()));
    assert(text::strs(s.errors@).len() == s.errors@.len());
    assert(text::strs(r.errors@).len() == r.errors@.len());
    if others@.last() is Err {
        let line = s.errors@.last()@;
        assert(text::strs(s.errors@)[s.errors@.len() - 1] == line);
        let name = more@.last().reference@;
        assert(line.take(name.len() as int) =~= name);
    }
}

/// The warning names each image that would go.
pub proof fn lemma_warning_names_each(images: Vec<Prunable>, i: int, r: Vec<String>)
    requires
        call_ensures(prune_warning, (&images,), r),
        0 <= i < images@.len(),
    ensures
        r@.len() == images@.len() + 3,
        text::has_substring(r@[i + 1]@, images@[i].reference@),
{
    assert(text::strs(r@).len() == r@.len());
    assert(text::strs(r@)[i + 1] == r@[i + 1]@);
    let line = warning_line(images@[i]);
    assert(r@[i + 1]@ == line);
    reveal_strlit("  ");
    let name = images@[i].reference@;
    assert(line.subrange(2, 2 + name.len() as int) =~= name);
    assert(text::occurs_at(line, name, 2));
}

} // verus!
