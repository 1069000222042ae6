//! `rmi`: removes images from the store.

use vstd::prelude::*;

use crate::image_usage;
use crate::image_usage::{is_protected_reference, ImageReferenceScope};
use crate::split;
use crate::split::join;
use crate::state::RecordView;
use crate::text;
use crate::text::{cat2, cat3};

verus! {

/// The arguments of `rmi`.
#[derive(Debug)]
pub struct RmiArgs {
    pub images: Vec<String>,
    pub force: bool,
}

/// What the store says of an image that is asked for.
#[derive(Debug)]
pub enum Found {
    /// The reference of the image, and whether an existing box uses it.
    Image(String, bool),
    /// There is no such image.
    Missing,
    /// It cannot be told which image is meant.
    Failed(String),
}

/// The image that the store has for what is asked for, by its reference and the
/// full form of it. `used` are the references that existing boxes use.
pub fn found_image(reference: String, full: Option<&str>, used: &Vec<String>) -> (r: Found)
    ensures
        r == Found::Image(
            reference,
            image_usage::protected_by(reference@, crate::oci::opt_view(full), text::strs(used@)),
        ),
{
    let held: bool = is_protected_reference(reference.as_str(), full, used);
    Found::Image(reference, held)
}

/// What becomes of an image that is asked for.
#[derive(Debug)]
pub enum RmiStep {
    Remove(String),
    Skip,
    Fail(String),
}

/// What becomes of an image that is asked for.
pub enum RmiStepView {
    Remove(Seq<char>),
    Skip,
    Fail(Seq<char>),
}

impl View for RmiStep {
    type V = RmiStepView;

    open spec fn view(&self) -> RmiStepView {
        match self {
            RmiStep::Remove(s) => RmiStepView::Remove(s@),
            RmiStep::Skip => RmiStepView::Skip,
            RmiStep::Fail(s) => RmiStepView::Fail(s@),
        }
    }
}

/// What becomes of an image that is asked for: an image that a box uses stays,
/// also where removal is forced, and a missing one is passed over only there.
pub open spec fn step(query: Seq<char>, found: Found, force: bool) -> RmiStepView {
    match found {
        Found::Image(reference, used) => if used {
            RmiStepView::Fail(
                reference@
                    + ": image is referenced by an existing box; remove the box before removing this image"@,
            )
        } else {
            RmiStepView::Remove(reference@)
        },
        Found::Missing => if force {
            RmiStepView::Skip
        } else {
            RmiStepView::Fail(query + ": Image not found"@)
        },
        Found::Failed(e) => RmiStepView::Fail(query + ": "@ + e@),
    }
}

/// What becomes of an image that is asked for.
pub fn rmi_step(query: &str, found: Found, force: bool) -> (r: RmiStep)
    ensures
        r@ == step(query@, found, force),
{
    match found {
        Found::Image(reference, used) => if used {
            RmiStep::Fail(
                cat2(
                    &reference,
                    ": image is referenced by an existing box; remove the box before removing this image",
                ),
            )
        } else {
            RmiStep::Remove(reference)
        },
        Found::Missing => if force {
            RmiStep::Skip
        } else {
            RmiStep::Fail(cat2(query, ": Image not found"))
        },
        Found::Failed(e) => RmiStep::Fail(cat3(query, ": ", &e)),
    }
}

/// What is said once the store has removed an image or not: a line, a failure,
/// or nothing where a failure is passed over.
pub open spec fn outcome_of(reference: Seq<char>, outcome: Result<(), String>, force: bool) -> Result<Seq<char>, Option<Seq<char>>> {
    match outcome {
        Ok(_) => Ok("Removed: "@ + reference),
        Err(e) => Err(if force { None } else { Some(reference + ": "@ + e@) }),
    }
}

/// What is said once the store has removed an image or not.
pub fn rmi_outcome(reference: &str, outcome: Result<(), String>, force: bool) -> (r: Result<String, Option<String>>)
    ensures
        match r {
            Ok(line) => outcome_of(reference@, outcome, force) == Ok::<Seq<char>, Option<Seq<char>>>(line@),
            Err(e) => outcome_of(reference@, outcome, force) == Err::<Seq<char>, Option<Seq<char>>>(text::opt_str(e)),
        },
{
    match outcome {
        Ok(_) => Ok(cat2("Removed: ", reference)),
        Err(e) => if force {
            Err(None)
        } else {
            Err(Some(cat3(reference, ": ", &e)))
        },
    }
}

/// What the command ends with: all failures in one message.
pub fn rmi_result(errors: &Vec<String>) -> (r: Result<(), String>)
    ensures
        match r {
            Ok(_) => errors@.len() == 0,
            Err(e) => errors@.len() > 0 && e@ == "Failed to remove image(s):\n"@ + split::joined(
                text::strs(errors@),
                "\n"@,
            ),
        },
{
    if errors.len() == 0 {
        Ok(())
    } else {
        let all = join(errors, "\n");
        Err(cat2("Failed to remove image(s):\n", &all))
    }
}

/// An image that any box refers to is never removed, also where removal is
/// forced.
pub proof fn lemma_referenced_image_stays(
    query: Seq<char>,
    reference: String,
    name: Option<Seq<char>>,
    records: Seq<RecordView>,
    full: Seq<Option<String>>,
    force: bool,
    i: int,
)
    requires
        full.len() == records.len(),
        0 <= i < records.len(),
        image_usage::refers_to(records[i].image, text::opt_str(full[i]), reference@) || (name is Some
            && image_usage::refers_to(records[i].image, text::opt_str(full[i]), name->0)),
    ensures
        ({
            let used = image_usage::references(records, full, ImageReferenceScope::AllBoxes);
            step(query, Found::Image(reference, image_usage::protected_by(reference@, name, used)), force) is Fail
        }),
{
    image_usage::lemma_used_image_protected(records, full, ImageReferenceScope::AllBoxes, i);
}

/// An image that a box uses is never removed.
pub proof fn lemma_used_image_stays(query: Seq<char>, reference: String, force: bool)
    ensures
        step(query, Found::Image(reference, true), force) is Fail,
{
}

/// An image that a box refers to is never removed, by force or not; one that none
/// does is, under its own reference. One that is not there is passed over by force
/// and refused without.
pub proof fn lemma_removed_only_when_free(
    query: &str,
    reference: String,
    used: bool,
    force: bool,
    image: RmiStep,
    missing: RmiStep,
)
    requires
        call_ensures(rmi_step, (query, Found::Image(reference, used), force), image),
        call_ensures(rmi_step, (query, Found::Missing, force), missing),
    ensures
        used ==> image is Fail,
        !used ==> (image matches RmiStep::Remove(s) && s@ == reference@),
        force ==> missing is Skip,
        !force ==> missing is Fail,
{
    assert(image@ == step(query@, Found::Image(reference, used), force));
    assert(missing@ == step(query@, Found::Missing, force));
}

/// A failure to remove is passed over by force and told without; and the command as a
/// whole fails exactly where a failure was told.
pub proof fn lemma_removal_failures(
    reference: &str,
    outcome: Result<(), String>,
    force: bool,
    r: Result<String, Option<String>>,
    errors: Vec<String>,
    whole: Result<(), String>,
)
    requires
        call_ensures(rmi_outcome, (reference, outcome, force), r),
        call_ensures(rmi_result, (&errors,), whole),
    ensures
        r is Ok <==> outcome is Ok,
        r is Ok ==> text::has_suffix(r->Ok_0@, reference@),
        r is Err ==> (r->Err_0 is None <==> force),
        whole is Ok <==> errors@.len() == 0,
{
    if r is Ok {
        let line = r->Ok_0@;
        assert(line.skip(line.len() - reference@.len()) =~= reference@);
    }
}

} // verus!
