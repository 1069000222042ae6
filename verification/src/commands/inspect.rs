//! `inspect`: what is known of a box or of an image.

use vstd::prelude::*;

use crate::text;
use crate::text::cat2;

verus! {

/// The arguments of `inspect`.
#[derive(Debug)]
pub struct InspectArgs {
    pub box_name: String,
}

/// What is known of a name among the boxes.
#[derive(Debug)]
pub enum BoxLookup {
    /// The box, as the text of a document.
    Found(String),
    NotFound,
    /// Why it cannot be told which box is meant.
    Failed(String),
}

/// What comes next once the boxes are looked through.
#[derive(Debug)]
pub enum InspectStep {
    Print(String),
    LookForImage,
    Fail(String),
}

/// What comes next: a box comes before an image of the same name, and only where
/// there is no such box is an image looked for.
pub fn inspect_step(lookup: BoxLookup) -> (r: InspectStep)
    ensures
        match lookup {
            BoxLookup::Found(doc) => r matches InspectStep::Print(x) && x@ == doc@,
            BoxLookup::NotFound => r is LookForImage,
            BoxLookup::Failed(e) => r matches InspectStep::Fail(x) && x@ == e@,
        },
{
    match lookup {
        BoxLookup::Found(doc) => InspectStep::Print(doc),
        BoxLookup::NotFound => InspectStep::LookForImage,
        BoxLookup::Failed(e) => InspectStep::Fail(e),
    }
}

/// What is printed of an image that is looked for in place of a box, or what is
/// said where there is none either.
pub fn inspect_image(name: &str, doc: Option<String>) -> (r: Result<String, String>)
    ensures
        match text::opt_str(doc) {
            Some(d) => r matches Ok(x) && x@ == d,
            None => r matches Err(e) && e@ == "No such container or image: "@ + name@,
        },
{
    match doc {
        Some(d) => Ok(d),
        None => Err(cat2("No such container or image: ", name)),
    }
}

/// A box goes before an image of the same name, and an image is looked for only where
/// there is no such box; what is shown is what was found.
pub proof fn lemma_box_before_image(
    doc: String,
    error: String,
    name: &str,
    image: Option<String>,
    found: InspectStep,
    missing: InspectStep,
    failed: InspectStep,
    shown: Result<String, String>,
)
    requires
        call_ensures(inspect_step, (BoxLookup::Found(doc),), found),
        call_ensures(inspect_step, (BoxLookup::NotFound,), missing),
        call_ensures(inspect_step, (BoxLookup::Failed(error),), failed),
        call_ensures(inspect_image, (name, image), shown),
    ensures
        found matches InspectStep::Print(s) && s@ == doc@,
        missing is LookForImage,
        failed matches InspectStep::Fail(s) && s@ == error@,
        shown is Ok <==> image is Some,
        shown is Ok ==> shown->Ok_0@ == image->0@,
{
}

} // verus!
