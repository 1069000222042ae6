//! `push`: sends an image to a registry.

use vstd::prelude::*;

use crate::text;
use crate::text::{cat3, cat5};

verus! {

/// The arguments of `push`.
#[derive(Debug)]
pub struct PushArgs {
    pub image: String,
    pub quiet: bool,
    pub sign_key: Option<String>,
}

/// What is said of an image that is not in the store.
pub fn push_not_found(image: &str) -> (r: String)
    ensures
        r@ == "Image '"@ + image@ + "' not found locally. Pull or build it first."@,
{
    cat3("Image '", image, "' not found locally. Pull or build it first.")
}

/// The line before an image is pushed, unless the command is quiet.
pub fn pushing_line(args: &PushArgs) -> (r: Option<String>)
    ensures
        text::opt_str(r) == (if args.quiet { None } else { Some("Pushing "@ + args.image@ + "..."@) }),
{
    if args.quiet {
        None
    } else {
        Some(cat3("Pushing ", &args.image, "..."))
    }
}

/// The line once an image is pushed: where its manifest is.
pub fn pushed_line(args: &PushArgs, manifest_url: &str) -> (r: String)
    ensures
        r@ == if args.quiet {
            manifest_url@
        } else {
            "Pushed: "@ + args.image@ + " ("@ + manifest_url@ + ")"@
        },
{
    if args.quiet {
        manifest_url.to_string()
    } else {
        cat5("Pushed: ", &args.image, " (", manifest_url, ")")
    }
}

/// The line before an image is signed, where a key is given and the command is
/// not quiet.
pub fn signing_line(args: &PushArgs) -> (r: Option<String>)
    ensures
        text::opt_str(r) == (if args.sign_key is Some && !args.quiet {
            Some("Signing "@ + args.image@ + "..."@)
        } else {
            None
        }),
{
    if args.sign_key.is_some() && !args.quiet {
        Some(cat3("Signing ", &args.image, "..."))
    } else {
        None
    }
}

/// The line once an image is signed, where a key is given and the command is
/// not quiet.
pub fn signed_line(args: &PushArgs, signature_tag: &str) -> (r: Option<String>)
    ensures
        text::opt_str(r) == (if args.sign_key is Some && !args.quiet {
            Some("Signed: "@ + args.image@ + " ("@ + signature_tag@ + ")"@)
        } else {
            None
        }),
{
    if args.sign_key.is_some() && !args.quiet {
        Some(cat5("Signed: ", &args.image, " (", signature_tag, ")"))
    } else {
        None
    }
}

/// Quiet, only the address of the image is told; else what is pushed and signed is, and
/// nothing is said to be signed without a key.
pub proof fn lemma_quiet_push(
    args: PushArgs,
    url: &str,
    tag: &str,
    begins: Option<String>,
    ends: String,
    signing: Option<String>,
    signed: Option<String>,
)
    requires
        call_ensures(pushing_line, (&args,), begins),
        call_ensures(pushed_line, (&args, url), ends),
        call_ensures(signing_line, (&args,), signing),
        call_ensures(signed_line, (&args, tag), signed),
    ensures
        args.quiet ==> begins is None && ends@ == url@ && signing is None && signed is None,
        !args.quiet ==> begins is Some,
        signing is Some <==> args.sign_key is Some && !args.quiet,
        signed is Some <==> args.sign_key is Some && !args.quiet,
        begins is Some ==> begins->0@ == "Pushing "@ + args.image@ + "..."@,
{
}

} // verus!
