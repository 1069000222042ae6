//! `logout`: forgets the credentials for a registry.

use vstd::prelude::*;

use crate::text::cat2;

verus! {

/// The arguments of `logout`.
#[derive(Debug)]
pub struct LogoutArgs {
    pub server: Option<String>,
}

/// The line that says whether there were credentials to forget.
pub fn logout_line(server: &str, removed: bool) -> (r: String)
    ensures
        r@ == if removed {
            "Removing login credentials for "@ + server@
        } else {
            "Not logged in to "@ + server@
        },
{
    if removed {
        cat2("Removing login credentials for ", server)
    } else {
        cat2("Not logged in to ", server)
    }
}

} // verus!
