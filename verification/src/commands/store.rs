//! Where boxes and images are kept.

use vstd::prelude::*;

use crate::commands::logs;
use crate::commands::logs::debug_text;
use crate::path;
use crate::path::path_join;
use crate::text;
use crate::text::cat5;

verus! {

/// The directory of the images.
pub fn images_dir(home: &str) -> (r: String)
    ensures
        r@ == path::under(home@, "images"@),
{
    path_join(home, "images")
}

/// The variable that limits the size of the image cache.
pub const IMAGE_CACHE_SIZE_ENV: &'static str = "A3S_IMAGE_CACHE_SIZE";

/// The most bytes that the image cache holds: what the variable says, or the
/// default where it is not set. `read` is the size that the value of the variable
/// was read as.
pub fn image_cache_size(value: Option<&str>, read: Result<u64, String>, default: u64) -> (r: Result<u64, String>)
    ensures
        match value {
            None => r == Ok::<u64, String>(default),
            Some(v) => match read {
                Ok(n) => r == Ok::<u64, String>(n),
                Err(e) => r matches Err(x) && x@ == "Invalid "@ + IMAGE_CACHE_SIZE_ENV@ + "="@ + logs::debug_of(v@) + (
                ": "@ + e@ + " (examples: 500m, 10g, 1t)"@),
            },
        },
{
    match value {
        None => Ok(default),
        Some(v) => match read {
            Ok(n) => Ok(n),
            Err(e) => {
                let shown = debug_text(v);
                let tail = text::cat3(": ", &e, " (examples: 500m, 10g, 1t)");
                Err(cat5("Invalid ", IMAGE_CACHE_SIZE_ENV, "=", &shown, &tail))
            },
        },
    }
}

/// The file system of a box: the merged one where there is one, or else the
/// plain one.
pub fn resolve_box_rootfs(box_dir: &str, merged_exists: bool, rootfs_exists: bool) -> (r: Option<String>)
    ensures
        text::opt_str(r) == (if merged_exists {
            Some(path::under(box_dir@, "merged"@))
        } else if rootfs_exists {
            Some(path::under(box_dir@, "rootfs"@))
        } else {
            None
        }),
{
    if merged_exists {
        Some(path_join(box_dir, "merged"))
    } else if rootfs_exists {
        Some(path_join(box_dir, "rootfs"))
    } else {
        None
    }
}

/// The file system of a box is the merged one where it is there, else its own, and
/// there is none only where neither is.
pub proof fn lemma_rootfs_found(box_dir: &str, merged: bool, own: bool, r: Option<String>)
    requires
        call_ensures(resolve_box_rootfs, (box_dir, merged, own), r),
    ensures
        r is Some <==> merged || own,
        merged ==> crate::text::has_suffix(r->0@, "merged"@),
        !merged && own ==> crate::text::has_suffix(r->0@, "rootfs"@),
{
    reveal_strlit("merged");
    reveal_strlit("rootfs");
    assert("merged"@[0] == 'm' && "rootfs"@[0] == 'r');
    if r is Some {
        let p = r->0@;
        if merged {
            assert(p.skip(p.len() - 6) =~= "merged"@);
        } else {
            assert(p.skip(p.len() - 6) =~= "rootfs"@);
        }
    }
}

/// The size of the cache is the one that is set, and the usual one where none is; one
/// that cannot be read is refused.
pub proof fn lemma_cache_size(value: Option<&str>, read: Result<u64, String>, default: u64, r: Result<u64, String>)
    requires
        call_ensures(image_cache_size, (value, read, default), r),
    ensures
        value is None ==> r is Ok && r->Ok_0 == default,
        value is Some ==> (r is Ok <==> read is Ok),
        value is Some && r is Ok ==> r->Ok_0 == read->Ok_0,
{
}

} // verus!
