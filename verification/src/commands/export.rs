//! `export`: the file system of a box as an archive.

use vstd::prelude::*;

use crate::text::{cat5, cat7};

verus! {

/// The arguments of `export`.
#[derive(Debug)]
pub struct ExportArgs {
    pub name: String,
    pub output: String,
}

/// What is said where a box has no file system to export.
pub fn rootfs_missing(name: &str, box_dir: &str) -> (r: String)
    ensures
        r@ == "Rootfs not found for box '"@ + name@ + "' under "@ + box_dir@
            + " (looked for merged/ and rootfs/). For overlay-backed boxes the filesystem is only available while the box exists; export a running box."@,
{
    cat5(
        "Rootfs not found for box '",
        name,
        "' under ",
        box_dir,
        " (looked for merged/ and rootfs/). For overlay-backed boxes the filesystem is only available while the box exists; export a running box.",
    )
}

/// The line that says what is exported, with its size in words.
pub fn exported_line(name: &str, output: &str, size: &str) -> (r: String)
    ensures
        r@ == "Exported "@ + name@ + " to "@ + output@ + " ("@ + size@ + ")"@,
{
    cat7("Exported ", name, " to ", output, " (", size, ")")
}

} // verus!
