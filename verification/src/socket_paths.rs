//! Where the sockets of a box are.

use vstd::prelude::*;

use crate::path;
use crate::path::path_join;
use crate::state::{BoxRecord, RecordView};
use crate::text;

verus! {

/// The socket for running commands in a box: the one on record, else the one in
/// the box's directory.
pub open spec fn exec_socket_of(r: RecordView) -> Seq<char> {
    if r.exec_socket_path.len() == 0 {
        path::under(path::under(r.box_dir, "sockets"@), "exec.sock"@)
    } else {
        r.exec_socket_path
    }
}

/// The socket for running commands in a box.
pub fn exec_socket(record: &BoxRecord) -> (r: String)
    ensures
        r@ == exec_socket_of(record@),
{
    if record.exec_socket_path.as_str().is_empty() {
        let dir: String = path_join(record.box_dir.as_str(), "sockets");
        path_join(dir.as_str(), "exec.sock")
    } else {
        record.exec_socket_path.clone()
    }
}

/// A box answers on the socket that is recorded, and else on the one below its
/// directory.
pub proof fn lemma_exec_socket(record: BoxRecord, r: String)
    requires
        call_ensures(exec_socket, (&record,), r),
    ensures
        record.exec_socket_path@.len() > 0 ==> r@ == record.exec_socket_path@,
        record.exec_socket_path@.len() == 0 ==> text::has_suffix(r@, "exec.sock"@),
{
    reveal_strlit("exec.sock");
    if record.exec_socket_path@.len() == 0 {
        assert(r@.skip(r@.len() - 9) =~= "exec.sock"@);
    }
}

} // verus!
