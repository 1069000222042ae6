//! The server.

use vstd::prelude::*;

use crate::path;
use crate::path::parent;
use crate::text;

verus! {

/// The server, by the socket it listens on.
#[derive(Debug)]
pub struct ApiServer {
    socket_path: String,
}

impl ApiServer {
    /// The socket it listens on.
    pub closed spec fn socket(&self) -> Seq<char> {
        self.socket_path@
    }

    /// A server for a socket.
    pub fn new(socket_path: String) -> (r: Self)
        ensures
            r.socket() == socket_path@,
    {
        ApiServer { socket_path }
    }

    /// The socket it listens on.
    pub fn socket_path(&self) -> (r: &str)
        ensures
            r@ == self.socket(),
    {
        &self.socket_path
    }

    /// What is done before the server listens: a socket that is there already is
    /// taken away, and the directory that it stands in is made.
    pub fn preparation(&self, socket_exists: bool) -> (r: Preparation)
        ensures
            r.remove_socket == socket_exists,
            text::opt_str(r.make_dir) == path::parent_of(self.socket()),
    {
        Preparation { remove_socket: socket_exists, make_dir: parent(&self.socket_path) }
    }
}

/// What is done before a server listens.
#[derive(Debug)]
pub struct Preparation {
    pub remove_socket: bool,
    pub make_dir: Option<String>,
}

/// A socket that is left over is removed before the server listens, and the directory
/// that is made is the one the socket lies in.
pub proof fn lemma_prepared(socket_path: String, exists: bool, s: ApiServer, shown: &str, r: Preparation)
    requires
        call_ensures(ApiServer::new, (socket_path,), s),
        call_ensures(ApiServer::socket_path, (&s,), shown),
        call_ensures(ApiServer::preparation, (&s, exists), r),
    ensures
        shown@ == socket_path@,
        r.remove_socket == exists,
        text::opt_str(r.make_dir) == path::parent_of(socket_path@),
{
}

} // verus!
