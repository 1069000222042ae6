//! `shell`: a shell in a running box.

use vstd::prelude::*;

use crate::commands::common;
use crate::commands::common::normalize_user_option;
use crate::commands::run;
use crate::commands::run::PtyRequest;
use crate::text;

verus! {

/// The arguments of `shell`.
#[derive(Debug)]
pub struct ShellArgs {
    pub box_name: String,
    pub shell: String,
    pub user: Option<String>,
    pub workdir: Option<String>,
}

/// What is asked of a box for a shell. `workdir` is what the runtime says of the
/// working directory, and `size` the size of the user's terminal, columns first;
/// 80 by 24 where it is not known.
pub fn shell_request(args: ShellArgs, workdir: Result<(), String>, size: Option<(u16, u16)>) -> (r: Result<
    PtyRequest,
    String,
>)
    ensures
        match r {
            Ok(q) => {
                &&& !run::user_unknown(args.user)
                &&& workdir is Ok
                &&& text::strs(q.cmd@) == seq![args.shell@]
                &&& q.env@.len() == 0
                &&& q.working_dir == args.workdir
                &&& text::opt_str(q.user) == run::user_number(args.user)
                &&& (q.cols, q.rows) == match size {
                    Some(s) => s,
                    None => (80u16, 24u16),
                }
            },
            Err(e) => if run::user_unknown(args.user) {
                e@ == common::user_error(args.user->0@)
            } else {
                workdir matches Err(x) && e@ == x@
            },
        },
{
    let user = normalize_user_option(&args.user)?;
    if let Err(e) = workdir {
        return Err(e);
    }
    let (cols, rows): (u16, u16) = match size {
        Some(s) => s,
        None => (80, 24),
    };
    let mut cmd: Vec<String> = Vec::new();
    cmd.push(args.shell);
    assert(text::strs(cmd@) =~= seq![args.shell@]);
    Ok(PtyRequest { cmd, env: Vec::new(), working_dir: args.workdir, user, cols, rows })
}

/// A shell is the one that was asked for, alone, for the user and in the directory that
/// were given; a user without a number and a directory that is not accepted are refused.
pub proof fn lemma_shell_asked(
    args: ShellArgs,
    workdir: Result<(), String>,
    size: Option<(u16, u16)>,
    r: Result<PtyRequest, String>,
)
    requires
        call_ensures(shell_request, (args, workdir, size), r),
    ensures
        workdir is Err ==> r is Err,
        args.user is None && workdir is Ok ==> r is Ok,
        r is Ok ==> {
            let q = r->Ok_0;
            &&& q.cmd@.len() == 1 && q.cmd@[0]@ == args.shell@
            &&& q.working_dir == args.workdir
            &&& q.user is Some <==> args.user is Some
            &&& size is Some ==> (q.cols, q.rows) == size->0
            &&& size is None ==> q.cols == 80 && q.rows == 24
            &&& q.env@.len() == 0
        },
{
    if r is Ok {
        let s = text::strs(r->Ok_0.cmd@);
        assert(s.len() == r->Ok_0.cmd@.len());
        assert(s[0] == r->Ok_0.cmd@[0]@);
    }
}

} // verus!
