//! `attach`: the output of a running box, or a shell in it.

use vstd::prelude::*;

use crate::commands::run::PtyRequest;
use crate::state;
use crate::state::BoxRecord;
use crate::text;
use crate::text::{cat3, cat7};

verus! {

/// The arguments of `attach`.
#[derive(Debug)]
pub struct AttachArgs {
    pub box_name: String,
    pub interactive: bool,
    pub tty: bool,
}

/// What attaching to a box does.
#[derive(Debug)]
pub enum AttachPlan {
    /// A shell on a terminal.
    Terminal,
    /// The console log, with what is printed before it and after it.
    Follow { attached: String, detached: String },
    /// There is no console log.
    Missing(String),
}

/// What attaching to a running box does: a terminal where one is asked for, and
/// otherwise the console log where it exists.
pub fn attach_plan(args: &AttachArgs, record: &BoxRecord, log_exists: bool) -> (r: AttachPlan)
    ensures
        if args.tty {
            r is Terminal
        } else if log_exists {
            r matches AttachPlan::Follow { attached, detached } && attached@ == "Attached to box "@ + record@.name
                + ". Press Ctrl-C to detach."@ && detached@ == "\nDetached from box "@ + record@.name + "."@
        } else {
            r matches AttachPlan::Missing(e) && e@ == "Console log is missing for running box "@ + record@.name
                + " at "@ + record@.console_log
                + ". The box may still be starting or the state may be stale; try `a3s-box logs -f "@ + record@.name
                + "` or `a3s-box ps`."@
        },
{
    if args.tty {
        return AttachPlan::Terminal;
    }
    if !log_exists {
        return AttachPlan::Missing(
            cat7(
                "Console log is missing for running box ",
                &record.name,
                " at ",
                &record.console_log,
                ". The box may still be starting or the state may be stale; try `a3s-box logs -f ",
                &record.name,
                "` or `a3s-box ps`.",
            ),
        );
    }
    AttachPlan::Follow {
        attached: cat3("Attached to box ", &record.name, ". Press Ctrl-C to detach."),
        detached: cat3("\nDetached from box ", &record.name, "."),
    }
}

/// What is asked of a box for a shell on the user's terminal. `size` is its size,
/// columns first; 80 by 24 where it is not known.
pub fn execute_pty_attach(size: Option<(u16, u16)>) -> (r: PtyRequest)
    ensures
        text::strs(r.cmd@) == seq!["/bin/sh"@],
        r.env@.len() == 0,
        r.working_dir is None,
        r.user is None,
        (r.cols, r.rows) == match size {
            Some(s) => s,
            None => (80u16, 24u16),
        },
{
    let (cols, rows): (u16, u16) = match size {
        Some(s) => s,
        None => (80, 24),
    };
    let mut cmd: Vec<String> = Vec::new();
    cmd.push("/bin/sh".to_string());
    assert(text::strs(cmd@) =~= seq!["/bin/sh"@]);
    PtyRequest { cmd, env: Vec::new(), working_dir: None, user: None, cols, rows }
}

/// A terminal is attached where one is asked for; else the log is followed, where it is
/// there.
pub proof fn lemma_attached_to(args: AttachArgs, record: BoxRecord, log_exists: bool, r: AttachPlan)
    requires
        call_ensures(attach_plan, (&args, &record, log_exists), r),
    ensures
        r is Terminal <==> args.tty,
        r is Follow <==> !args.tty && log_exists,
        r is Missing <==> !args.tty && !log_exists,
{
}

/// A terminal that is attached runs a shell, as large as the user's terminal.
pub proof fn lemma_attached_terminal(size: Option<(u16, u16)>, r: PtyRequest)
    requires
        call_ensures(execute_pty_attach, (size,), r),
    ensures
        r.cmd@.len() == 1 && r.cmd@[0]@ == "/bin/sh"@,
        r.user is None && r.working_dir is None && r.env@.len() == 0,
        size is Some ==> (r.cols, r.rows) == size->0,
        size is None ==> r.cols == 80 && r.rows == 24,
{
    let s = text::strs(r.cmd@);
    assert(s.len() == r.cmd@.len());
    assert(s[0] == r.cmd@[0]@);
}

} // verus!
