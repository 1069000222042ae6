//! `exec`: run a command in a running box.

use vstd::prelude::*;

use crate::commands::common;
use crate::commands::common::normalize_user_option;
use crate::commands::run;
use crate::commands::run::PtyRequest;
use crate::text;
use crate::text::{cat2, cat6};

verus! {

/// Arguments of `exec`.
#[derive(Debug)]
pub struct ExecArgs {
    /// Box name or ID
    pub box_name: String,
    /// Timeout in seconds
    pub timeout: u64,
    /// Set environment variables (KEY=VALUE)
    pub envs: Vec<String>,
    /// Working directory inside the box
    pub workdir: Option<String>,
    /// Keep STDIN open (pipe stdin to the command)
    pub interactive: bool,
    /// Allocate a pseudo-TTY
    pub tty: bool,
    /// Run the command as a specific user (supported: root, UID, UID:GID)
    pub user: Option<String>,
    /// Command and arguments to execute
    pub cmd: Vec<String>,
}

/// A command for a box.
#[derive(Debug)]
pub struct ExecRequest {
    /// The command.
    pub cmd: Vec<String>,
    /// How long it may take, in nanoseconds.
    pub timeout_ns: u64,
    /// Environment variables, KEY=VALUE.
    pub env: Vec<String>,
    /// Working directory.
    pub working_dir: Option<String>,
    /// What it reads from its input.
    pub stdin: Option<Vec<u8>>,
    /// User by number.
    pub user: Option<String>,
}

/// Reads the user and takes the runtime's word on the working directory.
pub fn check_exec(args: &ExecArgs, workdir: &Result<(), String>) -> (r: Result<
    Option<String>,
    String,
>)
    ensures
        match r {
            Ok(user) => !run::user_unknown(args.user) && workdir is Ok && text::opt_str(user)
                == run::user_number(args.user),
            Err(e) => if run::user_unknown(args.user) {
                e@ == common::user_error(args.user->0@)
            } else {
                workdir is Err && e@ == workdir->Err_0@
            },
        },
{
    match normalize_user_option(&args.user) {
        Err(e) => Err(e),
        Ok(user) => match workdir {
            Ok(_) => Ok(user),
            Err(e) => Err(e.clone()),
        },
    }
}

/// How long a command may take, in nanoseconds; the default where no number of
/// seconds is given.
pub fn exec_timeout(timeout: u64, default_ns: u64) -> (r: u64)
    requires
        timeout * 1_000_000_000 <= u64::MAX,
    ensures
        r == if timeout == 0 {
            default_ns as int
        } else {
            timeout * 1_000_000_000
        },
{
    if timeout == 0 {
        default_ns
    } else {
        timeout * 1_000_000_000
    }
}

/// What a command reads from its input: what was read from the user's, where
/// that is asked for and not empty.
pub open spec fn stdin_of(interactive: bool, input: Seq<u8>) -> Option<Seq<u8>> {
    if interactive && input.len() > 0 {
        Some(input)
    } else {
        None
    }
}

/// What optional bytes hold.
pub open spec fn opt_bytes(o: Option<Vec<u8>>) -> Option<Seq<u8>> {
    match o {
        Some(v) => Some(v@),
        None => None,
    }
}

/// The request for a command without a terminal. `input` is what was read from
/// the user's input.
pub fn exec_request(args: ExecArgs, user: Option<String>, input: Vec<u8>, default_ns: u64) -> (r:
    ExecRequest)
    requires
        args.timeout * 1_000_000_000 <= u64::MAX,
    ensures
        r.cmd == args.cmd,
        r.timeout_ns == if args.timeout == 0 {
            default_ns as int
        } else {
            args.timeout * 1_000_000_000
        },
        r.env == args.envs,
        r.working_dir == args.workdir,
        opt_bytes(r.stdin) == stdin_of(args.interactive, input@),
        r.user == user,
{
    let timeout_ns: u64 = exec_timeout(args.timeout, default_ns);
    let stdin: Option<Vec<u8>> = if args.interactive && input.len() > 0 {
        Some(input)
    } else {
        None
    };
    ExecRequest {
        cmd: args.cmd,
        timeout_ns,
        env: args.envs,
        working_dir: args.workdir,
        stdin,
        user,
    }
}

/// The request for a command on a terminal. `size` is the size of the user's
/// terminal, columns first; 80 by 24 where it is not known.
pub fn execute_pty(args: ExecArgs, user: Option<String>, size: Option<(u16, u16)>) -> (r: PtyRequest)
    ensures
        r.cmd == args.cmd,
        r.env == args.envs,
        r.working_dir == args.workdir,
        r.user == user,
        (r.cols, r.rows) == match size {
            Some(s) => s,
            None => (80u16, 24u16),
        },
{
    let (cols, rows): (u16, u16) = match size {
        Some(s) => s,
        None => (80, 24),
    };
    PtyRequest {
        cmd: args.cmd,
        env: args.envs,
        working_dir: args.workdir,
        user,
        cols,
        rows,
    }
}

/// Milliseconds between two tries to reach a terminal.
pub const PTY_RETRY_MS: u64 = 100;

/// What follows a failed try to reach a terminal: another try, or what is said
/// once the time is up. `limit_words` is the time limit in words.
pub fn connect_pty_with_retry(
    socket_path: &str,
    error: &str,
    elapsed_nanos: u128,
    limit_nanos: u128,
    limit_words: &str,
) -> (r: Option<String>)
    ensures
        match r {
            None => elapsed_nanos < limit_nanos,
            Some(e) => elapsed_nanos >= limit_nanos && e@ == "Failed to connect to PTY server at "@
                + socket_path@ + " after "@ + limit_words@ + ": "@ + error@,
        },
{
    if elapsed_nanos >= limit_nanos {
        Some(
            cat6(
                "Failed to connect to PTY server at ",
                socket_path,
                " after ",
                limit_words,
                ": ",
                error,
            ),
        )
    } else {
        None
    }
}

// ---------------------------------------------------------------------------
// The relay between two terminals
// ---------------------------------------------------------------------------

/// What comes from the box's terminal.
#[derive(Debug)]
pub enum PtyInput {
    /// Output of the command. `written` tells whether the user's terminal took it.
    Data {
        /// Whether the user's terminal took it.
        written: bool,
    },
    /// The command has ended. The exit code is missing where it could not be read.
    Exit {
        /// The exit code.
        exit_code: Option<i32>,
    },
    /// The terminal failed.
    Error {
        /// What it says.
        message: String,
    },
    /// A frame of another kind.
    Unknown,
    /// The connection has ended.
    Closed,
    /// The connection has failed.
    Failed,
}

/// What the relay does with what comes from the box's terminal.
#[derive(Debug)]
pub enum PtyStep {
    /// It reads on.
    Continue,
    /// It ends with this exit code.
    End {
        /// The exit code.
        exit_code: i32,
        /// What the user is told.
        notice: Option<String>,
    },
}

/// The exit code with which the relay ends, where it ends.
pub open spec fn relay_exit(input: PtyInput) -> Option<i32> {
    match input {
        PtyInput::Data { written } => if written {
            None
        } else {
            Some(-1i32)
        },
        PtyInput::Exit { exit_code } => match exit_code {
            Some(code) => Some(code),
            None => Some(1i32),
        },
        PtyInput::Error { .. } => Some(1i32),
        PtyInput::Unknown => None,
        PtyInput::Closed => Some(-1i32),
        PtyInput::Failed => Some(-1i32),
    }
}

/// What the relay does with what comes from the box's terminal: it writes the
/// output on, ends with the command's exit code, and passes over frames that it
/// does not know.
pub fn run_pty_session(input: PtyInput) -> (r: PtyStep)
    ensures
        match r {
            PtyStep::Continue => relay_exit(input) is None,
            PtyStep::End { exit_code, notice } => {
                &&& relay_exit(input) == Some(exit_code)
                &&& text::opt_str(notice) == match input {
                    PtyInput::Error { message } => Some("\r\nPTY error: "@ + message@),
                    _ => None,
                }
            },
        },
{
    match input {
        PtyInput::Data { written } => if written {
            PtyStep::Continue
        } else {
            PtyStep::End { exit_code: -1, notice: None }
        },
        PtyInput::Exit { exit_code } => PtyStep::End {
            exit_code: match exit_code {
                Some(code) => code,
                None => 1,
            },
            notice: None,
        },
        PtyInput::Error { message } => PtyStep::End {
            exit_code: 1,
            notice: Some(cat2("\r\nPTY error: ", message.as_str())),
        },
        PtyInput::Unknown => PtyStep::Continue,
        PtyInput::Closed => PtyStep::End { exit_code: -1, notice: None },
        PtyInput::Failed => PtyStep::End { exit_code: -1, notice: None },
    }
}

/// What comes from the user's side.
#[derive(Debug)]
pub enum UserInput {
    /// Bytes from the keyboard.
    Keys {
        /// The bytes.
        bytes: Vec<u8>,
    },
    /// The input has ended.
    Ended,
    /// The terminal has another size, where it could be found out.
    Resized {
        /// Columns and rows.
        size: Option<(u16, u16)>,
    },
}

/// What the relay sends to the box's terminal.
#[derive(Debug)]
pub enum UserStep {
    /// The bytes. A failure ends this side of the relay.
    SendData {
        /// The bytes.
        bytes: Vec<u8>,
    },
    /// The size. A failure is passed over.
    SendResize {
        /// Columns.
        cols: u16,
        /// Rows.
        rows: u16,
    },
    /// Nothing.
    Skip,
    /// Nothing any more.
    Stop,
}

/// What the relay does with what comes from the user's side.
pub fn relay_user_input(input: UserInput) -> (r: UserStep)
    ensures
        match input {
            UserInput::Keys { bytes } => r == (UserStep::SendData { bytes }),
            UserInput::Ended => r is Stop,
            UserInput::Resized { size } => match size {
                Some((cols, rows)) => r == (UserStep::SendResize { cols, rows }),
                None => r is Skip,
            },
        },
{
    match input {
        UserInput::Keys { bytes } => UserStep::SendData { bytes },
        UserInput::Ended => UserStep::Stop,
        UserInput::Resized { size } => match size {
            Some((cols, rows)) => UserStep::SendResize { cols, rows },
            None => UserStep::Skip,
        },
    }
}

// ---------------------------------------------------------------------------
// What is asked of a box
// ---------------------------------------------------------------------------

/// The command is fed what was read exactly where `--interactive` was given and
/// something was read; without `--interactive` it is fed nothing.
pub proof fn lemma_input_goes_to_interactive(
    args: ExecArgs,
    user: Option<String>,
    input: Vec<u8>,
    default_ns: u64,
    r: ExecRequest,
)
    requires
        call_ensures(exec_request, (args, user, input, default_ns), r),
    ensures
        !args.interactive ==> r.stdin is None,
        args.interactive && input@.len() > 0 ==> r.stdin is Some && r.stdin->0@ == input@,
        args.interactive && input@.len() == 0 ==> r.stdin is None,
{
}

/// A command is run as it was given: with its own words, variables and directory,
/// for the user that was read, and for as long as was asked, in whole seconds, or
/// for the time that is usual where none was asked.
pub proof fn lemma_command_is_run_as_given(
    args: ExecArgs,
    user: Option<String>,
    input: Vec<u8>,
    default_ns: u64,
    r: ExecRequest,
)
    requires
        call_ensures(exec_request, (args, user, input, default_ns), r),
    ensures
        r.cmd@ == args.cmd@,
        r.env@ == args.envs@,
        r.working_dir == args.workdir,
        r.user == user,
        args.timeout == 0 ==> r.timeout_ns == default_ns,
        args.timeout > 0 ==> r.timeout_ns / 1_000_000_000 == args.timeout && r.timeout_ns
            % 1_000_000_000 == 0,
{
}

/// A command with a terminal is asked for as one without: the same words,
/// variables, directory and user. The terminal is as large as the user's, and
/// 80 columns by 24 rows where that is not known.
pub proof fn lemma_terminal_runs_the_same(
    args: ExecArgs,
    user: Option<String>,
    input: Vec<u8>,
    default_ns: u64,
    size: Option<(u16, u16)>,
    plain: ExecRequest,
    terminal: PtyRequest,
)
    requires
        call_ensures(exec_request, (args, user, input, default_ns), plain),
        call_ensures(execute_pty, (args, user, size), terminal),
    ensures
        terminal.cmd@ == plain.cmd@,
        terminal.env@ == plain.env@,
        terminal.working_dir == plain.working_dir,
        terminal.user == plain.user,
        size is Some ==> terminal.cols == (size->0).0 && terminal.rows == (size->0).1,
        size is None ==> terminal.cols == 80 && terminal.rows == 24,
{
}

/// A command is refused for a user that has no number or for a directory that is
/// not accepted, the user first, and for nothing else.
pub proof fn lemma_exec_refused(
    args: ExecArgs,
    workdir: Result<(), String>,
    r: Result<Option<String>, String>,
)
    requires
        call_ensures(check_exec, (&args, &workdir), r),
    ensures
        args.user is None && workdir is Ok ==> r is Ok && r->Ok_0 is None,
        workdir is Err ==> r is Err,
        workdir is Err && args.user is None ==> r->Err_0@ == workdir->Err_0@,
        r is Ok ==> (r->Ok_0 is Some <==> args.user is Some),
{
}

/// A terminal is tried again as long as there is time, and never after.
pub proof fn lemma_tries_until_time_is_up(
    socket_path: &str,
    error: &str,
    elapsed_nanos: u128,
    limit_nanos: u128,
    limit_words: &str,
    r: Option<String>,
)
    requires
        call_ensures(
            connect_pty_with_retry,
            (socket_path, error, elapsed_nanos, limit_nanos, limit_words),
            r,
        ),
    ensures
        r is None <==> elapsed_nanos < limit_nanos,
        r is Some ==> text::has_suffix(r->0@, error@),
{
    if r is Some {
        let head = "Failed to connect to PTY server at "@ + socket_path@ + " after "@ + limit_words@
            + ": "@;
        assert(r->0@ == head + error@);
        assert(r->0@.skip(r->0@.len() - error@.len()) =~= error@);
    }
}

/// The relay ends with the exit code of the command where it is told one. It never
/// ends with success for want of one: a lost connection, a failure and a code that
/// cannot be read all give another.
pub proof fn lemma_relay_ends_with_the_command(input: PtyInput, r: PtyStep)
    requires
        call_ensures(run_pty_session, (input,), r),
    ensures
        input matches PtyInput::Exit { exit_code } ==> r is End && (exit_code is Some
            ==> r->exit_code == exit_code->0),
        r is End && r->exit_code == 0 ==> (input matches PtyInput::Exit { exit_code } && exit_code
            == Some(0i32)),
        r is Continue <==> input is Unknown || input == (PtyInput::Data { written: true }),
        r is End ==> (r->notice is Some <==> input is Error),
        input matches PtyInput::Error { message } ==> text::has_suffix(r->notice->0@, message@),
{
    if let PtyInput::Error { message } = input {
        assert(text::opt_str(r->notice) == Some("\r\nPTY error: "@ + message@));
        let said = r->notice->0@;
        assert(said.skip(said.len() - message@.len()) =~= message@);
    }
}

/// What the user types is sent byte for byte, and a new size as it is; only the end
/// of the input ends the relay.
pub proof fn lemma_keys_are_sent(input: UserInput, r: UserStep)
    requires
        call_ensures(relay_user_input, (input,), r),
    ensures
        input matches UserInput::Keys { bytes } ==> r is SendData && r->bytes@ == bytes@,
        r is SendData <==> input is Keys,
        r is Stop <==> input is Ended,
        input matches UserInput::Resized { size } ==> if size is Some {
            r is SendResize && r->cols == (size->0).0 && r->rows == (size->0).1
        } else {
            r is Skip
        },
{
}

/// A time limit is in nanoseconds, and the usual one where none is given.
pub proof fn lemma_exec_timeout(timeout: u64, default_ns: u64, r: u64)
    requires
        timeout * 1_000_000_000 <= u64::MAX,
        call_ensures(exec_timeout, (timeout, default_ns), r),
    ensures
        timeout == 0 ==> r == default_ns,
        timeout > 0 ==> r / 1_000_000_000 == timeout && r % 1_000_000_000 == 0,
{
}

} // verus!
