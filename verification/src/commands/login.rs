//! `login`: keeps the credentials for a registry.

use vstd::prelude::*;

use crate::split;
use crate::split::trim;
use crate::text;

verus! {

/// The registry that is meant where none is named.
pub const DEFAULT_SERVER: &'static str = "index.docker.io";

/// The arguments of `login`.
#[derive(Debug)]
pub struct LoginArgs {
    pub server: Option<String>,
    pub username: Option<String>,
    pub password: Option<String>,
    pub password_stdin: bool,
    pub skip_verify: bool,
}

/// The registry that is meant.
pub open spec fn server_of(server: Option<Seq<char>>) -> Seq<char> {
    match server {
        Some(s) => s,
        None => DEFAULT_SERVER@,
    }
}

/// The registry that is meant.
pub fn registry_server(server: &Option<String>) -> (r: String)
    ensures
        r@ == server_of(text::opt_str(*server)),
{
    match server {
        Some(s) => s.clone(),
        None => DEFAULT_SERVER.to_string(),
    }
}

/// Where the password comes from.
#[derive(Clone, Copy, Debug, PartialEq, Eq, Structural)]
pub enum PasswordSource {
    /// A line of the input, without a prompt.
    Input,
    /// The arguments.
    Given,
    /// A line of the input behind a prompt.
    Prompt,
}

/// Where the password comes from.
pub fn password_source(args: &LoginArgs) -> (r: PasswordSource)
    ensures
        r == if args.password_stdin {
            PasswordSource::Input
        } else if args.password is Some {
            PasswordSource::Given
        } else {
            PasswordSource::Prompt
        },
{
    if args.password_stdin {
        PasswordSource::Input
    } else if args.password.is_some() {
        PasswordSource::Given
    } else {
        PasswordSource::Prompt
    }
}

/// The credentials for a registry.
#[derive(Debug)]
pub struct Credentials {
    pub server: String,
    pub username: String,
    pub password: String,
}

/// The name of the user: as given, or the line that was read, without the white
/// space around it.
pub open spec fn username_of(given: Option<Seq<char>>, line: Seq<char>) -> Seq<char> {
    match given {
        Some(u) => u,
        None => split::trimmed(line),
    }
}

/// The password: as given, unless it comes from the input.
pub open spec fn password_of(given: Option<Seq<char>>, from_input: bool, line: Seq<char>) -> Seq<char> {
    match given {
        Some(p) => if from_input { split::trimmed(line) } else { p },
        None => split::trimmed(line),
    }
}

/// The credentials to keep; a name and a password are needed. The lines are
/// those that were read where the arguments lack one of them.
pub fn credentials(args: &LoginArgs, username_line: &str, password_line: &str) -> (r: Result<Credentials, String>)
    ensures
        ({
            let username = username_of(text::opt_str(args.username), username_line@);
            let password = password_of(text::opt_str(args.password), args.password_stdin, password_line@);
            if username.len() == 0 || password.len() == 0 {
                r matches Err(e) && e@ == "Username and password are required"@
            } else {
                r matches Ok(c) && c.server@ == server_of(text::opt_str(args.server)) && c.username@ == username
                    && c.password@ == password
            }
        }),
{
    let username = match &args.username {
        Some(u) => u.clone(),
        None => trim(username_line).to_string(),
    };
    let password = match password_source(args) {
        PasswordSource::Given => match &args.password {
            Some(p) => p.clone(),
            None => trim(password_line).to_string(),
        },
        _ => trim(password_line).to_string(),
    };
    if username.as_str().unicode_len() == 0 || password.as_str().unicode_len() == 0 {
        return Err("Username and password are required".to_string());
    }
    Ok(Credentials { server: registry_server(&args.server), username, password })
}

/// What is given goes before what is asked for, but a password that is read from the
/// input goes before one that is given. Neither may be empty, and the server is the
/// usual one where none is given.
pub proof fn lemma_credentials_taken(
    args: LoginArgs,
    user_line: &str,
    password_line: &str,
    source: PasswordSource,
    r: Result<Credentials, String>,
)
    requires
        call_ensures(password_source, (&args,), source),
        call_ensures(credentials, (&args, user_line, password_line), r),
    ensures
        source is Input <==> args.password_stdin,
        source is Prompt <==> !args.password_stdin && args.password is None,
        r is Ok ==> r->Ok_0.username@.len() > 0 && r->Ok_0.password@.len() > 0,
        r is Ok && args.username is Some ==> r->Ok_0.username@ == args.username->0@,
        r is Ok && args.username is None ==> r->Ok_0.username@ == split::trimmed(user_line@),
        r is Ok && source is Given ==> r->Ok_0.password@ == args.password->0@,
        r is Ok && !(source is Given) ==> r->Ok_0.password@ == split::trimmed(password_line@),
        r is Ok && args.server is Some ==> r->Ok_0.server@ == args.server->0@,
        r is Ok && args.server is None ==> r->Ok_0.server@ == DEFAULT_SERVER@,
        args.username is Some && args.username->0@.len() > 0 && source is Given && args.password->0@.len()
            > 0 ==> r is Ok,
{
}

} // verus!
