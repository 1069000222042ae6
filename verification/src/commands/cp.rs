//! `cp`: files between the host and a running box.
//!
//! Content goes through the exec channel in base64; directories go as archives.

use vstd::prelude::*;

use crate::base64;
use crate::base64::{decode, encode};
use crate::bytes;
use crate::bytes::{len_in_bytes, lossy_text};
use crate::commands::exec::ExecRequest;
use crate::number;
use crate::number::usize_text;
use crate::seqs;
use crate::split;
use crate::split::{is_whitespace, replace_char, split_once};
use crate::text;
use crate::text::{cat2, cat3, cat4, cat6, chars_of};

verus! {

/// How long the transfer of a directory may take, in nanoseconds.
pub const DIR_TRANSFER_TIMEOUT_NS: u64 = 60_000_000_000;

/// The arguments of `cp`.
#[derive(Debug)]
pub struct CpArgs {
    pub src: String,
    pub dst: String,
}

/// One end of a copy: a path of the host, or a path in a box.
#[derive(Debug)]
pub enum Endpoint {
    Host(String),
    InBox { name: String, path: String },
}

/// One end of a copy.
pub enum EndpointView {
    Host(Seq<char>),
    InBox { name: Seq<char>, path: Seq<char> },
}

impl View for Endpoint {
    type V = EndpointView;

    open spec fn view(&self) -> EndpointView {
        match self {
            Endpoint::Host(p) => EndpointView::Host(p@),
            Endpoint::InBox { name, path } => EndpointView::InBox { name: name@, path: path@ },
        }
    }
}

/// One end of a copy: what stands before the first colon is the name of a box,
/// unless it is a single byte, as that of a drive is.
pub open spec fn endpoint_of(s: Seq<char>) -> EndpointView {
    match split::cut(s, ':') {
        Some((name, path)) => if bytes::byte_len(name) > 1 {
            EndpointView::InBox { name, path }
        } else {
            EndpointView::Host(s)
        },
        None => EndpointView::Host(s),
    }
}

/// One end of a copy.
pub fn parse_endpoint(s: &str) -> (r: Endpoint)
    ensures
        r@ == endpoint_of(s@),
{
    if let Some((name, path)) = split_once(s, ':') {
        if len_in_bytes(name) > 1 {
            return Endpoint::InBox { name: name.to_string(), path: path.to_string() };
        }
    }
    Endpoint::Host(s.to_string())
}

/// What is copied where.
#[derive(Debug)]
pub enum CopyPlan {
    FromBox { name: String, path: String, host_path: String },
    ToBox { host_path: String, name: String, path: String },
}

/// Plans a copy: exactly one end must be in a box.
pub fn plan_copy(args: &CpArgs) -> (r: Result<CopyPlan, String>)
    ensures
        match (endpoint_of(args.src@), endpoint_of(args.dst@)) {
            (EndpointView::InBox { name, path }, EndpointView::Host(h)) => r matches Ok(
                CopyPlan::FromBox { name: n, path: p, host_path },
            ) && n@ == name && p@ == path && host_path@ == h,
            (EndpointView::Host(h), EndpointView::InBox { name, path }) => r matches Ok(
                CopyPlan::ToBox { host_path, name: n, path: p },
            ) && n@ == name && p@ == path && host_path@ == h,
            (EndpointView::Host(_), EndpointView::Host(_)) => r matches Err(e) && e@
                == "Both source and destination are host paths. One must be a box path (BOX:/path)."@,
            (EndpointView::InBox { .. }, EndpointView::InBox { .. }) => r matches Err(e) && e@
                == "Copying between two boxes is not supported. Copy to host first."@,
        },
{
    let src = parse_endpoint(&args.src);
    let dst = parse_endpoint(&args.dst);
    match (src, dst) {
        (Endpoint::InBox { name, path }, Endpoint::Host(host_path)) => Ok(
            CopyPlan::FromBox { name, path, host_path },
        ),
        (Endpoint::Host(host_path), Endpoint::InBox { name, path }) => Ok(
            CopyPlan::ToBox { host_path, name, path },
        ),
        (Endpoint::Host(_), Endpoint::Host(_)) => Err(
            "Both source and destination are host paths. One must be a box path (BOX:/path).".to_string(),
        ),
        (Endpoint::InBox { .. }, Endpoint::InBox { .. }) => Err(
            "Copying between two boxes is not supported. Copy to host first.".to_string(),
        ),
    }
}

/// A path in single quotes for a shell.
pub open spec fn escaped(s: Seq<char>) -> Seq<char> {
    "'"@ + split::replaced_char(s, '\'', "'\\''"@) + "'"@
}

/// A path in single quotes for a shell.
pub fn shell_escape(s: &str) -> (r: String)
    ensures
        r@ == escaped(s@),
{
    let inner = replace_char(s, '\'', "'\\''");
    cat3("'", &inner, "'")
}

/// Whether a request is a command with a time limit and nothing else.
pub open spec fn asks(r: ExecRequest, cmd: Seq<Seq<char>>, timeout_ns: u64) -> bool {
    &&& text::strs(r.cmd@) == cmd
    &&& r.timeout_ns == timeout_ns
    &&& r.env@.len() == 0
    &&& r.working_dir is None
    &&& r.stdin is None
    &&& r.user is None
}

/// The request for a script of the shell.
fn script_request(script: String, timeout_ns: u64) -> (r: ExecRequest)
    ensures
        asks(r, seq!["sh"@, "-c"@, script@], timeout_ns),
{
    let mut cmd: Vec<String> = Vec::new();
    cmd.push("sh".to_string());
    cmd.push("-c".to_string());
    cmd.push(script);
    assert(text::strs(cmd@) =~= seq!["sh"@, "-c"@, script@]);
    ExecRequest { cmd, timeout_ns, env: Vec::new(), working_dir: None, stdin: None, user: None }
}

/// The request that asks whether a path in a box is a directory: it is where the
/// command exits with zero.
pub fn directory_request(box_path: &str, default_timeout_ns: u64) -> (r: ExecRequest)
    ensures
        asks(r, seq!["test"@, "-d"@, box_path@], default_timeout_ns),
{
    let mut cmd: Vec<String> = Vec::new();
    cmd.push("test".to_string());
    cmd.push("-d".to_string());
    cmd.push(box_path.to_string());
    assert(text::strs(cmd@) =~= seq!["test"@, "-d"@, box_path@]);
    ExecRequest {
        cmd,
        timeout_ns: default_timeout_ns,
        env: Vec::new(),
        working_dir: None,
        stdin: None,
        user: None,
    }
}

/// The request for the content of a file in a box.
pub fn read_file_request(box_path: &str, default_timeout_ns: u64) -> (r: ExecRequest)
    ensures
        asks(r, seq!["sh"@, "-c"@, "base64 < "@ + escaped(box_path@)], default_timeout_ns),
{
    let path = shell_escape(box_path);
    script_request(cat2("base64 < ", &path), default_timeout_ns)
}

/// The request for the archive of a directory in a box.
pub fn read_dir_request(box_path: &str) -> (r: ExecRequest)
    ensures
        asks(
            r,
            seq!["sh"@, "-c"@, "tar -cf - -C "@ + escaped(box_path@) + " . | base64"@],
            DIR_TRANSFER_TIMEOUT_NS,
        ),
{
    let path = shell_escape(box_path);
    script_request(cat3("tar -cf - -C ", &path, " . | base64"), DIR_TRANSFER_TIMEOUT_NS)
}

/// The request that writes a file in a box. What stands between the quotes ends
/// no quote and decodes to the content.
pub fn write_file_request(content: &Vec<u8>, box_path: &str, default_timeout_ns: u64) -> (r: ExecRequest)
    requires
        base64::encodable(content@),
    ensures
        asks(
            r,
            seq!["sh"@, "-c"@, "echo '"@ + base64::encoded(content@) + "' | base64 -d > "@ + escaped(box_path@)],
            default_timeout_ns,
        ),
        base64::all_in_alphabet(base64::encoded(content@)),
        base64::decodes_to(base64::encoded(content@), content@),
{
    let data = encode(content);
    let path = shell_escape(box_path);
    script_request(cat4("echo '", &data, "' | base64 -d > ", &path), default_timeout_ns)
}

/// The request that extracts an archive into a directory in a box. What stands
/// between the quotes ends no quote and decodes to the archive.
pub fn write_dir_request(archive: &Vec<u8>, box_path: &str) -> (r: ExecRequest)
    requires
        base64::encodable(archive@),
    ensures
        asks(
            r,
            seq![
                "sh"@,
                "-c"@,
                "mkdir -p "@ + escaped(box_path@) + " && echo '"@ + base64::encoded(archive@)
                    + "' | base64 -d | tar -xf - -C "@ + escaped(box_path@),
            ],
            DIR_TRANSFER_TIMEOUT_NS,
        ),
        base64::all_in_alphabet(base64::encoded(archive@)),
        base64::decodes_to(base64::encoded(archive@), archive@),
{
    let data = encode(archive);
    let path = shell_escape(box_path);
    script_request(
        cat6("mkdir -p ", &path, " && echo '", &data, "' | base64 -d | tar -xf - -C ", &path),
        DIR_TRANSFER_TIMEOUT_NS,
    )
}

/// What a command in a box gave back.
#[derive(Debug)]
pub struct ExecOutput {
    pub stdout: Vec<u8>,
    pub stderr: Vec<u8>,
    pub exit_code: i32,
}

/// A text without its white space.
pub open spec fn dense(s: Seq<char>) -> Seq<char> {
    s.filter(|c: char| !split::is_white(c))
}

/// A text without its white space.
pub fn without_white(s: &str) -> (r: String)
    ensures
        r@ == dense(s@),
{
    let v = chars_of(s);
    let ghost keep = |c: char| !split::is_white(c);
    let mut out = String::new();
    proof {
        seqs::lemma_filter_none(s@, keep);
    }
    for i in 0..v.len()
        invariant
            v@ == s@,
            keep == (|c: char| !split::is_white(c)),
            out@ == s@.take(i as int).filter(keep),
    {
        proof {
            seqs::lemma_filter_step(s@, keep, i as int);
        }
        if !is_whitespace(v[i]) {
            out.push(v[i]);
        }
    }
    assert(s@.take(s@.len() as int) =~= s@);
    out
}

/// The bytes that came out of a box in base64.
pub open spec fn transferred(stdout: Seq<u8>) -> Result<Seq<u8>, Seq<char>> {
    base64::decoded(dense(bytes::lossy(stdout)))
}

/// What a transfer out of a box gave: the bytes, or what failed in the box or in
/// decoding.
pub open spec fn fetched(output: ExecOutput, failed: Seq<char>, undecoded: Seq<char>) -> Result<Seq<u8>, Seq<char>> {
    if output.exit_code != 0 {
        Err(failed + bytes::lossy(output.stderr@))
    } else {
        match transferred(output.stdout@) {
            Ok(b) => Ok(b),
            Err(e) => Err(undecoded + e),
        }
    }
}

/// What a transfer out of a box gave.
fn fetch(output: &ExecOutput, failed: &str, undecoded: &str) -> (r: Result<Vec<u8>, String>)
    ensures
        match r {
            Ok(b) => fetched(*output, failed@, undecoded@) == Ok::<Seq<u8>, Seq<char>>(b@),
            Err(e) => fetched(*output, failed@, undecoded@) == Err::<Seq<u8>, Seq<char>>(e@),
        },
{
    if output.exit_code != 0 {
        let said = lossy_text(&output.stderr);
        return Err(cat2(failed, &said));
    }
    let all = lossy_text(&output.stdout);
    let clean = without_white(&all);
    match decode(&clean) {
        Ok(b) => Ok(b),
        Err(e) => Err(cat2(undecoded, &e)),
    }
}

/// What came of reading a file in a box.
pub fn read_file_result(box_path: &str, output: &ExecOutput) -> (r: Result<Vec<u8>, String>)
    ensures
        ({
            let expected = fetched(
                *output,
                "Failed to read "@ + box_path@ + " in box: "@,
                "Failed to decode file content: "@,
            );
            match r {
                Ok(b) => expected == Ok::<Seq<u8>, Seq<char>>(b@),
                Err(e) => expected == Err::<Seq<u8>, Seq<char>>(e@),
            }
        }),
{
    let failed = cat3("Failed to read ", box_path, " in box: ");
    fetch(output, &failed, "Failed to decode file content: ")
}

/// What came of reading the archive of a directory in a box.
pub fn read_dir_result(box_path: &str, output: &ExecOutput) -> (r: Result<Vec<u8>, String>)
    ensures
        ({
            let expected = fetched(
                *output,
                "Failed to archive "@ + box_path@ + " in box: "@,
                "Failed to decode tar archive: "@,
            );
            match r {
                Ok(b) => expected == Ok::<Seq<u8>, Seq<char>>(b@),
                Err(e) => expected == Err::<Seq<u8>, Seq<char>>(e@),
            }
        }),
{
    let failed = cat3("Failed to archive ", box_path, " in box: ");
    fetch(output, &failed, "Failed to decode tar archive: ")
}

/// What came of writing a file in a box.
pub fn write_file_result(box_path: &str, output: &ExecOutput) -> (r: Result<(), String>)
    ensures
        match r {
            Ok(_) => output.exit_code == 0,
            Err(e) => output.exit_code != 0 && e@ == "Failed to write "@ + box_path@ + " in box: "@ + bytes::lossy(
                output.stderr@,
            ),
        },
{
    if output.exit_code != 0 {
        let said = lossy_text(&output.stderr);
        return Err(cat4("Failed to write ", box_path, " in box: ", &said));
    }
    Ok(())
}

/// What came of extracting an archive in a box.
pub fn write_dir_result(box_path: &str, output: &ExecOutput) -> (r: Result<(), String>)
    ensures
        match r {
            Ok(_) => output.exit_code == 0,
            Err(e) => output.exit_code != 0 && e@ == "Failed to extract archive in box at "@ + box_path@ + ": "@
                + bytes::lossy(output.stderr@),
        },
{
    if output.exit_code != 0 {
        let said = lossy_text(&output.stderr);
        return Err(cat4("Failed to extract archive in box at ", box_path, ": ", &said));
    }
    Ok(())
}

/// The line that says which file came out of a box.
pub fn file_from_line(name: &str, path: &str, host_path: &str, size: usize) -> (r: String)
    ensures
        r@ == name@ + ":"@ + path@ + " → "@ + host_path@ + (" ("@ + number::decimal(size as nat) + " bytes)"@),
{
    let n = usize_text(size);
    let tail = cat3(" (", &n, " bytes)");
    cat6(name, ":", path, " → ", host_path, &tail)
}

/// The line that says which file went into a box.
pub fn file_to_line(host_path: &str, name: &str, path: &str, size: usize) -> (r: String)
    ensures
        r@ == host_path@ + " → "@ + name@ + ":"@ + path@ + (" ("@ + number::decimal(size as nat) + " bytes)"@),
{
    let n = usize_text(size);
    let tail = cat3(" (", &n, " bytes)");
    cat6(host_path, " → ", name, ":", path, &tail)
}

/// The line that says which directory came out of a box.
pub fn dir_from_line(name: &str, path: &str, host_path: &str, size: usize) -> (r: String)
    ensures
        r@ == name@ + ":"@ + path@ + "/ → "@ + host_path@ + ("/ ("@ + number::decimal(size as nat)
            + " bytes archived)"@),
{
    let n = usize_text(size);
    let tail = cat3("/ (", &n, " bytes archived)");
    cat6(name, ":", path, "/ → ", host_path, &tail)
}

/// The line that says which directory went into a box.
pub fn dir_to_line(host_path: &str, name: &str, path: &str, size: usize) -> (r: String)
    ensures
        r@ == host_path@ + "/ → "@ + name@ + ":"@ + path@ + ("/ ("@ + number::decimal(size as nat)
            + " bytes archived)"@),
{
    let n = usize_text(size);
    let tail = cat3("/ (", &n, " bytes archived)");
    cat6(host_path, "/ → ", name, ":", path, &tail)
}

/// The word that a shell reads from a text that is one word of quoted and
/// unquoted parts; nothing where a quote is left open. `quoted` tells whether
/// the text begins inside single quotes.
pub open spec fn shell_word(s: Seq<char>, quoted: bool) -> Option<Seq<char>>
    decreases s.len(),
{
    if s.len() == 0 {
        if quoted {
            None
        } else {
            Some(Seq::empty())
        }
    } else if s[0] == '\'' {
        shell_word(s.skip(1), !quoted)
    } else if !quoted && s[0] == '\\' {
        if s.len() > 1 {
            match shell_word(s.skip(2), false) {
                Some(w) => Some(seq![s[1]] + w),
                None => None,
            }
        } else {
            None
        }
    } else {
        match shell_word(s.skip(1), quoted) {
            Some(w) => Some(seq![s[0]] + w),
            None => None,
        }
    }
}

/// Inside single quotes, what is escaped is read as it was before.
proof fn lemma_inner(s: Seq<char>, tail: Seq<char>)
    requires
        shell_word(tail, true) is Some,
    ensures
        shell_word(split::replaced_char(s, '\'', "'\\''"@) + tail, true) == Some(s + shell_word(tail, true)->0),
    decreases s.len(),
{
    let q = "'\\''"@;
    reveal_strlit("'\\''");
    if s.len() == 0 {
        assert(split::replaced_char(s, '\'', q) + tail =~= tail);
        assert(s + shell_word(tail, true)->0 =~= shell_word(tail, true)->0);
    } else {
        let c = s.last();
        let piece = if c == '\'' { q } else { seq![c] };
        let rest = piece + tail;
        assert(shell_word(rest, true) == Some(seq![c] + shell_word(tail, true)->0)) by {
            if c == '\'' {
                let a = rest.skip(1);
                assert(a[0] == '\\' && a[1] == '\'');
                let b = a.skip(2);
                assert(b[0] == '\'');
                assert(b.skip(1) =~= tail);
                assert(shell_word(b, false) == shell_word(tail, true));
                assert(shell_word(a, false) == Some(seq!['\''] + shell_word(tail, true)->0));
                assert(rest[0] == '\'');
            } else {
                assert(rest.skip(1) =~= tail);
            }
        }
        lemma_inner(s.drop_last(), rest);
        assert(split::replaced_char(s, '\'', q) + tail =~= split::replaced_char(s.drop_last(), '\'', q) + rest);
        assert(s.drop_last() + (seq![c] + shell_word(tail, true)->0) =~= s + shell_word(tail, true)->0);
    }
}

/// A shell reads an escaped path as one word, the path.
pub proof fn lemma_shell_reads_escaped(s: Seq<char>)
    ensures
        shell_word(escaped(s), false) == Some(s),
{
    reveal_strlit("'");
    let close = "'"@;
    assert(close =~= seq!['\'']);
    assert(close.skip(1) =~= Seq::<char>::empty());
    assert(shell_word(close.skip(1), false) == Some(Seq::<char>::empty()));
    assert(shell_word(close, true) == Some(Seq::<char>::empty()));
    lemma_inner(s, close);
    let body = split::replaced_char(s, '\'', "'\\''"@) + close;
    assert(escaped(s) =~= seq!['\''] + body);
    assert(escaped(s)[0] == '\'');
    assert(escaped(s).skip(1) =~= body);
    assert(s + Seq::<char>::empty() =~= s);
}

/// A path in a box is the name of the box, a colon and the path; any other text is a
/// path of the host, and so is one with a single letter before the colon.
pub proof fn lemma_endpoint_read(s: &str, name: Seq<char>, path: Seq<char>, r: Endpoint)
    requires
        call_ensures(parse_endpoint, (s,), r),
        !name.contains(':'),
    ensures
        !s@.contains(':') ==> (r matches Endpoint::Host(p) && p@ == s@),
        s@ == name + seq![':'] + path && bytes::byte_len(name) > 1 ==> (r matches Endpoint::InBox {
            name: n,
            path: p,
        } && n@ == name && p@ == path),
        s@ == name + seq![':'] + path && bytes::byte_len(name) <= 1 ==> (r matches Endpoint::Host(p)
            && p@ == s@),
{
    split::lemma_cut(s@, ':');
    if s@ == name + seq![':'] + path {
        let n = name.len() as int;
        assert(s@[n] == ':');
        assert forall|j: int| 0 <= j < n implies s@[j] != ':' by {
            assert(s@[j] == name[j]);
            assert(name.contains(name[j]));
        }
        split::lemma_cut_at(s@, ':', n);
        assert(s@.contains(':'));
        assert(s@.take(n) =~= name);
        assert(s@.skip(n + 1) =~= path);
    }
    assert(r@ == endpoint_of(s@));
}

/// A copy goes from the source to the destination: out of the box where the source is
/// in one, into it where the destination is, and nowhere where both or neither are.
pub proof fn lemma_copy_direction(
    args: CpArgs,
    src: &str,
    dst: &str,
    from: Endpoint,
    to: Endpoint,
    r: Result<CopyPlan, String>,
)
    requires
        args.src@ == src@,
        args.dst@ == dst@,
        call_ensures(parse_endpoint, (src,), from),
        call_ensures(parse_endpoint, (dst,), to),
        call_ensures(plan_copy, (&args,), r),
    ensures
        from is InBox && to is Host ==> (r matches Ok(CopyPlan::FromBox { name, path, host_path }) && name@
            == from->name@ && path@ == from->path@ && host_path@ == dst@),
        from is Host && to is InBox ==> (r matches Ok(CopyPlan::ToBox { host_path, name, path }) && name@
            == to->name@ && path@ == to->path@ && host_path@ == src@),
        from is Host && to is Host ==> r is Err,
        from is InBox && to is InBox ==> r is Err,
{
    assert(from@ == endpoint_of(src@));
    assert(to@ == endpoint_of(dst@));
}

/// What is run in a box to read a file or a directory names the path so that a shell
/// reads it back as it is, whatever it holds.
pub proof fn lemma_paths_are_quoted(path: &str, ns: u64, quoted: String, file: ExecRequest, dir: ExecRequest, test: ExecRequest)
    requires
        call_ensures(shell_escape, (path,), quoted),
        call_ensures(read_file_request, (path, ns), file),
        call_ensures(read_dir_request, (path,), dir),
        call_ensures(directory_request, (path, ns), test),
    ensures
        shell_word(quoted@, false) == Some(path@),
        file.cmd@.len() == 3 && text::has_suffix(file.cmd@[2]@, quoted@),
        dir.cmd@.len() == 3 && text::has_substring(dir.cmd@[2]@, quoted@),
        test.cmd@.len() == 3 && test.cmd@[2]@ == path@,
        file.timeout_ns == ns && test.timeout_ns == ns,
        file.stdin is None && dir.stdin is None && test.stdin is None,
        file.user is None && dir.user is None && test.user is None,
{
    lemma_shell_reads_escaped(path@);
    let f = text::strs(file.cmd@);
    let d = text::strs(dir.cmd@);
    let t = text::strs(test.cmd@);
    assert(f.len() == file.cmd@.len() && d.len() == dir.cmd@.len() && t.len() == test.cmd@.len());
    assert(f[2] == file.cmd@[2]@ && d[2] == dir.cmd@[2]@ && t[2] == test.cmd@[2]@);
    let script = file.cmd@[2]@;
    assert(script.skip(script.len() - quoted@.len()) =~= quoted@);
    let head = "tar -cf - -C "@;
    let whole = dir.cmd@[2]@;
    assert(whole.subrange(head.len() as int, (head.len() + quoted@.len()) as int) =~= quoted@);
    assert(text::occurs_at(whole, quoted@, head.len() as int));
}

/// What is written to a file of a box comes back as it was: its text holds nothing a
/// shell would read otherwise, and reading the file's text again gives its bytes.
pub proof fn lemma_written_is_read(
    content: Vec<u8>,
    path: &str,
    ns: u64,
    r: ExecRequest,
    output: ExecOutput,
    back: Result<Vec<u8>, String>,
)
    requires
        base64::encodable(content@),
        call_ensures(write_file_request, (&content, path, ns), r),
        output.exit_code == 0,
        dense(bytes::lossy(output.stdout@)) == base64::encoded(content@),
        call_ensures(read_file_result, (path, &output), back),
    ensures
        back is Ok,
        back->Ok_0@ == content@,
        r.cmd@.len() == 3 && text::has_substring(r.cmd@[2]@, base64::encoded(content@)),
{
    let c = text::strs(r.cmd@);
    assert(c.len() == r.cmd@.len());
    assert(c[2] == r.cmd@[2]@);
    let head = "echo '"@;
    let code = base64::encoded(content@);
    assert(r.cmd@[2]@.subrange(head.len() as int, (head.len() + code.len()) as int) =~= code);
    assert(text::occurs_at(r.cmd@[2]@, code, head.len() as int));
}

/// A transfer has failed exactly where the command in the box has, and then what it
/// said last is told.
pub proof fn lemma_transfer_failed(
    path: &str,
    output: ExecOutput,
    file: Result<(), String>,
    dir: Result<(), String>,
    read: Result<Vec<u8>, String>,
)
    requires
        call_ensures(write_file_result, (path, &output), file),
        call_ensures(write_dir_result, (path, &output), dir),
        call_ensures(read_file_result, (path, &output), read),
    ensures
        file is Ok <==> output.exit_code == 0,
        dir is Ok <==> output.exit_code == 0,
        read is Ok ==> output.exit_code == 0,
        file is Err ==> text::has_suffix(file->Err_0@, bytes::lossy(output.stderr@)),
{
    if file is Err {
        let said = file->Err_0@;
        let e = bytes::lossy(output.stderr@);
        assert(said.skip(said.len() - e.len()) =~= e);
    }
}

/// What is unpacked in a box is the archive that was sent, in the directory that was
/// named, which is made first.
pub proof fn lemma_archive_sent(archive: Vec<u8>, path: &str, quoted: String, r: ExecRequest)
    requires
        base64::encodable(archive@),
        call_ensures(shell_escape, (path,), quoted),
        call_ensures(write_dir_request, (&archive, path), r),
    ensures
        r.cmd@.len() == 3,
        text::has_substring(r.cmd@[2]@, base64::encoded(archive@)),
        text::has_suffix(r.cmd@[2]@, quoted@),
        base64::decodes_to(base64::encoded(archive@), archive@),
        r.stdin is None && r.user is None,
{
    let c = text::strs(r.cmd@);
    assert(c.len() == r.cmd@.len());
    assert(c[2] == r.cmd@[2]@);
    let code = base64::encoded(archive@);
    let head = "mkdir -p "@ + quoted@ + " && echo '"@;
    let s = r.cmd@[2]@;
    assert(s.subrange(head.len() as int, (head.len() + code.len()) as int) =~= code);
    assert(text::occurs_at(s, code, head.len() as int));
    assert(s.skip(s.len() - quoted@.len()) =~= quoted@);
}

/// What is left without white space holds none, and a text that has none stays.
pub proof fn lemma_without_white(s: &str, i: int, r: String)
    requires
        call_ensures(without_white, (s,), r),
    ensures
        0 <= i < r@.len() ==> !split::is_white(r@[i]),
        r@.len() <= s@.len(),
{
    let p = |c: char| !split::is_white(c);
    s@.lemma_filter_len(p);
    if 0 <= i < r@.len() {
        s@.lemma_filter_pred(p, i);
    }
}

/// A directory that is read comes back as the archive that was printed.
pub proof fn lemma_dir_read(path: &str, content: Seq<u8>, output: ExecOutput, r: Result<Vec<u8>, String>)
    requires
        output.exit_code == 0,
        base64::decodes_to(dense(bytes::lossy(output.stdout@)), content),
        call_ensures(read_dir_result, (path, &output), r),
    ensures
        r is Ok && r->Ok_0@ == content,
{
}

} // verus!
