//! `inject-secret`: hands secrets to a trusted box.

use vstd::prelude::*;

use crate::seqs;
use crate::split;
use crate::split::{lines, split_once, trim};
use crate::text;
use crate::text::{cat2, starts_with};

verus! {

/// The arguments of `inject-secret`.
#[derive(Debug)]
pub struct InjectSecretArgs {
    pub box_name: String,
    pub secrets: Vec<String>,
    pub set_env: bool,
    pub allow_simulated: bool,
    pub file: Option<String>,
}

/// A secret for a box.
#[derive(Debug)]
pub struct SecretEntry {
    pub name: String,
    pub value: String,
    pub set_env: bool,
}

/// A secret for a box.
pub struct SecretView {
    pub name: Seq<char>,
    pub value: Seq<char>,
    pub set_env: bool,
}

impl View for SecretEntry {
    type V = SecretView;

    open spec fn view(&self) -> SecretView {
        SecretView { name: self.name@, value: self.value@, set_env: self.set_env }
    }
}

/// What secrets hold.
pub open spec fn secret_views(l: Seq<SecretEntry>) -> Seq<SecretView> {
    l.map_values(|e: SecretEntry| e@)
}

/// The secret that a text of the form NAME=VALUE stands for.
pub open spec fn secret_of(s: Seq<char>, set_env: bool) -> Result<SecretView, Seq<char>> {
    match split::cut(s, '=') {
        None => Err("Invalid secret format (expected NAME=VALUE): "@ + s),
        Some((name, value)) => if name.len() == 0 {
            Err("Secret name cannot be empty: "@ + s)
        } else {
            Ok((SecretView { name, value, set_env }))
        },
    }
}

/// The secret that a text of the form NAME=VALUE stands for.
pub fn parse_secret(s: &str, set_env: bool) -> (r: Result<SecretEntry, String>)
    ensures
        match r {
            Ok(e) => secret_of(s@, set_env) == Ok::<SecretView, Seq<char>>(e@),
            Err(e) => secret_of(s@, set_env) == Err::<SecretView, Seq<char>>(e@),
        },
{
    match split_once(s, '=') {
        None => Err(cat2("Invalid secret format (expected NAME=VALUE): ", s)),
        Some((name, value)) => {
            if name.unicode_len() == 0 {
                return Err(cat2("Secret name cannot be empty: ", s));
            }
            Ok(SecretEntry { name: name.to_string(), value: value.to_string(), set_env })
        },
    }
}

/// The secrets that texts stand for, or what is said of the first that stands
/// for none.
pub open spec fn secrets_of(l: Seq<Seq<char>>, set_env: bool) -> Result<Seq<SecretView>, Seq<char>>
    decreases l.len(),
{
    if l.len() == 0 {
        Ok(Seq::empty())
    } else {
        match secrets_of(l.drop_last(), set_env) {
            Err(e) => Err(e),
            Ok(before) => match secret_of(l.last(), set_env) {
                Err(e) => Err(e),
                Ok(s) => Ok(before.push(s)),
            },
        }
    }
}

/// A text that stands for no secret fails the texts behind it too.
proof fn lemma_secrets_failed(l: Seq<Seq<char>>, set_env: bool, n: int)
    requires
        0 <= n <= l.len(),
        secrets_of(l.take(n), set_env) is Err,
    ensures
        secrets_of(l, set_env) == secrets_of(l.take(n), set_env),
    decreases l.len() - n,
{
    if n < l.len() {
        assert(l.take(n + 1).drop_last() =~= l.take(n));
        lemma_secrets_failed(l, set_env, n + 1);
    } else {
        assert(l.take(n) =~= l);
    }
}

/// The secrets that texts stand for.
pub fn parse_secrets(l: &Vec<String>, set_env: bool) -> (r: Result<Vec<SecretEntry>, String>)
    ensures
        match r {
            Ok(v) => secrets_of(text::strs(l@), set_env) == Ok::<Seq<SecretView>, Seq<char>>(secret_views(v@)),
            Err(e) => secrets_of(text::strs(l@), set_env) == Err::<Seq<SecretView>, Seq<char>>(e@),
        },
{
    let ghost all = text::strs(l@);
    let mut out: Vec<SecretEntry> = Vec::new();
    assert(secret_views(out@) =~= Seq::empty());
    for i in 0..l.len()
        invariant
            all == text::strs(l@),
            secrets_of(all.take(i as int), set_env) == Ok::<Seq<SecretView>, Seq<char>>(secret_views(out@)),
    {
        proof {
            assert(all.take(i + 1).drop_last() =~= all.take(i as int));
            assert(all.take(i + 1).last() == l@[i as int]@);
        }
        match parse_secret(&l[i], set_env) {
            Ok(s) => {
                let ghost before = out@;
                out.push(s);
                assert(secret_views(out@) =~= secret_views(before).push(s@));
            },
            Err(e) => {
                proof {
                    lemma_secrets_failed(all, set_env, i + 1);
                }
                return Err(e);
            },
        }
    }
    assert(all.take(l@.len() as int) =~= all);
    Ok(out)
}

/// Whether a line of a file of secrets holds one: it is neither blank nor a
/// comment.
pub open spec fn holds_secret(line: Seq<char>) -> bool {
    split::trimmed(line).len() > 0 && !text::has_prefix(split::trimmed(line), "#"@)
}

/// The secrets in the lines of a file, without the white space around them.
pub open spec fn secret_lines_of(content: Seq<char>) -> Seq<Seq<char>> {
    split::line_list(content).filter(|l: Seq<char>| holds_secret(l)).map_values(|l: Seq<char>| split::trimmed(l))
}

/// The secrets in the lines of a file.
pub fn secret_lines(content: &str) -> (r: Vec<String>)
    ensures
        text::strs(r@) == secret_lines_of(content@),
{
    let all = lines(content);
    let ghost list = split::line_list(content@);
    let ghost p = |l: Seq<char>| holds_secret(l);
    let ghost t = |l: Seq<char>| split::trimmed(l);
    let mut out: Vec<String> = Vec::new();
    proof {
        seqs::lemma_filter_none(list, p);
        assert(text::strs(out@) =~= list.take(0).filter(p).map_values(t));
    }
    for i in 0..all.len()
        invariant
            list == text::strs(all@),
            p == (|l: Seq<char>| holds_secret(l)),
            t == (|l: Seq<char>| split::trimmed(l)),
            text::strs(out@) == list.take(i as int).filter(p).map_values(t),
    {
        proof {
            seqs::lemma_filter_step(list, p, i as int);
            assert(list[i as int] == all@[i as int]@);
        }
        let s = trim(&all[i]);
        if s.unicode_len() > 0 && !starts_with(s, "#") {
            let ghost before = out@;
            let one = s.to_string();
            out.push(one);
            assert(text::strs(out@) =~= text::strs(before).push(one@));
            assert(list.take(i + 1).filter(p).map_values(t) =~= list.take(i as int).filter(p).map_values(t).push(
                t(list[i as int]),
            ));
        }
    }
    assert(list.take(all@.len() as int) =~= list);
    out
}

/// All secrets that a command names: those of its arguments, then those of its
/// file. At least one is needed.
pub open spec fn all_secrets(given: Seq<Seq<char>>, file: Option<Seq<char>>, set_env: bool) -> Result<
    Seq<SecretView>,
    Seq<char>,
> {
    let lines = match file {
        Some(content) => secret_lines_of(content),
        None => Seq::empty(),
    };
    match secrets_of(given, set_env) {
        Err(e) => Err(e),
        Ok(first) => match secrets_of(lines, set_env) {
            Err(e) => Err(e),
            Ok(second) => if first.len() + second.len() == 0 {
                Err("No secrets provided. Use --secret NAME=VALUE or --file PATH"@)
            } else {
                Ok(first + second)
            },
        },
    }
}

/// All secrets that a command names. `file` is the content of its file, where it
/// names one.
pub fn collect_secrets(args: &InjectSecretArgs, file: Option<&str>) -> (r: Result<Vec<SecretEntry>, String>)
    ensures
        ({
            let expected = all_secrets(text::strs(args.secrets@), crate::oci::opt_view(file), args.set_env);
            match r {
                Ok(v) => expected == Ok::<Seq<SecretView>, Seq<char>>(secret_views(v@)),
                Err(e) => expected == Err::<Seq<SecretView>, Seq<char>>(e@),
            }
        }),
{
    let mut entries = parse_secrets(&args.secrets, args.set_env)?;
    let ghost first = entries@;
    let more = match file {
        Some(content) => {
            let l = secret_lines(content);
            parse_secrets(&l, args.set_env)?
        },
        None => {
            let none: Vec<SecretEntry> = Vec::new();
            assert(secret_views(none@) =~= Seq::empty());
            none
        },
    };
    let ghost second = more@;
    let mut more = more;
    entries.append(&mut more);
    proof {
        assert(entries@ =~= first + second);
        assert(secret_views(entries@) =~= secret_views(first) + secret_views(second));
    }
    if entries.len() == 0 {
        return Err("No secrets provided. Use --secret NAME=VALUE or --file PATH".to_string());
    }
    Ok(entries)
}

/// A secret is a name, an `=` and a value, which may hold `=` itself; it is set in
/// the environment exactly where that is asked. One without a name or an `=` is
/// refused.
pub proof fn lemma_secret_read(
    s: &str,
    set_env: bool,
    name: Seq<char>,
    value: Seq<char>,
    r: Result<SecretEntry, String>,
)
    requires
        call_ensures(parse_secret, (s, set_env), r),
        !name.contains('='),
    ensures
        s@ == name + seq!['='] + value && name.len() > 0 ==> r is Ok && r->Ok_0.name@ == name
            && r->Ok_0.value@ == value,
        s@ == seq!['='] + value ==> r is Err,
        !s@.contains('=') ==> r is Err,
        r is Ok ==> r->Ok_0.set_env == set_env && r->Ok_0.name@.len() > 0,
{
    split::lemma_cut(s@, '=');
    if s@ == name + seq!['='] + value {
        let n = name.len() as int;
        assert(s@[n] == '=');
        assert forall|j: int| 0 <= j < n implies s@[j] != '=' by {
            assert(s@[j] == name[j]);
            assert(name.contains(name[j]));
        }
        split::lemma_cut_at(s@, '=', n);
        assert(s@.contains('='));
        assert(s@.take(n) =~= name);
        assert(s@.skip(n + 1) =~= value);
    }
    if s@ == seq!['='] + value {
        assert(s@[0] == '=');
        split::lemma_cut_at(s@, '=', 0);
        assert(s@.contains('='));
        assert(s@.take(0).len() == 0);
    }
    if r is Ok {
        assert(r->Ok_0@ == secret_of(s@, set_env)->Ok_0);
    }
}

/// Each secret of a list is read, in its place, and one that cannot be read leaves
/// none.
pub proof fn lemma_secrets_in_order(
    l: Vec<String>,
    set_env: bool,
    i: int,
    r: Result<Vec<SecretEntry>, String>,
)
    requires
        call_ensures(parse_secrets, (&l, set_env), r),
        0 <= i < l@.len(),
    ensures
        secret_of(l@[i]@, set_env) is Err ==> r is Err,
        r is Ok ==> (r->Ok_0)@.len() == l@.len() && secret_of(l@[i]@, set_env) == Ok::<
            SecretView,
            Seq<char>,
        >((r->Ok_0)@[i]@),
{
    lemma_secrets(text::strs(l@), set_env, i);
    assert(text::strs(l@)[i] == l@[i]@);
    if r is Ok {
        let v = (r->Ok_0)@;
        assert(secret_views(v).len() == v.len());
        assert(secret_views(v)[i] == v[i]@);
    }
}

/// Each of a list of secrets is read in its place.
proof fn lemma_secrets(l: Seq<Seq<char>>, set_env: bool, i: int)
    requires
        0 <= i < l.len(),
    ensures
        secret_of(l[i], set_env) is Err ==> secrets_of(l, set_env) is Err,
        secrets_of(l, set_env) is Ok ==> secrets_of(l, set_env)->Ok_0.len() == l.len() && secret_of(
            l[i],
            set_env,
        ) == Ok::<SecretView, Seq<char>>(secrets_of(l, set_env)->Ok_0[i]),
    decreases l.len(),
{
    let before = l.drop_last();
    if before.len() > 0 {
        lemma_secrets(
            before,
            set_env,
            if i < before.len() {
                i
            } else {
                0
            },
        );
        if i < before.len() {
            assert(before[i] == l[i]);
        }
    } else {
        assert(secrets_of(before, set_env) == Ok::<Seq<SecretView>, Seq<char>>(Seq::empty()));
    }
}

/// There is always a secret where it succeeds: none at all is refused.
pub proof fn lemma_some_secret(args: InjectSecretArgs, file: Option<&str>, r: Result<Vec<SecretEntry>, String>)
    requires
        call_ensures(collect_secrets, (&args, file), r),
    ensures
        r is Ok ==> (r->Ok_0)@.len() > 0,
        args.secrets@.len() == 0 && file is None ==> r is Err,
        r is Ok && file is None ==> (r->Ok_0)@.len() == args.secrets@.len(),
{
    assert(text::strs(args.secrets@).len() == args.secrets@.len());
    if r is Ok {
        let v = (r->Ok_0)@;
        assert(secret_views(v).len() == v.len());
    }
    if args.secrets@.len() > 0 {
        lemma_secrets(text::strs(args.secrets@), args.set_env, 0);
    }
}

/// A line of a file holds a secret where it is neither empty nor a comment, and counts
/// without the white space around it.
pub proof fn lemma_secret_lines(content: &str, i: int, r: Vec<String>)
    requires
        call_ensures(secret_lines, (content,), r),
        0 <= i < r@.len(),
    ensures
        r@[i]@.len() > 0,
        r@[i]@[0] != '#',
        split::trimmed(r@[i]@) == r@[i]@,
        r@.len() <= split::line_list(content@).len(),
{
    let p = |l: Seq<char>| holds_secret(l);
    let lines = split::line_list(content@);
    let kept = lines.filter(p);
    lines.lemma_filter_len(p);
    assert(text::strs(r@).len() == r@.len());
    assert(text::strs(r@)[i] == r@[i]@);
    lines.lemma_filter_pred(p, i);
    let t = split::trimmed(kept[i]);
    assert(r@[i]@ == t);
    split::lemma_trim_idempotent(kept[i]);
    reveal_strlit("#");
    if t[0] == '#' {
        assert(t.take(1) =~= "#"@);
    }
}

} // verus!
