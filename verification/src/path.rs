//! Unix paths as text.

use vstd::prelude::*;

use crate::seqs;
use crate::split;
use crate::split::{join, split};
use crate::text;
use crate::text::{cat2, cat3, starts_with, str_eq};

verus! {

broadcast use crate::text::lemma_strs_push;

/// Whether the path begins at the root.
pub open spec fn is_rooted(s: Seq<char>) -> bool {
    s.len() > 0 && s[0] == '/'
}

/// Whether a piece between two separators names something: it is neither empty
/// nor the current directory.
pub open spec fn names(p: Seq<char>) -> bool {
    p.len() > 0 && p != seq!['.']
}

/// The components of a path. Empty pieces and `.` do not count, but for a `.`
/// that a relative path begins with.
pub open spec fn components(s: Seq<char>) -> Seq<Seq<char>> {
    let parts = split::pieces(s, '/');
    let kept = parts.filter(|p: Seq<char>| names(p));
    if parts[0] == seq!['.'] {
        seq![seq!['.']] + kept
    } else {
        kept
    }
}

/// The text of a path with the given components.
pub open spec fn rendered(rooted: bool, parts: Seq<Seq<char>>) -> Seq<char> {
    if rooted {
        seq!['/'] + split::joined(parts, seq!['/'])
    } else {
        split::joined(parts, seq!['/'])
    }
}

/// `rel` seen from `base`: an absolute path stands for itself, and a separator
/// comes in between where there is none.
pub open spec fn under(base: Seq<char>, rel: Seq<char>) -> Seq<char> {
    if is_rooted(rel) || base.len() == 0 {
        rel
    } else if base.last() == '/' {
        base + rel
    } else {
        base + seq!['/'] + rel
    }
}

/// The directory that a path stands in; `None` for the root and the empty path.
pub open spec fn parent_of(s: Seq<char>) -> Option<Seq<char>> {
    let c = components(s);
    if c.len() == 0 {
        None
    } else {
        Some(rendered(is_rooted(s), c.drop_last()))
    }
}

/// The last component of a path, where it names an entry of a directory.
pub open spec fn file_name_of(s: Seq<char>) -> Option<Seq<char>> {
    let c = components(s);
    if c.len() == 0 || c.last() == seq!['.'] || c.last() == seq!['.', '.'] {
        None
    } else {
        Some(c.last())
    }
}

/// Whether the path is `base` or stands below it, component by component, with
/// the root as a component of its own. Every path begins with no component.
pub open spec fn is_within(s: Seq<char>, base: Seq<char>) -> bool {
    let c = components(s);
    let b = components(base);
    if !is_rooted(base) && b.len() == 0 {
        true
    } else {
        is_rooted(s) == is_rooted(base) && b.len() <= c.len() && c.take(b.len() as int) == b
    }
}

/// `rel` seen from `base`.
pub fn path_join(base: &str, rel: &str) -> (r: String)
    ensures
        r@ == under(base@, rel@),
{
    proof {
        reveal_strlit("/");
        assert("/"@ =~= seq!['/']);
        if "/"@.len() <= rel@.len() {
            assert(rel@.take(1)[0] == rel@[0]);
            if rel@[0] == '/' {
                assert(rel@.take(1) =~= "/"@);
            }
        }
        if "/"@.len() <= base@.len() {
            assert(base@.skip(base@.len() - 1)[0] == base@.last());
            if base@.last() == '/' {
                assert(base@.skip(base@.len() - 1) =~= "/"@);
            }
        }
    }
    if starts_with(rel, "/") || base.is_empty() {
        rel.to_string()
    } else if text::ends_with(base, "/") {
        cat2(base, rel)
    } else {
        cat3(base, "/", rel)
    }
}

/// Whether the path begins at the root.
pub fn is_absolute(s: &str) -> (r: bool)
    ensures
        r == is_rooted(s@),
{
    proof {
        reveal_strlit("/");
        assert("/"@ =~= seq!['/']);
        if s@.len() > 0 {
            assert(s@.take(1)[0] == s@[0]);
            if s@[0] == '/' {
                assert(s@.take(1) =~= "/"@);
            }
        }
    }
    starts_with(s, "/")
}

/// The components of a path.
pub fn path_components(s: &str) -> (r: Vec<String>)
    ensures
        text::strs(r@) == components(s@),
{
    let parts: Vec<String> = split(s, '/');
    let ghost views = text::strs(parts@);
    let ghost keep = |p: Seq<char>| names(p);
    proof {
        reveal_strlit(".");
        assert("."@ =~= seq!['.']);
        seqs::lemma_filter_none(views, keep);
        assert(views[0] == parts@[0]@);
    }
    let mut out: Vec<String> = Vec::new();
    let ghost mut lead: Seq<Seq<char>> = Seq::empty();
    if str_eq(parts[0].as_str(), ".") {
        out.push(".".to_string());
        proof {
            lead = seq![seq!['.']];
            assert(text::strs(out@) =~= lead);
        }
    }
    assert(text::strs(out@) =~= lead + views.take(0).filter(keep));
    let mut i: usize = 0;
    while i < parts.len()
        invariant
            i <= parts.len(),
            views == text::strs(parts@),
            keep == (|p: Seq<char>| names(p)),
            "."@ == seq!['.'],
            text::strs(out@) == lead + views.take(i as int).filter(keep),
        decreases parts.len() - i,
    {
        proof {
            seqs::lemma_filter_step(views, keep, i as int);
        }
        let p: &String = &parts[i];
        if !p.as_str().is_empty() && !str_eq(p.as_str(), ".") {
            proof {
                let f = views.take(i as int).filter(keep);
                assert((lead + f).push(p@) =~= lead + f.push(p@));
            }
            out.push(p.clone());
        }
        i = i + 1;
    }
    proof {
        assert(views.take(i as int) =~= views);
        assert(lead + views.filter(keep) =~= components(s@));
    }
    out
}

/// The text of a path with the given components.
fn render(rooted: bool, parts: &Vec<String>) -> (r: String)
    ensures
        r@ == rendered(rooted, text::strs(parts@)),
{
    proof {
        reveal_strlit("/");
        assert("/"@ =~= seq!['/']);
    }
    let tail: String = join(parts, "/");
    if rooted {
        cat2("/", tail.as_str())
    } else {
        tail
    }
}

/// The directory that a path stands in; `None` for the root and the empty path.
pub fn parent(s: &str) -> (r: Option<String>)
    ensures
        text::opt_str(r) == parent_of(s@),
{
    let mut c: Vec<String> = path_components(s);
    if c.len() == 0 {
        return None;
    }
    let ghost all = c@;
    let _ = c.pop();
    proof {
        assert(c@ =~= all.drop_last());
        assert(text::strs(c@) =~= text::strs(all).drop_last());
    }
    Some(render(is_absolute(s), &c))
}

/// The last component of a path, where it names an entry of a directory.
pub fn file_name(s: &str) -> (r: Option<String>)
    ensures
        text::opt_str(r) == file_name_of(s@),
{
    let mut c: Vec<String> = path_components(s);
    proof {
        reveal_strlit(".");
        reveal_strlit("..");
        assert("."@ =~= seq!['.']);
        assert(".."@ =~= seq!['.', '.']);
    }
    let ghost all = c@;
    match c.pop() {
        Some(last) => {
            assert(text::strs(all).last() == last@);
            if str_eq(last.as_str(), ".") || str_eq(last.as_str(), "..") {
                None
            } else {
                Some(last)
            }
        },
        None => None,
    }
}

/// Whether the path is `base` or stands below it.
pub fn path_starts_with(s: &str, base: &str) -> (r: bool)
    ensures
        r == is_within(s@, base@),
{
    let c: Vec<String> = path_components(s);
    let b: Vec<String> = path_components(base);
    assert(text::strs(b@).len() == b@.len());
    if !is_absolute(base) && b.len() == 0 {
        return true;
    }
    if is_absolute(s) != is_absolute(base) {
        return false;
    }
    if b.len() > c.len() {
        return false;
    }
    let ghost cs = text::strs(c@);
    let ghost bs = text::strs(b@);
    let mut i: usize = 0;
    while i < b.len()
        invariant
            i <= b.len() <= c.len(),
            cs == text::strs(c@),
            bs == text::strs(b@),
            cs == components(s@),
            bs == components(base@),
            forall|j: int| 0 <= j < i ==> cs[j] == bs[j],
        decreases b.len() - i,
    {
        if !str_eq(c[i].as_str(), b[i].as_str()) {
            assert(cs.take(bs.len() as int)[i as int] != bs[i as int]);
            return false;
        }
        i = i + 1;
    }
    assert(cs.take(bs.len() as int) =~= bs);
    true
}

// ---------------------------------------------------------------------------
// What the parts of a path come to
// ---------------------------------------------------------------------------

/// A path below another begins with it and ends with what was put below, with one
/// slash between; an absolute path stands for itself.
pub proof fn lemma_joined_path(base: &str, rel: &str, r: String)
    requires
        call_ensures(path_join, (base, rel), r),
    ensures
        text::has_suffix(r@, rel@),
        is_rooted(rel@) ==> r@ == rel@,
        base@.len() == 0 ==> r@ == rel@,
        !is_rooted(rel@) && base@.len() > 0 ==> text::has_prefix(r@, base@),
        !is_rooted(rel@) && base@.len() > 0 && base@.last() != '/' ==> r@.len() == base@.len() + 1
            + rel@.len() && r@[base@.len() as int] == '/',
        !is_rooted(rel@) && base@.len() > 0 && base@.last() == '/' ==> r@.len() == base@.len()
            + rel@.len(),
        base@.len() > 0 && base@[0] == '/' ==> r@.len() > 0 && r@[0] == '/',
{
    assert(r@.skip(r@.len() - rel@.len()) =~= rel@);
    if !is_rooted(rel@) && base@.len() > 0 {
        assert(r@.take(base@.len() as int) =~= base@);
        assert(r@[0] == base@[0]);
    }
}

/// A path is absolute where it begins with a slash.
pub proof fn lemma_absolute(s: &str, r: bool)
    requires
        call_ensures(is_absolute, (s,), r),
    ensures
        r <==> s@.len() > 0 && s@[0] == '/',
{
}

/// The names in a text that is one name.
proof fn lemma_one_name(name: Seq<char>)
    requires
        names(name),
        !name.contains('/'),
    ensures
        split::pieces(name, '/') == seq![name],
        components(name) == seq![name],
        !is_rooted(name),
{
    split::lemma_cut(name, '/');
    let parts = split::pieces(name, '/');
    assert(parts == seq![name]);
    let p = |p: Seq<char>| names(p);
    assert(parts =~= Seq::<Seq<char>>::empty().push(name));
    seqs::lemma_filter_push(Seq::<Seq<char>>::empty(), p, name);
    seqs::lemma_filter_none(Seq::<Seq<char>>::empty(), p);
    assert(Seq::<Seq<char>>::empty().take(0) =~= Seq::<Seq<char>>::empty());
    assert(parts.filter(p) =~= seq![name]);
    if is_rooted(name) {
        assert(name.contains(name[0]));
    }
}

/// A name that is put below a directory is the last of the path's names.
proof fn lemma_name_below(base: Seq<char>, name: Seq<char>)
    requires
        names(name),
        !name.contains('/'),
        base.len() > 0,
        base.last() != '/',
    ensures
        components(under(base, name)) == components(base).push(name),
        is_rooted(under(base, name)) == is_rooted(base),
{
    lemma_one_name(name);
    let s = under(base, name);
    assert(base + seq!['/'] + name =~= base.push('/') + name);
    split::lemma_pieces_of_both(base, '/', name);
    let a = split::pieces(base, '/');
    let parts = split::pieces(s, '/');
    assert(parts =~= a.push(name));
    let p = |p: Seq<char>| names(p);
    seqs::lemma_filter_push(a, p, name);
    split::lemma_cut(base, '/');
    assert(a.len() >= 1);
    assert(parts[0] == a[0]);
    if a[0] == seq!['.'] {
        assert(seq![seq!['.']] + a.filter(p).push(name) =~= (seq![seq!['.']] + a.filter(p)).push(name));
    }
    assert(s[0] == base[0]);
}

/// A file in a directory has the name it was given and lies in the directory.
pub proof fn lemma_file_in_directory(
    base: &str,
    name: &str,
    whole: &str,
    last: Option<String>,
    inside: bool,
)
    requires
        !name@.contains('/'),
        name@.len() > 0,
        name@ != seq!['.'],
        name@ != seq!['.', '.'],
        base@.len() > 0,
        base@.last() != '/',
        whole@ == under(base@, name@),
        call_ensures(file_name, (whole,), last),
        call_ensures(path_starts_with, (whole, base), inside),
    ensures
        last is Some && last->0@ == name@,
        inside,
{
    lemma_name_below(base@, name@);
    let b = components(base@);
    assert(components(whole@).take(b.len() as int) =~= b);
}

/// The directory of a file in a directory has the directory's own names.
pub proof fn lemma_parent_of_file(base: &str, name: &str, whole: &str, up: Option<String>)
    requires
        !name@.contains('/'),
        name@.len() > 0,
        name@ != seq!['.'],
        base@.len() > 0,
        base@.last() != '/',
        whole@ == under(base@, name@),
        call_ensures(parent, (whole,), up),
    ensures
        up is Some,
        up->0@ == rendered(is_rooted(base@), components(base@)),
{
    lemma_name_below(base@, name@);
    assert(components(base@).push(name@).drop_last() =~= components(base@));
}

/// Every path lies in itself; what lies in a directory lies in all that it lies in;
/// and no absolute path lies in one that is not.
pub proof fn lemma_within(
    a: &str,
    b: &str,
    c: &str,
    aa: bool,
    ab: bool,
    bc: bool,
    ac: bool,
)
    requires
        call_ensures(path_starts_with, (a, a), aa),
        call_ensures(path_starts_with, (a, b), ab),
        call_ensures(path_starts_with, (b, c), bc),
        call_ensures(path_starts_with, (a, c), ac),
    ensures
        aa,
        ab && bc && components(b@).len() > 0 ==> ac,
        is_rooted(a@) && !is_rooted(b@) && components(b@).len() > 0 ==> !ab,
{
    let x = components(a@);
    let y = components(b@);
    let z = components(c@);
    assert(x.take(x.len() as int) =~= x);
    if ab && bc && y.len() > 0 && !(!is_rooted(c@) && z.len() == 0) {
        assert(x.take(z.len() as int) =~= y.take(z.len() as int)) by {
            assert(x.take(y.len() as int) == y);
            assert forall|i: int| 0 <= i < z.len() implies x[i] == y[i] by {
                assert(x.take(y.len() as int)[i] == x[i]);
            }
        }
    }
}

/// The names of a path hold no slash and are not empty.
pub proof fn lemma_names_hold_no_slash(s: &str, i: int, r: Vec<String>)
    requires
        call_ensures(path_components, (s,), r),
        0 <= i < r@.len(),
    ensures
        r@[i]@.len() > 0,
        !r@[i]@.contains('/'),
        i > 0 ==> r@[i]@ != seq!['.'],
{
    let parts = split::pieces(s@, '/');
    let p = |p: Seq<char>| names(p);
    let kept = parts.filter(p);
    assert(text::strs(r@).len() == r@.len());
    assert(text::strs(r@)[i] == r@[i]@);
    let x = r@[i]@;
    lemma_no_slash(s@);
    if parts[0] == seq!['.'] {
        if i > 0 {
            assert(x == kept[i - 1]);
            assert(kept.contains(x));
            seqs::lemma_filter_contains(parts, p, x);
        } else {
            assert(x == seq!['.']);
            assert(seq!['.'][0] == '.');
            if x.contains('/') {
                let k = choose|k: int| 0 <= k < x.len() && x[k] == '/';
                assert(x[k] == '.');
            }
        }
    } else {
        assert(kept.contains(x));
        seqs::lemma_filter_contains(parts, p, x);
    }
}

/// No piece between slashes holds one.
proof fn lemma_no_slash(s: Seq<char>)
    ensures
        forall|x: Seq<char>| #[trigger] split::pieces(s, '/').contains(x) ==> !x.contains('/'),
        split::pieces(s, '/').len() >= 1,
    decreases s.len(),
{
    split::lemma_cut(s, '/');
    match split::cut(s, '/') {
        Some((a, b)) => {
            lemma_no_slash(b);
            let all = split::pieces(s, '/');
            assert forall|x: Seq<char>| #[trigger] all.contains(x) implies !x.contains('/') by {
                let k = choose|k: int| 0 <= k < all.len() && all[k] == x;
                if k > 0 {
                    assert(split::pieces(b, '/')[k - 1] == x);
                    assert(split::pieces(b, '/').contains(x));
                }
            }
        },
        None => {},
    }
}

} // verus!
