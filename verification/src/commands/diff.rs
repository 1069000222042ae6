//! `diff`: what changed in the file system of a box.

use vstd::prelude::*;

use crate::sort;
use crate::sort::sorted_order;
use crate::strmap;
use crate::strmap::StrMap;
use crate::text;
use crate::text::{cat3, cat5};

verus! {

/// The arguments of `diff`.
#[derive(Debug)]
pub struct DiffArgs {
    pub name: String,
}

/// How a path changed.
#[derive(Clone, Copy, Debug, PartialEq, Eq, Structural)]
pub enum ChangeKind {
    Added,
    Changed,
    Deleted,
}

impl ChangeKind {
    /// The letter that stands for the change.
    pub fn to_string(&self) -> (r: String)
        ensures
            r@ == letter(*self),
    {
        match self {
            ChangeKind::Added => "A".to_string(),
            ChangeKind::Changed => "C".to_string(),
            ChangeKind::Deleted => "D".to_string(),
        }
    }
}

/// The letter that stands for a change.
pub open spec fn letter(k: ChangeKind) -> Seq<char> {
    match k {
        ChangeKind::Added => "A"@,
        ChangeKind::Changed => "C"@,
        ChangeKind::Deleted => "D"@,
    }
}

/// What is kept of a file to compare it by.
#[derive(Clone, Copy, Debug, PartialEq, Eq, Structural)]
pub struct FileInfo {
    pub size: u64,
    pub mode: u32,
    pub is_dir: bool,
}

/// What a directory holds under one name. The entries of a directory that
/// cannot be read are none.
#[derive(Debug)]
pub struct DirEntry {
    pub name: String,
    pub info: FileInfo,
    pub children: Vec<DirEntry>,
}

/// The files below a directory, by their paths from it, added to those of a map:
/// each entry, and below a directory what it holds.
pub open spec fn walked(m: Map<Seq<char>, FileInfo>, prefix: Seq<char>, entries: Seq<DirEntry>) -> Map<
    Seq<char>,
    FileInfo,
>
    decreases entries,
{
    if entries.len() == 0 {
        m
    } else {
        let before = walked(m, prefix, entries.drop_last());
        let e = entries.last();
        let path = prefix + "/"@ + e.name@;
        let with_entry = before.insert(path, e.info);
        if e.info.is_dir {
            walked(with_entry, path, e.children@)
        } else {
            with_entry
        }
    }
}

/// The files below a directory, by their paths from it.
pub fn walk_dir(entries: &Vec<DirEntry>) -> (r: StrMap<FileInfo>)
    ensures
        r@ == walked(Map::empty(), Seq::empty(), entries@),
{
    let mut map: StrMap<FileInfo> = StrMap::new();
    proof {
        reveal_strlit("");
        assert(""@ =~= Seq::<char>::empty());
    }
    walk_recursive("", entries, &mut map);
    map
}

/// Adds the files below a directory to a map.
pub fn walk_recursive(prefix: &str, entries: &Vec<DirEntry>, map: &mut StrMap<FileInfo>)
    ensures
        final(map)@ == walked(old(map)@, prefix@, entries@),
    decreases entries,
{
    let ghost start = map@;
    assert(entries@.take(0) =~= Seq::empty());
    for i in 0..entries.len()
        invariant
            start == old(map)@,
            map@ == walked(start, prefix@, entries@.take(i as int)),
    {
        let e = &entries[i];
        proof {
            assert(entries@.take(i + 1).drop_last() =~= entries@.take(i as int));
            assert(entries@.take(i + 1).last() == entries@[i as int]);
        }
        let path = cat3(prefix, "/", &e.name);
        map.insert(path.clone(), e.info);
        if e.info.is_dir {
            assert(decreases_to!(entries => entries@));
            assert(decreases_to!(entries@ => entries@[i as int]));
            assert(decreases_to!(entries@[i as int] => entries@[i as int].children));
            walk_recursive(&path, &e.children, map);
        }
    }
    assert(entries@.take(entries@.len() as int) =~= entries@);
}

/// How a path changed between two listings of files: a file changed where its
/// size or its mode did.
pub open spec fn change_of(baseline: Map<Seq<char>, FileInfo>, current: Map<Seq<char>, FileInfo>, path: Seq<char>) -> Option<
    ChangeKind,
> {
    if current.contains_key(path) {
        if !baseline.contains_key(path) {
            Some(ChangeKind::Added)
        } else if current[path].size != baseline[path].size || current[path].mode != baseline[path].mode {
            Some(ChangeKind::Changed)
        } else {
            None
        }
    } else if baseline.contains_key(path) {
        Some(ChangeKind::Deleted)
    } else {
        None
    }
}

/// A path and how it changed.
#[derive(Debug)]
pub struct Change {
    pub kind: ChangeKind,
    pub path: String,
}

/// Whether changes are exactly those between two listings, each path once.
pub open spec fn covers(
    changes: Seq<Change>,
    baseline: Map<Seq<char>, FileInfo>,
    current: Map<Seq<char>, FileInfo>,
) -> bool {
    &&& forall|i: int|
        0 <= i < changes.len() ==> change_of(baseline, current, (#[trigger] changes[i]).path@) == Some(
            changes[i].kind,
        )
    &&& forall|p: Seq<char>|
        change_of(baseline, current, p) is Some ==> #[trigger] has_path(changes, p)
}

/// Whether a path is among changes.
pub open spec fn has_path(changes: Seq<Change>, path: Seq<char>) -> bool {
    exists|i: int| 0 <= i < changes.len() && (#[trigger] changes[i]).path@ == path
}

/// Whether changes stand in the order of their paths, no path twice.
pub open spec fn in_order(changes: Seq<Change>) -> bool {
    forall|i: int, j: int|
        0 <= i < j < changes.len() ==> sort::precedes((#[trigger] changes[i]).path@, (#[trigger] changes[j]).path@)
}

/// Whether no path is among changes twice.
spec fn distinct(changes: Seq<Change>) -> bool {
    forall|i: int, j: int|
        0 <= i < j < changes.len() ==> (#[trigger] changes[i]).path@ != (#[trigger] changes[j]).path@
}

/// The changes between two listings, in no order.
fn gather(baseline: &StrMap<FileInfo>, current: &StrMap<FileInfo>) -> (r: Vec<Change>)
    ensures
        covers(r@, baseline@, current@),
        distinct(r@),
{
    let mut out: Vec<Change> = Vec::new();
    let n: usize = current.len();
    let ghost now = current.key_list();
    for i in 0..n
        invariant
            n == now.len(),
            now == current.key_list(),
            now.no_duplicates(),
            distinct(out@),
            forall|k: int|
                0 <= k < out@.len() ==> change_of(baseline@, current@, (#[trigger] out@[k]).path@) == Some(
                    out@[k].kind,
                ) && current@.contains_key(out@[k].path@),
            forall|k: int|
                0 <= k < out@.len() ==> exists|j: int| 0 <= j < i && #[trigger] now[j] == (#[trigger] out@[k]).path@,
            forall|j: int|
                0 <= j < i && change_of(baseline@, current@, #[trigger] now[j]) is Some ==> has_path(out@, now[j]),
    {
        let (path, info) = current.entry(i);
        let ghost before = out@;
        let kind: Option<ChangeKind> = match baseline.get(path) {
            None => Some(ChangeKind::Added),
            Some(base) => if info.size != base.size || info.mode != base.mode {
                Some(ChangeKind::Changed)
            } else {
                None
            },
        };
        assert(kind == change_of(baseline@, current@, path@));
        assert(path@ == now[i as int]);
        if let Some(kind) = kind {
            let c = Change { kind, path: path.clone() };
            out.push(c);
            proof {
                assert forall|k: int| 0 <= k < before.len() implies (#[trigger] before[k]).path@ != path@ by {
                    let j = choose|j: int| 0 <= j < i && #[trigger] now[j] == before[k].path@;
                    assert(now[j] != now[i as int]);
                }
                assert forall|k: int| 0 <= k < out@.len() implies exists|j: int|
                    0 <= j < i + 1 && #[trigger] now[j] == (#[trigger] out@[k]).path@ by {
                    if k < before.len() {
                        let j = choose|j: int| 0 <= j < i && #[trigger] now[j] == before[k].path@;
                        assert(now[j] == out@[k].path@);
                    } else {
                        assert(now[i as int] == out@[k].path@);
                    }
                }
                assert forall|j: int|
                    0 <= j < i + 1 && change_of(baseline@, current@, #[trigger] now[j]) is Some implies has_path(
                    out@,
                    now[j],
                ) by {
                    if j < i {
                        let k = choose|k: int| 0 <= k < before.len() && (#[trigger] before[k]).path@ == now[j];
                        assert(out@[k].path@ == now[j]);
                    } else {
                        assert(out@[before.len() as int].path@ == now[j]);
                    }
                }
            }
        }
    }
    let ghost upto = out@;
    proof {
        assert forall|p: Seq<char>| current@.contains_key(p) && change_of(baseline@, current@, p) is Some implies
            #[trigger] has_path(upto, p) by {
            strmap::lemma_keys(current, p);
            let j = choose|j: int| 0 <= j < now.len() && now[j] == p;
            assert(now[j] == p);
        }
    }
    let m: usize = baseline.len();
    let ghost then = baseline.key_list();
    for i in 0..m
        invariant
            m == then.len(),
            then == baseline.key_list(),
            then.no_duplicates(),
            distinct(out@),
            forall|k: int|
                0 <= k < out@.len() ==> change_of(baseline@, current@, (#[trigger] out@[k]).path@) == Some(
                    out@[k].kind,
                ),
            forall|k: int|
                0 <= k < out@.len() ==> current@.contains_key((#[trigger] out@[k]).path@) || exists|j: int|
                    0 <= j < i && #[trigger] then[j] == out@[k].path@,
            forall|p: Seq<char>|
                current@.contains_key(p) && change_of(baseline@, current@, p) is Some ==> #[trigger] has_path(
                    out@,
                    p,
                ),
            forall|j: int| 0 <= j < i && !current@.contains_key(#[trigger] then[j]) ==> has_path(out@, then[j]),
    {
        let (path, _) = baseline.entry(i);
        let ghost before = out@;
        assert(path@ == then[i as int]);
        if !current.contains_key(path) {
            let c = Change { kind: ChangeKind::Deleted, path: path.clone() };
            out.push(c);
            proof {
                assert forall|k: int| 0 <= k < before.len() implies (#[trigger] before[k]).path@ != path@ by {
                    if !current@.contains_key(before[k].path@) {
                        let j = choose|j: int| 0 <= j < i && #[trigger] then[j] == before[k].path@;
                        assert(then[j] != then[i as int]);
                    }
                }
                assert forall|k: int| 0 <= k < out@.len() implies current@.contains_key((#[trigger] out@[k]).path@)
                    || exists|j: int| 0 <= j < i + 1 && #[trigger] then[j] == out@[k].path@ by {
                    if k < before.len() {
                        assert(out@[k] == before[k]);
                        if !current@.contains_key(before[k].path@) {
                            let j = choose|j: int| 0 <= j < i && #[trigger] then[j] == before[k].path@;
                            assert(then[j] == out@[k].path@);
                        }
                    } else {
                        assert(then[i as int] == out@[k].path@);
                    }
                }
                assert forall|p: Seq<char>| #[trigger] has_path(before, p) implies has_path(out@, p) by {
                    let k = choose|k: int| 0 <= k < before.len() && (#[trigger] before[k]).path@ == p;
                    assert(out@[k].path@ == p);
                }
                assert forall|p: Seq<char>|
                    current@.contains_key(p) && change_of(baseline@, current@, p) is Some implies #[trigger] has_path(
                    out@,
                    p,
                ) by {
                    assert(has_path(before, p));
                }
                assert forall|j: int| 0 <= j < i + 1 && !current@.contains_key(#[trigger] then[j]) implies has_path(
                    out@,
                    then[j],
                ) by {
                    if j < i {
                        assert(has_path(before, then[j]));
                    } else {
                        assert(out@[before.len() as int].path@ == then[j]);
                    }
                }
            }
        }
    }
    proof {
        assert forall|p: Seq<char>| change_of(baseline@, current@, p) is Some implies #[trigger] has_path(
            out@,
            p,
        ) by {
            if !current@.contains_key(p) {
                strmap::lemma_keys(baseline, p);
                let j = choose|j: int| 0 <= j < then.len() && then[j] == p;
                assert(then[j] == p);
            }
        }
    }
    out
}

/// The changes between two listings of files, in the order of their paths.
pub fn compute_changes(baseline: &StrMap<FileInfo>, current: &StrMap<FileInfo>) -> (r: Vec<Change>)
    ensures
        covers(r@, baseline@, current@),
        in_order(r@),
{
    let all = gather(baseline, current);
    let mut paths: Vec<String> = Vec::new();
    for i in 0..all.len()
        invariant
            paths.len() == i,
            forall|k: int| 0 <= k < i ==> (#[trigger] paths@[k])@ == all@[k].path@,
    {
        paths.push(all[i].path.clone());
    }
    let order = sorted_order(&paths);
    let ghost keys = text::strs(paths@);
    let mut out: Vec<Change> = Vec::new();
    for i in 0..order.len()
        invariant
            sort::is_order(keys, order@),
            keys == text::strs(paths@),
            paths.len() == all.len(),
            forall|k: int| 0 <= k < paths@.len() ==> (#[trigger] paths@[k])@ == all@[k].path@,
            out.len() == i,
            forall|k: int|
                0 <= k < i ==> (#[trigger] out@[k]).path@ == all@[order@[k] as int].path@ && out@[k].kind
                    == all@[order@[k] as int].kind,
    {
        let k: usize = order[i];
        out.push(Change { kind: all[k].kind, path: all[k].path.clone() });
    }
    proof {
        assert forall|i: int, j: int| 0 <= i < j < out@.len() implies sort::precedes(
            (#[trigger] out@[i]).path@,
            (#[trigger] out@[j]).path@,
        ) by {
            let a = order@[i] as int;
            let b = order@[j] as int;
            assert(sort::place_before(keys, a, b));
            sort::lemma_order_distinct(keys, order@, i, j);
            assert(keys[a] == all@[a].path@ && keys[b] == all@[b].path@);
            if a < b {
                assert(all@[a].path@ != all@[b].path@);
            } else {
                assert(all@[b].path@ != all@[a].path@);
            }
        }
        assert forall|p: Seq<char>| change_of(baseline@, current@, p) is Some implies #[trigger] has_path(
            out@,
            p,
        ) by {
            assert(has_path(all@, p));
            let k = choose|k: int| 0 <= k < all@.len() && (#[trigger] all@[k]).path@ == p;
            let i = lemma_order_covers(keys, order@, k);
            assert(out@[i].path@ == p);
        }
        assert forall|i: int| 0 <= i < out@.len() implies change_of(baseline@, current@, (#[trigger] out@[i]).path@)
            == Some(out@[i].kind) by {
            assert(order@[i] < all@.len());
            assert(change_of(baseline@, current@, all@[order@[i] as int].path@) == Some(
                all@[order@[i] as int].kind,
            ));
        }
    }
    out
}

/// An order lists every place.
proof fn lemma_order_covers(keys: Seq<Seq<char>>, order: Seq<usize>, k: int) -> (i: int)
    requires
        sort::is_order(keys, order),
        0 <= k < keys.len(),
    ensures
        0 <= i < order.len(),
        order[i] == k,
{
    let places = order.map_values(|x: usize| x as int);
    assert(places.no_duplicates()) by {
        assert forall|i: int, j: int| 0 <= i < j < places.len() implies places[i] != places[j] by {
            sort::lemma_order_distinct(keys, order, i, j);
        }
    }
    let range = vstd::set_lib::set_int_range(0, keys.len() as int);
    vstd::set_lib::lemma_int_range(0, keys.len() as int);
    places.unique_seq_to_set();
    assert(places.to_set().subset_of(range)) by {
        assert forall|x: int| places.to_set().contains(x) implies range.contains(x) by {
            let i = choose|i: int| 0 <= i < places.len() && places[i] == x;
            assert(order[i] < keys.len());
        }
    }
    vstd::set_lib::lemma_subset_equality(places.to_set(), range);
    assert(range.contains(k));
    assert(places.contains(k));
    let i = choose|i: int| 0 <= i < places.len() && places[i] == k;
    i
}

/// What is printed of changes: a line for each.
pub open spec fn report(changes: Seq<Change>) -> Seq<Seq<char>> {
    if changes.len() == 0 {
        seq!["No changes detected."@]
    } else {
        changes.map_values(|c: Change| letter(c.kind) + " "@ + c.path@)
    }
}

/// What is printed of changes.
pub fn diff_lines(changes: &Vec<Change>) -> (r: Vec<String>)
    ensures
        text::strs(r@) == report(changes@),
{
    let mut out: Vec<String> = Vec::new();
    if changes.len() == 0 {
        out.push("No changes detected.".to_string());
        assert(text::strs(out@) =~= report(changes@));
        return out;
    }
    for i in 0..changes.len()
        invariant
            out.len() == i,
            forall|k: int|
                0 <= k < i ==> (#[trigger] out@[k])@ == letter(changes@[k].kind) + " "@ + changes@[k].path@,
    {
        let kind = changes[i].kind.to_string();
        out.push(cat3(&kind, " ", &changes[i].path));
    }
    assert(text::strs(out@) =~= report(changes@));
    out
}

/// What is printed where there is no listing to compare with.
pub fn no_baseline_lines() -> (r: Vec<String>)
    ensures
        text::strs(r@) == seq![
            "No baseline snapshot found — cannot compute diff."@,
            "(Snapshot is created at box creation time.)"@,
        ],
{
    let mut out: Vec<String> = Vec::new();
    out.push("No baseline snapshot found — cannot compute diff.".to_string());
    out.push("(Snapshot is created at box creation time.)".to_string());
    assert(text::strs(out@) =~= seq![
        "No baseline snapshot found — cannot compute diff."@,
        "(Snapshot is created at box creation time.)"@,
    ]);
    out
}

/// What is said where a box has no file system to compare.
pub fn rootfs_missing(name: &str, box_dir: &str) -> (r: String)
    ensures
        r@ == "Rootfs not found for box '"@ + name@ + "' under "@ + box_dir@
            + " (looked for merged/ and rootfs/)"@,
{
    cat5("Rootfs not found for box '", name, "' under ", box_dir, " (looked for merged/ and rootfs/)")
}

/// Whether a listing is made for a box: where there is none yet and the box has
/// a file system.
pub fn takes_baseline(snapshot_exists: bool, has_rootfs: bool) -> (r: bool)
    ensures
        r == (!snapshot_exists && has_rootfs),
{
    !snapshot_exists && has_rootfs
}

/// A listing compared with itself shows no change.
pub proof fn lemma_same_no_change(m: Map<Seq<char>, FileInfo>, path: Seq<char>)
    ensures
        change_of(m, m, path) is None,
{
}

/// Where one direction of a comparison adds, the other deletes, and where one
/// changes, so does the other.
pub proof fn lemma_reversed(a: Map<Seq<char>, FileInfo>, b: Map<Seq<char>, FileInfo>, path: Seq<char>)
    ensures
        change_of(a, b, path) == Some(ChangeKind::Added) <==> change_of(b, a, path) == Some(ChangeKind::Deleted),
        change_of(a, b, path) == Some(ChangeKind::Changed) <==> change_of(b, a, path) == Some(ChangeKind::Changed),
{
}

/// There is one way to write down the changes between two listings.
pub proof fn lemma_changes_unique(
    x: Seq<Change>,
    y: Seq<Change>,
    baseline: Map<Seq<char>, FileInfo>,
    current: Map<Seq<char>, FileInfo>,
)
    requires
        covers(x, baseline, current),
        in_order(x),
        covers(y, baseline, current),
        in_order(y),
    ensures
        report(x) == report(y),
{
    lemma_paths_agree(x, y, baseline, current, x.len() as int);
    lemma_paths_agree(y, x, baseline, current, y.len() as int);
    assert(x.len() == y.len());
    assert forall|i: int| 0 <= i < x.len() implies x[i].path@ == y[i].path@ && x[i].kind == y[i].kind by {
        assert(change_of(baseline, current, x[i].path@) == Some(x[i].kind));
        assert(change_of(baseline, current, y[i].path@) == Some(y[i].kind));
    }
    assert(report(x) =~= report(y));
}

/// The first paths of two ways to write down the changes agree.
proof fn lemma_paths_agree(
    x: Seq<Change>,
    y: Seq<Change>,
    baseline: Map<Seq<char>, FileInfo>,
    current: Map<Seq<char>, FileInfo>,
    n: int,
)
    requires
        covers(x, baseline, current),
        in_order(x),
        covers(y, baseline, current),
        in_order(y),
        0 <= n <= x.len(),
    ensures
        n <= y.len(),
        forall|i: int| 0 <= i < n ==> (#[trigger] x[i]).path@ == y[i].path@,
    decreases n,
{
    if n > 0 {
        lemma_paths_agree(x, y, baseline, current, n - 1);
        let p = x[n - 1].path@;
        assert(change_of(baseline, current, p) == Some(x[n - 1].kind));
        assert(has_path(y, p));
        let k = choose|k: int| 0 <= k < y.len() && (#[trigger] y[k]).path@ == p;
        if k < n - 1 {
            assert(x[k].path@ == y[k].path@);
            assert(sort::precedes(x[k].path@, x[n - 1].path@));
            sort::lemma_irreflexive(p);
        }
        // The change of `y` at this place is among those of `x`, and not before it.
        let q = y[n - 1].path@;
        assert(change_of(baseline, current, q) == Some(y[n - 1].kind));
        assert(has_path(x, q));
        let j = choose|j: int| 0 <= j < x.len() && (#[trigger] x[j]).path@ == q;
        if j < n - 1 {
            assert(x[j].path@ == y[j].path@);
            assert(sort::precedes(y[j].path@, y[n - 1].path@));
            sort::lemma_irreflexive(q);
        } else if k > n - 1 {
            assert(sort::precedes(q, p));
            if j > n - 1 {
                assert(sort::precedes(p, q));
                sort::lemma_transitive(p, q, p);
            }
            sort::lemma_irreflexive(p);
        }
    }
}

/// A path is told once, and it is told as added where it was not there before, as
/// deleted where it is not there any more, and as changed where its size or its mode
/// is another; a path that is as it was is not told.
pub proof fn lemma_changes_told(
    baseline: StrMap<FileInfo>,
    current: StrMap<FileInfo>,
    r: Vec<Change>,
    i: int,
    p: Seq<char>,
)
    requires
        call_ensures(compute_changes, (&baseline, &current), r),
    ensures
        0 <= i < r@.len() ==> {
            let path = r@[i].path@;
            &&& r@[i].kind is Added <==> current@.contains_key(path) && !baseline@.contains_key(path)
            &&& r@[i].kind is Deleted <==> baseline@.contains_key(path) && !current@.contains_key(path)
            &&& r@[i].kind is Changed ==> baseline@.contains_key(path) && current@.contains_key(path)
                && (current@[path].size != baseline@[path].size || current@[path].mode
                != baseline@[path].mode)
        },
        current@.contains_key(p) && !baseline@.contains_key(p) ==> has_path(r@, p),
        baseline@.contains_key(p) && !current@.contains_key(p) ==> has_path(r@, p),
        baseline@.contains_key(p) && current@.contains_key(p) && current@[p].size == baseline@[p].size
            && current@[p].mode == baseline@[p].mode ==> !has_path(r@, p),
        baseline@.contains_key(p) && current@.contains_key(p) && (current@[p].size != baseline@[p].size
            || current@[p].mode != baseline@[p].mode) ==> has_path(r@, p),
        forall|a: int, b: int|
            0 <= a < b < r@.len() ==> (#[trigger] r@[a]).path@ != (#[trigger] r@[b]).path@,
{
    assert(covers(r@, baseline@, current@));
    if 0 <= i < r@.len() {
        assert(change_of(baseline@, current@, r@[i].path@) == Some(r@[i].kind));
    }
    if change_of(baseline@, current@, p) is Some {
        assert(has_path(r@, p));
    }
    if has_path(r@, p) {
        let k = choose|k: int| 0 <= k < r@.len() && (#[trigger] r@[k]).path@ == p;
        assert(change_of(baseline@, current@, r@[k].path@) == Some(r@[k].kind));
    }
    assert forall|a: int, b: int| 0 <= a < b < r@.len() implies (#[trigger] r@[a]).path@ != (
    #[trigger] r@[b]).path@ by {
        sort::lemma_irreflexive(r@[a].path@);
        assert(sort::precedes(r@[a].path@, r@[b].path@));
    }
}

/// Each change is one line, with the letter of its kind before the path; without a
/// change one line says so.
pub proof fn lemma_lines_of_changes(changes: Vec<Change>, i: int, r: Vec<String>)
    requires
        call_ensures(diff_lines, (&changes,), r),
    ensures
        changes@.len() == 0 ==> r@.len() == 1,
        changes@.len() > 0 ==> r@.len() == changes@.len(),
        0 <= i < changes@.len() && changes@[i].kind is Added ==> r@[i]@ == "A"@ + " "@ + changes@[i].path@,
        0 <= i < changes@.len() && changes@[i].kind is Changed ==> r@[i]@ == "C"@ + " "@
            + changes@[i].path@,
        0 <= i < changes@.len() && changes@[i].kind is Deleted ==> r@[i]@ == "D"@ + " "@
            + changes@[i].path@,
{
    assert(text::strs(r@).len() == r@.len());
    if 0 <= i < changes@.len() {
        assert(text::strs(r@)[i] == r@[i]@);
    }
}

/// What is in a directory is walked, with its own path, and so is what lies in the
/// directories below it; nothing that was found before is lost.
pub proof fn lemma_walked_finds_every_entry(
    m: Map<Seq<char>, FileInfo>,
    prefix: Seq<char>,
    entries: Seq<DirEntry>,
    i: int,
)
    ensures
        forall|p: Seq<char>| #[trigger]
            m.contains_key(p) ==> walked(m, prefix, entries).contains_key(p),
        0 <= i < entries.len() ==> walked(m, prefix, entries).contains_key(
            prefix + "/"@ + entries[i].name@,
        ),
    decreases entries,
{
    if entries.len() > 0 {
        let before = entries.drop_last();
        let e = entries.last();
        let path = prefix + "/"@ + e.name@;
        lemma_walked_finds_every_entry(m, prefix, before, i);
        let first = walked(m, prefix, before);
        let with_entry = first.insert(path, e.info);
        if e.info.is_dir {
            assert(entries[entries.len() - 1] == e);
            lemma_walked_finds_every_entry(with_entry, path, e.children@, 0);
        }
        assert forall|p: Seq<char>| #[trigger] m.contains_key(p) implies walked(
            m,
            prefix,
            entries,
        ).contains_key(p) by {
            assert(first.contains_key(p));
            assert(with_entry.contains_key(p));
        }
        if 0 <= i < entries.len() {
            if i < before.len() {
                assert(before[i] == entries[i]);
            } else {
                assert(entries[i] == e);
            }
            assert(with_entry.contains_key(prefix + "/"@ + entries[i].name@));
        }
    }
}

/// A baseline is taken once, and only of a file system that is there.
pub proof fn lemma_baseline_taken_once(snapshot_exists: bool, has_rootfs: bool, r: bool)
    requires
        call_ensures(takes_baseline, (snapshot_exists, has_rootfs), r),
    ensures
        snapshot_exists ==> !r,
        !has_rootfs ==> !r,
        !snapshot_exists && has_rootfs ==> r,
{
}

/// A directory is walked from its root: each entry is found under its own path, with
/// what is known of it.
pub proof fn lemma_dir_walked(entries: Vec<DirEntry>, i: int, r: StrMap<FileInfo>)
    requires
        call_ensures(walk_dir, (&entries,), r),
        0 <= i < entries@.len(),
    ensures
        r@.contains_key("/"@ + entries@[i].name@),
        entries@.len() == 1 && !entries@[0].info.is_dir ==> r@["/"@ + entries@[0].name@] == entries@[0].info
            && r@.dom() =~= set!["/"@ + entries@[0].name@],
{
    let none = Map::<Seq<char>, FileInfo>::empty();
    lemma_walked_finds_every_entry(none, Seq::empty(), entries@, i);
    assert(Seq::<char>::empty() + "/"@ =~= "/"@);
    if entries@.len() == 1 && !entries@[0].info.is_dir {
        assert(entries@.drop_last().len() == 0);
        assert(walked(none, Seq::empty(), entries@.drop_last()) == none);
        assert(entries@.last() == entries@[0]);
    }
}

} // verus!
