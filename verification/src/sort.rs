//! Ordering by text.

use vstd::prelude::*;

use crate::text;
use crate::text::chars_of;

verus! {

/// Whether `a` comes before `b` in the order of `str`, character by character.
pub open spec fn precedes(a: Seq<char>, b: Seq<char>) -> bool
    decreases a.len(),
{
    if b.len() == 0 {
        false
    } else if a.len() == 0 {
        true
    } else if a.first() != b.first() {
        a.first() < b.first()
    } else {
        precedes(a.drop_first(), b.drop_first())
    }
}

/// No text comes before itself.
pub proof fn lemma_irreflexive(a: Seq<char>)
    ensures
        !precedes(a, a),
    decreases a.len(),
{
    if a.len() > 0 {
        lemma_irreflexive(a.drop_first());
    }
}

/// Of two different texts one comes before the other.
pub proof fn lemma_total(a: Seq<char>, b: Seq<char>)
    ensures
        precedes(a, b) || precedes(b, a) || a == b,
    decreases a.len(),
{
    if a.len() == 0 || b.len() == 0 {
        if a.len() == b.len() {
            assert(a =~= b);
        }
    } else if a.first() == b.first() {
        lemma_total(a.drop_first(), b.drop_first());
        if a.drop_first() == b.drop_first() {
            assert(a =~= seq![a.first()] + a.drop_first());
            assert(b =~= seq![b.first()] + b.drop_first());
        }
    }
}

/// The order is transitive.
pub proof fn lemma_transitive(a: Seq<char>, b: Seq<char>, c: Seq<char>)
    requires
        precedes(a, b),
        precedes(b, c),
    ensures
        precedes(a, c),
    decreases a.len(),
{
    if a.len() > 0 && b.len() > 0 && c.len() > 0 && a.first() == b.first() && b.first() == c.first() {
        lemma_transitive(a.drop_first(), b.drop_first(), c.drop_first());
    }
}

/// Whether `a` comes before `b`.
pub fn str_less(a: &str, b: &str) -> (r: bool)
    ensures
        r == precedes(a@, b@),
{
    let x: Vec<char> = chars_of(a);
    let y: Vec<char> = chars_of(b);
    let mut i: usize = 0;
    assert(a@.skip(0) =~= a@);
    assert(b@.skip(0) =~= b@);
    while i < x.len() && i < y.len()
        invariant
            i <= x.len(),
            i <= y.len(),
            x@ == a@,
            y@ == b@,
            precedes(a@, b@) == precedes(a@.skip(i as int), b@.skip(i as int)),
        decreases x.len() - i,
    {
        if x[i] != y[i] {
            return x[i] < y[i];
        }
        proof {
            assert(a@.skip(i as int).drop_first() =~= a@.skip(i + 1));
            assert(b@.skip(i as int).drop_first() =~= b@.skip(i + 1));
        }
        i = i + 1;
    }
    i < y.len()
}

/// Whether place `i` comes before place `j` in the order of the keys, where
/// equal keys keep the order in which they stand.
pub open spec fn place_before(keys: Seq<Seq<char>>, i: int, j: int) -> bool {
    precedes(keys[i], keys[j]) || (keys[i] == keys[j] && i < j)
}

/// Whether `order` lists every place of `keys` once, in the order of the keys,
/// where equal keys keep the order in which they stand.
pub open spec fn is_order(keys: Seq<Seq<char>>, order: Seq<usize>) -> bool {
    &&& order.len() == keys.len()
    &&& forall|i: int| 0 <= i < order.len() ==> (#[trigger] order[i]) < keys.len()
    &&& forall|i: int, j: int|
        0 <= i < j < order.len() ==> place_before(
            keys,
            #[trigger] order[i] as int,
            #[trigger] order[j] as int,
        )
}

/// The places of the keys in the order of the keys.
pub fn sorted_order(keys: &Vec<String>) -> (order: Vec<usize>)
    ensures
        is_order(text::strs(keys@), order@),
{
    let ghost ks = text::strs(keys@);
    let mut order: Vec<usize> = Vec::new();
    let mut n: usize = 0;
    while n < keys.len()
        invariant
            n <= keys.len(),
            ks == text::strs(keys@),
            order.len() == n,
            forall|i: int| 0 <= i < n ==> (#[trigger] order@[i]) < n,
            forall|i: int, j: int|
                0 <= i < j < n ==> place_before(
                    ks,
                    #[trigger] order@[i] as int,
                    #[trigger] order@[j] as int,
                ),
        decreases keys.len() - n,
    {
        let mut at: usize = n;
        while at > 0 && str_less(keys[n].as_str(), keys[order[at - 1]].as_str())
            invariant
                at <= n < keys.len(),
                order.len() == n,
                ks == text::strs(keys@),
                forall|i: int| 0 <= i < n ==> (#[trigger] order@[i]) < n,
                forall|i: int|
                    at <= i < n ==> precedes(ks[n as int], ks[(#[trigger] order@[i]) as int]),
            decreases at,
        {
            at = at - 1;
        }
        let ghost was = order@;
        proof {
            assert forall|i: int| 0 <= i < at implies place_before(
                ks,
                (#[trigger] was[i]) as int,
                n as int,
            ) by {
                let last = was[at - 1] as int;
                assert(!precedes(ks[n as int], ks[last]));
                lemma_total(ks[n as int], ks[last]);
                if i < at - 1 {
                    assert(place_before(ks, was[i] as int, last));
                    if precedes(ks[was[i] as int], ks[last]) && precedes(ks[last], ks[n as int]) {
                        lemma_transitive(ks[was[i] as int], ks[last], ks[n as int]);
                    }
                }
            }
        }
        order.insert(at, n);
        proof {
            assert(order@ =~= was.insert(at as int, n));
            assert forall|i: int, j: int| 0 <= i < j < n + 1 implies place_before(
                ks,
                #[trigger] order@[i] as int,
                #[trigger] order@[j] as int,
            ) by {
                let a = if i < at {
                    i
                } else {
                    i - 1
                };
                let b = if j < at {
                    j
                } else {
                    j - 1
                };
                if i == at {
                    assert(order@[i] == n);
                    assert(order@[j] == was[b]);
                } else if j == at {
                    assert(order@[j] == n);
                    assert(order@[i] == was[a]);
                } else {
                    assert(order@[i] == was[a]);
                    assert(order@[j] == was[b]);
                }
            }
            assert forall|i: int| 0 <= i < n + 1 implies (#[trigger] order@[i]) < n + 1 by {
                if i < at {
                    assert(order@[i] == was[i]);
                } else if i > at {
                    assert(order@[i] == was[i - 1]);
                }
            }
        }
        n = n + 1;
    }
    order
}

/// No place occurs twice in an order.
pub proof fn lemma_order_distinct(keys: Seq<Seq<char>>, order: Seq<usize>, i: int, j: int)
    requires
        is_order(keys, order),
        0 <= i < j < order.len(),
    ensures
        order[i] != order[j],
{
    assert(place_before(keys, order[i] as int, order[j] as int));
    lemma_irreflexive(keys[order[i] as int]);
}

/// The keys in their order.
pub open spec fn ordered(keys: Seq<Seq<char>>, order: Seq<usize>) -> Seq<Seq<char>> {
    order.map_values(|i: usize| keys[i as int])
}

/// In an order no key comes before one that stands ahead of it.
pub proof fn lemma_ordered(keys: Seq<Seq<char>>, order: Seq<usize>, i: int, j: int)
    requires
        is_order(keys, order),
        0 <= i < j < order.len(),
    ensures
        !precedes(ordered(keys, order)[j], ordered(keys, order)[i]),
{
    let a = keys[order[i] as int];
    let b = keys[order[j] as int];
    assert(place_before(keys, order[i] as int, order[j] as int));
    if precedes(b, a) {
        if precedes(a, b) {
            lemma_transitive(a, b, a);
        }
        lemma_irreflexive(a);
    }
}

/// A text comes before another where it is the beginning of it, or where the first
/// character in which they differ does.
pub proof fn lemma_text_order(a: &str, b: &str, p: Seq<char>, x: char, y: char, s: Seq<char>, t: Seq<char>, r: bool)
    requires
        call_ensures(str_less, (a, b), r),
        x != y,
    ensures
        a@ == p && b@ == p + t && t.len() > 0 ==> r,
        a@ == b@ ==> !r,
        a@ == p + seq![x] + s && b@ == p + seq![y] + t ==> (r <==> x < y),
{
    lemma_irreflexive(a@);
    lemma_after_common(p, Seq::empty(), t);
    assert(p + Seq::<char>::empty() =~= p);
    let u = seq![x] + s;
    let v = seq![y] + t;
    lemma_after_common(p, u, v);
    assert(p + seq![x] + s =~= p + u);
    assert(p + seq![y] + t =~= p + v);
    assert(u.first() == x && v.first() == y);
}

/// A common beginning changes nothing.
proof fn lemma_after_common(p: Seq<char>, a: Seq<char>, b: Seq<char>)
    ensures
        precedes(p + a, p + b) == precedes(a, b),
    decreases p.len(),
{
    if p.len() == 0 {
        assert(p + a =~= a);
        assert(p + b =~= b);
    } else {
        let q = p.drop_first();
        lemma_after_common(q, a, b);
        assert((p + a).drop_first() =~= q + a);
        assert((p + b).drop_first() =~= q + b);
        assert((p + a).first() == (p + b).first());
    }
}

/// Keys that are sorted are all there, each once, and none comes before the one before
/// it.
pub proof fn lemma_sorted(keys: Vec<String>, order: Vec<usize>, i: int, j: int)
    requires
        call_ensures(sorted_order, (&keys,), order),
        0 <= i < j < order@.len(),
    ensures
        order@.len() == keys@.len(),
        order@[i] != order@[j],
        order@[i] < keys@.len(),
        !precedes(keys@[order@[j] as int]@, keys@[order@[i] as int]@),
{
    let k = text::strs(keys@);
    assert(k.len() == keys@.len());
    lemma_order_distinct(k, order@, i, j);
    lemma_ordered(k, order@, i, j);
    assert(ordered(k, order@)[i] == k[order@[i] as int]);
    assert(ordered(k, order@)[j] == k[order@[j] as int]);
}

} // verus!
