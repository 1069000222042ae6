//! Commands that act on several boxes and report all failures at once.

use vstd::prelude::*;

use crate::split;
use crate::split::join;
use crate::text;
use crate::text::cat3;

verus! {

/// What is said of the boxes for which a command failed, in order.
pub open spec fn failures(queries: Seq<Seq<char>>, outcomes: Seq<Result<(), String>>) -> Seq<Seq<char>>
    decreases queries.len(),
{
    if queries.len() == 0 {
        Seq::empty()
    } else {
        let before = failures(queries.drop_last(), outcomes.drop_last());
        match outcomes.last() {
            Ok(_) => before,
            Err(e) => before.push(queries.last() + ": "@ + e@),
        }
    }
}

/// What a command on several boxes ends with: success where it succeeded for
/// each, and otherwise what failed, a line for each.
pub fn batch_result(queries: &Vec<String>, outcomes: &Vec<Result<(), String>>) -> (r: Result<(), String>)
    requires
        queries@.len() == outcomes@.len(),
    ensures
        match r {
            Ok(_) => failures(text::strs(queries@), outcomes@).len() == 0,
            Err(e) => failures(text::strs(queries@), outcomes@).len() > 0 && e@ == split::joined(
                failures(text::strs(queries@), outcomes@),
                "\n"@,
            ),
        },
{
    let ghost all = text::strs(queries@);
    let mut errors: Vec<String> = Vec::new();
    assert(text::strs(errors@) =~= Seq::empty());
    for i in 0..queries.len()
        invariant
            all == text::strs(queries@),
            queries@.len() == outcomes@.len(),
            text::strs(errors@) == failures(all.take(i as int), outcomes@.take(i as int)),
    {
        proof {
            assert(all.take(i + 1).drop_last() =~= all.take(i as int));
            assert(outcomes@.take(i + 1).drop_last() =~= outcomes@.take(i as int));
        }
        if let Err(e) = &outcomes[i] {
            let ghost before = errors@;
            let line = cat3(&queries[i], ": ", e);
            errors.push(line);
            assert(text::strs(errors@) =~= text::strs(before).push(line@));
        }
    }
    proof {
        assert(all.take(queries@.len() as int) =~= all);
        assert(outcomes@.take(queries@.len() as int) =~= outcomes@);
        assert(text::strs(errors@).len() == errors@.len());
    }
    if errors.len() == 0 {
        Ok(())
    } else {
        Err(join(&errors, "\n"))
    }
}

/// A command on several boxes succeeds exactly where it succeeds for each.
pub proof fn lemma_all_or_failures(queries: Seq<Seq<char>>, outcomes: Seq<Result<(), String>>)
    requires
        queries.len() == outcomes.len(),
    ensures
        failures(queries, outcomes).len() == 0 <==> forall|i: int|
            0 <= i < outcomes.len() ==> (#[trigger] outcomes[i]) is Ok,
    decreases queries.len(),
{
    if queries.len() > 0 {
        lemma_all_or_failures(queries.drop_last(), outcomes.drop_last());
        let n = outcomes.len() - 1;
        if failures(queries, outcomes).len() == 0 {
            assert forall|i: int| 0 <= i < outcomes.len() implies (#[trigger] outcomes[i]) is Ok by {
                if i < n {
                    assert(outcomes.drop_last()[i] is Ok);
                }
            }
        } else if outcomes[n] is Ok {
            assert(!(forall|i: int| 0 <= i < n ==> (#[trigger] outcomes.drop_last()[i]) is Ok));
            let i = choose|i: int| 0 <= i < n && !((#[trigger] outcomes.drop_last()[i]) is Ok);
            assert(!(outcomes[i] is Ok));
        }
    }
}

/// A command on several boxes succeeds exactly where it does on each; and what it
/// tells names every box on which it failed.
pub proof fn lemma_batch_fails_for_one(
    queries: Vec<String>,
    outcomes: Vec<Result<(), String>>,
    i: int,
    r: Result<(), String>,
)
    requires
        queries@.len() == outcomes@.len(),
        call_ensures(batch_result, (&queries, &outcomes), r),
        0 <= i < outcomes@.len(),
    ensures
        outcomes@[i] is Err ==> r is Err,
        (forall|k: int| 0 <= k < outcomes@.len() ==> (#[trigger] outcomes@[k]) is Ok) ==> r is Ok,
        outcomes@[i] is Err ==> failures(text::strs(queries@), outcomes@).contains(
            queries@[i]@ + ": "@ + outcomes@[i]->Err_0@,
        ),
        queries@.len() == 1 && outcomes@[0] is Err ==> r->Err_0@ == queries@[0]@ + ": "@
            + outcomes@[0]->Err_0@,
{
    let q = text::strs(queries@);
    lemma_all_or_failures(q, outcomes@);
    lemma_failures(q, outcomes@, i);
    assert(q[i] == queries@[i]@);
    if queries@.len() == 1 && outcomes@[0] is Err {
        assert(failures(q.drop_last(), outcomes@.drop_last()).len() == 0);
        let l = failures(q, outcomes@);
        assert(l.len() == 1);
        assert(l[0] == q.last() + ": "@ + outcomes@[0]->Err_0@);
    }
}

/// Each failure is told.
proof fn lemma_failures(queries: Seq<Seq<char>>, outcomes: Seq<Result<(), String>>, i: int)
    requires
        queries.len() == outcomes.len(),
        0 <= i < outcomes.len(),
    ensures
        outcomes[i] is Err ==> failures(queries, outcomes).contains(
            queries[i] + ": "@ + outcomes[i]->Err_0@,
        ),
    decreases queries.len(),
{
    let q = queries.drop_last();
    let o = outcomes.drop_last();
    let l = failures(q, o);
    let all = failures(queries, outcomes);
    if outcomes[i] is Err {
        let line = queries[i] + ": "@ + outcomes[i]->Err_0@;
        if i < q.len() {
            lemma_failures(q, o, i);
            assert(q[i] == queries[i] && o[i] == outcomes[i]);
            let k = choose|k: int| 0 <= k < l.len() && l[k] == line;
            assert(all[k] == line);
        } else {
            assert(all[all.len() - 1] == line);
        }
    }
}

} // verus!
