//! Patterns in which `*` stands for any run of characters and `?` for any one.

use vstd::prelude::*;

use crate::text::chars_of;

verus! {

/// Whether a text matches a pattern.
pub open spec fn globs(p: Seq<char>, t: Seq<char>) -> bool
    decreases p.len() + t.len(),
{
    if p.len() == 0 {
        t.len() == 0
    } else if p[0] == '*' {
        globs(p.skip(1), t) || (t.len() > 0 && globs(p, t.skip(1)))
    } else {
        t.len() > 0 && (p[0] == '?' || p[0] == t[0]) && globs(p.skip(1), t.skip(1))
    }
}

/// Whether a part of a pattern holds no `*`.
pub open spec fn fixed(p: Seq<char>, from: int, to: int) -> bool {
    forall|i: int| from <= i < to ==> #[trigger] p[i] != '*'
}

/// A pattern that begins with `*` and matches the end of a text matches every
/// longer end of it.
pub proof fn lemma_star_absorbs(p: Seq<char>, t: Seq<char>, from: int, to: int)
    requires
        p.len() > 0,
        p[0] == '*',
        0 <= from <= to <= t.len(),
        globs(p, t.skip(to)),
    ensures
        globs(p, t.skip(from)),
    decreases to - from,
{
    if from < to {
        lemma_star_absorbs(p, t, from + 1, to);
        assert(t.skip(from).skip(1) =~= t.skip(from + 1));
    }
}

/// A pattern whose first `n` characters are no `*` consumes one character for
/// each of them.
proof fn lemma_fixed_consumes(p: Seq<char>, t: Seq<char>, n: int)
    requires
        0 <= n <= p.len(),
        fixed(p, 0, n),
        globs(p, t),
    ensures
        n <= t.len(),
        globs(p.skip(n), t.skip(n)),
    decreases n,
{
    if n > 0 {
        assert(p[0] != '*');
        let q = p.skip(1);
        assert forall|i: int| 0 <= i < n - 1 implies #[trigger] q[i] != '*' by {
            assert(p[i + 1] != '*');
        }
        lemma_fixed_consumes(q, t.skip(1), n - 1);
        assert(q.skip(n - 1) =~= p.skip(n));
        assert(t.skip(1).skip(n - 1) =~= t.skip(n));
    } else {
        assert(p.skip(0) =~= p);
        assert(t.skip(0) =~= t);
    }
}

/// Whether the text from a position behind `mark` on matches the pattern behind
/// the star at `star`.
spec fn matches_later(p: Seq<char>, t: Seq<char>, star: int, mark: int) -> bool {
    exists|m: int| mark < m <= t.len() && #[trigger] globs(p.skip(star + 1), t.skip(m))
}

/// With the next character of the text given to the star, the rest of the
/// pattern is tried one position later.
proof fn lemma_retry(p: Seq<char>, t: Seq<char>, star: int, mark: int)
    requires
        0 <= star < p.len(),
        0 <= mark < t.len(),
    ensures
        matches_later(p, t, star, mark) == (globs(p.skip(star + 1), t.skip(mark + 1)) || matches_later(
            p,
            t,
            star,
            mark + 1,
        )),
{
    if matches_later(p, t, star, mark) {
        let m = choose|m: int| mark < m <= t.len() && #[trigger] globs(p.skip(star + 1), t.skip(m));
        if m > mark + 1 {
            assert(matches_later(p, t, star, mark + 1));
        }
    }
    if matches_later(p, t, star, mark + 1) {
        let m = choose|m: int| mark + 1 < m <= t.len() && #[trigger] globs(p.skip(star + 1), t.skip(m));
        assert(matches_later(p, t, star, mark));
    }
}

/// A star makes the one before it useless: what matches with more characters
/// for the star before matches with more for the new one.
proof fn lemma_new_star(p: Seq<char>, t: Seq<char>, star: int, mark: int, at: int, pos: int)
    requires
        0 <= star < at < p.len(),
        0 <= mark <= pos <= t.len(),
        pos - mark == at - star - 1,
        fixed(p, star + 1, at),
        p[at] == '*',
        matches_later(p, t, star, mark),
    ensures
        globs(p.skip(at), t.skip(pos)),
{
    let m = choose|m: int| mark < m <= t.len() && #[trigger] globs(p.skip(star + 1), t.skip(m));
    let n = at - star - 1;
    let q = p.skip(star + 1);
    assert forall|i: int| 0 <= i < n implies #[trigger] q[i] != '*' by {
        assert(p[star + 1 + i] != '*');
    }
    lemma_fixed_consumes(q, t.skip(m), n);
    assert(q.skip(n) =~= p.skip(at));
    assert(t.skip(m).skip(n) =~= t.skip(m + n));
    assert(p.skip(at)[0] == '*');
    lemma_star_absorbs(p.skip(at), t, pos, m + n);
}

/// Behind the end of the text no later position is left for the part of the
/// pattern since the star.
proof fn lemma_too_short(p: Seq<char>, t: Seq<char>, star: int, mark: int, at: int)
    requires
        0 <= star < at <= p.len(),
        0 <= mark <= t.len(),
        t.len() - mark == at - star - 1,
        fixed(p, star + 1, at),
    ensures
        !matches_later(p, t, star, mark),
{
    if matches_later(p, t, star, mark) {
        let m = choose|m: int| mark < m <= t.len() && #[trigger] globs(p.skip(star + 1), t.skip(m));
        let n = at - star - 1;
        let q = p.skip(star + 1);
        assert forall|i: int| 0 <= i < n implies #[trigger] q[i] != '*' by {
            assert(p[star + 1 + i] != '*');
        }
        lemma_fixed_consumes(q, t.skip(m), n);
    }
}

/// An empty text matches a pattern of stars alone.
proof fn lemma_stars(p: Seq<char>, from: int)
    requires
        0 <= from <= p.len(),
    ensures
        from < p.len() && p[from] == '*' ==> globs(p.skip(from), Seq::empty()) == globs(
            p.skip(from + 1),
            Seq::empty(),
        ),
        from < p.len() && p[from] != '*' ==> !globs(p.skip(from), Seq::empty()),
        from == p.len() ==> globs(p.skip(from), Seq::empty()),
{
    if from < p.len() {
        assert(p.skip(from)[0] == p[from]);
        assert(p.skip(from).skip(1) =~= p.skip(from + 1));
    }
}

/// Whether a text matches a pattern in which `*` stands for any run of
/// characters and `?` for any one.
pub fn glob_match(pattern: &str, text: &str) -> (r: bool)
    ensures
        r == globs(pattern@, text@),
{
    let pat: Vec<char> = chars_of(pattern);
    let txt: Vec<char> = chars_of(text);
    let mut p: usize = 0;
    let mut t: usize = 0;
    let mut star: Option<usize> = None;
    let mut mark: usize = 0;
    proof {
        assert(pat@.skip(0) =~= pat@);
        assert(txt@.skip(0) =~= txt@);
    }
    while t < txt.len()
        invariant
            pat@ == pattern@,
            txt@ == text@,
            p <= pat.len(),
            mark <= t <= txt.len(),
            star is None ==> mark == 0 && globs(pattern@, text@) == globs(pat@.skip(p as int), txt@.skip(t as int)),
            star is Some ==> {
                &&& star->0 < p
                &&& pat@[star->0 as int] == '*'
                &&& t - mark == p - star->0 - 1
                &&& fixed(pat@, star->0 + 1, p as int)
                &&& globs(pattern@, text@) == (globs(pat@.skip(p as int), txt@.skip(t as int)) || matches_later(
                    pat@,
                    txt@,
                    star->0 as int,
                    mark as int,
                ))
            },
        decreases txt.len() - mark, pat.len() - p,
    {
        proof {
            if p < pat.len() {
                assert(pat@.skip(p as int)[0] == pat@[p as int]);
                assert(pat@.skip(p as int).skip(1) =~= pat@.skip(p + 1));
            }
            assert(txt@.skip(t as int)[0] == txt@[t as int]);
            assert(txt@.skip(t as int).skip(1) =~= txt@.skip(t + 1));
        }
        if p < pat.len() && pat[p] == '*' {
            proof {
                if star is Some && matches_later(pat@, txt@, star->0 as int, mark as int) {
                    lemma_new_star(pat@, txt@, star->0 as int, mark as int, p as int, t as int);
                }
                // What the new star makes of the rest of the text.
                let q = pat@.skip(p as int);
                if globs(q, txt@.skip(t as int)) {
                    lemma_star_splits(pat@, txt@, p as int, t as int);
                } else {
                    if matches_later(pat@, txt@, p as int, t as int) {
                        let m = choose|m: int|
                            t < m <= txt@.len() && #[trigger] globs(pat@.skip(p + 1), txt@.skip(m));
                        assert(globs(q, txt@.skip(m)));
                        lemma_star_absorbs(q, txt@, t as int, m);
                    }
                }
            }
            star = Some(p);
            mark = t;
            p = p + 1;
        } else if p < pat.len() && (pat[p] == '?' || pat[p] == txt[t]) {
            p = p + 1;
            t = t + 1;
        } else if let Some(sp) = star {
            proof {
                lemma_retry(pat@, txt@, sp as int, mark as int);
            }
            p = sp + 1;
            mark = mark + 1;
            t = mark;
        } else {
            return false;
        }
    }
    proof {
        if star is Some {
            lemma_too_short(pat@, txt@, star->0 as int, mark as int, p as int);
        }
        assert(txt@.skip(t as int) =~= Seq::empty());
    }
    while p < pat.len() && pat[p] == '*'
        invariant
            p <= pat.len(),
            pat@ == pattern@,
            globs(pattern@, text@) == globs(pat@.skip(p as int), Seq::empty()),
        decreases pat.len() - p,
    {
        proof {
            lemma_stars(pat@, p as int);
        }
        p = p + 1;
    }
    proof {
        lemma_stars(pat@, p as int);
    }
    p == pat.len()
}

/// What matches a star and the pattern behind it: the pattern behind it here or
/// at a later position.
proof fn lemma_star_splits(p: Seq<char>, t: Seq<char>, at: int, pos: int)
    requires
        0 <= at < p.len(),
        p[at] == '*',
        0 <= pos <= t.len(),
        globs(p.skip(at), t.skip(pos)),
    ensures
        globs(p.skip(at + 1), t.skip(pos)) || matches_later(p, t, at, pos),
    decreases t.len() - pos,
{
    assert(p.skip(at)[0] == '*');
    assert(p.skip(at).skip(1) =~= p.skip(at + 1));
    if !globs(p.skip(at + 1), t.skip(pos)) {
        assert(t.skip(pos).len() > 0);
        assert(t.skip(pos).skip(1) =~= t.skip(pos + 1));
        lemma_star_splits(p, t, at, pos + 1);
        if globs(p.skip(at + 1), t.skip(pos + 1)) {
            assert(matches_later(p, t, at, pos));
        } else {
            let m = choose|m: int| pos + 1 < m <= t.len() && #[trigger] globs(p.skip(at + 1), t.skip(m));
            assert(matches_later(p, t, at, pos));
        }
    }
}

/// A pattern without `*` and `?` matches itself and nothing else.
pub proof fn lemma_plain_pattern(p: Seq<char>, t: Seq<char>)
    requires
        forall|i: int| 0 <= i < p.len() ==> #[trigger] p[i] != '*' && p[i] != '?',
    ensures
        globs(p, t) == (p == t),
    decreases p.len(),
{
    if p.len() > 0 {
        assert(p[0] != '*' && p[0] != '?');
        let q = p.skip(1);
        assert forall|i: int| 0 <= i < q.len() implies #[trigger] q[i] != '*' && q[i] != '?' by {
            assert(p[i + 1] != '*' && p[i + 1] != '?');
        }
        if t.len() > 0 {
            lemma_plain_pattern(q, t.skip(1));
            if p[0] == t[0] && q == t.skip(1) {
                assert forall|i: int| 0 <= i < p.len() implies p[i] == t[i] by {
                    if i > 0 {
                        assert(q[i - 1] == t.skip(1)[i - 1]);
                    }
                }
                assert(p =~= t);
            }
        }
    } else {
        assert(t.len() == 0 ==> p =~= t);
    }
}

/// The pattern `*` matches every text.
pub proof fn lemma_star_matches_all(t: Seq<char>)
    ensures
        globs(seq!['*'], t),
{
    assert(seq!['*'].skip(1) =~= Seq::<char>::empty());
    assert(globs(seq!['*'].skip(1), Seq::empty()));
    assert(t.skip(t.len() as int) =~= Seq::empty());
    assert(globs(seq!['*'], t.skip(t.len() as int)));
    lemma_star_absorbs(seq!['*'], t, 0, t.len() as int);
    assert(t.skip(0) =~= t);
}

/// `?` stands for one character, whichever it is, and `*` at the end of a pattern for
/// whatever follows.
pub proof fn lemma_wildcards(pattern: &str, t: &str, p: Seq<char>, r: bool)
    requires
        call_ensures(glob_match, (pattern, t), r),
        forall|i: int| 0 <= i < p.len() ==> #[trigger] p[i] != '*' && p[i] != '?',
    ensures
        pattern@ == p ==> (r <==> t@ == p),
        pattern@ == p.push('?') ==> (r <==> t@.len() == p.len() + 1 && t@.take(p.len() as int) == p),
        pattern@ == p.push('*') ==> (r <==> p.len() <= t@.len() && t@.take(p.len() as int) == p),
{
    lemma_plain_pattern(p, t@);
    lemma_last_wildcard(p, t@);
}

/// What a wildcard behind a plain text stands for.
proof fn lemma_last_wildcard(p: Seq<char>, t: Seq<char>)
    requires
        forall|i: int| 0 <= i < p.len() ==> #[trigger] p[i] != '*' && p[i] != '?',
    ensures
        globs(p.push('?'), t) <==> t.len() == p.len() + 1 && t.take(p.len() as int) == p,
        globs(p.push('*'), t) <==> p.len() <= t.len() && t.take(p.len() as int) == p,
    decreases p.len(),
{
    if p.len() == 0 {
        assert(p.push('*') =~= seq!['*']);
        lemma_star_matches_all(t);
        assert(t.take(0) =~= p);
        let q = p.push('?');
        assert(q.skip(1).len() == 0);
        if t.len() > 0 {
            assert(globs(q, t) == globs(q.skip(1), t.skip(1)));
            assert(globs(q.skip(1), t.skip(1)) == (t.skip(1).len() == 0));
        }
    } else {
        let rest = p.skip(1);
        assert forall|i: int| 0 <= i < rest.len() implies #[trigger] rest[i] != '*' && rest[i] != '?' by {
            assert(rest[i] == p[i + 1]);
        }
        assert(p[0] != '*' && p[0] != '?');
        assert(p.push('?').skip(1) =~= rest.push('?'));
        assert(p.push('*').skip(1) =~= rest.push('*'));
        if t.len() > 0 {
            let u = t.skip(1);
            lemma_last_wildcard(rest, u);
            if t[0] == p[0] && u.len() >= rest.len() {
                if u.take(rest.len() as int) == rest {
                    assert forall|i: int| 0 <= i < p.len() implies t[i] == p[i] by {
                        if i > 0 {
                            assert(u.take(rest.len() as int)[i - 1] == rest[i - 1]);
                        }
                    }
                    assert(t.take(p.len() as int) =~= p);
                }
                if t.take(p.len() as int) == p {
                    assert forall|i: int| 0 <= i < rest.len() implies u[i] == rest[i] by {
                        assert(t.take(p.len() as int)[i + 1] == p[i + 1]);
                    }
                    assert(u.take(rest.len() as int) =~= rest);
                }
            }
            if t[0] != p[0] && t.len() >= p.len() {
                assert(t.take(p.len() as int)[0] != p[0]);
            }
        }
    }
}

} // verus!
