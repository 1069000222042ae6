//! Cutting strings apart and putting them together again.

use vstd::prelude::*;

use crate::text::{chars_of, matches_at, string_between, strip_suffix};
use crate::text;

verus! {

broadcast use crate::text::lemma_strs_push;

// ---------------------------------------------------------------------------
// White space
// ---------------------------------------------------------------------------

/// The characters with the Unicode property White_Space.
pub open spec fn is_white(c: char) -> bool {
    let n = c as u32;
    ||| 0x09 <= n <= 0x0d
    ||| n == 0x20
    ||| n == 0x85
    ||| n == 0xa0
    ||| n == 0x1680
    ||| 0x2000 <= n <= 0x200a
    ||| n == 0x2028
    ||| n == 0x2029
    ||| n == 0x202f
    ||| n == 0x205f
    ||| n == 0x3000
}

/// Whether the character is white space.
pub fn is_whitespace(c: char) -> (r: bool)
    ensures
        r == is_white(c),
{
    let n: u32 = c as u32;
    (0x09 <= n && n <= 0x0d) || n == 0x20 || n == 0x85 || n == 0xa0 || n == 0x1680 || (0x2000 <= n
        && n <= 0x200a) || n == 0x2028 || n == 0x2029 || n == 0x202f || n == 0x205f || n == 0x3000
}

/// `s` without the white space it begins with.
pub open spec fn without_leading(s: Seq<char>) -> Seq<char>
    decreases s.len(),
{
    if s.len() > 0 && is_white(s.first()) {
        without_leading(s.drop_first())
    } else {
        s
    }
}

/// `s` without the white space it ends with.
pub open spec fn without_trailing(s: Seq<char>) -> Seq<char>
    decreases s.len(),
{
    if s.len() > 0 && is_white(s.last()) {
        without_trailing(s.drop_last())
    } else {
        s
    }
}

/// `s` without the white space around it.
pub open spec fn trimmed(s: Seq<char>) -> Seq<char> {
    without_trailing(without_leading(s))
}

/// `s` without the white space it begins with.
pub fn trim_start<'a>(s: &'a str) -> (r: &'a str)
    ensures
        r@ == without_leading(s@),
{
    let v: Vec<char> = chars_of(s);
    let mut i: usize = 0;
    assert(s@.skip(0) =~= s@);
    while i < v.len() && is_whitespace(v[i])
        invariant
            i <= v.len(),
            v@ == s@,
            without_leading(s@) == without_leading(s@.skip(i as int)),
        decreases v.len() - i,
    {
        assert(s@.skip(i as int).drop_first() =~= s@.skip(i + 1));
        i = i + 1;
    }
    let r: &str = s.substring_char(i, v.len());
    assert(r@ =~= s@.skip(i as int));
    r
}

/// `s` without the white space it ends with.
pub fn trim_end<'a>(s: &'a str) -> (r: &'a str)
    ensures
        r@ == without_trailing(s@),
{
    let v: Vec<char> = chars_of(s);
    let mut n: usize = v.len();
    assert(s@.take(n as int) =~= s@);
    while n > 0 && is_whitespace(v[n - 1])
        invariant
            n <= v.len(),
            v@ == s@,
            without_trailing(s@) == without_trailing(s@.take(n as int)),
        decreases n,
    {
        assert(s@.take(n as int).drop_last() =~= s@.take(n - 1));
        n = n - 1;
    }
    let r: &str = s.substring_char(0, n);
    assert(r@ =~= s@.take(n as int));
    r
}

/// `s` without the white space around it.
pub fn trim<'a>(s: &'a str) -> (r: &'a str)
    ensures
        r@ == trimmed(s@),
{
    trim_end(trim_start(s))
}

/// Leading white space is all that `without_leading` takes away.
pub proof fn lemma_without_leading(s: Seq<char>)
    ensures
        without_leading(s).len() <= s.len(),
        without_leading(s) == s.skip(s.len() - without_leading(s).len()),
        without_leading(s).len() > 0 ==> !is_white(without_leading(s).first()),
        forall|i: int| 0 <= i < s.len() - without_leading(s).len() ==> is_white(s[i]),
    decreases s.len(),
{
    if s.len() > 0 && is_white(s.first()) {
        lemma_without_leading(s.drop_first());
        let t = s.drop_first();
        let k = t.len() - without_leading(t).len();
        assert(without_leading(s) =~= s.skip(k + 1));
        assert forall|i: int| 0 <= i < k + 1 implies is_white(s[i]) by {
            if i > 0 {
                assert(s[i] == t[i - 1]);
            }
        }
    } else {
        assert(s.skip(0) =~= s);
    }
}

/// Trailing white space is all that `without_trailing` takes away.
pub proof fn lemma_without_trailing(s: Seq<char>)
    ensures
        without_trailing(s).len() <= s.len(),
        without_trailing(s) == s.take(without_trailing(s).len() as int),
        without_trailing(s).len() > 0 ==> !is_white(without_trailing(s).last()),
        forall|i: int| without_trailing(s).len() <= i < s.len() ==> is_white(s[i]),
    decreases s.len(),
{
    if s.len() > 0 && is_white(s.last()) {
        lemma_without_trailing(s.drop_last());
        let t = s.drop_last();
        let k = without_trailing(t).len() as int;
        assert(without_trailing(s) =~= s.take(k));
        assert forall|i: int| k <= i < s.len() implies is_white(s[i]) by {
            if i < s.len() - 1 {
                assert(s[i] == t[i]);
            }
        }
    } else {
        assert(s.take(s.len() as int) =~= s);
    }
}

/// Trimming twice is trimming once.
pub proof fn lemma_trim_idempotent(s: Seq<char>)
    ensures
        trimmed(trimmed(s)) == trimmed(s),
{
    let a = without_leading(s);
    let b = without_trailing(a);
    lemma_without_leading(s);
    lemma_without_trailing(a);
    if b.len() > 0 {
        assert(b.first() == a.first());
    }
}

// ---------------------------------------------------------------------------
// Searching for a character
// ---------------------------------------------------------------------------

/// The position of the first `c` in `s`.
pub fn index_of(s: &str, c: char) -> (r: Option<usize>)
    ensures
        match r {
            Some(i) => i < s@.len() && s@[i as int] == c && forall|j: int|
                0 <= j < i ==> s@[j] != c,
            None => !s@.contains(c),
        },
{
    let v: Vec<char> = chars_of(s);
    let mut i: usize = 0;
    while i < v.len()
        invariant
            i <= v.len(),
            v@ == s@,
            forall|j: int| 0 <= j < i ==> s@[j] != c,
        decreases v.len() - i,
    {
        if v[i] == c {
            return Some(i);
        }
        i = i + 1;
    }
    None
}

/// The position of the last `c` in `s`.
pub fn last_index_of(s: &str, c: char) -> (r: Option<usize>)
    ensures
        match r {
            Some(i) => i < s@.len() && s@[i as int] == c && forall|j: int|
                i < j < s@.len() ==> s@[j] != c,
            None => !s@.contains(c),
        },
{
    let v: Vec<char> = chars_of(s);
    let mut i: usize = v.len();
    while i > 0
        invariant
            i <= v.len(),
            v@ == s@,
            forall|j: int| i <= j < v.len() ==> s@[j] != c,
        decreases i,
    {
        i = i - 1;
        if v[i] == c {
            return Some(i);
        }
    }
    None
}

/// Whether `c` occurs in `s`.
pub fn contains_char(s: &str, c: char) -> (r: bool)
    ensures
        r == s@.contains(c),
{
    index_of(s, c).is_some()
}

/// `i` is where the first `c` of `s` stands.
pub open spec fn is_first(s: Seq<char>, c: char, i: int) -> bool {
    0 <= i < s.len() && s[i] == c && forall|j: int| 0 <= j < i ==> s[j] != c
}

/// `i` is where the last `c` of `s` stands.
pub open spec fn is_last(s: Seq<char>, c: char, i: int) -> bool {
    0 <= i < s.len() && s[i] == c && forall|j: int| i < j < s.len() ==> s[j] != c
}

/// What stands before the first `c` and what stands after it.
pub open spec fn cut(s: Seq<char>, c: char) -> Option<(Seq<char>, Seq<char>)> {
    if s.contains(c) {
        let i = choose|i: int| is_first(s, c, i);
        Some((s.take(i), s.skip(i + 1)))
    } else {
        None
    }
}

/// What stands before the last `c` and what stands after it.
pub open spec fn cut_last(s: Seq<char>, c: char) -> Option<(Seq<char>, Seq<char>)> {
    if s.contains(c) {
        let i = choose|i: int| is_last(s, c, i);
        Some((s.take(i), s.skip(i + 1)))
    } else {
        None
    }
}

/// There is only one first position.
pub proof fn lemma_cut_at(s: Seq<char>, c: char, i: int)
    requires
        is_first(s, c, i),
    ensures
        cut(s, c) == Some((s.take(i), s.skip(i + 1))),
{
    let k = choose|k: int| is_first(s, c, k);
    assert(is_first(s, c, k));
    assert(k == i);
}

/// There is only one last position.
pub proof fn lemma_cut_last_at(s: Seq<char>, c: char, i: int)
    requires
        is_last(s, c, i),
    ensures
        cut_last(s, c) == Some((s.take(i), s.skip(i + 1))),
{
    let k = choose|k: int| is_last(s, c, k);
    assert(is_last(s, c, k));
    assert(k == i);
}

/// Every string that holds `c` has a first one, and `cut` parts the string there.
pub proof fn lemma_cut(s: Seq<char>, c: char)
    ensures
        cut(s, c) is Some <==> s.contains(c),
        cut(s, c) is Some ==> {
            let (a, b) = cut(s, c)->0;
            &&& !a.contains(c)
            &&& s == a.push(c) + b
            &&& a.len() + 1 + b.len() == s.len()
        },
    decreases s.len(),
{
    if s.contains(c) {
        let k = lemma_first_exists(s, c);
        lemma_cut_at(s, c, k);
        assert(s =~= s.take(k).push(c) + s.skip(k + 1));
    }
}

/// A string that holds `c` has a first one.
pub proof fn lemma_first_exists(s: Seq<char>, c: char) -> (k: int)
    requires
        s.contains(c),
    ensures
        is_first(s, c, k),
    decreases s.len(),
{
    if s.first() == c {
        0
    } else {
        let t = s.drop_first();
        let w = choose|w: int| 0 <= w < s.len() && s[w] == c;
        assert(t[w - 1] == c);
        let k = lemma_first_exists(t, c);
        assert forall|j: int| 0 <= j < k + 1 implies s[j] != c by {
            if j > 0 {
                assert(s[j] == t[j - 1]);
            }
        }
        k + 1
    }
}

/// What stands before the first `c` and what stands after it; `None` without one.
pub fn split_once<'a>(s: &'a str, c: char) -> (r: Option<(&'a str, &'a str)>)
    ensures
        match r {
            Some((a, b)) => cut(s@, c) == Some((a@, b@)),
            None => cut(s@, c) is None,
        },
        r is Some ==> {
            &&& !(r->0).0@.contains(c)
            &&& s@ == (r->0).0@.push(c) + (r->0).1@
        },
{
    match index_of(s, c) {
        Some(i) => {
            let n: usize = s.unicode_len();
            let a: &str = s.substring_char(0, i);
            let b: &str = s.substring_char(i + 1, n);
            proof {
                lemma_cut_at(s@, c, i as int);
                assert(a@ =~= s@.take(i as int));
                assert(b@ =~= s@.skip(i + 1));
                assert(s@ =~= a@.push(c) + b@);
            }
            Some((a, b))
        },
        None => None,
    }
}

/// What stands before the last `c` and what stands after it; `None` without one.
pub fn rsplit_once<'a>(s: &'a str, c: char) -> (r: Option<(&'a str, &'a str)>)
    ensures
        match r {
            Some((a, b)) => cut_last(s@, c) == Some((a@, b@)),
            None => cut_last(s@, c) is None,
        },
        r is Some ==> {
            &&& !(r->0).1@.contains(c)
            &&& s@ == (r->0).0@.push(c) + (r->0).1@
        },
{
    match last_index_of(s, c) {
        Some(i) => {
            let n: usize = s.unicode_len();
            let a: &str = s.substring_char(0, i);
            let b: &str = s.substring_char(i + 1, n);
            proof {
                lemma_cut_last_at(s@, c, i as int);
                assert(a@ =~= s@.take(i as int));
                assert(b@ =~= s@.skip(i + 1));
                assert(s@ =~= a@.push(c) + b@);
            }
            Some((a, b))
        },
        None => None,
    }
}

// ---------------------------------------------------------------------------
// Lists of pieces
// ---------------------------------------------------------------------------

/// The pieces of `s` between its `c`s.
pub open spec fn pieces(s: Seq<char>, c: char) -> Seq<Seq<char>>
    decreases s.len(),
{
    proof {
        lemma_cut(s, c);
    }
    match cut(s, c) {
        Some((a, b)) => seq![a] + pieces(b, c),
        None => seq![s],
    }
}

/// The pieces of `s` between its `c`s.
pub fn split(s: &str, c: char) -> (r: Vec<String>)
    ensures
        text::strs(r@) == pieces(s@, c),
        r.len() >= 1,
{
    let v: Vec<char> = chars_of(s);
    let mut out: Vec<String> = Vec::new();
    let mut start: usize = 0;
    let mut i: usize = 0;
    proof {
        assert(s@.skip(0) =~= s@);
        assert(text::strs(out@) + pieces(s@.skip(0), c) =~= pieces(s@, c));
    }
    while i < v.len()
        invariant
            start <= i <= v.len(),
            v@ == s@,
            forall|j: int| start <= j < i ==> s@[j] != c,
            text::strs(out@) + pieces(s@.skip(start as int), c) == pieces(s@, c),
        decreases v.len() - i,
    {
        if v[i] == c {
            let piece: String = string_between(&v, start, i);
            proof {
                let rest = s@.skip(start as int);
                lemma_cut_at(rest, c, i - start);
                assert(rest.take(i - start) =~= piece@);
                assert(rest.skip(i - start + 1) =~= s@.skip(i + 1));
                assert(text::strs(out@).push(piece@) + pieces(s@.skip(i + 1), c) =~= text::strs(out@) + (
                seq![piece@] + pieces(s@.skip(i + 1), c)));
            }
            out.push(piece);
            start = i + 1;
        }
        i = i + 1;
    }
    let last: String = string_between(&v, start, v.len());
    proof {
        assert(last@ =~= s@.skip(start as int));
        assert(!last@.contains(c));
        assert(text::strs(out@).push(last@) =~= text::strs(out@) + seq![last@]);
    }
    out.push(last);
    out
}

/// A line without the carriage return it may end with.
pub open spec fn without_cr(s: Seq<char>) -> Seq<char> {
    if s.len() > 0 && s.last() == '\r' {
        s.drop_last()
    } else {
        s
    }
}

/// The lines of `s`. A line ends at a line feed, a carriage return before it
/// belongs to the ending, and the last line need not end.
pub open spec fn line_list(s: Seq<char>) -> Seq<Seq<char>>
    decreases s.len(),
{
    proof {
        lemma_cut(s, '\n');
    }
    if s.len() == 0 {
        seq![]
    } else {
        match cut(s, '\n') {
            Some((a, b)) => seq![without_cr(a)] + line_list(b),
            None => seq![s],
        }
    }
}

/// The lines of `s`.
pub fn lines(s: &str) -> (r: Vec<String>)
    ensures
        text::strs(r@) == line_list(s@),
{
    let v: Vec<char> = chars_of(s);
    let mut out: Vec<String> = Vec::new();
    let mut start: usize = 0;
    let mut i: usize = 0;
    proof {
        assert(s@.skip(0) =~= s@);
        assert(text::strs(out@) + line_list(s@.skip(0)) =~= line_list(s@));
    }
    while i < v.len()
        invariant
            start <= i <= v.len(),
            v@ == s@,
            forall|j: int| start <= j < i ==> s@[j] != '\n',
            text::strs(out@) + line_list(s@.skip(start as int)) == line_list(s@),
        decreases v.len() - i,
    {
        if v[i] == '\n' {
            let end: usize = if i > start && v[i - 1] == '\r' {
                i - 1
            } else {
                i
            };
            let line: String = string_between(&v, start, end);
            proof {
                let rest = s@.skip(start as int);
                lemma_cut_at(rest, '\n', i - start);
                let a = rest.take(i - start);
                assert(a.len() > 0 ==> a.last() == s@[i - 1]);
                assert(without_cr(a) =~= line@);
                assert(rest.skip(i - start + 1) =~= s@.skip(i + 1));
                assert(text::strs(out@).push(line@) + line_list(s@.skip(i + 1)) =~= text::strs(out@) + (
                seq![line@] + line_list(s@.skip(i + 1))));
            }
            out.push(line);
            start = i + 1;
        }
        i = i + 1;
    }
    if start < v.len() {
        let last: String = string_between(&v, start, v.len());
        proof {
            assert(last@ =~= s@.skip(start as int));
            assert(!last@.contains('\n'));
            assert(text::strs(out@).push(last@) =~= text::strs(out@) + seq![last@]);
        }
        out.push(last);
    } else {
        assert(text::strs(out@) + line_list(s@.skip(start as int)) =~= text::strs(out@));
    }
    out
}

/// How many characters stand in `s` before its first white space.
pub open spec fn word_len(s: Seq<char>) -> nat
    decreases s.len(),
{
    if s.len() > 0 && !is_white(s.first()) {
        1 + word_len(s.drop_first())
    } else {
        0
    }
}

/// The words of `s`, that is, its longest parts without white space.
pub open spec fn word_list(s: Seq<char>) -> Seq<Seq<char>>
    decreases s.len(),
{
    proof {
        lemma_without_leading(s);
        lemma_word_len(without_leading(s), 0);
    }
    let t = without_leading(s);
    if t.len() == 0 {
        seq![]
    } else {
        seq![t.take(word_len(t) as int)] + word_list(t.skip(word_len(t) as int))
    }
}

/// `word_len` counts the characters up to the first white space.
pub proof fn lemma_word_len(s: Seq<char>, n: int)
    requires
        0 <= n <= s.len(),
        forall|j: int| 0 <= j < n ==> !is_white(s[j]),
    ensures
        n <= word_len(s) <= s.len(),
        n < s.len() && is_white(s[n]) ==> word_len(s) == n,
        s.len() > 0 && !is_white(s.first()) ==> word_len(s) > 0,
    decreases s.len(),
{
    if s.len() > 0 && !is_white(s.first()) {
        let t = s.drop_first();
        if n > 0 {
            lemma_word_len(t, n - 1);
        } else {
            lemma_word_len(t, 0);
        }
    }
}

/// What stands before the first white space of `s` and what stands after it.
pub open spec fn cut_white(s: Seq<char>) -> Option<(Seq<char>, Seq<char>)> {
    if word_len(s) < s.len() {
        Some((s.take(word_len(s) as int), s.skip(word_len(s) as int + 1)))
    } else {
        None
    }
}

/// What stands before the first white space and what stands after it; `None`
/// without one.
pub fn split_once_white<'a>(s: &'a str) -> (r: Option<(&'a str, &'a str)>)
    ensures
        match r {
            Some((a, b)) => cut_white(s@) == Some((a@, b@)),
            None => cut_white(s@) is None,
        },
{
    let v: Vec<char> = chars_of(s);
    let mut i: usize = 0;
    while i < v.len() && !is_whitespace(v[i])
        invariant
            i <= v.len(),
            v@ == s@,
            forall|j: int| 0 <= j < i ==> !is_white(s@[j]),
        decreases v.len() - i,
    {
        i = i + 1;
    }
    proof {
        lemma_word_len(s@, i as int);
    }
    if i == v.len() {
        return None;
    }
    let a: &str = s.substring_char(0, i);
    let b: &str = s.substring_char(i + 1, v.len());
    assert(a@ =~= s@.take(i as int));
    assert(b@ =~= s@.skip(i + 1));
    Some((a, b))
}

/// The words of `s`.
pub fn split_whitespace(s: &str) -> (r: Vec<String>)
    ensures
        text::strs(r@) == word_list(s@),
{
    let v: Vec<char> = chars_of(s);
    let mut out: Vec<String> = Vec::new();
    let mut i: usize = 0;
    proof {
        assert(s@.skip(0) =~= s@);
        assert(text::strs(out@) + word_list(s@.skip(0)) =~= word_list(s@));
    }
    while i < v.len()
        invariant
            i <= v.len(),
            v@ == s@,
            text::strs(out@) + word_list(s@.skip(i as int)) == word_list(s@),
        decreases v.len() - i,
    {
        if is_whitespace(v[i]) {
            proof {
                let rest = s@.skip(i as int);
                assert(rest.drop_first() =~= s@.skip(i + 1));
            }
            i = i + 1;
        } else {
            let start: usize = i;
            while i < v.len() && !is_whitespace(v[i])
                invariant
                    start <= i <= v.len(),
                    v@ == s@,
                    forall|j: int| start <= j < i ==> !is_white(s@[j]),
                decreases v.len() - i,
            {
                i = i + 1;
            }
            let word: String = string_between(&v, start, i);
            proof {
                let rest = s@.skip(start as int);
                assert(without_leading(rest) == rest);
                lemma_word_len(rest, i - start);
                assert(word_len(rest) == i - start);
                assert(rest.take(i - start) =~= word@);
                assert(rest.skip(i - start) =~= s@.skip(i as int));
                assert(text::strs(out@).push(word@) + word_list(s@.skip(i as int)) =~= text::strs(out@) + (
                seq![word@] + word_list(s@.skip(i as int))));
            }
            out.push(word);
        }
    }
    proof {
        assert(s@.skip(i as int).len() == 0);
        assert(text::strs(out@) + word_list(s@.skip(i as int)) =~= text::strs(out@));
    }
    out
}

/// The parts with `sep` between neighbours.
pub open spec fn joined(parts: Seq<Seq<char>>, sep: Seq<char>) -> Seq<char>
    decreases parts.len(),
{
    if parts.len() == 0 {
        seq![]
    } else if parts.len() == 1 {
        parts[0]
    } else {
        joined(parts.drop_last(), sep) + sep + parts.last()
    }
}

/// The parts with `sep` between neighbours.
pub fn join(parts: &Vec<String>, sep: &str) -> (r: String)
    ensures
        r@ == joined(text::strs(parts@), sep@),
{
    let mut s: String = String::new();
    let mut i: usize = 0;
    while i < parts.len()
        invariant
            i <= parts.len(),
            s@ == joined(text::strs(parts@).take(i as int), sep@),
        decreases parts.len() - i,
    {
        if i > 0 {
            s.append(sep);
        }
        s.append(parts[i].as_str());
        proof {
            let t = text::strs(parts@).take(i + 1);
            assert(t.drop_last() =~= text::strs(parts@).take(i as int));
            assert(t.last() == parts@[i as int]@);
            if i == 0 {
                assert(s@ =~= t[0]);
            }
        }
        i = i + 1;
    }
    assert(text::strs(parts@).take(i as int) =~= text::strs(parts@));
    s
}

// ---------------------------------------------------------------------------
// Replacing
// ---------------------------------------------------------------------------

/// `s` with every `c` replaced by `with`.
pub open spec fn replaced_char(s: Seq<char>, c: char, with: Seq<char>) -> Seq<char>
    decreases s.len(),
{
    if s.len() == 0 {
        seq![]
    } else {
        replaced_char(s.drop_last(), c, with) + (if s.last() == c {
            with
        } else {
            seq![s.last()]
        })
    }
}

/// `s` with every `c` replaced by `with`.
pub fn replace_char(s: &str, c: char, with: &str) -> (r: String)
    ensures
        r@ == replaced_char(s@, c, with@),
{
    let v: Vec<char> = chars_of(s);
    let mut out: String = String::new();
    let mut i: usize = 0;
    while i < v.len()
        invariant
            i <= v.len(),
            v@ == s@,
            out@ == replaced_char(s@.take(i as int), c, with@),
        decreases v.len() - i,
    {
        proof {
            let t = s@.take(i + 1);
            assert(t.drop_last() =~= s@.take(i as int));
            assert(out@.push(s@[i as int]) =~= out@ + seq![s@[i as int]]);
        }
        if v[i] == c {
            out.append(with);
        } else {
            out.push(v[i]);
        }
        i = i + 1;
    }
    assert(s@.take(i as int) =~= s@);
    out
}

/// `s` with every occurrence of `p` replaced by `with`, from the left, where
/// occurrences do not overlap. `p` is not empty.
pub open spec fn replaced(s: Seq<char>, p: Seq<char>, with: Seq<char>) -> Seq<char>
    decreases s.len(),
{
    if p.len() == 0 || s.len() < p.len() {
        s
    } else if s.take(p.len() as int) == p {
        with + replaced(s.skip(p.len() as int), p, with)
    } else {
        seq![s.first()] + replaced(s.drop_first(), p, with)
    }
}

/// `s` with every occurrence of `p` replaced by `with`.
pub fn replace(s: &str, p: &str, with: &str) -> (r: String)
    requires
        p@.len() > 0,
    ensures
        r@ == replaced(s@, p@, with@),
{
    let v: Vec<char> = chars_of(s);
    let pv: Vec<char> = chars_of(p);
    let mut out: String = String::new();
    let mut i: usize = 0;
    proof {
        assert(s@.skip(0) =~= s@);
        assert(out@ + replaced(s@.skip(0), p@, with@) =~= replaced(s@, p@, with@));
    }
    while pv.len() <= v.len() - i
        invariant
            i <= v.len(),
            v@ == s@,
            pv@ == p@,
            p@.len() > 0,
            out@ + replaced(s@.skip(i as int), p@, with@) == replaced(s@, p@, with@),
        decreases v.len() - i,
    {
        let ghost rest = s@.skip(i as int);
        let ghost before = out@;
        assert(rest.take(p@.len() as int) =~= s@.subrange(i as int, i + p@.len()));
        if matches_at(&v, i, &pv) {
            out.append(with);
            proof {
                assert(rest.skip(p@.len() as int) =~= s@.skip(i + p@.len()));
                assert(out@ + replaced(s@.skip(i + p@.len()), p@, with@) =~= before + (with@
                    + replaced(s@.skip(i + p@.len()), p@, with@)));
            }
            i = i + pv.len();
        } else {
            out.push(v[i]);
            proof {
                assert(rest.drop_first() =~= s@.skip(i + 1));
                assert(out@ + replaced(s@.skip(i + 1), p@, with@) =~= before + (seq![rest.first()]
                    + replaced(s@.skip(i + 1), p@, with@)));
            }
            i = i + 1;
        }
    }
    let rest: String = string_between(&v, i, v.len());
    assert(rest@ =~= s@.skip(i as int));
    out.append(rest.as_str());
    out
}

/// `s` without the `p`s it ends with. `p` is not empty.
pub open spec fn without_suffixes(s: Seq<char>, p: Seq<char>) -> Seq<char>
    decreases s.len(),
{
    if p.len() > 0 && text::has_suffix(s, p) {
        without_suffixes(s.take(s.len() - p.len()), p)
    } else {
        s
    }
}

/// `s` without the `p`s it ends with.
pub fn trim_end_matches<'a>(s: &'a str, p: &str) -> (r: &'a str)
    requires
        p@.len() > 0,
    ensures
        r@ == without_suffixes(s@, p@),
    decreases s@.len(),
{
    match strip_suffix(s, p) {
        Some(t) => trim_end_matches(t, p),
        None => s,
    }
}

// ---------------------------------------------------------------------------
// ASCII case
// ---------------------------------------------------------------------------

/// A small ASCII letter as its capital; any other character as it is.
pub open spec fn upper(c: char) -> char {
    if 'a' <= c <= 'z' {
        (c as u32 - 32) as char
    } else {
        c
    }
}

/// A capital ASCII letter as its small one; any other character as it is.
pub open spec fn lower(c: char) -> char {
    if 'A' <= c <= 'Z' {
        (c as u32 + 32) as char
    } else {
        c
    }
}

/// `s` with its small ASCII letters as capitals.
pub open spec fn uppered(s: Seq<char>) -> Seq<char> {
    s.map_values(|c: char| upper(c))
}

/// `s` with its capital ASCII letters as small ones.
pub open spec fn lowered(s: Seq<char>) -> Seq<char> {
    s.map_values(|c: char| lower(c))
}

/// A small ASCII letter as its capital; any other character as it is.
pub fn upper_char(c: char) -> (r: char)
    ensures
        r == upper(c),
{
    if 'a' <= c && c <= 'z' {
        let n: u8 = c as u8;
        (n - 32) as char
    } else {
        c
    }
}

/// A capital ASCII letter as its small one; any other character as it is.
pub fn lower_char(c: char) -> (r: char)
    ensures
        r == lower(c),
{
    if 'A' <= c && c <= 'Z' {
        let n: u8 = c as u8;
        (n + 32) as char
    } else {
        c
    }
}

/// `s` with its small ASCII letters as capitals.
pub fn to_ascii_uppercase(s: &str) -> (r: String)
    ensures
        r@ == uppered(s@),
{
    let v: Vec<char> = chars_of(s);
    let mut out: String = String::new();
    let mut i: usize = 0;
    while i < v.len()
        invariant
            i <= v.len(),
            v@ == s@,
            out@ =~= uppered(s@).take(i as int),
        decreases v.len() - i,
    {
        out.push(upper_char(v[i]));
        i = i + 1;
    }
    out
}

/// `s` with its capital ASCII letters as small ones.
pub fn to_ascii_lowercase(s: &str) -> (r: String)
    ensures
        r@ == lowered(s@),
{
    let v: Vec<char> = chars_of(s);
    let mut out: String = String::new();
    let mut i: usize = 0;
    while i < v.len()
        invariant
            i <= v.len(),
            v@ == s@,
            out@ =~= lowered(s@).take(i as int),
        decreases v.len() - i,
    {
        out.push(lower_char(v[i]));
        i = i + 1;
    }
    out
}

// ---------------------------------------------------------------------------
// What the parts of a text come to
// ---------------------------------------------------------------------------

/// What is trimmed begins and ends with no white space, and what was taken away is
/// white space alone.
pub proof fn lemma_trimmed_is_the_middle<'a>(s: &'a str, r: &'a str)
    requires
        call_ensures(trim, (s,), r),
    ensures
        r@.len() > 0 ==> !is_white(r@[0]) && !is_white(r@.last()),
        exists|i: int|
            #![trigger s@.subrange(i, i + r@.len())]
            0 <= i && i + r@.len() <= s@.len() && s@.subrange(i, i + r@.len()) == r@ && (forall|j: int|
                0 <= j < i ==> is_white(#[trigger] s@[j])) && (forall|j: int|
                i + r@.len() <= j < s@.len() ==> is_white(#[trigger] s@[j])),
{
    let a = without_leading(s@);
    lemma_without_leading(s@);
    lemma_without_trailing(a);
    let i = s@.len() - a.len();
    assert(r@ == a.take(r@.len() as int));
    assert(s@.subrange(i, i + r@.len()) =~= r@);
    assert forall|j: int| i + r@.len() <= j < s@.len() implies is_white(#[trigger] s@[j]) by {
        assert(a[j - i] == s@[j]);
    }
    if r@.len() > 0 {
        assert(r@[0] == a[0]);
        assert(a.first() == a[0]);
    }
}

/// Space, tab and the ends of lines are white space; letters, digits and the signs
/// that stand in names are not.
pub proof fn lemma_white_characters(c: char, r: bool)
    requires
        call_ensures(is_whitespace, (c,), r),
    ensures
        c == ' ' || c == '\t' || c == '\n' || c == '\r' ==> r,
        'a' <= c <= 'z' || 'A' <= c <= 'Z' || '0' <= c <= '9' ==> !r,
        c == '-' || c == '_' || c == '/' || c == ':' || c == '=' || c == '.' ==> !r,
{
}

/// Parts in a row, with one more before them, are joined as that one, the separator
/// and the rest.
proof fn lemma_joined_first(a: Seq<char>, rest: Seq<Seq<char>>, sep: Seq<char>)
    requires
        rest.len() > 0,
    ensures
        joined(seq![a] + rest, sep) == a + sep + joined(rest, sep),
    decreases rest.len(),
{
    let all = seq![a] + rest;
    assert(all.drop_last() =~= seq![a] + rest.drop_last());
    assert(all.last() == rest.last());
    if rest.len() == 1 {
        assert(rest.drop_last().len() == 0);
        assert(all.drop_last() =~= seq![a]);
        assert(joined(all.drop_last(), sep) == a);
        assert(joined(rest, sep) == rest[0]);
    } else {
        lemma_joined_first(a, rest.drop_last(), sep);
        assert(joined(all, sep) == a + sep + joined(rest.drop_last(), sep) + sep + rest.last());
        assert(a + sep + joined(rest.drop_last(), sep) + sep + rest.last() =~= a + sep + (joined(
            rest.drop_last(),
            sep,
        ) + sep + rest.last()));
    }
}

/// The pieces of a text hold no separator, and joined by it they are the text.
proof fn lemma_pieces_joined(s: Seq<char>, c: char)
    ensures
        joined(pieces(s, c), seq![c]) == s,
        forall|i: int| 0 <= i < pieces(s, c).len() ==> !(#[trigger] pieces(s, c)[i]).contains(c),
        pieces(s, c).len() >= 1,
    decreases s.len(),
{
    lemma_cut(s, c);
    match cut(s, c) {
        Some((a, b)) => {
            lemma_pieces_joined(b, c);
            lemma_joined_first(a, pieces(b, c), seq![c]);
            assert(a + seq![c] + b =~= a.push(c) + b);
            assert forall|i: int| 0 <= i < pieces(s, c).len() implies !(
            #[trigger] pieces(s, c)[i]).contains(c) by {
                if i > 0 {
                    assert(pieces(s, c)[i] == pieces(b, c)[i - 1]);
                }
            }
        },
        None => {},
    }
}

/// A text that is split is the same text when it is joined again, and no piece of it
/// holds the separator.
pub proof fn lemma_split_and_join(s: &str, c: char, sep: &str, parts: Vec<String>, r: String)
    requires
        sep@ == seq![c],
        call_ensures(split, (s, c), parts),
        call_ensures(join, (&parts, sep), r),
    ensures
        r@ == s@,
        parts@.len() >= 1,
        forall|i: int| 0 <= i < parts@.len() ==> !(#[trigger] parts@[i])@.contains(c),
        !s@.contains(c) ==> parts@.len() == 1 && parts@[0]@ == s@,
{
    lemma_pieces_joined(s@, c);
    lemma_cut(s@, c);
    assert(text::strs(parts@).len() == parts@.len());
    assert forall|i: int| 0 <= i < parts@.len() implies !(#[trigger] parts@[i])@.contains(c) by {
        assert(text::strs(parts@)[i] == parts@[i]@);
    }
    if !s@.contains(c) {
        assert(text::strs(parts@)[0] == parts@[0]@);
    }
}

/// What stands before and behind a separator is split for itself.
pub proof fn lemma_pieces_of_both(a: Seq<char>, c: char, b: Seq<char>)
    ensures
        pieces(a.push(c) + b, c) == pieces(a, c) + pieces(b, c),
    decreases a.len(),
{
    let s = a.push(c) + b;
    lemma_cut(a, c);
    if a.contains(c) {
        let k = lemma_first_exists(a, c);
        lemma_cut_at(a, c, k);
        assert forall|j: int| 0 <= j < k implies s[j] != c by {
            assert(s[j] == a[j]);
        }
        assert(s[k] == c);
        lemma_cut_at(s, c, k);
        assert(s.contains(c));
        let rest = a.skip(k + 1);
        assert(s.take(k) =~= a.take(k));
        assert(s.skip(k + 1) =~= rest.push(c) + b);
        lemma_pieces_of_both(rest, c, b);
        assert(pieces(s, c) == seq![a.take(k)] + (pieces(rest, c) + pieces(b, c)));
        assert(seq![a.take(k)] + (pieces(rest, c) + pieces(b, c)) =~= pieces(a, c) + pieces(b, c));
    } else {
        let k = a.len() as int;
        assert forall|j: int| 0 <= j < k implies s[j] != c by {
            assert(s[j] == a[j]);
            assert(a.contains(a[j]));
        }
        assert(s[k] == c);
        lemma_cut_at(s, c, k);
        assert(s.contains(c));
        assert(s.take(k) =~= a);
        assert(s.skip(k + 1) =~= b);
    }
}

/// A text is cut at the first of a character, or at the last: what is before the
/// first and what is behind the last hold none of it.
pub proof fn lemma_cut_first_and_last<'a>(
    s: &'a str,
    c: char,
    first: Option<(&'a str, &'a str)>,
    last: Option<(&'a str, &'a str)>,
)
    requires
        call_ensures(split_once, (s, c), first),
        call_ensures(rsplit_once, (s, c), last),
    ensures
        first is Some <==> s@.contains(c),
        last is Some <==> s@.contains(c),
        first is Some ==> s@ == (first->0).0@ + seq![c] + (first->0).1@ && !(first->0).0@.contains(c),
        last is Some ==> s@ == (last->0).0@ + seq![c] + (last->0).1@ && !(last->0).1@.contains(c),
{
    lemma_cut(s@, c);
    if first is Some {
        assert((first->0).0@.push(c) =~= (first->0).0@ + seq![c]);
    }
    if last is Some {
        assert((last->0).0@.push(c) =~= (last->0).0@ + seq![c]);
    }
}

/// The words of a text are not empty and hold no white space.
pub proof fn lemma_words_hold_no_white(s: &str, r: Vec<String>, i: int, j: int)
    requires
        call_ensures(split_whitespace, (s,), r),
        0 <= i < r@.len(),
        0 <= j < r@[i]@.len(),
    ensures
        r@[i]@.len() > 0,
        !is_white(r@[i]@[j]),
{
    lemma_word_list(s@, i);
    assert(text::strs(r@)[i] == r@[i]@);
}

/// Each word is not empty and holds no white space.
proof fn lemma_word_list(s: Seq<char>, i: int)
    requires
        0 <= i < word_list(s).len(),
    ensures
        word_list(s)[i].len() > 0,
        forall|j: int| 0 <= j < word_list(s)[i].len() ==> !is_white(#[trigger] word_list(s)[i][j]),
    decreases s.len(),
{
    let t = without_leading(s);
    lemma_without_leading(s);
    lemma_word_len(t, 0);
    if t.len() > 0 {
        let n = word_len(t) as int;
        if i == 0 {
            lemma_word_chars(t);
        } else {
            lemma_word_list(t.skip(n), i - 1);
            assert(word_list(s)[i] == word_list(t.skip(n))[i - 1]);
        }
    }
}

/// What stands before the first white space is none.
proof fn lemma_word_chars(s: Seq<char>)
    ensures
        word_len(s) <= s.len(),
        forall|j: int| 0 <= j < word_len(s) ==> !is_white(#[trigger] s[j]),
    decreases s.len(),
{
    if s.len() > 0 && !is_white(s.first()) {
        lemma_word_chars(s.drop_first());
        assert forall|j: int| 0 <= j < word_len(s) implies !is_white(#[trigger] s[j]) by {
            if j > 0 {
                assert(s.drop_first()[j - 1] == s[j]);
            }
        }
    }
}

/// A text of one word alone is that word.
pub proof fn lemma_single_word(s: &str, r: Vec<String>)
    requires
        call_ensures(split_whitespace, (s,), r),
        s@.len() > 0,
        forall|j: int| 0 <= j < s@.len() ==> !is_white(#[trigger] s@[j]),
    ensures
        r@.len() == 1,
        r@[0]@ == s@,
{
    let t = s@;
    assert(without_leading(t) == t);
    lemma_word_len(t, t.len() as int);
    let rest = t.skip(t.len() as int);
    assert(rest.len() == 0);
    assert(word_list(rest) == Seq::<Seq<char>>::empty());
    assert(t.take(t.len() as int) =~= t);
    assert(word_list(t) =~= seq![t]);
    assert(text::strs(r@).len() == r@.len());
    assert(text::strs(r@)[0] == r@[0]@);
}

/// The lines of a text hold no end of a line.
pub proof fn lemma_lines_hold_no_end(s: &str, r: Vec<String>, i: int)
    requires
        call_ensures(lines, (s,), r),
        0 <= i < r@.len(),
    ensures
        !r@[i]@.contains('\n'),
{
    lemma_line_list(s@, i);
    assert(text::strs(r@)[i] == r@[i]@);
}

/// No line holds an end of a line.
proof fn lemma_line_list(s: Seq<char>, i: int)
    requires
        0 <= i < line_list(s).len(),
    ensures
        !line_list(s)[i].contains('\n'),
    decreases s.len(),
{
    lemma_cut(s, '\n');
    if s.len() > 0 {
        match cut(s, '\n') {
            Some((a, b)) => {
                if i == 0 {
                    let l = line_list(s)[0];
                    if l.contains('\n') {
                        let k = choose|k: int| 0 <= k < l.len() && l[k] == '\n';
                        assert(a[k] == '\n');
                    }
                } else {
                    lemma_line_list(b, i - 1);
                    assert(line_list(s)[i] == line_list(b)[i - 1]);
                }
            },
            None => {},
        }
    }
}

/// A line before others is the first of the lines, and the others follow.
pub proof fn lemma_line_before_others(line: Seq<char>, rest: Seq<char>)
    requires
        !line.contains('\n'),
        line.len() == 0 || line.last() != '\r',
    ensures
        line_list(line + seq!['\n'] + rest) == seq![line] + line_list(rest),
{
    let s = line + seq!['\n'] + rest;
    let n = line.len() as int;
    assert(s[n] == '\n');
    assert forall|j: int| 0 <= j < n implies s[j] != '\n' by {
        assert(s[j] == line[j]);
        assert(line.contains(line[j]));
    }
    lemma_cut_at(s, '\n', n);
    assert(s.contains('\n'));
    assert(s.take(n) =~= line);
    assert(s.skip(n + 1) =~= rest);
}

/// A character that is replaced is gone, wherever it stood; the others stay, in their
/// order.
pub proof fn lemma_replaced_char_gone(s: &str, c: char, with: &str, r: String)
    requires
        call_ensures(replace_char, (s, c, with), r),
    ensures
        !with@.contains(c) ==> !r@.contains(c),
        !s@.contains(c) ==> r@ == s@,
        with@.len() == 1 ==> r@.len() == s@.len(),
{
    lemma_replace(s@, c, with@);
}

/// What becomes of a text in which a character is replaced.
proof fn lemma_replace(s: Seq<char>, c: char, with: Seq<char>)
    ensures
        !with.contains(c) ==> !replaced_char(s, c, with).contains(c),
        !s.contains(c) ==> replaced_char(s, c, with) == s,
        with.len() == 1 ==> replaced_char(s, c, with).len() == s.len(),
    decreases s.len(),
{
    if s.len() > 0 {
        let b = s.drop_last();
        lemma_replace(b, c, with);
        let r = replaced_char(s, c, with);
        let head = replaced_char(b, c, with);
        let tail = if s.last() == c {
            with
        } else {
            seq![s.last()]
        };
        assert(r == head + tail);
        if !with.contains(c) && r.contains(c) {
            let k = choose|k: int| 0 <= k < r.len() && r[k] == c;
            if k < head.len() {
                assert(head[k] == c);
                assert(head.contains(c));
            } else {
                assert(tail[k - head.len()] == c);
                assert(tail.contains(c));
            }
        }
        if !s.contains(c) {
            assert(s.contains(s[s.len() - 1]));
            if b.contains(c) {
                let k = choose|k: int| 0 <= k < b.len() && b[k] == c;
                assert(s[k] == c);
            }
            assert(r =~= s);
        }
    }
}

/// Two texts one after the other are replaced in each for itself.
pub proof fn lemma_replaced_in_both(a: Seq<char>, b: Seq<char>, c: char, with: Seq<char>)
    ensures
        replaced_char(a + b, c, with) == replaced_char(a, c, with) + replaced_char(b, c, with),
    decreases b.len(),
{
    if b.len() == 0 {
        assert(a + b =~= a);
        assert(replaced_char(a, c, with) + replaced_char(b, c, with) =~= replaced_char(a, c, with));
    } else {
        let s = a + b;
        assert(s.drop_last() =~= a + b.drop_last());
        assert(s.last() == b.last());
        lemma_replaced_in_both(a, b.drop_last(), c, with);
        let tail = if s.last() == c {
            with
        } else {
            seq![s.last()]
        };
        assert(replaced_char(a, c, with) + replaced_char(b.drop_last(), c, with) + tail =~= replaced_char(
            a,
            c,
            with,
        ) + (replaced_char(b.drop_last(), c, with) + tail));
    }
}

/// A text that does not hold what is to be replaced stays as it is, and what stands
/// at its beginning is replaced.
pub proof fn lemma_replaced_text(s: Seq<char>, p: Seq<char>, with: Seq<char>)
    requires
        p.len() > 0,
    ensures
        !text::has_substring(s, p) ==> replaced(s, p, with) == s,
        replaced(p + s, p, with) == with + replaced(s, p, with),
    decreases s.len(),
{
    assert((p + s).take(p.len() as int) =~= p);
    assert((p + s).skip(p.len() as int) =~= s);
    if !text::has_substring(s, p) && s.len() >= p.len() {
        assert(s.take(p.len() as int) =~= s.subrange(0, p.len() as int));
        assert(s.take(p.len() as int) != p) by {
            if s.take(p.len() as int) == p {
                assert(text::occurs_at(s, p, 0));
            }
        }
        let t = s.drop_first();
        assert(!text::has_substring(t, p)) by {
            if text::has_substring(t, p) {
                let i = choose|i: int| text::occurs_at(t, p, i);
                assert(t.subrange(i, i + p.len()) =~= s.subrange(i + 1, i + 1 + p.len()));
                assert(text::occurs_at(s, p, i + 1));
            }
        }
        lemma_replaced_text(t, p, with);
        assert(seq![s.first()] + t =~= s);
    }
}

/// A letter is made a capital, or a small one, of the same place in the alphabet, and
/// nothing else is changed.
pub proof fn lemma_letter_case(c: char, up: char, low: char)
    requires
        call_ensures(upper_char, (c,), up),
        call_ensures(lower_char, (c,), low),
    ensures
        'a' <= c <= 'z' ==> 'A' <= up <= 'Z' && up as u32 - 'A' as u32 == c as u32 - 'a' as u32,
        'A' <= c <= 'Z' ==> 'a' <= low <= 'z' && low as u32 - 'a' as u32 == c as u32 - 'A' as u32,
        !('a' <= c <= 'z') ==> up == c,
        !('A' <= c <= 'Z') ==> low == c,
{
}

/// A text has its case changed letter by letter: it keeps its length, and texts that
/// differ in case alone come to the same.
pub proof fn lemma_text_case(s: &str, up: String, low: String, i: int)
    requires
        call_ensures(to_ascii_uppercase, (s,), up),
        call_ensures(to_ascii_lowercase, (s,), low),
        0 <= i < s@.len(),
    ensures
        up@.len() == s@.len() && low@.len() == s@.len(),
        !('a' <= up@[i] <= 'z') && !('A' <= low@[i] <= 'Z'),
        lowered(up@) == low@,
        !('a' <= s@[i] <= 'z') ==> up@[i] == s@[i],
        !('A' <= s@[i] <= 'Z') ==> low@[i] == s@[i],
{
    assert forall|k: int| 0 <= k < s@.len() implies lower(#[trigger] up@[k]) == low@[k] by {
        let c = s@[k];
        assert(up@[k] == upper(c));
        assert(low@[k] == lower(c));
    }
    assert(lowered(up@) =~= low@);
}

/// A suffix that is taken off as often as it stands at the end is not there any more,
/// and a text without it stays as it is.
pub proof fn lemma_suffixes_gone<'a>(s: &'a str, p: &str, r: &'a str)
    requires
        p@.len() > 0,
        call_ensures(trim_end_matches, (s, p), r),
    ensures
        !text::has_suffix(r@, p@),
        !text::has_suffix(s@, p@) ==> r@ == s@,
        text::has_prefix(s@, r@),
{
    lemma_without_suffixes(s@, p@);
}

/// What is left when a suffix is taken off.
proof fn lemma_without_suffixes(s: Seq<char>, p: Seq<char>)
    requires
        p.len() > 0,
    ensures
        !text::has_suffix(without_suffixes(s, p), p),
        text::has_prefix(s, without_suffixes(s, p)),
    decreases s.len(),
{
    assert(s.take(s.len() as int) =~= s);
    if text::has_suffix(s, p) {
        let t = s.take(s.len() - p.len());
        lemma_without_suffixes(t, p);
        let r = without_suffixes(t, p);
        assert(s.take(r.len() as int) =~= t.take(r.len() as int));
    }
}

/// The first and the last of a character are found where they are.
pub proof fn lemma_first_and_last_found(s: &str, c: char, first: Option<usize>, last: Option<usize>, any: bool)
    requires
        call_ensures(index_of, (s, c), first),
        call_ensures(last_index_of, (s, c), last),
        call_ensures(contains_char, (s, c), any),
    ensures
        any <==> first is Some,
        any <==> last is Some,
        any ==> s@[first->0 as int] == c && s@[last->0 as int] == c && first->0 <= last->0,
        any ==> forall|j: int| 0 <= j < first->0 ==> s@[j] != c,
        any ==> forall|j: int| last->0 < j < s@.len() ==> s@[j] != c,
{
    if first is Some {
        assert(s@.contains(s@[first->0 as int]));
    }
    if last is Some {
        assert(s@.contains(s@[last->0 as int]));
    }
}

/// A word and what is behind the white space after it.
pub proof fn lemma_cut_at_white<'a>(s: &'a str, word: Seq<char>, c: char, rest: Seq<char>, r: Option<(&'a str, &'a str)>)
    requires
        call_ensures(split_once_white, (s,), r),
        is_white(c),
        forall|i: int| 0 <= i < word.len() ==> !is_white(#[trigger] word[i]),
    ensures
        s@ == word + seq![c] + rest ==> r is Some && (r->0).0@ == word && (r->0).1@ == rest,
        s@ == word ==> r is None,
{
    let n = word.len() as int;
    if s@ == word + seq![c] + rest {
        assert forall|j: int| 0 <= j < n implies !is_white(s@[j]) by {
            assert(s@[j] == word[j]);
        }
        assert(s@[n] == c);
        lemma_word_len(s@, n);
        assert(s@.take(n) =~= word);
        assert(s@.skip(n + 1) =~= rest);
    } else if s@ == word {
        lemma_word_len(s@, n);
    }
}

} // verus!
