//! Text in columns.

use vstd::prelude::*;

use crate::text;

verus! {

/// `n` times the character.
pub open spec fn repeated(c: char, n: nat) -> Seq<char> {
    Seq::new(n, |i: int| c)
}

/// `s` with blanks behind it up to the width; a longer one as it is.
pub open spec fn padded(s: Seq<char>, width: nat) -> Seq<char> {
    if s.len() >= width {
        s
    } else {
        s + repeated(' ', (width - s.len()) as nat)
    }
}

/// `n` times the character.
pub fn repeat_char(c: char, n: usize) -> (r: String)
    ensures
        r@ == repeated(c, n as nat),
{
    let mut s: String = String::new();
    let mut i: usize = 0;
    while i < n
        invariant
            i <= n,
            s@ =~= repeated(c, i as nat),
        decreases n - i,
    {
        s.push(c);
        i = i + 1;
    }
    s
}

/// `s` with blanks behind it up to the width; a longer one as it is.
pub fn pad(s: &str, width: usize) -> (r: String)
    ensures
        r@ == padded(s@, width as nat),
{
    let n: usize = s.unicode_len();
    let mut out: String = s.to_string();
    if n < width {
        let blanks: String = repeat_char(' ', width - n);
        out.append(blanks.as_str());
    }
    out
}

/// Every line with the prefix in front of it.
pub open spec fn prefixed(prefix: Seq<char>, lines: Seq<Seq<char>>) -> Seq<Seq<char>> {
    lines.map_values(|l: Seq<char>| prefix + l)
}

/// The last `n` of the lines; all of them where there are no more.
pub open spec fn last_lines(lines: Seq<Seq<char>>, n: nat) -> Seq<Seq<char>> {
    if lines.len() <= n {
        lines
    } else {
        lines.skip(lines.len() - n)
    }
}

/// The last `n` of the lines, each with the prefix in front of it.
pub fn tail_prefixed(prefix: &str, lines: &Vec<String>, n: usize) -> (r: Vec<String>)
    ensures
        text::strs(r@) == prefixed(prefix@, last_lines(text::strs(lines@), n as nat)),
{
    broadcast use crate::text::lemma_strs_push;

    let start: usize = if lines.len() <= n {
        0
    } else {
        lines.len() - n
    };
    let ghost all = text::strs(lines@);
    let ghost want = prefixed(prefix@, last_lines(all, n as nat));
    let mut out: Vec<String> = Vec::new();
    let mut i: usize = start;
    while i < lines.len()
        invariant
            start <= i <= lines.len(),
            all == text::strs(lines@),
            start == if all.len() <= n {
                0
            } else {
                all.len() - n
            },
            want == prefixed(prefix@, last_lines(all, n as nat)),
            text::strs(out@) =~= want.take(i - start),
        decreases lines.len() - i,
    {
        proof {
            assert(last_lines(all, n as nat)[i - start] == lines@[i as int]@);
            assert(want.take(i - start + 1) =~= want.take(i - start).push(
                prefix@ + lines@[i as int]@,
            ));
        }
        out.push(text::cat2(prefix, lines[i].as_str()));
        i = i + 1;
    }
    assert(want.take(i - start) =~= want);
    out
}

/// A text is padded to its width with spaces behind it, and a longer one stays as it
/// is.
pub proof fn lemma_padded_to_width(s: &str, width: usize, i: int, r: String)
    requires
        call_ensures(pad, (s, width), r),
    ensures
        r@.len() == if s@.len() < width {
            width as nat
        } else {
            s@.len()
        },
        text::has_prefix(r@, s@),
        s@.len() <= i < r@.len() ==> r@[i] == ' ',
{
    assert(r@.take(s@.len() as int) =~= s@);
}

/// A character is repeated as often as is said.
pub proof fn lemma_repeated(c: char, n: usize, i: int, r: String)
    requires
        call_ensures(repeat_char, (c, n), r),
    ensures
        r@.len() == n,
        0 <= i < n ==> r@[i] == c,
{
}

/// The last lines are shown, as many as are asked for or all there are, each behind
/// the prefix.
pub proof fn lemma_last_lines_prefixed(prefix: &str, lines: Vec<String>, n: usize, i: int, r: Vec<String>)
    requires
        call_ensures(tail_prefixed, (prefix, &lines, n), r),
        0 <= i < r@.len(),
    ensures
        r@.len() == if n < lines@.len() {
            n as nat
        } else {
            lines@.len()
        },
        r@[i]@ == prefix@ + lines@[lines@.len() - r@.len() + i]@,
{
    let l = text::strs(lines@);
    assert(l.len() == lines@.len());
    assert(text::strs(r@).len() == r@.len());
    assert(text::strs(r@)[i] == r@[i]@);
    assert(last_lines(l, n as nat)[i] == lines@[lines@.len() - r@.len() + i]@);
}

} // verus!
