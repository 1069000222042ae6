//! Durations as text.

use vstd::prelude::*;

use crate::number;
use crate::number::parse_u64;
use crate::text::{cat3, chars_of, string_between};

verus! {

/// The seconds of a unit.
pub open spec fn unit_seconds(c: char) -> Option<nat> {
    if c == 's' {
        Some(1)
    } else if c == 'm' {
        Some(60)
    } else if c == 'h' {
        Some(3600)
    } else if c == 'd' {
        Some(86400)
    } else {
        None
    }
}

/// How many digits a text begins with.
pub open spec fn leading_digits(s: Seq<char>) -> nat
    decreases s.len(),
{
    if s.len() > 0 && number::is_digit(s.first()) {
        1 + leading_digits(s.drop_first())
    } else {
        0
    }
}

/// `leading_digits` counts the digits up to the first other character.
pub proof fn lemma_leading_digits(s: Seq<char>, n: int)
    requires
        0 <= n <= s.len(),
        forall|j: int| 0 <= j < n ==> number::is_digit(#[trigger] s[j]),
        n == s.len() || !number::is_digit(s[n]),
    ensures
        leading_digits(s) == n,
    decreases s.len(),
{
    if n > 0 {
        assert(number::is_digit(s[0]));
        let t = s.drop_first();
        assert forall|j: int| 0 <= j < n - 1 implies number::is_digit(#[trigger] t[j]) by {
            assert(t[j] == s[j + 1]);
        }
        lemma_leading_digits(t, n - 1);
    }
}

/// `leading_digits` counts no more than there is.
pub proof fn lemma_leading_bound(s: Seq<char>)
    ensures
        leading_digits(s) <= s.len(),
    decreases s.len(),
{
    if s.len() > 0 {
        lemma_leading_bound(s.drop_first());
    }
}

/// The seconds of a text of numbers, each with a unit behind it.
pub open spec fn clause_seconds(s: Seq<char>) -> Option<nat>
    decreases s.len(),
{
    if s.len() == 0 {
        Some(0)
    } else {
        let k = leading_digits(s);
        if k == 0 || k >= s.len() {
            None
        } else {
            match (unit_seconds(s[k as int]), clause_seconds(s.skip(k as int + 1))) {
                (Some(u), Some(rest)) => Some(number::digits_value(s.take(k as int)) * u + rest),
                _ => None,
            }
        }
    }
}

/// The seconds that a text such as `30s`, `5m`, `2h`, `1d` or `1h30m` stands
/// for. A number alone counts seconds.
pub open spec fn duration_seconds(s: Seq<char>) -> Option<nat> {
    if s.len() == 0 {
        None
    } else if number::all_digits(s) {
        Some(number::digits_value(s))
    } else {
        clause_seconds(s)
    }
}

/// The seconds that a text stands for, as far as they fit into 64 bits.
pub open spec fn duration_of(s: Seq<char>) -> Option<u64> {
    match duration_seconds(s) {
        Some(n) => if n <= u64::MAX {
            Some(n as u64)
        } else {
            None
        },
        None => None,
    }
}

/// What is said of a text that is no duration.
pub open spec fn duration_error(s: Seq<char>) -> Seq<char> {
    "Invalid duration: '"@ + s + "'"@
}

/// What is left of the clauses of a text is at least what its rest comes to.
proof fn lemma_clause_grows(s: Seq<char>)
    requires
        s.len() > 0,
        clause_seconds(s) is Some,
    ensures
        ({
            let k = leading_digits(s);
            &&& 0 < k < s.len()
            &&& clause_seconds(s.skip(k as int + 1)) is Some
            &&& unit_seconds(s[k as int]) is Some
            &&& clause_seconds(s)->0 >= clause_seconds(s.skip(k as int + 1))->0
            &&& clause_seconds(s)->0 >= number::digits_value(s.take(k as int)) * unit_seconds(
                s[k as int],
            )->0
        }),
{
    let k = leading_digits(s);
    let v = number::digits_value(s.take(k as int));
    let u = unit_seconds(s[k as int])->0;
    assert(v * u >= 0) by (nonlinear_arith);
}

/// The seconds that the clauses of a text come to.
fn sum_clauses(v: &Vec<char>, from: usize) -> (r: Option<u64>)
    requires
        from <= v.len(),
    ensures
        ({
            let total = clause_seconds(v@.skip(from as int));
            match r {
                Some(n) => total == Some(n as nat),
                None => total is None || total->0 > u64::MAX,
            }
        }),
    decreases v.len() - from,
{
    let ghost s = v@.skip(from as int);
    if from == v.len() {
        return Some(0);
    }
    let mut i: usize = from;
    while i < v.len() && '0' <= v[i] && v[i] <= '9'
        invariant
            from <= i <= v.len(),
            s == v@.skip(from as int),
            forall|j: int| 0 <= j < i - from ==> number::is_digit(#[trigger] s[j]),
        decreases v.len() - i,
    {
        i = i + 1;
    }
    proof {
        lemma_leading_digits(s, i - from);
    }
    if i == from || i == v.len() {
        return None;
    }
    assert(s[i - from] == v@[i as int]);
    let unit: u64 = match v[i] {
        's' => 1,
        'm' => 60,
        'h' => 3600,
        'd' => 86400,
        _ => {
            return None;
        },
    };
    let digits: String = string_between(v, from, i);
    proof {
        assert(digits@ =~= s.take(i - from));
        assert(s.skip(i - from + 1) =~= v@.skip(i + 1));
        assert(number::is_digit(digits@[0]));
        assert(number::all_digits(digits@));
        if clause_seconds(s) is Some {
            lemma_clause_grows(s);
            let value = number::digits_value(digits@);
            assert(value * unit >= value) by (nonlinear_arith)
                requires
                    unit >= 1,
                    value >= 0,
            ;
        }
    }
    let rest: Option<u64> = sum_clauses(v, i + 1);
    match parse_u64(digits.as_str()) {
        None => None,
        Some(n) => match n.checked_mul(unit) {
            None => None,
            Some(part) => match rest {
                None => None,
                Some(more) => part.checked_add(more),
            },
        },
    }
}

/// The seconds that a text such as `30s`, `5m`, `2h`, `1d` or `1h30m` stands
/// for. A number alone counts seconds.
pub fn parse_duration_secs(s: &str) -> (r: Result<u64, String>)
    ensures
        match r {
            Ok(n) => duration_of(s@) == Some(n),
            Err(e) => duration_of(s@) is None && e@ == duration_error(s@),
        },
{
    let v: Vec<char> = chars_of(s);
    let mut digits: bool = true;
    let mut i: usize = 0;
    while i < v.len()
        invariant
            i <= v.len(),
            v@ == s@,
            digits == forall|j: int| 0 <= j < i ==> number::is_digit(#[trigger] s@[j]),
        decreases v.len() - i,
    {
        if !('0' <= v[i] && v[i] <= '9') {
            digits = false;
        }
        i = i + 1;
    }
    assert(digits == number::all_digits(s@));
    assert(v@.skip(0) =~= s@);
    let secs: Option<u64> = if v.len() == 0 {
        None
    } else if digits {
        assert(number::is_digit(s@[0]));
        parse_u64(s)
    } else {
        sum_clauses(&v, 0)
    };
    match secs {
        Some(n) => Ok(n),
        None => Err(cat3("Invalid duration: '", s, "'")),
    }
}

/// A number with a unit behind it is so many of the unit, in seconds: a minute has
/// 60, an hour 60 minutes, and a day 24 hours. A bare number is one of seconds.
pub proof fn lemma_units(n: u32, s: &str, r: Result<u64, String>)
    requires
        call_ensures(parse_duration_secs, (s,), r),
    ensures
        s@ == number::decimal(n as nat) ==> r is Ok && r->Ok_0 == n,
        s@ == number::decimal(n as nat).push('s') ==> r is Ok && r->Ok_0 == n,
        s@ == number::decimal(n as nat).push('m') ==> r is Ok && r->Ok_0 == n * 60,
        s@ == number::decimal(n as nat).push('h') ==> r is Ok && r->Ok_0 == n * (60 * 60),
        s@ == number::decimal(n as nat).push('d') ==> r is Ok && r->Ok_0 == n * (24 * 60 * 60),
        s@.len() == 0 ==> r is Err,
{
    let d = number::decimal(n as nat);
    number::lemma_decimal_value(n as nat);
    if s@.len() == d.len() + 1 && s@.take(d.len() as int) == d && !number::is_digit(s@.last()) {
        let unit = s@.last();
        lemma_one_clause(d, unit, Seq::empty());
        assert(d.push(unit) + Seq::empty() =~= s@);
        assert(clause_seconds(Seq::<char>::empty()) == Some(0nat));
        assert(unit == 's' ==> clause_seconds(s@) == Some((n * 1 + 0) as nat));
        assert(!number::all_digits(s@)) by {
            assert(!number::is_digit(s@[s@.len() - 1]));
        }
    }
    assert(d.push('s').take(d.len() as int) =~= d);
    assert(d.push('m').take(d.len() as int) =~= d);
    assert(d.push('h').take(d.len() as int) =~= d);
    assert(d.push('d').take(d.len() as int) =~= d);
    if s@ == d {
        assert(number::all_digits(s@));
    }
}

/// A clause before others adds its own seconds to theirs: `2h30m` is two hours and
/// thirty minutes.
pub proof fn lemma_one_clause(digits: Seq<char>, unit: char, rest: Seq<char>)
    requires
        digits.len() > 0,
        number::all_digits(digits),
        !number::is_digit(unit),
    ensures
        clause_seconds(digits.push(unit) + rest) == (match (unit_seconds(unit), clause_seconds(rest)) {
            (Some(u), Some(n)) => Some(number::digits_value(digits) * u + n),
            _ => None,
        }),
{
    let s = digits.push(unit) + rest;
    let k = digits.len() as int;
    assert forall|j: int| 0 <= j < k implies number::is_digit(#[trigger] s[j]) by {
        assert(s[j] == digits[j]);
    }
    assert(s[k] == unit);
    lemma_leading_digits(s, k);
    assert(s.take(k) =~= digits);
    assert(s.skip(k + 1) =~= rest);
}

} // verus!
