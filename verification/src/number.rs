//! Integers as decimal text.

use vstd::prelude::*;

use crate::text::{cat2, chars_of};

verus! {

/// Whether the character is one of `0` to `9`.
pub open spec fn is_digit(c: char) -> bool {
    '0' <= c <= '9'
}

/// The number that a digit stands for.
pub open spec fn digit_value(c: char) -> nat {
    (c as nat - '0' as nat) as nat
}

/// Whether every character is a digit.
pub open spec fn all_digits(s: Seq<char>) -> bool {
    forall|i: int| 0 <= i < s.len() ==> is_digit(#[trigger] s[i])
}

/// The number that a sequence of digits stands for, most significant first.
pub open spec fn digits_value(s: Seq<char>) -> nat
    decreases s.len(),
{
    if s.len() == 0 {
        0
    } else {
        10 * digits_value(s.drop_last()) + digit_value(s.last())
    }
}

/// The number that `s` is the unsigned decimal text of: an optional `+`, then
/// at least one digit.
pub open spec fn unsigned_value(s: Seq<char>) -> Option<nat> {
    let d = if s.len() > 0 && s.first() == '+' {
        s.drop_first()
    } else {
        s
    };
    if d.len() > 0 && all_digits(d) {
        Some(digits_value(d))
    } else {
        None
    }
}

/// The number that `s` is the signed decimal text of: an optional `+` or `-`,
/// then at least one digit.
pub open spec fn signed_value(s: Seq<char>) -> Option<int> {
    let signed = s.len() > 0 && (s.first() == '+' || s.first() == '-');
    let d = if signed {
        s.drop_first()
    } else {
        s
    };
    if d.len() > 0 && all_digits(d) {
        if s.first() == '-' {
            Some(-(digits_value(d) as int))
        } else {
            Some(digits_value(d) as int)
        }
    } else {
        None
    }
}

/// What `str::parse::<u64>` gives back of `s`.
pub open spec fn parsed_u64(s: Seq<char>) -> Option<u64> {
    match unsigned_value(s) {
        Some(n) => if n <= u64::MAX {
            Some(n as u64)
        } else {
            None
        },
        None => None,
    }
}

/// What `str::parse::<u32>` gives back of `s`.
pub open spec fn parsed_u32(s: Seq<char>) -> Option<u32> {
    match unsigned_value(s) {
        Some(n) => if n <= u32::MAX {
            Some(n as u32)
        } else {
            None
        },
        None => None,
    }
}

/// What `str::parse::<i64>` gives back of `s`.
pub open spec fn parsed_i64(s: Seq<char>) -> Option<i64> {
    match signed_value(s) {
        Some(n) => if i64::MIN <= n <= i64::MAX {
            Some(n as i64)
        } else {
            None
        },
        None => None,
    }
}

/// What `str::parse::<i32>` gives back of `s`.
pub open spec fn parsed_i32(s: Seq<char>) -> Option<i32> {
    match signed_value(s) {
        Some(n) => if i32::MIN <= n <= i32::MAX {
            Some(n as i32)
        } else {
            None
        },
        None => None,
    }
}

/// More digits do not make a number smaller.
proof fn lemma_prefix_value(s: Seq<char>, i: int)
    requires
        0 <= i <= s.len(),
    ensures
        digits_value(s.take(i)) <= digits_value(s),
    decreases s.len(),
{
    if i == s.len() {
        assert(s.take(i) =~= s);
    } else {
        lemma_prefix_value(s.drop_last(), i);
        assert(s.drop_last().take(i) =~= s.take(i));
    }
}

/// The number that the digits from `from` on stand for; `None` where there is
/// none, where one is no digit, and where the number does not fit.
fn parse_digits(v: &Vec<char>, from: usize) -> (r: Option<u64>)
    requires
        from <= v.len(),
    ensures
        ({
            let d = v@.skip(from as int);
            &&& r is Some <==> d.len() > 0 && all_digits(d) && digits_value(d) <= u64::MAX
            &&& r is Some ==> r->0 == digits_value(d)
        }),
{
    if from == v.len() {
        return None;
    }
    let ghost d = v@.skip(from as int);
    let mut n: u64 = 0;
    let mut i: usize = from;
    assert(d.take(0) =~= Seq::<char>::empty());
    while i < v.len()
        invariant
            from <= i <= v.len(),
            d == v@.skip(from as int),
            forall|j: int| 0 <= j < i - from ==> is_digit(#[trigger] d[j]),
            n == digits_value(d.take(i - from)),
        decreases v.len() - i,
    {
        let c: char = v[i];
        assert(d[i - from] == c);
        if !('0' <= c && c <= '9') {
            return None;
        }
        let x: u64 = (c as u64) - 48;
        proof {
            let t = d.take(i - from + 1);
            assert(t.drop_last() =~= d.take(i - from));
            lemma_prefix_value(d, i - from + 1);
        }
        match n.checked_mul(10) {
            Some(m) => match m.checked_add(x) {
                Some(k) => {
                    n = k;
                },
                None => {
                    return None;
                },
            },
            None => {
                return None;
            },
        }
        i = i + 1;
    }
    assert(d.take(i - from) =~= d);
    Some(n)
}

/// `str::parse::<u64>`.
pub fn parse_u64(s: &str) -> (r: Option<u64>)
    ensures
        r == parsed_u64(s@),
{
    let v: Vec<char> = chars_of(s);
    if v.len() > 0 && v[0] == '+' {
        assert(v@.skip(1) =~= s@.drop_first());
        parse_digits(&v, 1)
    } else {
        assert(v@.skip(0) =~= s@);
        parse_digits(&v, 0)
    }
}

/// `str::parse::<u32>`.
pub fn parse_u32(s: &str) -> (r: Option<u32>)
    ensures
        r == parsed_u32(s@),
{
    match parse_u64(s) {
        Some(n) => if n <= u32::MAX as u64 {
            Some(n as u32)
        } else {
            None
        },
        None => None,
    }
}

/// `str::parse::<i64>`.
pub fn parse_i64(s: &str) -> (r: Option<i64>)
    ensures
        r == parsed_i64(s@),
{
    let v: Vec<char> = chars_of(s);
    if v.len() > 0 && (v[0] == '+' || v[0] == '-') {
        assert(v@.skip(1) =~= s@.drop_first());
        match parse_digits(&v, 1) {
            Some(n) => if v[0] == '-' {
                if n <= 0x7fff_ffff_ffff_ffff {
                    Some(-(n as i64))
                } else if n == 0x8000_0000_0000_0000 {
                    Some(i64::MIN)
                } else {
                    None
                }
            } else if n <= 0x7fff_ffff_ffff_ffff {
                Some(n as i64)
            } else {
                None
            },
            None => None,
        }
    } else {
        assert(v@.skip(0) =~= s@);
        match parse_digits(&v, 0) {
            Some(n) => if n <= 0x7fff_ffff_ffff_ffff {
                Some(n as i64)
            } else {
                None
            },
            None => None,
        }
    }
}

/// `str::parse::<i32>`.
pub fn parse_i32(s: &str) -> (r: Option<i32>)
    ensures
        r == parsed_i32(s@),
{
    match parse_i64(s) {
        Some(n) => if i32::MIN as i64 <= n && n <= i32::MAX as i64 {
            Some(n as i32)
        } else {
            None
        },
        None => None,
    }
}

/// The digit that stands for `d`.
pub open spec fn digit_char(d: nat) -> char {
    ('0' as nat + d) as char
}

/// The decimal text of a natural number.
pub open spec fn decimal(n: nat) -> Seq<char>
    decreases n,
{
    if n < 10 {
        seq![digit_char(n)]
    } else {
        decimal(n / 10).push(digit_char(n % 10))
    }
}

/// The decimal text of an integer.
pub open spec fn decimal_int(n: int) -> Seq<char> {
    if n < 0 {
        seq!['-'] + decimal((-n) as nat)
    } else {
        decimal(n as nat)
    }
}

/// The decimal text of `n`.
pub fn u128_text(n: u128) -> (r: String)
    ensures
        r@ == decimal(n as nat),
    decreases n,
{
    let d: u8 = (n % 10) as u8;
    let c: char = (48 + d) as char;
    assert(c == digit_char((n % 10) as nat));
    if n < 10 {
        let mut s: String = String::new();
        s.push(c);
        assert(s@ =~= seq![c]);
        s
    } else {
        let mut s: String = u128_text(n / 10);
        s.push(c);
        s
    }
}

/// The decimal text of `n`.
pub fn u64_text(n: u64) -> (r: String)
    ensures
        r@ == decimal(n as nat),
{
    u128_text(n as u128)
}

/// The decimal text of `n`.
pub fn usize_text(n: usize) -> (r: String)
    ensures
        r@ == decimal(n as nat),
{
    u64_text(n as u64)
}

/// The decimal text of `n`.
pub fn u32_text(n: u32) -> (r: String)
    ensures
        r@ == decimal(n as nat),
{
    u64_text(n as u64)
}

/// The decimal text of `n`.
pub fn i64_text(n: i64) -> (r: String)
    ensures
        r@ == decimal_int(n as int),
{
    if n < 0 {
        let m: u64 = if n == i64::MIN {
            0x8000_0000_0000_0000
        } else {
            (-n) as u64
        };
        let t: String = u64_text(m);
        let r: String = cat2("-", t.as_str());
        proof {
            reveal_strlit("-");
            assert("-"@ =~= seq!['-']);
        }
        r
    } else {
        u64_text(n as u64)
    }
}

/// The decimal text of `n`.
pub fn i32_text(n: i32) -> (r: String)
    ensures
        r@ == decimal_int(n as int),
{
    i64_text(n as i64)
}

/// The decimal text of a number consists of digits and stands for that number.
pub proof fn lemma_decimal_value(n: nat)
    ensures
        decimal(n).len() > 0,
        all_digits(decimal(n)),
        digits_value(decimal(n)) == n,
    decreases n,
{
    if n < 10 {
        let s = decimal(n);
        assert(s.drop_last() =~= Seq::<char>::empty());
        assert(s.last() == digit_char(n));
        assert(digits_value(s.drop_last()) == 0);
    } else {
        lemma_decimal_value(n / 10);
        let s = decimal(n);
        assert(s.drop_last() =~= decimal(n / 10));
        assert(s.last() == digit_char(n % 10));
        assert forall|i: int| 0 <= i < s.len() implies is_digit(#[trigger] s[i]) by {
            if i < s.len() - 1 {
                assert(s[i] == decimal(n / 10)[i]);
            }
        }
    }
}

/// Reading back the decimal text of an unsigned number gives the number.
pub proof fn lemma_u64_round_trip(n: u64)
    ensures
        parsed_u64(decimal(n as nat)) == Some(n),
{
    lemma_decimal_value(n as nat);
    assert(is_digit(decimal(n as nat)[0]));
}

/// Reading back the decimal text of a signed number gives the number.
pub proof fn lemma_i64_round_trip(n: i64)
    ensures
        parsed_i64(decimal_int(n as int)) == Some(n),
{
    if n < 0 {
        let d = decimal((-n) as nat);
        lemma_decimal_value((-n) as nat);
        assert(decimal_int(n as int).drop_first() =~= d);
    } else {
        lemma_decimal_value(n as nat);
        assert(is_digit(decimal(n as nat)[0]));
    }
}

/// A number that is written is read back as it was, and nothing but digits, with a
/// sign before them, is a number.
pub proof fn lemma_written_and_read(
    n: u32,
    k: i32,
    s: &str,
    t: &str,
    unsigned: Option<u32>,
    signed: Option<i32>,
    same: Option<u64>,
)
    requires
        call_ensures(parse_u32, (s,), unsigned),
        call_ensures(parse_i32, (t,), signed),
        call_ensures(parse_u64, (s,), same),
    ensures
        s@ == decimal(n as nat) ==> unsigned == Some(n) && same == Some(n as u64),
        t@ == decimal_int(k as int) ==> signed == Some(k),
        s@.len() == 0 ==> unsigned is None && same is None,
        unsigned is Some ==> same is Some && same->0 == unsigned->0,
        s@.len() > 0 && !is_digit(s@.last()) ==> unsigned is None && same is None,
        s@.len() > 0 && s@[0] == '-' ==> unsigned is None && same is None,
{
    lemma_decimal_value(n as nat);
    if s@ == decimal(n as nat) {
        assert(is_digit(s@[0]));
    }
    let a = if k < 0 {
        (-k) as nat
    } else {
        k as nat
    };
    lemma_decimal_value(a);
    if t@ == decimal_int(k as int) {
        if k < 0 {
            assert(t@.first() == '-');
            assert(t@.drop_first() =~= decimal(a));
        } else {
            assert(is_digit(decimal(a)[0]));
        }
    }
    if s@.len() > 0 && !is_digit(s@.last()) {
        let d = if s@.first() == '+' {
            s@.drop_first()
        } else {
            s@
        };
        if d.len() > 0 {
            assert(d[d.len() - 1] == s@.last());
        }
    }
    if s@.len() > 0 && s@[0] == '-' {
        assert(!is_digit(s@[0]));
    }
}

/// A number is written without needless digits: it begins with `0` only where it is
/// zero, and different numbers are written differently.
pub proof fn lemma_written_differently(a: u64, b: u64, x: String, y: String)
    requires
        call_ensures(u64_text, (a,), x),
        call_ensures(u64_text, (b,), y),
    ensures
        x@ == y@ <==> a == b,
        a > 0 ==> x@[0] != '0',
        a == 0 ==> x@ == seq!['0'],
{
    lemma_decimal_value(a as nat);
    lemma_decimal_value(b as nat);
    lemma_first_digit(a as nat);
    if a == 0 {
        assert(decimal(0) =~= seq!['0']);
    }
}

/// A number above zero does not begin with `0`.
proof fn lemma_first_digit(n: nat)
    ensures
        decimal(n).len() > 0,
        n > 0 ==> decimal(n)[0] != '0',
    decreases n,
{
    if n >= 10 {
        lemma_first_digit(n / 10);
        assert(decimal(n)[0] == decimal(n / 10)[0]);
    }
}

/// A number below zero is written as the one above it with a `-` before it.
pub proof fn lemma_negative_written(n: i64, a: u64, x: String, y: String)
    requires
        n < 0,
        a == -n,
        call_ensures(i64_text, (n,), x),
        call_ensures(u64_text, (a,), y),
    ensures
        x@ == seq!['-'] + y@,
{
}

} // verus!
