//! Sizes in words.

use vstd::prelude::*;

use crate::number;
use crate::number::{u128_text, u64_text};
use crate::text;
use crate::text::cat3;

verus! {

/// The nearest whole number to `n / d`; of two equally near, the even one.
pub open spec fn nearest(n: nat, d: nat) -> nat {
    let q = n / d;
    let twice = 2 * (n % d);
    if twice > d || (twice == d && q % 2 == 1) {
        q + 1
    } else {
        q
    }
}

/// `2` to the power of `k`.
pub open spec fn two_to(k: nat) -> nat
    decreases k,
{
    if k == 0 {
        1
    } else {
        2 * two_to((k - 1) as nat)
    }
}

/// How many binary digits beyond 53 a number has.
pub open spec fn excess(n: nat) -> nat
    decreases n,
{
    if n < 0x20_0000_0000_0000 {
        0
    } else {
        1 + excess(n / 2)
    }
}

/// A number as far as 53 binary digits go: the nearest multiple of the power
/// of two that is left over; of two equally near, the even one.
pub open spec fn in_53_bits(n: nat) -> nat {
    nearest(n, two_to(excess(n))) * two_to(excess(n))
}

/// The decimal text of `n / d` with one digit behind the point, to the nearest
/// tenth; of two equally near, the even one.
pub open spec fn tenths(n: nat, d: nat) -> Seq<char> {
    let t = nearest(10 * n, d);
    number::decimal(t / 10) + "."@ + number::decimal(t % 10)
}

/// The nearest whole number to `n / d`.
pub fn round_div(n: u128, d: u128) -> (r: u128)
    requires
        0 < d < 0x1_0000_0000_0000_0000_0000_0000,
        n < 0x1_0000_0000_0000_0000_0000_0000,
    ensures
        r == nearest(n as nat, d as nat),
{
    let q: u128 = n / d;
    let rest: u128 = n % d;
    proof {
        assert(q <= n) by (nonlinear_arith)
            requires
                q == n / d,
                d > 0,
        ;
    }
    if 2 * rest > d || (2 * rest == d && q % 2 == 1) {
        q + 1
    } else {
        q
    }
}

/// A power of two keeps its place in the count of excess digits.
proof fn lemma_excess(n: nat)
    ensures
        n < 0x1_0000_0000_0000_0000 ==> excess(n) <= 11,
        two_to(excess(n)) > 0,
        n >= 0x20_0000_0000_0000 ==> two_to(excess(n)) <= n,
    decreases n,
{
    reveal_with_fuel(excess, 13);
    lemma_two_to(excess(n));
    if n >= 0x20_0000_0000_0000 {
        lemma_excess(n / 2);
        if n / 2 < 0x20_0000_0000_0000 {
            assert(excess(n) == 1);
            assert(two_to(1) == 2) by {
                reveal_with_fuel(two_to, 3);
            }
        } else {
            assert(two_to(excess(n)) == 2 * two_to(excess(n / 2)));
        }
    }
}

proof fn lemma_two_to(k: nat)
    ensures
        two_to(k) > 0,
    decreases k,
{
    if k > 0 {
        lemma_two_to((k - 1) as nat);
    }
}

/// A number as far as 53 binary digits go.
pub fn to_53_bits(n: u64) -> (r: u128)
    ensures
        r == in_53_bits(n as nat),
        r < 0x2_0000_0000_0000_0000,
{
    let mut unit: u128 = 1;
    let mut left: u64 = n;
    proof {
        lemma_excess(n as nat);
    }
    let ghost mut k: nat = 0;
    while left >= 0x20_0000_0000_0000
        invariant
            excess(n as nat) == k + excess(left as nat),
            unit == two_to(k),
            excess(n as nat) <= 11,
            unit <= 2048,
        decreases left,
    {
        proof {
            reveal_with_fuel(two_to, 13);
            k = k + 1;
            assert(k <= 11);
        }
        unit = unit * 2;
        left = left / 2;
    }
    let q: u128 = round_div(n as u128, unit);
    proof {
        lemma_nearest_bound(n as nat, unit as nat);
    }
    q * unit
}

proof fn lemma_nearest_bound(n: nat, d: nat)
    requires
        d > 0,
    ensures
        nearest(n, d) * d <= n + d,
{
    let q = n / d;
    assert(q * d <= n) by (nonlinear_arith)
        requires
            q == n / d,
            d > 0,
    ;
    assert((q + 1) * d == q * d + d) by (nonlinear_arith);
}

/// The decimal text of `n / d` with one digit behind the point.
pub fn tenths_text(n: u128, d: u64) -> (r: String)
    requires
        d > 0,
        n < 0x2_0000_0000_0000_0000,
    ensures
        r@ == tenths(n as nat, d as nat),
{
    let t: u128 = round_div(10 * n, d as u128);
    let whole: String = u128_text(t / 10);
    let tenth: String = u128_text(t % 10);
    cat3(whole.as_str(), ".", tenth.as_str())
}

/// The number of bytes in the largest of the units that it reaches, with one
/// digit behind the point; in bytes where it reaches none. `gap` stands between
/// the number and the unit.
pub open spec fn size_words(bytes: nat, gap: Seq<char>, with_gb: bool) -> Seq<char> {
    if with_gb && bytes >= 1073741824 {
        tenths(in_53_bits(bytes), 1073741824) + gap + "GB"@
    } else if bytes >= 1048576 {
        tenths(in_53_bits(bytes), 1048576) + gap + "MB"@
    } else if bytes >= 1024 {
        tenths(in_53_bits(bytes), 1024) + gap + "KB"@
    } else {
        number::decimal(bytes) + gap + "B"@
    }
}

/// The number of bytes in words.
pub fn size_in_words(bytes: u64, gap: &str, with_gb: bool) -> (r: String)
    ensures
        r@ == size_words(bytes as nat, gap@, with_gb),
{
    if with_gb && bytes >= 1073741824 {
        let t: String = tenths_text(to_53_bits(bytes), 1073741824);
        cat3(t.as_str(), gap, "GB")
    } else if bytes >= 1048576 {
        let t: String = tenths_text(to_53_bits(bytes), 1048576);
        cat3(t.as_str(), gap, "MB")
    } else if bytes >= 1024 {
        let t: String = tenths_text(to_53_bits(bytes), 1024);
        cat3(t.as_str(), gap, "KB")
    } else {
        let t: String = u64_text(bytes);
        cat3(t.as_str(), gap, "B")
    }
}

/// A quotient is rounded to the nearest whole number, and to the even one where two
/// are as near.
pub proof fn lemma_rounds_to_nearest(n: u128, d: u128, r: u128)
    requires
        0 < d < 0x1_0000_0000_0000_0000_0000_0000,
        n < 0x1_0000_0000_0000_0000_0000_0000,
        call_ensures(round_div, (n, d), r),
    ensures
        2 * (n - r * d) <= d,
        2 * (r * d - n) <= d,
        2 * (n - r * d) == d || 2 * (r * d - n) == d ==> r % 2 == 0,
{
    let q = n as int / d as int;
    let m = n as int % d as int;
    assert(n == q * d + m && 0 <= m < d) by (nonlinear_arith)
        requires
            q == n as int / d as int,
            m == n as int % d as int,
            d > 0,
    ;
    assert((q + 1) * d == q * d + d) by (nonlinear_arith);
}

/// A size is told in the largest unit that it reaches: bytes below 1024, then
/// kilobytes, megabytes and, where they are used, gigabytes.
pub proof fn lemma_unit_told(bytes: u64, gap: &str, with_gb: bool, r: String)
    requires
        call_ensures(size_in_words, (bytes, gap, with_gb), r),
    ensures
        bytes < 1024 ==> r@ == number::decimal(bytes as nat) + gap@ + "B"@,
        1024 <= bytes < 1024 * 1024 ==> text::has_suffix(r@, gap@ + "KB"@),
        1024 * 1024 <= bytes < 1024 * 1024 * 1024 ==> text::has_suffix(r@, gap@ + "MB"@),
        bytes >= 1024 * 1024 * 1024 && with_gb ==> text::has_suffix(r@, gap@ + "GB"@),
        bytes >= 1024 * 1024 * 1024 && !with_gb ==> text::has_suffix(r@, gap@ + "MB"@),
{
    let kb = gap@ + "KB"@;
    let mb = gap@ + "MB"@;
    let gb = gap@ + "GB"@;
    if bytes >= 1024 {
        let n = in_53_bits(bytes as nat);
        let unit = if bytes < 1048576 {
            kb
        } else if bytes < 1073741824 || !with_gb {
            mb
        } else {
            gb
        };
        let d: nat = if bytes < 1048576 {
            1024
        } else if bytes < 1073741824 || !with_gb {
            1048576
        } else {
            1073741824
        };
        assert(r@ =~= tenths(n, d) + unit);
        assert(r@.skip(r@.len() - unit.len()) =~= unit);
    }
}

/// A whole number of kilobytes, megabytes or gigabytes is told as that number, with a
/// zero behind the point.
pub proof fn lemma_whole_units(k: u64, gap: &str, r: String)
    requires
        1 <= k < 1024,
        call_ensures(size_in_words, ((k * 1024) as u64, gap, true), r),
    ensures
        r@ == number::decimal(k as nat) + "."@ + "0"@ + gap@ + "KB"@,
{
    let bytes = (k * 1024) as nat;
    assert(excess(bytes) == 0);
    assert(two_to(0) == 1);
    assert(nearest(bytes, 1) == bytes) by {
        assert(bytes / 1 == bytes && bytes % 1 == 0);
    }
    assert(in_53_bits(bytes) == bytes);
    let t = nearest(10 * bytes, 1024);
    assert(10 * bytes == (10 * k) * 1024);
    assert((10 * bytes) / 1024 == 10 * k && (10 * bytes) % 1024 == 0);
    assert(t == 10 * k);
    assert(t / 10 == k && t % 10 == 0);
    reveal_strlit("0");
    assert(number::decimal(0) =~= "0"@);
}

/// A size below 2 to the 53rd is kept as it is.
pub proof fn lemma_small_is_exact(n: u64, r: u128)
    requires
        call_ensures(to_53_bits, (n,), r),
        n < 0x20_0000_0000_0000,
    ensures
        r == n,
{
    assert(excess(n as nat) == 0);
    assert(two_to(0) == 1);
    assert(n as nat / 1 == n && n as nat % 1 == 0);
}

/// A whole number of megabytes or gigabytes is told as that number too, with a zero
/// behind the point.
pub proof fn lemma_whole_larger_units(k: u64, gap: &str, mega: String, giga: String)
    requires
        1 <= k < 1024,
        call_ensures(size_in_words, ((k * 1048576) as u64, gap, true), mega),
        call_ensures(size_in_words, ((k * 1073741824) as u64, gap, true), giga),
    ensures
        mega@ == number::decimal(k as nat) + "."@ + "0"@ + gap@ + "MB"@,
        giga@ == number::decimal(k as nat) + "."@ + "0"@ + gap@ + "GB"@,
{
    lemma_whole(k as nat, 1048576);
    lemma_whole(k as nat, 1073741824);
}

/// So many of a unit are told as that number, with a zero behind the point.
proof fn lemma_whole(k: nat, d: nat)
    requires
        1 <= k < 1024,
        d == 1048576 || d == 1073741824,
    ensures
        tenths(in_53_bits(k * d), d) == number::decimal(k) + "."@ + "0"@,
{
    let bytes = k * d;
    assert(bytes < 0x20_0000_0000_0000);
    assert(excess(bytes) == 0);
    assert(two_to(0) == 1);
    assert(bytes / 1 == bytes && bytes % 1 == 0);
    assert(in_53_bits(bytes) == bytes);
    assert(10 * bytes == (10 * k) * d) by (nonlinear_arith)
        requires
            bytes == k * d,
    ;
    assert((10 * bytes) / d == 10 * k && (10 * bytes) % d == 0) by (nonlinear_arith)
        requires
            10 * bytes == (10 * k) * d,
            d > 0,
    ;
    assert(nearest(10 * bytes, d) == 10 * k);
    assert((10 * k) / 10 == k && (10 * k) % 10 == 0);
    reveal_strlit("0");
    assert(number::decimal(0) =~= "0"@);
}

} // verus!
