//! `seal`: encrypts data for a trusted box.

use vstd::prelude::*;

use crate::case;
use crate::case::to_lowercase;
use crate::split;
use crate::split::replace_char;
use crate::text::{cat3, str_eq};

verus! {

/// The arguments of `seal`.
#[derive(Debug)]
pub struct SealArgs {
    pub box_name: String,
    pub data: String,
    pub context: String,
    pub policy: String,
    pub allow_simulated: bool,
    pub file: Option<String>,
}

/// The policy that a text in small letters names, whatever hyphens are in it.
pub open spec fn policy_in(lower: Seq<char>) -> Option<Seq<char>> {
    let name = split::replaced_char(lower, '-', ""@);
    if name == "measurementandchip"@ {
        Some("MeasurementAndChip"@)
    } else if name == "measurementonly"@ {
        Some("MeasurementOnly"@)
    } else if name == "chiponly"@ {
        Some("ChipOnly"@)
    } else {
        None
    }
}

/// What is said of a text that names no policy.
pub open spec fn invalid_policy(policy: Seq<char>) -> Seq<char> {
    "Invalid sealing policy '"@ + policy + "'. Valid: measurement-and-chip, measurement-only, chip-only"@
}

/// The policy that a text in small letters names.
pub fn read_policy(lower: &str) -> (r: Option<&'static str>)
    ensures
        match policy_in(lower@) {
            Some(p) => r matches Some(x) && x@ == p,
            None => r is None,
        },
{
    let name = replace_char(lower, '-', "");
    if str_eq(&name, "measurementandchip") {
        Some("MeasurementAndChip")
    } else if str_eq(&name, "measurementonly") {
        Some("MeasurementOnly")
    } else if str_eq(&name, "chiponly") {
        Some("ChipOnly")
    } else {
        None
    }
}

/// The policy that a text names, in small or in capital letters.
pub fn normalize_policy(policy: &str) -> (r: Result<String, String>)
    ensures
        match policy_in(case::lowercase_of(policy@)) {
            Some(p) => r matches Ok(x) && x@ == p,
            None => r matches Err(e) && e@ == invalid_policy(policy@),
        },
        case::plain(policy@) ==> match policy_in(split::lowered(policy@)) {
            Some(p) => r matches Ok(x) && x@ == p,
            None => r matches Err(e) && e@ == invalid_policy(policy@),
        },
{
    let lower = to_lowercase(policy);
    match read_policy(&lower) {
        Some(p) => Ok(p.to_string()),
        None => Err(
            cat3(
                "Invalid sealing policy '",
                policy,
                "'. Valid: measurement-and-chip, measurement-only, chip-only",
            ),
        ),
    }
}

/// A policy is read with hyphens or without, in any case, and each of the three goes
/// by its own name; anything else is refused.
pub proof fn lemma_policies_read(lower: &str, r: Option<&'static str>)
    requires
        call_ensures(read_policy, (lower,), r),
    ensures
        lower@ == "measurementandchip"@ ==> r is Some && r->0@ == "MeasurementAndChip"@,
        lower@ == "measurementonly"@ ==> r is Some && r->0@ == "MeasurementOnly"@,
        lower@ == "chiponly"@ ==> r is Some && r->0@ == "ChipOnly"@,
        lower@ == "chip-only"@ ==> r is Some && r->0@ == "ChipOnly"@,
        lower@.len() == 0 ==> r is None,
{
    reveal_strlit("measurementandchip");
    reveal_strlit("measurementonly");
    reveal_strlit("chiponly");
    reveal_strlit("chip-only");
    reveal_strlit("");
    assert("measurementandchip"@.len() == 18 && "measurementonly"@.len() == 15 && "chiponly"@.len() == 8);
    lemma_no_hyphen("measurementandchip"@);
    lemma_no_hyphen("measurementonly"@);
    lemma_no_hyphen("chiponly"@);
    if lower@ == "chip-only"@ {
        let a = "chip-only"@.take(4);
        let b = "chip-only"@.skip(5);
        assert("chip-only"@ =~= a + seq!['-'] + b);
        split::lemma_replaced_in_both(a + seq!['-'], b, '-', ""@);
        split::lemma_replaced_in_both(a, seq!['-'], '-', ""@);
        lemma_no_hyphen(a);
        lemma_no_hyphen(b);
        let h = seq!['-'];
        assert(h.drop_last() =~= Seq::<char>::empty());
        assert(split::replaced_char(h.drop_last(), '-', ""@) =~= Seq::<char>::empty());
        assert(split::replaced_char(h, '-', ""@) =~= Seq::<char>::empty());
        assert(a + Seq::<char>::empty() + b =~= "chiponly"@);
    }
    if lower@.len() == 0 {
        assert(split::replaced_char(lower@, '-', ""@).len() == 0);
    }
}

/// A text without a hyphen stays as it is.
proof fn lemma_no_hyphen(s: Seq<char>)
    requires
        forall|i: int| 0 <= i < s.len() ==> #[trigger] s[i] != '-',
    ensures
        split::replaced_char(s, '-', ""@) == s,
    decreases s.len(),
{
    if s.len() > 0 {
        let b = s.drop_last();
        assert forall|i: int| 0 <= i < b.len() implies #[trigger] b[i] != '-' by {
            assert(b[i] == s[i]);
        }
        lemma_no_hyphen(b);
        assert(s[s.len() - 1] != '-');
        assert(b + seq![s.last()] =~= s);
    } else {
        assert(split::replaced_char(s, '-', ""@) =~= s);
    }
}

/// A plain policy may be written in any case, and is refused where it is none.
pub proof fn lemma_policy_in_any_case(policy: &str, lower: &str, read: Option<&'static str>, r: Result<String, String>)
    requires
        case::plain(policy@),
        lower@ == split::lowered(policy@),
        call_ensures(read_policy, (lower,), read),
        call_ensures(normalize_policy, (policy,), r),
    ensures
        r is Ok <==> read is Some,
        r is Ok ==> r->Ok_0@ == read->0@,
{
}

/// Hyphens do not matter.
pub proof fn lemma_hyphens_do_not_matter(s: &str, hyphened: &str, a: Seq<char>, b: Seq<char>, r: Option<&'static str>, same: Option<&'static str>)
    requires
        s@ == a + b,
        hyphened@ == a + seq!['-'] + b,
        call_ensures(read_policy, (s,), r),
        call_ensures(read_policy, (hyphened,), same),
    ensures
        r is Some <==> same is Some,
        r is Some ==> r->0@ == same->0@,
{
    split::lemma_replaced_in_both(a, b, '-', ""@);
    split::lemma_replaced_in_both(a + seq!['-'], b, '-', ""@);
    split::lemma_replaced_in_both(a, seq!['-'], '-', ""@);
    reveal_strlit("");
    let h = seq!['-'];
    assert(h.drop_last() =~= Seq::<char>::empty());
    assert(split::replaced_char(h.drop_last(), '-', ""@) =~= Seq::<char>::empty());
    assert(split::replaced_char(h, '-', ""@) =~= Seq::<char>::empty());
    let x = split::replaced_char(a, '-', ""@);
    assert(x + Seq::<char>::empty() =~= x);
}

} // verus!
