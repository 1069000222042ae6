//! Restart policies.

use vstd::prelude::*;

use crate::number;
use crate::number::parse_u32;
use crate::split;
use crate::split::split_once;
use crate::state::{BoxRecord, RecordView};
use crate::text::{cat3, str_eq};

verus! {

/// The name of the policy and the number of restarts that it allows, 0 for no
/// limit: `no`, `always`, `unless-stopped` and `on-failure`, the last with an
/// optional number behind a colon.
pub open spec fn policy_of(s: Seq<char>) -> Option<(Seq<char>, u32)> {
    if s == "no"@ || s == "always"@ || s == "unless-stopped"@ || s == "on-failure"@ {
        Some((s, 0))
    } else {
        match split::cut(s, ':') {
            Some((name, max)) => if name == "on-failure"@ {
                match number::parsed_u32(max) {
                    Some(n) => Some((name, n)),
                    None => None,
                }
            } else {
                None
            },
            None => None,
        }
    }
}

/// What is said of a text that is no restart policy.
pub open spec fn invalid_policy(s: Seq<char>) -> Seq<char> {
    "Invalid restart policy '"@ + s
        + "': expected no, always, on-failure[:max-retries] or unless-stopped"@
}

fn invalid(s: &str) -> (r: Result<(String, u32), String>)
    ensures
        r is Err,
        r->Err_0@ == invalid_policy(s@),
{
    Err(
        cat3(
            "Invalid restart policy '",
            s,
            "': expected no, always, on-failure[:max-retries] or unless-stopped",
        ),
    )
}

/// The name of a restart policy and the number of restarts that it allows.
pub fn parse_restart_policy(s: &str) -> (r: Result<(String, u32), String>)
    ensures
        match r {
            Ok((name, max)) => policy_of(s@) == Some((name@, max)),
            Err(e) => policy_of(s@) is None && e@ == invalid_policy(s@),
        },
{
    if str_eq(s, "no") || str_eq(s, "always") || str_eq(s, "unless-stopped") || str_eq(
        s,
        "on-failure",
    ) {
        return Ok((s.to_string(), 0));
    }
    match split_once(s, ':') {
        Some((name, max)) => {
            if str_eq(name, "on-failure") {
                match parse_u32(max) {
                    Some(n) => Ok((name.to_string(), n)),
                    None => invalid(s),
                }
            } else {
                invalid(s)
            }
        },
        None => invalid(s),
    }
}

/// Whether a box with that record is restarted when it has died or become
/// unhealthy.
///
/// `always` restarts it, `unless-stopped` does so unless the user has stopped
/// it, and `on-failure` does so after a failure, as often as it is allowed.
pub open spec fn restarts(r: RecordView) -> bool {
    match policy_of(r.restart_policy) {
        None => false,
        Some((name, max)) => if name == "always"@ {
            true
        } else if name == "unless-stopped"@ {
            !r.stopped_by_user
        } else if name == "on-failure"@ {
            let limit = if max > 0 {
                max
            } else {
                r.max_restart_count
            };
            r.exit_code != Some(0i32) && (limit == 0 || r.restart_count < limit)
        } else {
            false
        },
    }
}

/// Whether a box with that record is restarted when it has died or become
/// unhealthy.
pub fn should_restart(record: &BoxRecord) -> (r: bool)
    ensures
        r == restarts(record@),
{
    match parse_restart_policy(record.restart_policy.as_str()) {
        Err(_) => false,
        Ok((name, max)) => {
            if str_eq(name.as_str(), "always") {
                true
            } else if str_eq(name.as_str(), "unless-stopped") {
                !record.stopped_by_user
            } else if str_eq(name.as_str(), "on-failure") {
                let limit: u32 = if max > 0 {
                    max
                } else {
                    record.max_restart_count
                };
                let failed: bool = match record.exit_code {
                    Some(code) => code != 0,
                    None => true,
                };
                failed && (limit == 0 || record.restart_count < limit)
            } else {
                false
            }
        },
    }
}

/// A box that may be restarted a given number of times is not restarted more
/// often.
pub proof fn lemma_restart_limit(r: RecordView)
    requires
        r.restart_policy == "on-failure"@,
        r.max_restart_count > 0,
        r.restart_count >= r.max_restart_count,
    ensures
        !restarts(r),
{
    reveal_strlit("on-failure");
    reveal_strlit("always");
    reveal_strlit("unless-stopped");
    assert("on-failure"@.len() == 10);
    assert("always"@.len() == 6);
    assert("unless-stopped"@.len() == 14);
}

/// The four policies are named as they are, without a limit, and `on-failure` may
/// carry a limit behind a colon. Nothing else is a policy.
pub proof fn lemma_policies_read(s: &str, n: u32, r: Result<(String, u32), String>)
    requires
        call_ensures(parse_restart_policy, (s,), r),
    ensures
        s@ == "no"@ || s@ == "always"@ || s@ == "unless-stopped"@ || s@ == "on-failure"@ ==> r is Ok
            && (r->Ok_0).0@ == s@ && (r->Ok_0).1 == 0,
        s@ == "on-failure:"@ + number::decimal(n as nat) ==> r is Ok && (r->Ok_0).0@ == "on-failure"@
            && (r->Ok_0).1 == n,
        r is Ok ==> ((r->Ok_0).0@ == "no"@ || (r->Ok_0).0@ == "always"@ || (r->Ok_0).0@
            == "unless-stopped"@ || (r->Ok_0).0@ == "on-failure"@),
        r is Ok && (r->Ok_0).1 != 0 ==> (r->Ok_0).0@ == "on-failure"@,
        s@.len() == 0 ==> r is Err,
{
    reveal_strlit("no");
    reveal_strlit("always");
    reveal_strlit("unless-stopped");
    reveal_strlit("on-failure");
    reveal_strlit("on-failure:");
    split::lemma_cut(s@, ':');
    let d = number::decimal(n as nat);
    if s@ == "on-failure:"@ + d {
        number::lemma_decimal_value(n as nat);
        assert forall|j: int| 0 <= j < 10 implies s@[j] != ':' && s@[j] == "on-failure"@[j] by {
            assert(s@[j] == "on-failure:"@[j]);
        }
        assert(s@[10] == ':');
        split::lemma_cut_at(s@, ':', 10);
        assert(s@.take(10) =~= "on-failure"@);
        assert(s@.skip(11) =~= d);
        assert(d.first() != '+') by {
            assert(number::is_digit(d[0]));
        }
        assert(number::parsed_u32(d) == Some(n));
        assert(s@.len() == 11 + d.len());
        assert(s@[2] == '-' && "unless-stopped"@[2] == 'l');
    }
}

/// `always` restarts every box and `no` none. `unless-stopped` restarts a box exactly
/// where the user has not stopped it. `on-failure` never restarts a box that ended
/// well, and one that did not only as often as the limit says, where there is one.
pub proof fn lemma_when_restarted(record: BoxRecord, r: bool)
    requires
        call_ensures(should_restart, (&record,), r),
    ensures
        record.restart_policy@ == "always"@ ==> r,
        record.restart_policy@ == "no"@ ==> !r,
        record.restart_policy@ == "unless-stopped"@ ==> r == !record.stopped_by_user,
        record.restart_policy@ == "on-failure"@ && record.exit_code == Some(0i32) ==> !r,
        record.restart_policy@ == "on-failure"@ && record.exit_code != Some(0i32)
            && record.max_restart_count == 0 ==> r,
        record.restart_policy@ == "on-failure"@ && record.exit_code != Some(0i32)
            && record.max_restart_count > 0 ==> (r <==> record.restart_count
            < record.max_restart_count),
{
    reveal_strlit("no");
    reveal_strlit("always");
    reveal_strlit("unless-stopped");
    reveal_strlit("on-failure");
    assert("no"@.len() == 2 && "always"@.len() == 6 && "unless-stopped"@.len() == 14
        && "on-failure"@.len() == 10);
}

} // verus!
