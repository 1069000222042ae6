//! `port`: the ports of a box.

use vstd::prelude::*;

use crate::number;
use crate::number::u32_text;
use crate::text;
use crate::text::{cat2, cat5};

verus! {

/// The arguments of `port`.
#[derive(Debug)]
pub struct PortArgs {
    pub box_name: String,
}

/// A port of the host that leads to one of the box.
#[derive(Debug)]
pub struct PortMapping {
    pub host_port: u16,
    pub guest_port: u16,
    pub protocol: String,
}

/// The line of a mapping.
pub open spec fn port_line(m: PortMapping) -> Seq<char> {
    number::decimal(m.guest_port as nat) + "/"@ + m.protocol@ + " -> 0.0.0.0:"@ + number::decimal(m.host_port as nat)
}

/// The lines of mappings up to the first that cannot be read, and what is said
/// of that.
pub open spec fn listing(mappings: Seq<Result<PortMapping, String>>) -> (Seq<Seq<char>>, Option<Seq<char>>)
    decreases mappings.len(),
{
    if mappings.len() == 0 {
        (Seq::empty(), None)
    } else {
        let (lines, failed) = listing(mappings.drop_last());
        if failed is Some {
            (lines, failed)
        } else {
            match mappings.last() {
                Ok(m) => (lines.push(port_line(m)), None),
                Err(e) => (lines, Some("Invalid persisted port mapping: "@ + e@)),
            }
        }
    }
}

/// Mappings behind one that cannot be read are not listed.
proof fn lemma_listing_failed(mappings: Seq<Result<PortMapping, String>>, n: int)
    requires
        0 <= n <= mappings.len(),
        listing(mappings.take(n)).1 is Some,
    ensures
        listing(mappings) == listing(mappings.take(n)),
    decreases mappings.len() - n,
{
    if n < mappings.len() {
        assert(mappings.take(n + 1).drop_last() =~= mappings.take(n));
        lemma_listing_failed(mappings, n + 1);
    } else {
        assert(mappings.take(n) =~= mappings);
    }
}

/// The lines of mappings up to the first that cannot be read, and what is said
/// of that.
pub fn port_lines(mappings: &Vec<Result<PortMapping, String>>) -> (r: (Vec<String>, Option<String>))
    ensures
        (text::strs(r.0@), text::opt_str(r.1)) == listing(mappings@),
{
    let mut lines: Vec<String> = Vec::new();
    assert(text::strs(lines@) =~= Seq::empty());
    for i in 0..mappings.len()
        invariant
            listing(mappings@.take(i as int)) == (text::strs(lines@), None::<Seq<char>>),
    {
        proof {
            assert(mappings@.take(i + 1).drop_last() =~= mappings@.take(i as int));
        }
        match &mappings[i] {
            Ok(m) => {
                let guest = u32_text(m.guest_port as u32);
                let host = u32_text(m.host_port as u32);
                let ghost before = lines@;
                let line = cat5(&guest, "/", &m.protocol, " -> 0.0.0.0:", &host);
                lines.push(line);
                assert(text::strs(lines@) =~= text::strs(before).push(line@));
            },
            Err(e) => {
                proof {
                    lemma_listing_failed(mappings@, i + 1);
                }
                let said = cat2("Invalid persisted port mapping: ", e);
                return (lines, Some(said));
            },
        }
    }
    assert(mappings@.take(mappings@.len() as int) =~= mappings@);
    (lines, None)
}

/// Each mapping is one line, in its place, with the port in the box before that of
/// the host; the first that cannot be read ends the list.
pub proof fn lemma_ports_listed(
    mappings: Vec<Result<PortMapping, String>>,
    i: int,
    r: (Vec<String>, Option<String>),
)
    requires
        call_ensures(port_lines, (&mappings,), r),
        0 <= i < mappings@.len(),
        forall|k: int| 0 <= k < mappings@.len() ==> (#[trigger] mappings@[k]) is Ok,
    ensures
        r.1 is None,
        r.0@.len() == mappings@.len(),
        text::has_prefix(r.0@[i]@, number::decimal(mappings@[i]->Ok_0.guest_port as nat)),
        text::has_suffix(r.0@[i]@, number::decimal(mappings@[i]->Ok_0.host_port as nat)),
{
    lemma_listing(mappings@, i);
    assert(text::strs(r.0@).len() == r.0@.len());
    assert(text::strs(r.0@)[i] == r.0@[i]@);
    let m = mappings@[i]->Ok_0;
    let line = port_line(m);
    let a = number::decimal(m.guest_port as nat);
    let b = number::decimal(m.host_port as nat);
    assert(line.take(a.len() as int) =~= a);
    assert(line.skip(line.len() - b.len()) =~= b);
}

/// Readable mappings are all listed.
proof fn lemma_listing(mappings: Seq<Result<PortMapping, String>>, i: int)
    requires
        0 <= i < mappings.len(),
        forall|k: int| 0 <= k < mappings.len() ==> (#[trigger] mappings[k]) is Ok,
    ensures
        listing(mappings).1 is None,
        listing(mappings).0.len() == mappings.len(),
        listing(mappings).0[i] == port_line(mappings[i]->Ok_0),
    decreases mappings.len(),
{
    let before = mappings.drop_last();
    assert(mappings[mappings.len() - 1] is Ok);
    if before.len() > 0 {
        assert forall|k: int| 0 <= k < before.len() implies (#[trigger] before[k]) is Ok by {
            assert(before[k] == mappings[k]);
        }
        lemma_listing(
            before,
            if i < before.len() {
                i
            } else {
                0
            },
        );
        if i < before.len() {
            assert(before[i] == mappings[i]);
        }
    } else {
        assert(listing(before) == (Seq::<Seq<char>>::empty(), None::<Seq<char>>));
    }
}

/// A mapping that cannot be read is told of, and what stands behind it is not listed.
pub proof fn lemma_unreadable_port_told(
    mappings: Vec<Result<PortMapping, String>>,
    r: (Vec<String>, Option<String>),
)
    requires
        call_ensures(port_lines, (&mappings,), r),
        mappings@.len() > 0,
        mappings@[0] is Err,
    ensures
        r.1 is Some,
        r.0@.len() == 0,
        text::has_suffix(r.1->0@, mappings@[0]->Err_0@),
{
    lemma_listing_fails(mappings@);
    assert(text::strs(r.0@).len() == r.0@.len());
    let said = r.1->0@;
    let e = mappings@[0]->Err_0@;
    assert(said.skip(said.len() - e.len()) =~= e);
}

/// The first mapping that cannot be read ends the list.
proof fn lemma_listing_fails(mappings: Seq<Result<PortMapping, String>>)
    requires
        mappings.len() > 0,
        mappings[0] is Err,
    ensures
        listing(mappings) == (
            Seq::<Seq<char>>::empty(),
            Some("Invalid persisted port mapping: "@ + mappings[0]->Err_0@),
        ),
    decreases mappings.len(),
{
    let before = mappings.drop_last();
    if before.len() > 0 {
        assert(before[0] == mappings[0]);
        lemma_listing_fails(before);
    } else {
        assert(listing(before) == (Seq::<Seq<char>>::empty(), None::<Seq<char>>));
        assert(mappings.last() == mappings[0]);
    }
}

} // verus!
