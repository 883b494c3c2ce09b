//! The choice of the local IPv4 address that outgoing mail connections
//! bind to: among the machine's addresses, one that is neither loopback nor
//! link-local and that reached the public internet.

use vstd::prelude::*;

verus! {

/// An IPv4 address, by its four octets.
#[derive(Clone, Copy, Debug, PartialEq, Eq, Structural)]
pub struct Ipv4Address(pub u8, pub u8, pub u8, pub u8);

/// Why no egress address could be determined.
pub enum AddressError {
    /// The interfaces could not be listed.
    GetAddresses { errno: i32, description: String },
    /// The probe target could not be resolved; the text says why.
    Io(String),
    /// No candidate reached the probe target.
    Undeterminable,
    /// The probe target has no IPv4 address.
    NoRemote,
}

/// The TCP port that candidates probe.
pub const PROBE_PORT: u16 = 80;

/// How long one probe may take, in seconds.
pub const PROBE_TIMEOUT_SECS: u64 = 3;

/// In 127.0.0.0/8.
pub open spec fn is_loopback(a: Ipv4Address) -> bool {
    a.0 == 127
}

/// In 169.254.0.0/16.
pub open spec fn is_link_local(a: Ipv4Address) -> bool {
    a.0 == 169 && a.1 == 254
}

/// An address worth probing.
pub open spec fn usable(a: Ipv4Address) -> bool {
    !is_loopback(a) && !is_link_local(a)
}

/// The usable IPv4 addresses among the interfaces' addresses, in order;
/// `None` stands for an address that is not IPv4.
pub open spec fn candidates_of(s: Seq<Option<Ipv4Address>>) -> Seq<Ipv4Address>
    decreases s.len(),
{
    if s.len() == 0 {
        Seq::empty()
    } else {
        let rest = candidates_of(s.drop_last());
        if s.last() is Some && usable(s.last()->Some_0) {
            rest.push(s.last()->Some_0)
        } else {
            rest
        }
    }
}

/// The first IPv4 address in `s`.
pub open spec fn first_v4(s: Seq<Option<Ipv4Address>>) -> Option<Ipv4Address>
    decreases s.len(),
{
    if s.len() == 0 {
        None
    } else if s[0] is Some {
        s[0]
    } else {
        first_v4(s.drop_first())
    }
}

/// Whether `a` is loopback.
pub fn is_loopback_addr(a: Ipv4Address) -> (r: bool)
    ensures
        r == is_loopback(a),
{
    a.0 == 127
}

/// Whether `a` is link-local.
pub fn is_link_local_addr(a: Ipv4Address) -> (r: bool)
    ensures
        r == is_link_local(a),
{
    a.0 == 169 && a.1 == 254
}

/// The addresses to probe: the IPv4 ones, without loopback and link-local.
pub fn egress_candidates(addrs: &Vec<Option<Ipv4Address>>) -> (r: Vec<Ipv4Address>)
    ensures
        r@ == candidates_of(addrs@),
{
    let mut out: Vec<Ipv4Address> = Vec::new();
    let mut i: usize = 0;
    while i < addrs.len()
        invariant
            i <= addrs@.len(),
            out@ == candidates_of(addrs@.subrange(0, i as int)),
        decreases addrs@.len() - i,
    {
        let ghost prefix = addrs@.subrange(0, i as int + 1);
        assert(prefix.drop_last() =~= addrs@.subrange(0, i as int));
        match addrs[i] {
            Some(a) => {
                if !is_loopback_addr(a) && !is_link_local_addr(a) {
                    out.push(a);
                }
            },
            None => {},
        }
        i = i + 1;
    }
    assert(addrs@.subrange(0, addrs@.len() as int) =~= addrs@);
    out
}

/// The address to probe against: the first IPv4 address that the target's
/// name resolved to.
pub fn probe_target(resolved: &Vec<Option<Ipv4Address>>) -> (r: Result<Ipv4Address, AddressError>)
    ensures
        first_v4(resolved@) is None ==> r matches Err(AddressError::NoRemote),
        first_v4(resolved@) matches Some(a) ==> r == Ok::<Ipv4Address, AddressError>(a),
{
    let mut i: usize = 0;
    assert(resolved@.subrange(0, resolved@.len() as int) =~= resolved@);
    while i < resolved.len()
        invariant
            i <= resolved@.len(),
            first_v4(resolved@) == first_v4(resolved@.subrange(i as int, resolved@.len() as int)),
        decreases resolved@.len() - i,
    {
        let ghost rest = resolved@.subrange(i as int, resolved@.len() as int);
        assert(rest.drop_first() =~= resolved@.subrange(i as int + 1, resolved@.len() as int));
        if let Some(a) = resolved[i] {
            return Ok(a);
        }
        i = i + 1;
    }
    Err(AddressError::NoRemote)
}

/// Picks the egress address: the first candidate that reached the probe
/// target; `reachable` holds the outcome of each candidate's probe.
pub fn select_egress(candidates: &Vec<Ipv4Address>, reachable: &Vec<bool>) -> (r: Result<Ipv4Address, AddressError>)
    requires
        candidates@.len() == reachable@.len(),
    ensures
        r is Ok <==> exists|k: int| 0 <= k < candidates@.len() && reachable@[k],
        r matches Err(e) ==> e is Undeterminable,
        r matches Ok(a) ==> exists|k: int| 0 <= k < candidates@.len() && reachable@[k]
            && candidates@[k] == a && forall|q: int| 0 <= q < k ==> !reachable@[q],
{
    let mut k: usize = 0;
    while k < candidates.len()
        invariant
            candidates@.len() == reachable@.len(),
            k <= candidates@.len(),
            forall|q: int| 0 <= q < k ==> !reachable@[q],
        decreases candidates@.len() - k,
    {
        if reachable[k] {
            return Ok(candidates[k]);
        }
        k = k + 1;
    }
    Err(AddressError::Undeterminable)
}

proof fn lemma_candidates_usable(s: Seq<Option<Ipv4Address>>)
    ensures
        forall|k: int| 0 <= k < candidates_of(s).len() ==> usable(#[trigger] candidates_of(s)[k])
            && s.contains(Some(candidates_of(s)[k])),
    decreases s.len(),
{
    if s.len() > 0 {
        lemma_candidates_usable(s.drop_last());
        let rest = candidates_of(s.drop_last());
        assert forall|k: int| 0 <= k < candidates_of(s).len() implies usable(#[trigger] candidates_of(s)[k])
            && s.contains(Some(candidates_of(s)[k])) by {
            if k < rest.len() {
                assert(candidates_of(s)[k] == rest[k]);
                let j = choose|j: int| 0 <= j < s.drop_last().len() && s.drop_last()[j] == Some(rest[k]);
                assert(s[j] == Some(rest[k]));
            } else {
                assert(s[s.len() - 1] == Some(candidates_of(s)[k]));
            }
        }
    }
}

/// Whatever the interfaces and the probes give, the chosen egress address
/// is one of the interfaces' addresses, and neither loopback nor link-local.
pub proof fn lemma_egress_is_usable(addrs: Seq<Option<Ipv4Address>>, reachable: Seq<bool>, k: int)
    requires
        0 <= k < candidates_of(addrs).len(),
    ensures
        !is_loopback(candidates_of(addrs)[k]),
        !is_link_local(candidates_of(addrs)[k]),
        addrs.contains(Some(candidates_of(addrs)[k])),
{
    lemma_candidates_usable(addrs);
}

} // verus!
