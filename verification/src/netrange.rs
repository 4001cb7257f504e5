//! Trusted access to `iprange::IpRange<ipnet::Ipv4Net>`, modelled by the set
//! of IPv4 addresses (as `u32`) that its networks cover.

use vstd::prelude::*;
use iprange::IpRange;
use ipnet::Ipv4Net;
use crate::ip::net_addrs;

verus! {

/// An `iprange::IpRange<Ipv4Net>`, held opaquely (Verus does not accept
/// the declaration of `IpRange` with its outside trait bound).
#[verifier::external_body]
pub struct Ipv4Ranges {
    inner: IpRange<Ipv4Net>,
}

/// The IPv4 addresses covered by the networks of an `IpRange`.
pub uninterp spec fn ipv4_range_addrs(r: Ipv4Ranges) -> Set<u32>;

/// What `"a.b.c.d/len".parse::<Ipv4Net>()` yields, as (address, prefix length).
pub uninterp spec fn ipv4_net_parse(s: Seq<char>) -> Option<(u32, u8)>;

/// `IpRange::new`: a range with no networks.
#[verifier::external_body]
pub(crate) fn ipv4_range_new() -> (r: Ipv4Ranges)
    ensures
        ipv4_range_addrs(r) == Set::<u32>::empty(),
{
    Ipv4Ranges { inner: IpRange::new() }
}

/// `IpRange::add`: the range afterwards also covers `addr/prefix_len`.
/// The trie marks the network's prefix path as a leaf, so nothing covered
/// before is lost.
#[verifier::external_body]
pub(crate) fn ipv4_range_add(r: &mut Ipv4Ranges, addr: u32, prefix_len: u8)
    requires
        prefix_len <= 32,
    ensures
        ipv4_range_addrs(*final(r)) == ipv4_range_addrs(*old(r)).union(net_addrs(addr, prefix_len)),
{
    r.inner.add(Ipv4Net::new(addr.into(), prefix_len).unwrap());
}

/// `IpRange::simplify`: merges sibling networks; the covered addresses stay the same.
#[verifier::external_body]
pub(crate) fn ipv4_range_simplify(r: &mut Ipv4Ranges)
    ensures
        ipv4_range_addrs(*final(r)) == ipv4_range_addrs(*old(r)),
{
    r.inner.simplify();
}

/// `IpRange::contains` for a single address: whether a network of the range covers it.
#[verifier::external_body]
pub(crate) fn ipv4_range_contains(r: &Ipv4Ranges, addr: u32) -> (b: bool)
    ensures
        b == ipv4_range_addrs(*r).contains(addr),
{
    r.inner.contains(&addr)
}

/// `str::parse::<Ipv4Net>`: the network's address and prefix length, or
/// `None` when the text is not CIDR notation. A parsed prefix never exceeds 32.
#[verifier::external_body]
pub(crate) fn parse_ipv4_net(s: &str) -> (r: Option<(u32, u8)>)
    ensures
        r == ipv4_net_parse(s@),
        r matches Some(n) ==> n.1 <= 32,
{
    s.parse::<Ipv4Net>().ok().map(|n| (n.addr().into(), n.prefix_len()))
}

} // verus!
