use vstd::prelude::*;

verus! {

/// Whether the IPv4 address `x` lies in the network `addr/prefix_len`
/// (the top `prefix_len` bits agree).
pub open spec fn in_net(addr: u32, prefix_len: u8, x: u32) -> bool {
    prefix_len == 0 || (x >> (32 - prefix_len) as u32) == (addr >> (32 - prefix_len) as u32)
}

/// The addresses of the network `addr/prefix_len`.
pub open spec fn net_addrs(addr: u32, prefix_len: u8) -> Set<u32> {
    Set::new(|x: u32| in_net(addr, prefix_len, x))
}

/// `Ipv4Addr::is_loopback`: 127.0.0.0/8.
pub open spec fn ipv4_is_loopback(v: u32) -> bool {
    (v >> 24u32) == 127
}

/// `Ipv4Addr::is_private`: 10.0.0.0/8, 172.16.0.0/12 and 192.168.0.0/16.
pub open spec fn ipv4_is_private(v: u32) -> bool {
    (v >> 24u32) == 10 || (v >> 20u32) == 0xAC1 || (v >> 16u32) == 0xC0A8
}

/// `Ipv4Addr::is_link_local`: 169.254.0.0/16.
pub open spec fn ipv4_is_link_local(v: u32) -> bool {
    (v >> 16u32) == 0xA9FE
}

/// The IPv4 address that `::ffff:a.b.c.d` maps to, if `s` has that form
/// (`Ipv6Addr::to_ipv4_mapped`).
pub open spec fn ipv4_mapped(s: [u16; 8]) -> Option<u32> {
    if s[0] == 0 && s[1] == 0 && s[2] == 0 && s[3] == 0 && s[4] == 0 && s[5] == 0xffff {
        Some((((s[6] as u32) << 16u32) | (s[7] as u32)) as u32)
    } else {
        None
    }
}

/// The IPv4 special-use addresses the proxy refuses by default: private
/// (10/8, 172.16/12, 192.168/16), loopback (127/8), link-local
/// (169.254/16), "this network" (0/8, which holds the unspecified address)
/// and carrier-grade NAT (100.64/10).
pub open spec fn ipv4_special_use(v: u32) -> bool {
    ||| ipv4_is_private(v)
    ||| ipv4_is_loopback(v)
    ||| ipv4_is_link_local(v)
    ||| (v >> 24u32) == 0
    ||| (v >> 22u32) == 0x191
}

/// The IPv6 addresses the proxy refuses to connect to: loopback, multicast,
/// unspecified, link-local `fe80::/10`, unique-local `fc00::/7`, and
/// IPv4-mapped addresses whose IPv4 address is a special-use one.
pub open spec fn ipv6_blocked(s: [u16; 8]) -> bool {
    let loopback = s[0] == 0 && s[1] == 0 && s[2] == 0 && s[3] == 0 && s[4] == 0 && s[5] == 0
        && s[6] == 0 && s[7] == 1;
    let unspecified = s[0] == 0 && s[1] == 0 && s[2] == 0 && s[3] == 0 && s[4] == 0 && s[5]
        == 0 && s[6] == 0 && s[7] == 0;
    let multicast = (s[0] & 0xff00u16) == 0xff00u16;
    ||| loopback
    ||| multicast
    ||| unspecified
    ||| (s[0] & 0xffc0u16) == 0xfe80u16
    ||| (s[0] & 0xfe00u16) == 0xfc00u16
    ||| match ipv4_mapped(s) {
        Some(v) => ipv4_special_use(v),
        None => false,
    }
}

/// Whether an IPv6 address, given by its eight segments, must be refused.
pub fn is_ipv6_blocked(s: &[u16; 8]) -> (b: bool)
    ensures
        b == ipv6_blocked(*s),
{
    let loopback = s[0] == 0 && s[1] == 0 && s[2] == 0 && s[3] == 0 && s[4] == 0 && s[5] == 0
        && s[6] == 0 && s[7] == 1;
    let unspecified = s[0] == 0 && s[1] == 0 && s[2] == 0 && s[3] == 0 && s[4] == 0 && s[5]
        == 0 && s[6] == 0 && s[7] == 0;
    let multicast = (s[0] & 0xff00u16) == 0xff00u16;
    if loopback || multicast || unspecified {
        return true;
    }
    if (s[0] & 0xffc0u16) == 0xfe80u16 {
        return true;
    }
    if (s[0] & 0xfe00u16) == 0xfc00u16 {
        return true;
    }
    if s[0] == 0 && s[1] == 0 && s[2] == 0 && s[3] == 0 && s[4] == 0 && s[5] == 0xffff {
        let v: u32 = ((s[6] as u32) << 16u32) | (s[7] as u32);
        return (v >> 24u32) == 127 || (v >> 24u32) == 10 || (v >> 20u32) == 0xAC1 || (v >> 16u32)
            == 0xC0A8 || (v >> 16u32) == 0xA9FE || (v >> 24u32) == 0 || (v >> 22u32) == 0x191;
    }
    false
}

} // verus!
