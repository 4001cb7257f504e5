//! The SSRF policy: which hosts and addresses the proxy may fetch from.

use vstd::prelude::*;
use crate::config::ConfigFile;
use crate::ip::{in_net, ipv4_mapped, ipv6_blocked, is_ipv6_blocked};
use crate::netrange::{
    Ipv4Ranges, ipv4_range_addrs, ipv4_net_parse, ipv4_range_new, ipv4_range_add,
    ipv4_range_simplify, ipv4_range_contains, parse_ipv4_net,
};
use crate::text::{lowercase, to_lowercase, same_text};
use crate::urlparts::{url_components, parse_url_components};

verus! {

/// The built-in refused IPv4 networks, as (address, prefix length):
/// 10.0.0.0/8, 172.16.0.0/12, 192.168.0.0/16 (private), 127.0.0.0/8
/// (loopback), 169.254.0.0/16 (link-local), 0.0.0.0/8 (unspecified) and
/// 100.64.0.0/10 (carrier-grade NAT).
pub open spec fn builtin_net(i: int) -> (u32, u8) {
    if i == 0 {
        (0x0A00_0000u32, 8u8)
    } else if i == 1 {
        (0xAC10_0000u32, 12u8)
    } else if i == 2 {
        (0xC0A8_0000u32, 16u8)
    } else if i == 3 {
        (0x7F00_0000u32, 8u8)
    } else if i == 4 {
        (0xA9FE_0000u32, 16u8)
    } else if i == 5 {
        (0u32, 8u8)
    } else {
        (0x6440_0000u32, 10u8)
    }
}

pub open spec fn builtin_net_count() -> int {
    7
}

/// Whether a built-in refused network covers `x`.
pub open spec fn builtin_blocked(x: u32) -> bool {
    exists|i: int| 0 <= i < builtin_net_count() && #[trigger] in_net(builtin_net(i).0, builtin_net(i).1, x)
}

/// Whether some network in `nets` covers `x`.
pub open spec fn nets_cover(nets: Seq<(u32, u8)>, x: u32) -> bool {
    exists|j: int| 0 <= j < nets.len() && #[trigger] in_net(nets[j].0, nets[j].1, x)
}

/// Whether some entry of `list` parses as a network covering `x`
/// (entries that do not parse are skipped).
pub open spec fn listed_nets_cover(list: Seq<String>, x: u32) -> bool {
    exists|j: int|
        0 <= j < list.len() && match #[trigger] ipv4_net_parse(list[j]@) {
            Some(n) => in_net(n.0, n.1, x),
            None => false,
        }
}

/// The addresses covered by a configured list of networks, if there is a list.
pub open spec fn listed_addrs(list: Option<Vec<String>>) -> Option<Set<u32>> {
    match list {
        Some(l) => Some(Set::new(|x: u32| listed_nets_cover(l@, x))),
        None => None,
    }
}

/// Whether `h` is the lowercase form of a configured blocked host.
pub open spec fn listed_host(list: Option<Vec<String>>, h: Seq<char>) -> bool {
    match list {
        Some(l) => exists|j: int| 0 <= j < l@.len() && lowercase(#[trigger] l@[j]@) == h,
        None => false,
    }
}

/// The character sequences of a list of strings.
pub open spec fn string_views(v: Seq<String>) -> Seq<Seq<char>> {
    v.map_values(|s: String| s@)
}

/// A resolved address of a host.
#[derive(Clone, Copy, Debug)]
pub enum ResolvedAddr {
    V4(u32),
    V6([u16; 8]),
}

/// The configuration with its network lists and blocked hosts prepared once
/// at startup.
pub struct RuntimeConfig {
    config: ConfigFile,
    ipv4_blocked: Ipv4Ranges,
    ipv4_allowed: Option<Ipv4Ranges>,
    ipv4_custom_blocked: Option<Ipv4Ranges>,
    blocked_hosts: Vec<String>,
}

pub open spec fn range_addrs_opt(r: Option<Ipv4Ranges>) -> Option<Set<u32>> {
    match r {
        Some(r) => Some(ipv4_range_addrs(r)),
        None => None,
    }
}

impl RuntimeConfig {
    /// The configuration it was built from.
    pub closed spec fn config_view(self) -> ConfigFile {
        self.config
    }

    /// Addresses refused unless allowed: the built-in networks and the custom ones.
    pub closed spec fn blocked_addrs(self) -> Set<u32> {
        ipv4_range_addrs(self.ipv4_blocked)
    }

    /// Addresses exempted from the built-in networks, if configured.
    pub closed spec fn allowed_addrs(self) -> Option<Set<u32>> {
        range_addrs_opt(self.ipv4_allowed)
    }

    /// Addresses refused in every case, if configured.
    pub closed spec fn custom_blocked_addrs(self) -> Option<Set<u32>> {
        range_addrs_opt(self.ipv4_custom_blocked)
    }

    /// The blocked host names, lowercased.
    pub closed spec fn host_list(self) -> Seq<Seq<char>> {
        string_views(self.blocked_hosts@)
    }

    /// The configuration it was built from.
    pub fn config(&self) -> (c: &ConfigFile)
        ensures
            *c == self.config_view(),
    {
        &self.config
    }

    /// The blocked host names, lowercased, each once.
    pub fn blocked_hosts(&self) -> (h: &Vec<String>)
        ensures
            string_views(h@) == self.host_list(),
    {
        &self.blocked_hosts
    }
}

/// Whether the proxy refuses the IPv4 address `x`: a custom-blocked network
/// covers it, or a refused network covers it and no allowed network does.
pub open spec fn ipv4_refused(rtc: RuntimeConfig, x: u32) -> bool {
    ||| (rtc.custom_blocked_addrs() matches Some(c) && c.contains(x))
    ||| (rtc.blocked_addrs().contains(x) && !(rtc.allowed_addrs() matches Some(a) && a.contains(x)))
}

/// Whether the proxy refuses a resolved address. An IPv4-mapped IPv6
/// address (`::ffff:a.b.c.d`) is judged by the IPv4 rules, as its IPv4
/// address would be.
pub open spec fn addr_refused(rtc: RuntimeConfig, a: ResolvedAddr) -> bool {
    match a {
        ResolvedAddr::V4(x) => ipv4_refused(rtc, x),
        ResolvedAddr::V6(s) => match ipv4_mapped(s) {
            Some(v) => ipv4_refused(rtc, v),
            None => ipv6_blocked(s),
        },
    }
}

/// Whether `host` (compared in lowercase) is on the blocked host list.
pub open spec fn host_refused(rtc: RuntimeConfig, host: Seq<char>) -> bool {
    rtc.host_list().contains(lowercase(host))
}

/// The networks of `list` that parse, in order.
fn parse_nets(list: &Vec<String>) -> (nets: Vec<(u32, u8)>)
    ensures
        forall|j: int| 0 <= j < nets@.len() ==> #[trigger] nets@[j].1 <= 32,
        forall|x: u32| nets_cover(nets@, x) <==> listed_nets_cover(list@, x),
{
    let mut nets: Vec<(u32, u8)> = Vec::new();
    let mut i: usize = 0;
    while i < list.len()
        invariant
            i <= list@.len(),
            forall|j: int| 0 <= j < nets@.len() ==> #[trigger] nets@[j].1 <= 32,
            forall|x: u32| nets_cover(nets@, x) <==> listed_nets_cover(list@.subrange(0, i as int), x),
        decreases list@.len() - i,
    {
        let parsed = parse_ipv4_net(list[i].as_str());
        let ghost old_nets = nets@;
        let ghost pre = list@.subrange(0, i as int);
        let ghost post = list@.subrange(0, i + 1);
        if let Some(n) = parsed {
            nets.push(n);
        }
        proof {
            assert forall|x: u32| nets_cover(nets@, x) <==> listed_nets_cover(post, x) by {
                if nets_cover(nets@, x) {
                    let j = choose|j: int| 0 <= j < nets@.len() && #[trigger] in_net(nets@[j].0, nets@[j].1, x);
                    if j < old_nets.len() {
                        assert(in_net(old_nets[j].0, old_nets[j].1, x));
                        assert(nets_cover(old_nets, x));
                        let k = choose|k: int| 0 <= k < pre.len() && match #[trigger] ipv4_net_parse(pre[k]@) {
                            Some(n) => in_net(n.0, n.1, x),
                            None => false,
                        };
                        assert(post[k] == pre[k]);
                    } else {
                        assert(post[i as int] == list@[i as int]);
                        assert(ipv4_net_parse(post[i as int]@) == parsed);
                    }
                }
                if listed_nets_cover(post, x) {
                    let k = choose|k: int| 0 <= k < post.len() && match #[trigger] ipv4_net_parse(post[k]@) {
                        Some(n) => in_net(n.0, n.1, x),
                        None => false,
                    };
                    if k < i {
                        assert(pre[k] == post[k]);
                        assert(listed_nets_cover(pre, x));
                        assert(nets_cover(old_nets, x));
                        let j = choose|j: int| 0 <= j < old_nets.len() && #[trigger] in_net(old_nets[j].0, old_nets[j].1, x);
                        assert(nets@[j] == old_nets[j]);
                    } else {
                        assert(post[k] == list@[i as int]);
                        let l = nets@.len() - 1;
                        assert(nets@[l] == parsed.unwrap());
                        assert(in_net(nets@[l].0, nets@[l].1, x));
                    }
                }
            }
        }
        i += 1;
    }
    assert(list@.subrange(0, list@.len() as int) =~= list@);
    nets
}

/// Adds every network of `nets` to `r`.
fn add_nets(r: &mut Ipv4Ranges, nets: &Vec<(u32, u8)>)
    requires
        forall|j: int| 0 <= j < nets@.len() ==> #[trigger] nets@[j].1 <= 32,
    ensures
        ipv4_range_addrs(*final(r)) == ipv4_range_addrs(*old(r)).union(
            Set::new(|x: u32| nets_cover(nets@, x)),
        ),
{
    let ghost base = ipv4_range_addrs(*r);
    let mut i: usize = 0;
    while i < nets.len()
        invariant
            i <= nets@.len(),
            forall|j: int| 0 <= j < nets@.len() ==> #[trigger] nets@[j].1 <= 32,
            ipv4_range_addrs(*r) == base.union(Set::new(|x: u32| nets_cover(nets@.subrange(0, i as int), x))),
        decreases nets@.len() - i,
    {
        let (a, p) = nets[i];
        ipv4_range_add(r, a, p);
        proof {
            let pre = nets@.subrange(0, i as int);
            let post = nets@.subrange(0, i + 1);
            assert forall|x: u32| nets_cover(post, x) <==> nets_cover(pre, x) || in_net(a, p, x) by {
                if nets_cover(post, x) {
                    let j = choose|j: int| 0 <= j < post.len() && #[trigger] in_net(post[j].0, post[j].1, x);
                    if j < i {
                        assert(post[j] == pre[j]);
                    }
                }
                if nets_cover(pre, x) {
                    let j = choose|j: int| 0 <= j < pre.len() && #[trigger] in_net(pre[j].0, pre[j].1, x);
                    assert(post[j] == pre[j]);
                }
                if in_net(a, p, x) {
                    assert(post[i as int] == (a, p));
                }
            }
            assert(ipv4_range_addrs(*r) =~= base.union(Set::new(|x: u32| nets_cover(post, x))));
        }
        i += 1;
    }
    assert(nets@.subrange(0, nets@.len() as int) =~= nets@);
}

/// A range holding the networks of `nets` (as `collect` builds one).
fn range_of(nets: &Vec<(u32, u8)>) -> (r: Ipv4Ranges)
    requires
        forall|j: int| 0 <= j < nets@.len() ==> #[trigger] nets@[j].1 <= 32,
    ensures
        ipv4_range_addrs(r) == Set::new(|x: u32| nets_cover(nets@, x)),
{
    let mut r = ipv4_range_new();
    add_nets(&mut r, nets);
    ipv4_range_simplify(&mut r);
    assert(ipv4_range_addrs(r) =~= Set::new(|x: u32| nets_cover(nets@, x)));
    r
}

/// The built-in refused networks.
fn builtin_nets() -> (nets: Vec<(u32, u8)>)
    ensures
        nets@.len() == builtin_net_count(),
        forall|j: int| 0 <= j < nets@.len() ==> #[trigger] nets@[j] == builtin_net(j),
{
    let mut nets: Vec<(u32, u8)> = Vec::new();
    nets.push((0x0A00_0000u32, 8u8));
    nets.push((0xAC10_0000u32, 12u8));
    nets.push((0xC0A8_0000u32, 16u8));
    nets.push((0x7F00_0000u32, 8u8));
    nets.push((0xA9FE_0000u32, 16u8));
    nets.push((0u32, 8u8));
    nets.push((0x6440_0000u32, 10u8));
    nets
}

/// Whether `v` holds a string with the same characters as `s`.
fn contains_text(v: &Vec<String>, s: &String) -> (b: bool)
    ensures
        b == string_views(v@).contains(s@),
{
    let ghost views = string_views(v@);
    let mut i: usize = 0;
    while i < v.len()
        invariant
            i <= v@.len(),
            views == string_views(v@),
            forall|j: int| 0 <= j < i ==> views[j] != s@,
        decreases v@.len() - i,
    {
        if same_text(v[i].as_str(), s.as_str()) {
            assert(views[i as int] == s@);
            return true;
        }
        i += 1;
    }
    false
}

/// The lowercase forms of `list`, each once.
fn lowercase_hosts(list: &Vec<String>) -> (hosts: Vec<String>)
    ensures
        forall|h: Seq<char>| #![trigger string_views(hosts@).contains(h)]
            string_views(hosts@).contains(h)
            <==> exists|j: int| 0 <= j < list@.len() && lowercase(#[trigger] list@[j]@) == h,
        string_views(hosts@).no_duplicates(),
{
    let mut hosts: Vec<String> = Vec::new();
    let mut i: usize = 0;
    while i < list.len()
        invariant
            i <= list@.len(),
            forall|h: Seq<char>| #![trigger string_views(hosts@).contains(h)]
                string_views(hosts@).contains(h)
                <==> exists|j: int| 0 <= j < i && lowercase(#[trigger] list@[j]@) == h,
            string_views(hosts@).no_duplicates(),
        decreases list@.len() - i,
    {
        let lc = to_lowercase(list[i].as_str());
        let ghost old_views = string_views(hosts@);
        if !contains_text(&hosts, &lc) {
            hosts.push(lc);
        }
        proof {
            let views = string_views(hosts@);
            assert forall|h: Seq<char>| #![trigger views.contains(h)]
                views.contains(h) <==> exists|j: int| 0 <= j < i + 1 && lowercase(#[trigger] list@[j]@) == h
            by {
                if views.contains(h) {
                    let k = choose|k: int| 0 <= k < views.len() && views[k] == h;
                    if k < old_views.len() {
                        assert(old_views[k] == views[k]);
                        assert(old_views.contains(h));
                    } else {
                        assert(lowercase(list@[i as int]@) == h);
                    }
                }
                if exists|j: int| 0 <= j < i + 1 && lowercase(#[trigger] list@[j]@) == h {
                    let j = choose|j: int| 0 <= j < i + 1 && lowercase(#[trigger] list@[j]@) == h;
                    if j < i {
                        assert(old_views.contains(h));
                        let k = choose|k: int| 0 <= k < old_views.len() && old_views[k] == h;
                        assert(views[k] == old_views[k]);
                    } else if old_views.contains(lc@) {
                        let k = choose|k: int| 0 <= k < old_views.len() && old_views[k] == lc@;
                        assert(views[k] == old_views[k]);
                    } else {
                        assert(views[views.len() - 1] == lc@);
                    }
                }
            }
            assert forall|a: int, b: int| 0 <= a < views.len() && 0 <= b < views.len() && a != b
                implies views[a] != views[b] by {
                if a < old_views.len() && b < old_views.len() {
                    assert(views[a] == old_views[a] && views[b] == old_views[b]);
                } else if a < old_views.len() {
                    assert(views[a] == old_views[a]);
                    assert(old_views.contains(old_views[a]));
                } else if b < old_views.len() {
                    assert(views[b] == old_views[b]);
                    assert(old_views.contains(old_views[b]));
                }
            }
        }
        i += 1;
    }
    hosts
}

/// The runtime configuration as `build_runtime_config` prepares it from `config`.
pub open spec fn built_from(rtc: RuntimeConfig, config: ConfigFile) -> bool {
    &&& rtc.config_view() == config
    &&& rtc.blocked_addrs() == Set::new(
        |x: u32|
            builtin_blocked(x) || (config.blocked_networks matches Some(l) && listed_nets_cover(l@, x)),
    )
    &&& rtc.custom_blocked_addrs() == listed_addrs(config.blocked_networks)
    &&& rtc.allowed_addrs() == listed_addrs(config.allowed_networks)
    &&& forall|h: Seq<char>| #[trigger] rtc.host_list().contains(h) <==> listed_host(config.blocked_hosts, h)
    &&& rtc.host_list().no_duplicates()
}

/// Prepares the runtime configuration: the refused networks (built-in plus
/// custom), the custom-blocked and allowed networks, and the blocked hosts
/// in lowercase. Entries that are not CIDR networks are skipped.
pub fn build_runtime_config(config: ConfigFile) -> (rtc: RuntimeConfig)
    ensures
        built_from(rtc, config),
{
    let builtin = builtin_nets();
    let mut ipv4_blocked = range_of(&builtin);
    proof {
        assert forall|x: u32| nets_cover(builtin@, x) <==> builtin_blocked(x) by {
            if nets_cover(builtin@, x) {
                let j = choose|j: int| 0 <= j < builtin@.len() && #[trigger] in_net(builtin@[j].0, builtin@[j].1, x);
                assert(builtin@[j] == builtin_net(j));
            }
            if builtin_blocked(x) {
                let j = choose|j: int| 0 <= j < builtin_net_count() && #[trigger] in_net(builtin_net(j).0, builtin_net(j).1, x);
                assert(builtin@[j] == builtin_net(j));
            }
        }
    }
    let ipv4_custom_blocked = match &config.blocked_networks {
        Some(list) => {
            let nets = parse_nets(list);
            let custom = range_of(&nets);
            add_nets(&mut ipv4_blocked, &nets);
            Some(custom)
        },
        None => None,
    };
    let ipv4_allowed = match &config.allowed_networks {
        Some(list) => {
            let nets = parse_nets(list);
            Some(range_of(&nets))
        },
        None => None,
    };
    let blocked_hosts = match &config.blocked_hosts {
        Some(list) => lowercase_hosts(list),
        None => Vec::new(),
    };
    let rtc = RuntimeConfig { config, ipv4_blocked, ipv4_allowed, ipv4_custom_blocked, blocked_hosts };
    proof {
        assert(rtc.blocked_addrs() =~= Set::new(
            |x: u32|
                builtin_blocked(x) || (config.blocked_networks matches Some(l) && listed_nets_cover(l@, x)),
        ));
        assert(rtc.custom_blocked_addrs() =~= listed_addrs(config.blocked_networks));
        assert(rtc.allowed_addrs() =~= listed_addrs(config.allowed_networks));
        if config.blocked_hosts is None {
            assert(rtc.host_list() =~= Seq::<Seq<char>>::empty());
        }
    }
    rtc
}

/// What the URL check decides before any name is resolved: the host and
/// port to resolve, or why the URL is refused.
pub open spec fn url_target(rtc: RuntimeConfig, url: Seq<char>) -> Result<(Seq<char>, u16), Seq<char>> {
    match url_components(url) {
        Err(e) => Err(e),
        Ok((scheme, host, port)) => {
            let s = lowercase(scheme);
            if s != "http"@ && s != "https"@ {
                Err("scheme: "@ + s)
            } else {
                match host {
                    None => Err("no host"@),
                    Some(h) => if host_refused(rtc, h) {
                        Err("Blocked address"@)
                    } else {
                        Ok((h, if port is Some { port->0 } else { 80u16 }))
                    },
                }
            }
        },
    }
}

/// Whether `host` (in lowercase) is a blocked host.
pub fn is_blocked_host(rtc: &RuntimeConfig, host: &str) -> (b: bool)
    ensures
        b == host_refused(*rtc, host@),
{
    let lc = to_lowercase(host);
    contains_text(&rtc.blocked_hosts, &lc)
}

/// Checks a URL's scheme and host: only `http` and `https` URLs with a
/// host that is not blocked pass, and yield the host and port to resolve
/// (port 80 when the URL has none).
pub fn check_url_target(rtc: &RuntimeConfig, url: &str) -> (r: Result<(String, u16), String>)
    ensures
        match (r, url_target(*rtc, url@)) {
            (Ok((h, p)), Ok((sh, sp))) => h@ == sh && p == sp,
            (Err(e), Err(se)) => e@ == se,
            _ => false,
        },
{
    let parts = parse_url_components(url);
    let (scheme, host, port) = match parts {
        Ok(p) => p,
        Err(e) => return Err(e),
    };
    let s = to_lowercase(scheme.as_str());
    if !same_text(s.as_str(), "http") && !same_text(s.as_str(), "https") {
        let mut msg = "scheme: ".to_owned();
        msg.append(s.as_str());
        return Err(msg);
    }
    let host = match host {
        Some(h) => h,
        None => return Err("no host".to_owned()),
    };
    if is_blocked_host(rtc, host.as_str()) {
        return Err("Blocked address".to_owned());
    }
    let port = match port {
        Some(p) => p,
        None => 80u16,
    };
    Ok((host, port))
}

/// Whether the IPv4 address `x` is refused.
pub fn is_ipv4_refused(rtc: &RuntimeConfig, x: u32) -> (b: bool)
    ensures
        b == ipv4_refused(*rtc, x),
{
    if let Some(custom) = &rtc.ipv4_custom_blocked {
        if ipv4_range_contains(custom, x) {
            return true;
        }
    }
    if ipv4_range_contains(&rtc.ipv4_blocked, x) {
        let allow = match &rtc.ipv4_allowed {
            Some(allowed) => ipv4_range_contains(allowed, x),
            None => false,
        };
        if !allow {
            return true;
        }
    }
    false
}

/// Whether a resolved address is refused.
pub fn is_addr_refused(rtc: &RuntimeConfig, a: &ResolvedAddr) -> (b: bool)
    ensures
        b == addr_refused(*rtc, *a),
{
    match a {
        ResolvedAddr::V4(x) => is_ipv4_refused(rtc, *x),
        ResolvedAddr::V6(s) => {
            if s[0] == 0 && s[1] == 0 && s[2] == 0 && s[3] == 0 && s[4] == 0 && s[5] == 0xffff {
                let v: u32 = ((s[6] as u32) << 16u32) | (s[7] as u32);
                is_ipv4_refused(rtc, v)
            } else {
                is_ipv6_blocked(s)
            }
        },
    }
}

/// Whether none of `addrs` is refused.
pub open spec fn all_addrs_permitted(rtc: RuntimeConfig, addrs: Seq<ResolvedAddr>) -> bool {
    forall|i: int| 0 <= i < addrs.len() ==> !addr_refused(rtc, #[trigger] addrs[i])
}

/// The address half of the URL check: `Ok` when no resolved address is
/// refused, else `"Blocked address"`.
pub fn check_resolved_addrs(rtc: &RuntimeConfig, addrs: &Vec<ResolvedAddr>) -> (r: Result<(), String>)
    ensures
        r is Ok <==> all_addrs_permitted(*rtc, addrs@),
        r matches Err(e) ==> e@ == "Blocked address"@,
{
    let mut i: usize = 0;
    while i < addrs.len()
        invariant
            i <= addrs@.len(),
            forall|j: int| 0 <= j < i ==> !addr_refused(*rtc, #[trigger] addrs@[j]),
        decreases addrs@.len() - i,
    {
        if is_addr_refused(rtc, &addrs[i]) {
            return Err("Blocked address".to_owned());
        }
        i += 1;
    }
    Ok(())
}

/// What the connect-time resolver decides for the addresses of a name.
#[derive(Clone, Copy, Debug, PartialEq, Eq, Structural)]
pub enum ResolveVerdict {
    /// The name resolved to no address.
    NoAddresses,
    /// Some address is refused.
    Blocked,
    /// Every address may be connected to.
    Permitted,
}

/// The resolver's decision: no addresses is an error, any refused address
/// blocks the connection, else every address may be used.
pub fn resolver_verdict(rtc: &RuntimeConfig, addrs: &Vec<ResolvedAddr>) -> (v: ResolveVerdict)
    ensures
        v == (if addrs@.len() == 0 {
            ResolveVerdict::NoAddresses
        } else if all_addrs_permitted(*rtc, addrs@) {
            ResolveVerdict::Permitted
        } else {
            ResolveVerdict::Blocked
        }),
{
    if addrs.len() == 0 {
        return ResolveVerdict::NoAddresses;
    }
    match check_resolved_addrs(rtc, addrs) {
        Ok(()) => ResolveVerdict::Permitted,
        Err(_) => ResolveVerdict::Blocked,
    }
}

/// Whether a configured network list covers `x`.
pub open spec fn listed_in(list: Option<Vec<String>>, x: u32) -> bool {
    list matches Some(l) && listed_nets_cover(l@, x)
}

/// The IPv4 refusal rule in terms of the configuration: an address is
/// refused exactly when a custom-blocked network covers it, or a built-in
/// refused network covers it and no allowed network does. Allowed networks
/// never lift a custom block.
pub proof fn law_ipv4_refusal_rule(rtc: RuntimeConfig, config: ConfigFile, x: u32)
    requires
        built_from(rtc, config),
    ensures
        ipv4_refused(rtc, x) <==> (listed_in(config.blocked_networks, x) || (builtin_blocked(x)
            && !listed_in(config.allowed_networks, x))),
{
}

/// The built-in refused networks are exactly the private (10/8, 172.16/12,
/// 192.168/16), loopback (127/8), link-local (169.254/16), 0.0.0.0/8 and
/// carrier-grade NAT (100.64/10) addresses.
pub proof fn law_builtin_ranges(x: u32)
    ensures
        builtin_blocked(x) <==> crate::ip::ipv4_special_use(x),
{
    assert(((x >> 24u32) == (0x0A00_0000u32 >> 24u32)) == ((x >> 24u32) == 10)) by (bit_vector);
    assert(((x >> 20u32) == (0xAC10_0000u32 >> 20u32)) == ((x >> 20u32) == 0xAC1)) by (bit_vector);
    assert(((x >> 16u32) == (0xC0A8_0000u32 >> 16u32)) == ((x >> 16u32) == 0xC0A8)) by (bit_vector);
    assert(((x >> 24u32) == (0x7F00_0000u32 >> 24u32)) == ((x >> 24u32) == 127)) by (bit_vector);
    assert(((x >> 16u32) == (0xA9FE_0000u32 >> 16u32)) == ((x >> 16u32) == 0xA9FE)) by (bit_vector);
    assert(((x >> 24u32) == (0u32 >> 24u32)) == ((x >> 24u32) == 0)) by (bit_vector);
    assert(((x >> 22u32) == (0x6440_0000u32 >> 22u32)) == ((x >> 22u32) == 0x191)) by (bit_vector);
    assert(in_net(builtin_net(0).0, builtin_net(0).1, x) == ((x >> 24u32) == 10));
    assert(in_net(builtin_net(1).0, builtin_net(1).1, x) == ((x >> 20u32) == 0xAC1));
    assert(in_net(builtin_net(2).0, builtin_net(2).1, x) == ((x >> 16u32) == 0xC0A8));
    assert(in_net(builtin_net(3).0, builtin_net(3).1, x) == ((x >> 24u32) == 127));
    assert(in_net(builtin_net(4).0, builtin_net(4).1, x) == ((x >> 16u32) == 0xA9FE));
    assert(in_net(builtin_net(5).0, builtin_net(5).1, x) == ((x >> 24u32) == 0));
    assert(in_net(builtin_net(6).0, builtin_net(6).1, x) == ((x >> 22u32) == 0x191));
    if builtin_blocked(x) {
        let i = choose|i: int| 0 <= i < builtin_net_count() && #[trigger] in_net(builtin_net(i).0, builtin_net(i).1, x);
        assert(0 <= i < 7);
    }
}

/// Blocked hosts match case-insensitively: a host is refused exactly when
/// its lowercase form is the lowercase form of a configured blocked host.
pub proof fn law_blocked_host_case_insensitive(rtc: RuntimeConfig, config: ConfigFile, host: Seq<char>)
    requires
        built_from(rtc, config),
    ensures
        host_refused(rtc, host) <==> listed_host(config.blocked_hosts, lowercase(host)),
{
}

/// A URL passes the pre-resolution check only with an `http` or `https`
/// scheme and a host that is not blocked; the host to resolve is the URL's own.
pub proof fn law_url_target_passes(rtc: RuntimeConfig, url: Seq<char>)
    requires
        url_target(rtc, url) is Ok,
    ensures
        url_components(url) matches Ok((scheme, host, port)) && (lowercase(scheme) == "http"@
            || lowercase(scheme) == "https"@) && host == Some(url_target(rtc, url)->Ok_0.0)
            && !host_refused(rtc, url_target(rtc, url)->Ok_0.0),
{
}

/// IPv4-mapped IPv6 addresses follow the IPv4 rules: `::ffff:a.b.c.d` is
/// refused exactly when `a.b.c.d` is (built-in, custom-blocked and allowed
/// networks alike), and on its own `is_ipv6_blocked` refuses a mapped
/// address exactly when its IPv4 address is in a built-in network.
pub proof fn law_ipv4_mapped_follows_ipv4(rtc: RuntimeConfig, s: [u16; 8], v: u32)
    requires
        ipv4_mapped(s) == Some(v),
    ensures
        addr_refused(rtc, ResolvedAddr::V6(s)) == addr_refused(rtc, ResolvedAddr::V4(v)),
        ipv6_blocked(s) == builtin_blocked(v),
{
    law_builtin_ranges(v);
    let a: u16 = s[0];
    assert(a == 0u16 ==> (a & 0xff00u16) == 0u16 && (a & 0xffc0u16) == 0u16 && (a & 0xfe00u16) == 0u16)
        by (bit_vector);
}

} // verus!
