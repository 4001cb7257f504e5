use media_proxy_rs::config::{default_config, ConfigFile, FilterType, VariantSizes, WEBP_QUALITY_75_BITS};
use media_proxy_rs::ip::is_ipv6_blocked;
use media_proxy_rs::policy::{
    build_runtime_config, check_resolved_addrs, check_url_target, is_blocked_host, is_ipv4_refused,
    resolver_verdict, ResolveVerdict, ResolvedAddr, RuntimeConfig,
};

fn test_runtime_config() -> RuntimeConfig {
    let config = ConfigFile {
        bind_addr: "0.0.0.0:12766".to_owned(),
        timeout: 10000,
        user_agent: "test".to_owned(),
        max_size: 256 * 1024 * 1024,
        proxy: None,
        filter_type: FilterType::Triangle,
        max_pixels: 2048,
        append_headers: vec![],
        load_system_fonts: false,
        webp_quality_bits: WEBP_QUALITY_75_BITS,
        encode_avif: false,
        allowed_networks: None,
        blocked_networks: None,
        blocked_hosts: Some(vec!["evil.com".to_owned(), "Evil.Net".to_owned()]),
        max_concurrent: 64,
        variant_sizes: VariantSizes::empty(),
        enable_transform: false,
        unix_socket_permissions: None,
        unsafe_allow_proxy: false,
    };
    build_runtime_config(config)
}

/// The addresses a literal host stands for; names are not resolved here.
fn literal_addrs(host: &str) -> Result<Vec<ResolvedAddr>, String> {
    let u = reqwest::Url::parse(&format!("http://{}/", host)).map_err(|e| format!("{:?}", e))?;
    match u.host() {
        Some(url::Host::Ipv4(a)) => Ok(vec![ResolvedAddr::V4(u32::from_be_bytes(a.octets()))]),
        Some(url::Host::Ipv6(a)) => Ok(vec![ResolvedAddr::V6(a.segments())]),
        _ => Err(format!("not resolved: {}", host)),
    }
}

/// The whole URL check: scheme and host first, then every address.
fn check_url(rtc: &RuntimeConfig, url: &str) -> Result<(), String> {
    let (host, _port) = check_url_target(rtc, url)?;
    let addrs = literal_addrs(&host)?;
    check_resolved_addrs(rtc, &addrs)
}

#[test]
fn test_blocks_private_ipv4() {
    let rtc = test_runtime_config();
    assert!(check_url(&rtc, "http://127.0.0.1/").is_err());
    assert!(check_url(&rtc, "http://10.0.0.1/").is_err());
    assert!(check_url(&rtc, "http://172.16.0.1/").is_err());
    assert!(check_url(&rtc, "http://192.168.1.1/").is_err());
    assert!(check_url(&rtc, "http://169.254.169.254/").is_err());
    assert!(check_url(&rtc, "http://0.0.0.0/").is_err());
}

#[test]
fn test_blocks_ipv6_loopback() {
    let rtc = test_runtime_config();
    assert!(check_url(&rtc, "http://[::1]/").is_err());
}

#[test]
fn test_blocks_invalid_scheme() {
    let rtc = test_runtime_config();
    assert!(check_url(&rtc, "ftp://example.com/").is_err());
    assert!(check_url(&rtc, "file:///etc/passwd").is_err());
}

#[test]
fn test_blocked_hosts_case_insensitive() {
    let rtc = test_runtime_config();
    let hosts = rtc.blocked_hosts();
    assert!(hosts.contains(&"evil.com".to_owned()));
    assert!(hosts.contains(&"evil.net".to_owned()));
    assert!(!hosts.contains(&"Evil.Net".to_owned()));
}

#[test]
fn test_ipv6_blocked() {
    assert!(is_ipv6_blocked(&[0, 0, 0, 0, 0, 0, 0, 1]));
    assert!(is_ipv6_blocked(&[0, 0, 0, 0, 0, 0, 0, 0]));
    assert!(is_ipv6_blocked(&[0xfe80, 0, 0, 0, 0, 0, 0, 1]));
    assert!(is_ipv6_blocked(&[0xfc00, 0, 0, 0, 0, 0, 0, 1]));
    assert!(is_ipv6_blocked(&[0, 0, 0, 0, 0, 0xffff, 0x7f00, 0x0001]));
}

#[test]
fn public_addresses_pass() {
    let rtc = test_runtime_config();
    assert!(check_url(&rtc, "http://93.184.216.34/").is_ok());
    assert!(check_url(&rtc, "https://[2606:2800:220:1::1]/x.png").is_ok());
    assert!(!is_ipv6_blocked(&[0x2001, 0x0db8, 0, 0, 0, 0, 0, 1]));
    assert!(!is_ipv6_blocked(&[0, 0, 0, 0, 0, 0xffff, 0x5db8, 0xd822]));
}

#[test]
fn multicast_and_mapped_private_v6_blocked() {
    assert!(is_ipv6_blocked(&[0xff02, 0, 0, 0, 0, 0, 0, 1]));
    assert!(is_ipv6_blocked(&[0, 0, 0, 0, 0, 0xffff, 0x0a00, 0x0001]));
    assert!(is_ipv6_blocked(&[0, 0, 0, 0, 0, 0xffff, 0xa9fe, 0x0001]));
    assert!(is_ipv6_blocked(&[0xfebf, 0, 0, 0, 0, 0, 0, 1]));
    assert!(!is_ipv6_blocked(&[0xfec0, 0, 0, 0, 0, 0, 0, 1]));
}

#[test]
fn url_target_reports_each_refusal() {
    let rtc = test_runtime_config();
    assert_eq!(check_url_target(&rtc, "ftp://example.com/"), Err("scheme: ftp".to_owned()));
    assert_eq!(check_url_target(&rtc, "HTTPS://Example.com/"), Ok(("example.com".to_owned(), 443)));
    assert_eq!(check_url_target(&rtc, "http://example.com:8080/a"), Ok(("example.com".to_owned(), 8080)));
    assert_eq!(check_url_target(&rtc, "http://EVIL.com/"), Err("Blocked address".to_owned()));
    assert_eq!(check_url_target(&rtc, "http://sub.evil.com/").map(|t| t.0), Ok("sub.evil.com".to_owned()));
    assert!(check_url_target(&rtc, "not a url").is_err());
    assert!(is_blocked_host(&rtc, "EVIL.NET"));
    assert!(!is_blocked_host(&rtc, "evil.org"));
}

#[test]
fn cgnat_and_zero_network_refused_by_default() {
    let rtc = test_runtime_config();
    assert!(is_ipv4_refused(&rtc, u32::from_be_bytes([100, 64, 0, 1])));
    assert!(is_ipv4_refused(&rtc, u32::from_be_bytes([100, 127, 255, 255])));
    assert!(!is_ipv4_refused(&rtc, u32::from_be_bytes([100, 128, 0, 0])));
    assert!(is_ipv4_refused(&rtc, u32::from_be_bytes([0, 1, 2, 3])));
    assert!(!is_ipv4_refused(&rtc, u32::from_be_bytes([172, 32, 0, 1])));
    assert!(is_ipv4_refused(&rtc, u32::from_be_bytes([172, 31, 255, 255])));
}

#[test]
fn allowed_networks_lift_builtin_blocks_but_not_custom_ones() {
    let mut config = default_config();
    config.allowed_networks = Some(vec!["10.1.0.0/16".to_owned(), "not-a-net".to_owned(), "203.0.113.0/24".to_owned()]);
    config.blocked_networks = Some(vec!["203.0.113.0/25".to_owned(), "198.51.100.7/32".to_owned()]);
    let rtc = build_runtime_config(config);
    assert!(!is_ipv4_refused(&rtc, u32::from_be_bytes([10, 1, 2, 3])));
    assert!(is_ipv4_refused(&rtc, u32::from_be_bytes([10, 2, 0, 1])));
    assert!(is_ipv4_refused(&rtc, u32::from_be_bytes([203, 0, 113, 5])));
    assert!(!is_ipv4_refused(&rtc, u32::from_be_bytes([203, 0, 113, 200])));
    assert!(is_ipv4_refused(&rtc, u32::from_be_bytes([198, 51, 100, 7])));
    assert!(!is_ipv4_refused(&rtc, u32::from_be_bytes([198, 51, 100, 8])));
}

#[test]
fn resolver_verdicts() {
    let rtc = test_runtime_config();
    assert_eq!(resolver_verdict(&rtc, &vec![]), ResolveVerdict::NoAddresses);
    let public = ResolvedAddr::V4(u32::from_be_bytes([93, 184, 216, 34]));
    let private = ResolvedAddr::V4(u32::from_be_bytes([192, 168, 0, 1]));
    assert_eq!(resolver_verdict(&rtc, &vec![public]), ResolveVerdict::Permitted);
    assert_eq!(resolver_verdict(&rtc, &vec![public, private]), ResolveVerdict::Blocked);
    assert_eq!(check_resolved_addrs(&rtc, &vec![public, private]), Err("Blocked address".to_owned()));
    assert_eq!(resolver_verdict(&rtc, &vec![ResolvedAddr::V6([0, 0, 0, 0, 0, 0, 0, 1])]), ResolveVerdict::Blocked);
}

#[test]
fn blocked_hosts_are_stored_once() {
    let mut config = default_config();
    config.blocked_hosts = Some(vec!["A.example".to_owned(), "a.EXAMPLE".to_owned(), "b.example".to_owned()]);
    let rtc = build_runtime_config(config);
    assert_eq!(rtc.blocked_hosts().len(), 2);
    assert!(rtc.blocked_hosts().contains(&"a.example".to_owned()));
}

#[test]
fn mapped_ipv4_follows_ipv4_rules() {
    let mut config = default_config();
    config.blocked_networks = Some(vec!["198.51.100.0/24".to_owned()]);
    config.allowed_networks = Some(vec!["10.1.0.0/16".to_owned()]);
    let rtc = build_runtime_config(config);
    let mapped = |a: [u8; 4]| ResolvedAddr::V6([0, 0, 0, 0, 0, 0xffff, u16::from_be_bytes([a[0], a[1]]), u16::from_be_bytes([a[2], a[3]])]);
    assert!(check_resolved_addrs(&rtc, &vec![mapped([100, 64, 0, 1])]).is_err());
    assert!(check_resolved_addrs(&rtc, &vec![mapped([0, 1, 2, 3])]).is_err());
    assert!(check_resolved_addrs(&rtc, &vec![mapped([198, 51, 100, 9])]).is_err());
    assert!(check_resolved_addrs(&rtc, &vec![mapped([10, 1, 2, 3])]).is_ok());
    assert!(check_resolved_addrs(&rtc, &vec![mapped([93, 184, 216, 34])]).is_ok());
    assert!(is_ipv6_blocked(&[0, 0, 0, 0, 0, 0xffff, 0x6440, 0x0001]));
    assert!(is_ipv6_blocked(&[0, 0, 0, 0, 0, 0xffff, 0x0001, 0x0203]));
    assert!(!is_ipv6_blocked(&[0, 0, 0, 0, 0, 0xffff, 0xc633, 0x6409]));
    let rtc = test_runtime_config();
    assert!(check_url(&rtc, "http://[::ffff:100.64.0.1]/").is_err());
    assert!(check_url(&rtc, "http://[::ffff:127.0.0.1]/").is_err());
}
