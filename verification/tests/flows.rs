use media_proxy_rs::config::{
    default_config, default_max_concurrent, default_parms, test_config, test_config_with_variant_sizes, FilterType,
    VariantSize, VariantSizes, WEBP_QUALITY_75_BITS,
};
use media_proxy_rs::fetch::{classify_response, early_reply, resolve_location, Fetch, FetchAction, FetchEvent, MAX_REDIRECTS};
use media_proxy_rs::policy::{build_runtime_config, ResolvedAddr, RuntimeConfig};
use media_proxy_rs::headers::HeaderList;
use media_proxy_rs::startup::{bind_target, config_path, extend_from_env, proxy_permitted, socket_mode, BindTarget};
use media_proxy_rs::response::{ImageFormatKind, ReplyBody};
use media_proxy_rs::transform::{field_kind, FieldKind, TransformForm};
use std::sync::Arc;

fn sends(a: &FetchAction) -> Option<String> {
    match a {
        FetchAction::Send(u) => Some(u.clone()),
        _ => None,
    }
}

fn reply(a: &FetchAction) -> Option<(u16, bool)> {
    match a {
        FetchAction::Reply { status, dummy } => Some((*status, *dummy)),
        _ => None,
    }
}

fn resolve_target(a: &FetchAction) -> Option<(String, u16)> {
    match a {
        FetchAction::Resolve { host, port } => Some((host.clone(), *port)),
        _ => None,
    }
}

fn policy() -> RuntimeConfig {
    let mut config = default_config();
    config.blocked_hosts = Some(vec!["evil.example".to_owned()]);
    build_runtime_config(config)
}

fn public() -> Vec<ResolvedAddr> {
    vec![ResolvedAddr::V4(u32::from_be_bytes([93, 184, 216, 34]))]
}

#[test]
fn fetch_follows_a_checked_redirect() {
    let rtc = policy();
    let (mut f, a) = Fetch::new(&rtc, "http://example.com/a/b.png", false);
    assert_eq!(resolve_target(&a), Some(("example.com".to_owned(), 80)));
    let a = f.on_resolved(&rtc, Some(&public()));
    assert_eq!(sends(&a), Some("http://example.com/a/b.png".to_owned()));
    let a = f.on_response(&rtc, classify_response(302, Some("../c.png".to_owned())));
    assert_eq!(resolve_target(&a), Some(("example.com".to_owned(), 80)));
    assert_eq!(sends(&f.on_resolved(&rtc, Some(&public()))), Some("http://example.com/c.png".to_owned()));
    assert!(matches!(f.on_response(&rtc, classify_response(200, None)), FetchAction::Accept));
}

#[test]
fn fetch_refuses_unchecked_urls() {
    let rtc = policy();
    let (mut f, a) = Fetch::new(&rtc, "http://example.com/", false);
    assert!(resolve_target(&a).is_some());
    f.on_resolved(&rtc, Some(&public()));
    let a = f.on_response(&rtc, FetchEvent::Redirect(Some("http://127.0.0.1/".to_owned())));
    assert_eq!(resolve_target(&a), Some(("127.0.0.1".to_owned(), 80)));
    let private = vec![ResolvedAddr::V4(u32::from_be_bytes([127, 0, 0, 1]))];
    assert_eq!(reply(&f.on_resolved(&rtc, Some(&private))), Some((400, false)));
    let (mut f, _) = Fetch::new(&rtc, "http://example.com/", true);
    f.on_resolved(&rtc, Some(&public()));
    assert_eq!(reply(&f.on_response(&rtc, FetchEvent::Redirect(Some("ftp://example.com/".to_owned())))), Some((400, false)));
    let (mut f, _) = Fetch::new(&rtc, "http://example.com/", false);
    f.on_resolved(&rtc, Some(&public()));
    assert_eq!(reply(&f.on_response(&rtc, FetchEvent::Redirect(Some("http://EVIL.example/".to_owned())))), Some((400, false)));
}

#[test]
fn fetch_refuses_a_first_url_that_fails_the_check() {
    let rtc = policy();
    let (_, a) = Fetch::new(&rtc, "file:///etc/passwd", false);
    assert_eq!(reply(&a), Some((400, false)));
    let (_, a) = Fetch::new(&rtc, "http://evil.example/", true);
    assert_eq!(reply(&a), Some((400, true)));
    let (mut f, _) = Fetch::new(&rtc, "http://example.com/", true);
    assert_eq!(reply(&f.on_resolved(&rtc, None)), Some((400, true)));
    let (mut f, _) = Fetch::new(&rtc, "http://[::ffff:100.64.0.1]/", true);
    let mapped = vec![ResolvedAddr::V6([0, 0, 0, 0, 0, 0xffff, 0x6440, 0x0001])];
    assert_eq!(reply(&f.on_resolved(&rtc, Some(&mapped))), Some((400, true)));
}

#[test]
fn fetch_gives_up_after_max_redirects() {
    assert_eq!(MAX_REDIRECTS, 5);
    let rtc = policy();
    let (mut f, _) = Fetch::new(&rtc, "http://example.com/0", false);
    let mut a = f.on_resolved(&rtc, Some(&public()));
    let mut sent = 0;
    while let Some(_) = sends(&a) {
        sent += 1;
        let loc = format!("/{}", sent);
        let r = f.on_response(&rtc, FetchEvent::Redirect(Some(loc)));
        assert!(resolve_target(&r).is_some());
        a = f.on_resolved(&rtc, Some(&public()));
    }
    assert_eq!(sent, 5);
    assert_eq!(reply(&a), Some((502, false)));
}

#[test]
fn fetch_failures() {
    let rtc = policy();
    let (mut f, _) = Fetch::new(&rtc, "http://example.com/", true);
    f.on_resolved(&rtc, Some(&public()));
    assert_eq!(reply(&f.on_response(&rtc, FetchEvent::Failed)), Some((200, true)));
    let (mut f, _) = Fetch::new(&rtc, "http://example.com/", false);
    f.on_resolved(&rtc, Some(&public()));
    assert_eq!(reply(&f.on_response(&rtc, FetchEvent::Failed)), Some((502, false)));
    assert_eq!(reply(&f.on_response(&rtc, classify_response(301, None))), Some((502, false)));
}

#[test]
fn redirect_targets() {
    assert_eq!(resolve_location("http://a.example/x", "https://b.example/y"), Some("https://b.example/y".to_owned()));
    assert_eq!(resolve_location("http://a.example/x/y", "z"), Some("http://a.example/x/z".to_owned()));
    assert_eq!(resolve_location("http://a.example/x", "//c.example/"), Some("http://c.example/".to_owned()));
    assert_eq!(resolve_location("nonsense", "z"), None);
}

#[test]
fn early_replies() {
    let mut h = HeaderList::new();
    let r = early_reply(&mut h, 400, false);
    assert_eq!((r.status, r.body), (400, ReplyBody::Empty));
    assert!(h.entries().is_empty());
    let r = early_reply(&mut h, 400, true);
    assert_eq!((r.status, r.body), (200, ReplyBody::Dummy));
    assert_eq!(h.get("Content-Type"), Some(&"image/png".to_owned()));
}

#[test]
fn transform_form_fields() {
    assert_eq!(field_kind("file"), FieldKind::File);
    assert_eq!(field_kind("static"), FieldKind::Text);
    assert_eq!(field_kind("badge"), FieldKind::Text);
    assert_eq!(field_kind("url"), FieldKind::Ignored);
    let mut form = TransformForm::new();
    form.set_text("avatar", Some("1".to_owned()));
    form.set_text("static", Some("1".to_owned()));
    form.set_text("other", Some("1".to_owned()));
    let refused = form.set_file(vec![0u8; 11], 10).err().unwrap();
    assert_eq!(refused.status, 400);
    assert_eq!(refused.headers.get("X-Proxy-Error"), Some(&"content-too-large".to_owned()));
    assert!(form.file.is_none());
    assert!(form.set_file(vec![0x89, 0x50, 0x4E, 0x47, 0x0D, 0x0A, 0x1A, 0x0A], 10).is_ok());
    let mut config = default_config();
    config.encode_avif = true;
    let up = form.finish(Arc::new(config), Some("image/avif")).ok().unwrap();
    assert!(!up.is_svg);
    assert!(up.ctx.is_accept_avif);
    assert_eq!(up.ctx.codec, Some(ImageFormatKind::Png));
    assert_eq!(up.ctx.parms.avatar, Some("1".to_owned()));
    assert_eq!(up.ctx.parms.static_image, Some("1".to_owned()));
    assert_eq!(up.ctx.parms.emoji, None);
    assert_eq!(up.ctx.headers.get("Cache-Control"), Some(&"no-cache".to_owned()));
    assert_eq!(up.ctx.headers.get("X-Content-Type-Options"), Some(&"nosniff".to_owned()));
}

#[test]
fn transform_needs_a_non_empty_file() {
    assert_eq!(TransformForm::new().finish(test_config(), None).err(), Some(400));
    let mut form = TransformForm::new();
    assert!(form.set_file(Vec::new(), 10).is_ok());
    assert_eq!(form.finish(test_config(), None).err(), Some(400));
    let mut form = TransformForm::new();
    assert!(form.set_file(b"<svg/>".to_vec(), 10).is_ok());
    let up = form.finish(test_config(), None).ok().unwrap();
    assert!(up.is_svg);
}

#[test]
fn bind_targets() {
    match bind_target("unix:///run/media-proxy-rs/media-proxy.sock") {
        BindTarget::Unix { path, legacy } => {
            assert_eq!(path, "/run/media-proxy-rs/media-proxy.sock");
            assert!(!legacy);
        },
        _ => panic!("expected a socket"),
    }
    match bind_target("/tmp/proxy") {
        BindTarget::Unix { path, legacy } => {
            assert_eq!(path, "/tmp/proxy");
            assert!(legacy);
        },
        _ => panic!("expected a socket"),
    }
    assert!(matches!(bind_target("proxy.sock"), BindTarget::Unix { legacy: true, .. }));
    match bind_target("0.0.0.0:12766") {
        BindTarget::Tcp(a) => assert_eq!(a, "0.0.0.0:12766"),
        _ => panic!("expected TCP"),
    }
}

#[test]
fn socket_modes() {
    assert_eq!(socket_mode(None), Some(0o660));
    assert_eq!(socket_mode(Some("0660")), Some(0o660));
    assert_eq!(socket_mode(Some("600")), Some(0o600));
    assert_eq!(socket_mode(Some("7777")), Some(0o7777));
    assert_eq!(socket_mode(Some("0680")), None);
    assert_eq!(socket_mode(Some("")), None);
    assert_eq!(socket_mode(Some("00660")), None);
}

#[test]
fn proxy_needs_confirmation() {
    let mut config = default_config();
    assert!(proxy_permitted(&config).is_ok());
    config.proxy = Some("http://proxy.example:3128".to_owned());
    assert!(proxy_permitted(&config).is_err());
    config.unsafe_allow_proxy = true;
    assert!(proxy_permitted(&config).is_ok());
}

#[test]
fn configuration_defaults() {
    assert_eq!(default_max_concurrent(), 64);
    let c = default_config();
    assert_eq!(c.bind_addr, "0.0.0.0:12766");
    assert_eq!(c.timeout, 10000);
    assert_eq!(c.max_size, 256 * 1024 * 1024);
    assert_eq!(c.filter_type, FilterType::Triangle);
    assert_eq!(c.append_headers.len(), 3);
    assert_eq!(f32::from_bits(c.webp_quality_bits), 75.0f32);
    assert_eq!(WEBP_QUALITY_75_BITS, 75.0f32.to_bits());
    let t = test_config();
    assert_eq!(t.user_agent, "test");
    assert!(t.append_headers.is_empty());
    let vs = VariantSizes { badge: Some(VariantSize { width: Some(96), height: None }), ..VariantSizes::empty() };
    let t = test_config_with_variant_sizes(vs);
    assert_eq!(t.variant_sizes, vs);
    let p = default_parms();
    assert!(p.url.is_empty() && p.fallback.is_none() && p.static_image.is_none());
}

#[test]
fn configuration_path_from_environment() {
    assert_eq!(config_path(None), "config.json");
    assert_eq!(config_path(Some("")), "config.json");
    assert_eq!(config_path(Some("/etc/media-proxy.json")), "/etc/media-proxy.json");
}

#[test]
fn environment_lists_extend_the_configuration() {
    assert_eq!(
        extend_from_env(Some(vec!["10.0.0.0/8".to_owned()]), "192.0.2.0/24,198.51.100.0/24"),
        vec!["10.0.0.0/8".to_owned(), "192.0.2.0/24".to_owned(), "198.51.100.0/24".to_owned()]
    );
    assert_eq!(extend_from_env(None, "a.example"), vec!["a.example".to_owned()]);
    assert_eq!(extend_from_env(None, ""), vec!["".to_owned()]);
    assert_eq!(extend_from_env(None, "a,,b,"), vec!["a".to_owned(), "".to_owned(), "b".to_owned(), "".to_owned()]);
}
