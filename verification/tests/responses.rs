use media_proxy_rs::config::{default_config, default_parms, test_config, RequestParams};
use media_proxy_rs::headers::HeaderList;
use media_proxy_rs::response::{
    decimal_text, is_svg_text, map_upstream_status, BodyBuffer, DownloadError, ImageFormatKind, ReplyBody,
    RequestContext,
};
use media_proxy_rs::upstream::{initial_headers, BodyRoute};
use std::sync::Arc;

fn context(parms: RequestParams) -> RequestContext {
    RequestContext {
        is_accept_avif: false,
        headers: HeaderList::new(),
        parms,
        src_bytes: Vec::new(),
        config: test_config(),
        codec: None,
    }
}

fn pairs(h: &HeaderList) -> Vec<(String, String)> {
    h.entries().clone()
}

fn with_fallback() -> RequestParams {
    let mut p = default_parms();
    p.fallback = Some("1".to_owned());
    p
}

const PNG_HEAD: [u8; 8] = [0x89, 0x50, 0x4E, 0x47, 0x0D, 0x0A, 0x1A, 0x0A];

#[test]
fn sniff_recognises_png_by_signature() {
    let mut ctx = context(default_parms());
    ctx.headers.append("Content-Type", "application/octet-stream");
    let s = ctx.sniff(Some(&PNG_HEAD), false);
    assert!(!s.is_svg);
    assert!(!s.is_img);
    assert_eq!(ctx.codec, Some(ImageFormatKind::Png));
    assert_eq!(ctx.route(&s), BodyRoute::Image);
}

#[test]
fn sniff_recognises_svg_text_and_type() {
    let mut ctx = context(default_parms());
    let s = ctx.sniff(Some(b"  \n<svg xmlns=\"http://www.w3.org/2000/svg\"/>"), false);
    assert!(s.is_svg);
    assert_eq!(ctx.route(&s), BodyRoute::Svg);
    let mut ctx = context(default_parms());
    ctx.headers.append("Content-Type", "image/svg+xml");
    let s = ctx.sniff(None, false);
    assert!(s.is_svg);
    assert!(is_svg_text(b"<svg>"));
    assert!(!is_svg_text(b"<sv"));
    assert!(!is_svg_text(&[0xff, 0xfe, b'<']));
    assert!(!is_svg_text(b"<?xml version=\"1.0\"?><svg/>"));
}

#[test]
fn sniff_marks_jpeg_xl_and_sets_type() {
    let mut ctx = context(default_parms());
    ctx.headers.append("Content-Type", "application/octet-stream");
    ctx.headers.append("X-Other", "1");
    let s = ctx.sniff(Some(&[0xFF, 0x0A, 0x00, 0x01]), false);
    assert!(s.is_img);
    assert_eq!(ctx.codec, None);
    assert_eq!(
        pairs(&ctx.headers),
        vec![("x-other".to_owned(), "1".to_owned()), ("content-type".to_owned(), "image/jxl".to_owned())]
    );
    let mut ctx = context(default_parms());
    let s = ctx.sniff(Some(&[0x00, 0x00, 0x00, 0x0C, 0x6A, 0x50, 0x20, 0x20, 0x0D, 0x0A, 0x87, 0x0A]), false);
    assert!(s.is_img);
    assert_eq!(ctx.headers.get("Content-Type"), Some(&"image/jp2".to_owned()));
    let mut ctx = context(default_parms());
    let s = ctx.sniff(Some(&[0x49, 0x49, 0xBC, 0x01]), false);
    assert!(s.is_img);
    assert_eq!(ctx.headers.get("Content-Type"), Some(&"image/jxr".to_owned()));
}

#[test]
fn sniff_uses_tga_content_type_when_unrecognised() {
    let mut ctx = context(default_parms());
    ctx.headers.append("Content-Type", "image/x-tga");
    let s = ctx.sniff(Some(&[0x00, 0x01, 0x02]), false);
    assert!(!s.is_img);
    assert_eq!(ctx.codec, Some(ImageFormatKind::Tga));
    let mut ctx = context(default_parms());
    ctx.headers.append("Content-Type", "text/plain");
    let s = ctx.sniff(Some(b"hello"), false);
    assert_eq!(ctx.codec, None);
    assert_eq!(ctx.route(&s), BodyRoute::Passthrough);
}

#[test]
fn passthrough_success_and_partial() {
    let mut ctx = context(default_parms());
    ctx.headers.append("Content-Type", "video/mp4");
    ctx.headers.append("Cache-Control", "max-age=300");
    let r = ctx.passthrough(200);
    assert_eq!((r.status, r.body), (200, ReplyBody::Stream));
    assert_eq!(
        pairs(&ctx.headers),
        vec![
            ("content-type".to_owned(), "video/mp4".to_owned()),
            ("cache-control".to_owned(), "max-age=31536000, immutable".to_owned()),
        ]
    );
    let mut ctx = context(default_parms());
    let r = ctx.passthrough(206);
    assert_eq!((r.status, r.body), (206, ReplyBody::Stream));
}

#[test]
fn passthrough_unsafe_type_becomes_download() {
    let mut ctx = context(default_parms());
    ctx.headers.append("Content-Type", "text/html");
    ctx.headers.append("Content-Disposition", "attachment; filename=\"page.html\"");
    let r = ctx.passthrough(200);
    assert_eq!(r.status, 200);
    assert_eq!(ctx.headers.get("Content-Type"), Some(&"octet-stream".to_owned()));
    assert_eq!(
        ctx.headers.get("Content-Disposition"),
        Some(&"inline; filename=\"page.unknown\";filename*=UTF-8''page.unknown;".to_owned())
    );
}

#[test]
fn passthrough_error_statuses() {
    let expected = [(400, 400), (403, 403), (404, 404), (408, 504), (410, 410), (451, 451), (500, 502), (302, 502)];
    for (upstream, answer) in expected {
        let mut ctx = context(default_parms());
        let r = ctx.passthrough(upstream);
        assert_eq!((r.status, r.body), (answer, ReplyBody::Empty));
        assert_eq!(ctx.headers.get("X-Proxy-Error"), Some(&format!("status:{}", upstream)));
        assert_eq!(map_upstream_status(upstream), answer);
    }
    let mut ctx = context(with_fallback());
    let r = ctx.passthrough(404);
    assert_eq!((r.status, r.body), (200, ReplyBody::Dummy));
    assert_eq!(ctx.headers.get("Content-Type"), Some(&"image/png".to_owned()));
}

#[test]
fn decimal_text_formats() {
    assert_eq!(decimal_text(0), "0");
    assert_eq!(decimal_text(7), "7");
    assert_eq!(decimal_text(404), "404");
    assert_eq!(decimal_text(65535), "65535");
}

#[test]
fn download_plan_checks_length() {
    let mut ctx = context(default_parms());
    assert_eq!(ctx.download_plan(None), Ok(2048));
    assert_eq!(ctx.download_plan(Some(10)), Ok(10));
    assert_eq!(ctx.download_plan(Some(100 * 1024 * 1024)), Ok(4 * 1024 * 1024));
    assert!(pairs(&ctx.headers).is_empty());
    assert_eq!(ctx.download_plan(Some(256 * 1024 * 1024 + 1)), Err(502));
    assert_eq!(ctx.headers.get("X-Proxy-Error"), Some(&"content-too-large".to_owned()));
    let mut config = default_config();
    config.max_size = 100;
    let mut small = RequestContext { config: Arc::new(config), ..context(default_parms()) };
    assert_eq!(small.download_plan(None), Ok(100));
}

#[test]
fn download_failures_name_the_reason() {
    for (e, text) in [
        (DownloadError::TooLarge, "content-too-large"),
        (DownloadError::ReadError, "upstream-read-error"),
        (DownloadError::Timeout, "download-timeout"),
    ] {
        let mut ctx = context(default_parms());
        assert_eq!(ctx.download_failed(e), 502);
        assert_eq!(ctx.headers.get("X-Proxy-Error"), Some(&text.to_owned()));
    }
}

#[test]
fn body_buffer_never_exceeds_its_limit() {
    let mut b = BodyBuffer::new(5, 2);
    assert_eq!(b.push_chunk(b"abc"), Ok(()));
    assert_eq!(b.push_chunk(b"def"), Err(DownloadError::TooLarge));
    assert_eq!(b.push_chunk(b"de"), Ok(()));
    assert_eq!(b.push_chunk(b""), Ok(()));
    assert_eq!(b.push_chunk(b"f"), Err(DownloadError::TooLarge));
    assert_eq!(b.into_bytes(), b"abcde".to_vec());
}

#[test]
fn range_headers_dropped_before_conversion() {
    let mut ctx = context(default_parms());
    ctx.headers.append("Content-Length", "10");
    ctx.headers.append("Content-Type", "image/png");
    ctx.headers.append("Content-Range", "bytes 0-9/10");
    ctx.headers.append("Accept-Ranges", "bytes");
    ctx.drop_body_range_headers();
    assert_eq!(pairs(&ctx.headers), vec![("content-type".to_owned(), "image/png".to_owned())]);
}

#[test]
fn conversion_failures_and_fallback() {
    let mut ctx = context(default_parms());
    let r = ctx.conversion_thread_failed();
    assert_eq!((r.status, r.body), (500, ReplyBody::Empty));
    assert_eq!(ctx.headers.get("X-Proxy-Error"), Some(&"ImageEncodeThread".to_owned()));
    let mut ctx = context(with_fallback());
    ctx.headers.append("Content-Type", "image/webp");
    let r = ctx.conversion_thread_failed();
    assert_eq!((r.status, r.body), (200, ReplyBody::Dummy));
    assert_eq!(ctx.headers.get("Content-Type"), Some(&"image/png".to_owned()));
    let mut ctx = context(with_fallback());
    assert!(ctx.conversion_stands(200));
    assert!(!ctx.conversion_stands(415));
    assert_eq!(ctx.headers.get("Content-Type"), Some(&"image/png".to_owned()));
    let mut ctx = context(default_parms());
    assert!(ctx.conversion_stands(415));
    assert!(pairs(&ctx.headers).is_empty());
}

#[test]
fn initial_headers_carry_the_url() {
    let h = initial_headers("http://example.com/a.png", false);
    assert_eq!(pairs(&h), vec![("x-remote-url".to_owned(), "http://example.com/a.png".to_owned())]);
    let long = format!("http://example.com/{}", "x".repeat(600));
    let h = initial_headers(&long, true);
    assert_eq!(h.get("X-Remote-Url"), Some(&format!("{}...", &long[..512])));
    assert_eq!(h.get("Vary"), Some(&"Accept,Range".to_owned()));
}

#[test]
fn fetched_response_headers() {
    let mut remote = HeaderList::new();
    remote.append("Content-Type", "text/plain");
    remote.append("Content-Length", "12");
    remote.append("Set-Cookie", "a=1");
    remote.append("Accept-Ranges", "bytes");
    let mut config = default_config();
    config.encode_avif = true;
    let (ctx, is_img) = RequestContext::for_response(
        initial_headers("http://example.com/", false),
        &remote,
        default_parms(),
        Arc::new(config),
        Some("image/avif,*/*"),
    );
    assert!(!is_img);
    assert!(ctx.is_accept_avif);
    assert_eq!(ctx.codec, None);
    assert_eq!(
        pairs(&ctx.headers),
        vec![
            ("x-remote-url".to_owned(), "http://example.com/".to_owned()),
            ("content-type".to_owned(), "text/plain".to_owned()),
            ("content-length".to_owned(), "12".to_owned()),
            ("accept-ranges".to_owned(), "bytes".to_owned()),
            ("cache-control".to_owned(), "max-age=300".to_owned()),
            (
                "content-security-policy".to_owned(),
                "default-src 'none'; img-src 'self'; media-src 'self'; style-src 'unsafe-inline'".to_owned()
            ),
            ("access-control-allow-origin".to_owned(), "*".to_owned()),
            ("x-content-type-options".to_owned(), "nosniff".to_owned()),
        ]
    );
}

#[test]
fn fetched_image_keeps_no_length_headers() {
    let mut remote = HeaderList::new();
    remote.append("Content-Length", "12");
    remote.append("Content-Type", "image/png");
    remote.append("Content-Disposition", "inline");
    let (ctx, is_img) =
        RequestContext::for_response(HeaderList::new(), &remote, default_parms(), test_config(), Some("image/avif"));
    assert!(is_img);
    assert!(!ctx.is_accept_avif);
    assert_eq!(
        pairs(&ctx.headers),
        vec![
            ("content-disposition".to_owned(), "inline".to_owned()),
            ("content-type".to_owned(), "image/png".to_owned()),
            ("cache-control".to_owned(), "max-age=300".to_owned()),
        ]
    );
}

#[test]
fn unconverted_bodies_keep_only_safe_types() {
    let mut ctx = context(default_parms());
    ctx.headers.append("Content-Type", "image/svg+xml");
    ctx.headers.append("Content-Disposition", "inline; filename=\"x.svg\"");
    let r = ctx.serve_unconverted();
    assert_eq!((r.status, r.body), (200, ReplyBody::Loaded));
    assert_eq!(ctx.headers.get("Content-Type"), Some(&"octet-stream".to_owned()));
    assert_eq!(
        ctx.headers.get("Content-Disposition"),
        Some(&"inline; filename=\"x.unknown\";filename*=UTF-8''x.unknown;".to_owned())
    );
    let mut ctx = context(default_parms());
    ctx.headers.append("Content-Type", "image/png");
    ctx.serve_unconverted();
    assert_eq!(ctx.headers.get("Content-Type"), Some(&"image/png".to_owned()));
}
