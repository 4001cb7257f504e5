use media_proxy_rs::browsersafe::{is_browser_safe, FILE_TYPE_BROWSERSAFE};
use media_proxy_rs::disposition::rewrite_disposition;
use media_proxy_rs::headers::HeaderList;
use media_proxy_rs::request::{accept_has_avif, accepts_avif, append_configured_headers, split_header_line};
use media_proxy_rs::response::RequestContext;
use media_proxy_rs::text::truncate_url;

fn pairs(h: &HeaderList) -> Vec<(String, String)> {
    h.entries().clone()
}

#[test]
fn test_truncate_url() {
    assert_eq!(truncate_url("short", 10), "short");
    assert_eq!(truncate_url("a]long-string-here", 5), "a]lon...");
}

#[test]
fn truncate_url_keeps_exact_fit_and_multibyte_boundaries() {
    assert_eq!(truncate_url("12345", 5), "12345");
    assert_eq!(truncate_url("ab\u{3042}cd", 5), "ab\u{3042}...");
    assert_eq!(truncate_url("", 0), "");
}

#[test]
fn test_browsersafe_contains_expected_types() {
    assert!(FILE_TYPE_BROWSERSAFE.contains(&"audio/opus"));
    assert!(FILE_TYPE_BROWSERSAFE.contains(&"video/mp4"));
    assert!(FILE_TYPE_BROWSERSAFE.contains(&"audio/mpeg"));
    assert!(FILE_TYPE_BROWSERSAFE.contains(&"video/webm"));
    assert!(FILE_TYPE_BROWSERSAFE.contains(&"audio/flac"));
    assert!(FILE_TYPE_BROWSERSAFE.contains(&"audio/wav"));
}

#[test]
fn test_browsersafe_excludes_dangerous_types() {
    assert!(!FILE_TYPE_BROWSERSAFE.contains(&"text/html"));
    assert!(!FILE_TYPE_BROWSERSAFE.contains(&"application/javascript"));
    assert!(!FILE_TYPE_BROWSERSAFE.contains(&"text/xml"));
    assert!(!FILE_TYPE_BROWSERSAFE.contains(&"image/svg+xml"));
}

#[test]
fn browser_safe_lookup_is_exact() {
    assert!(is_browser_safe("image/png"));
    assert!(is_browser_safe("audio/vnd.wave"));
    assert!(!is_browser_safe("IMAGE/PNG"));
    assert!(!is_browser_safe("image/png; charset=x"));
    assert!(!is_browser_safe("octet-stream"));
}

#[test]
fn header_names_are_normalized_and_invalid_fields_skipped() {
    let mut h = HeaderList::new();
    assert!(h.append("Content-Type", "image/png"));
    assert!(!h.append("Bad Name", "x"));
    assert!(!h.append("X-Test", "line\nbreak"));
    assert!(!h.append("", "x"));
    assert!(h.append("X-Test", "caf\u{e9}\tok"));
    assert_eq!(
        pairs(&h),
        vec![
            ("content-type".to_owned(), "image/png".to_owned()),
            ("x-test".to_owned(), "caf\u{e9}\tok".to_owned()),
        ]
    );
    assert_eq!(h.get("CONTENT-TYPE"), Some(&"image/png".to_owned()));
    assert_eq!(h.get("bad name"), None);
}

#[test]
fn header_get_returns_first_and_remove_drops_all() {
    let mut h = HeaderList::new();
    h.append("Vary", "Accept");
    h.append("X-A", "1");
    h.append("vary", "Range");
    assert_eq!(h.get("Vary"), Some(&"Accept".to_owned()));
    h.remove("VARY");
    assert_eq!(h.get("Vary"), None);
    assert_eq!(pairs(&h), vec![("x-a".to_owned(), "1".to_owned())]);
    h.remove("not a name");
    assert_eq!(pairs(&h).len(), 1);
}

#[test]
fn copy_from_keeps_order_of_matching_fields() {
    let mut remote = HeaderList::new();
    remote.append("Content-Type", "text/plain");
    remote.append("Set-Cookie", "a=1");
    remote.append("content-type", "text/html");
    let mut h = HeaderList::new();
    h.append("X-Remote-Url", "http://example.com/");
    h.copy_from(&remote, "Content-Type");
    assert_eq!(
        pairs(&h),
        vec![
            ("x-remote-url".to_owned(), "http://example.com/".to_owned()),
            ("content-type".to_owned(), "text/plain".to_owned()),
            ("content-type".to_owned(), "text/html".to_owned()),
        ]
    );
}

#[test]
fn replaced_header_is_read_back() {
    let mut h = HeaderList::new();
    h.append("Content-Type", "text/html");
    h.append("Content-Type", "text/plain");
    h.append("Cache-Control", "max-age=300");
    RequestContext::set_content_type(&mut h, "image/png");
    assert_eq!(h.get("content-type"), Some(&"image/png".to_owned()));
    assert_eq!(h.get("cache-control"), Some(&"max-age=300".to_owned()));
}

#[test]
fn accept_header_lists_avif() {
    assert!(accept_has_avif("image/avif,image/webp,*/*"));
    assert!(accept_has_avif("image/webp, image/avif;q=0.9"));
    assert!(accept_has_avif("  image/avif ; q=1"));
    assert!(!accept_has_avif("image/avifx,image/webp"));
    assert!(!accept_has_avif("image/*"));
    assert!(!accept_has_avif(""));
    assert!(accepts_avif(true, Some("image/avif")));
    assert!(!accepts_avif(false, Some("image/avif")));
    assert!(!accepts_avif(true, None));
}

#[test]
fn configured_header_lines() {
    assert_eq!(
        split_header_line("Access-Control-Allow-Origin:*"),
        Some(("Access-Control-Allow-Origin".to_owned(), "*".to_owned()))
    );
    assert_eq!(split_header_line("X-A:b:c"), Some(("X-A".to_owned(), "b:c".to_owned())));
    assert_eq!(split_header_line("X-A:"), None);
    assert_eq!(split_header_line("no colon"), None);
    let mut h = HeaderList::new();
    let lines = vec![
        "X-Content-Type-Options:nosniff".to_owned(),
        "broken".to_owned(),
        "Bad Name:v".to_owned(),
        ":empty-name".to_owned(),
        "X-B: spaced".to_owned(),
    ];
    append_configured_headers(&mut h, &lines);
    assert_eq!(
        pairs(&h),
        vec![
            ("x-content-type-options".to_owned(), "nosniff".to_owned()),
            ("x-b".to_owned(), " spaced".to_owned()),
        ]
    );
}

#[test]
fn disposition_gets_new_extension() {
    assert_eq!(
        rewrite_disposition("attachment; filename=\"photo.JPG\"", ".unknown"),
        "inline; filename=\"photo.unknown\";filename*=UTF-8''photo.unknown;"
    );
    assert_eq!(
        rewrite_disposition("attachment; filename*=utf-8''%E3%81%82.txt", ".webp"),
        "inline; filename=\"%E3%81%82.webp\";filename*=UTF-8''%E3%81%82.webp;"
    );
    assert_eq!(
        rewrite_disposition("inline", ".png"),
        "inline; filename=\".png\";filename*=UTF-8''.png;"
    );
    assert_eq!(
        rewrite_disposition("attachment; filename=\"fallback.txt\"; filename*=utf-8''%E3%81%84.txt", ".webp"),
        "inline; filename=\"%E3%81%84.webp\";filename*=UTF-8''%E3%81%84.webp;"
    );
    assert_eq!(
        rewrite_disposition("attachment; filename=\"a b.tar.gz\"", ".x"),
        "inline; filename=\"a%20b.tar.x\";filename*=UTF-8''a%20b.tar.x;"
    );
    assert_eq!(
        rewrite_disposition("attachment; name=\"noext\"", ".png"),
        "inline; filename=\".png\";filename*=UTF-8''.png;"
    );
}

#[test]
fn disposition_ext_only_touches_existing_disposition() {
    let mut h = HeaderList::new();
    h.append("Content-Type", "text/html");
    RequestContext::disposition_ext(&mut h, ".unknown");
    assert_eq!(pairs(&h), vec![("content-type".to_owned(), "text/html".to_owned())]);
    h.append("Content-Disposition", "attachment; filename=\"evil.html\"");
    h.append("X-After", "1");
    RequestContext::disposition_ext(&mut h, ".unknown");
    assert_eq!(
        pairs(&h),
        vec![
            ("content-type".to_owned(), "text/html".to_owned()),
            ("x-after".to_owned(), "1".to_owned()),
            (
                "content-disposition".to_owned(),
                "inline; filename=\"evil.unknown\";filename*=UTF-8''evil.unknown;".to_owned()
            ),
        ]
    );
}
