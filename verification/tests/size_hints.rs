use media_proxy_rs::config::{default_parms, test_config, test_config_with_variant_sizes, ConfigFile, RequestParams, VariantSize, VariantSizes};
use media_proxy_rs::headers::HeaderList;
use media_proxy_rs::response::RequestContext;
use std::sync::Arc;

fn test_request_context_with_config(parms: RequestParams, config: Arc<ConfigFile>) -> RequestContext {
    RequestContext { is_accept_avif: false, headers: HeaderList::new(), parms, src_bytes: Vec::new(), config, codec: None }
}

fn test_request_context(parms: RequestParams) -> RequestContext {
    test_request_context_with_config(parms, test_config())
}

#[test]
fn test_image_size_hint_badge() {
    let mut parms = default_parms();
    parms.badge = Some("1".to_owned());
    let ctx = test_request_context(parms);
    assert_eq!(ctx.image_size_hint(), (96, 96));
}

#[test]
fn test_image_size_hint_static() {
    let mut parms = default_parms();
    parms.static_image = Some("1".to_owned());
    let ctx = test_request_context(parms);
    assert_eq!(ctx.image_size_hint(), (498, 422));
}

#[test]
fn test_image_size_hint_emoji() {
    let mut parms = default_parms();
    parms.emoji = Some("1".to_owned());
    let ctx = test_request_context(parms);
    assert_eq!(ctx.image_size_hint(), (u32::MAX, 128));
}

#[test]
fn test_image_size_hint_preview() {
    let mut parms = default_parms();
    parms.preview = Some("1".to_owned());
    let ctx = test_request_context(parms);
    assert_eq!(ctx.image_size_hint(), (200, 200));
}

#[test]
fn test_image_size_hint_avatar() {
    let mut parms = default_parms();
    parms.avatar = Some("1".to_owned());
    let ctx = test_request_context(parms);
    assert_eq!(ctx.image_size_hint(), (u32::MAX, 320));
}

#[test]
fn test_image_size_hint_default() {
    let ctx = test_request_context(default_parms());
    assert_eq!(ctx.image_size_hint(), (2048, 2048));
}

#[test]
fn test_image_size_hint_badge_priority() {
    let mut parms = default_parms();
    parms.badge = Some("1".to_owned());
    parms.emoji = Some("1".to_owned());
    let ctx = test_request_context(parms);
    assert_eq!(ctx.image_size_hint(), (96, 96));
}

#[test]
fn test_image_size_hint_custom_badge() {
    let vs = VariantSizes { badge: Some(VariantSize { width: Some(64), height: Some(64) }), ..VariantSizes::empty() };
    let mut parms = default_parms();
    parms.badge = Some("1".to_owned());
    let ctx = test_request_context_with_config(parms, test_config_with_variant_sizes(vs));
    assert_eq!(ctx.image_size_hint(), (64, 64));
}

#[test]
fn test_image_size_hint_custom_avatar_null_width() {
    let vs = VariantSizes { avatar: Some(VariantSize { width: None, height: Some(256) }), ..VariantSizes::empty() };
    let mut parms = default_parms();
    parms.avatar = Some("1".to_owned());
    let ctx = test_request_context_with_config(parms, test_config_with_variant_sizes(vs));
    assert_eq!(ctx.image_size_hint(), (u32::MAX, 256));
}

#[test]
fn test_image_size_hint_custom_emoji() {
    let vs = VariantSizes { emoji: Some(VariantSize { width: Some(64), height: Some(64) }), ..VariantSizes::empty() };
    let mut parms = default_parms();
    parms.emoji = Some("1".to_owned());
    let ctx = test_request_context_with_config(parms, test_config_with_variant_sizes(vs));
    assert_eq!(ctx.image_size_hint(), (64, 64));
}

#[test]
fn test_image_size_hint_custom_preview() {
    let vs = VariantSizes { preview: Some(VariantSize { width: Some(400), height: Some(400) }), ..VariantSizes::empty() };
    let mut parms = default_parms();
    parms.preview = Some("1".to_owned());
    let ctx = test_request_context_with_config(parms, test_config_with_variant_sizes(vs));
    assert_eq!(ctx.image_size_hint(), (400, 400));
}

#[test]
fn test_image_size_hint_custom_static() {
    let vs = VariantSizes { static_image: Some(VariantSize { width: Some(1024), height: Some(768) }), ..VariantSizes::empty() };
    let mut parms = default_parms();
    parms.static_image = Some("1".to_owned());
    let ctx = test_request_context_with_config(parms, test_config_with_variant_sizes(vs));
    assert_eq!(ctx.image_size_hint(), (1024, 768));
}

#[test]
fn custom_sizes_apply_only_to_their_variant() {
    let vs = VariantSizes { emoji: Some(VariantSize { width: Some(64), height: None }), ..VariantSizes::empty() };
    let mut parms = default_parms();
    parms.preview = Some("1".to_owned());
    let ctx = test_request_context_with_config(parms, test_config_with_variant_sizes(vs));
    assert_eq!(ctx.image_size_hint(), (200, 200));
    let mut parms = default_parms();
    parms.emoji = Some("1".to_owned());
    let ctx = test_request_context_with_config(parms, test_config_with_variant_sizes(vs));
    assert_eq!(ctx.image_size_hint(), (64, u32::MAX));
}
