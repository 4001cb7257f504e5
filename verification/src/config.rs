use vstd::prelude::*;
use std::sync::Arc;

verus! {

/// The resampling filter used when images are scaled down.
#[derive(Clone, Copy, Debug, PartialEq, Eq, Structural)]
pub enum FilterType {
    Nearest,
    Triangle,
    CatmullRom,
    Gaussian,
    Lanczos3,
}

/// A bounding box for one request variant; a missing side is unbounded.
#[derive(Clone, Copy, Debug, PartialEq, Eq, Structural)]
pub struct VariantSize {
    pub width: Option<u32>,
    pub height: Option<u32>,
}

/// Per-variant size overrides.
#[derive(Clone, Copy, Debug, PartialEq, Eq, Structural)]
pub struct VariantSizes {
    pub badge: Option<VariantSize>,
    pub static_image: Option<VariantSize>,
    pub emoji: Option<VariantSize>,
    pub preview: Option<VariantSize>,
    pub avatar: Option<VariantSize>,
}

impl VariantSizes {
    pub open spec fn none() -> VariantSizes {
        VariantSizes { badge: None, static_image: None, emoji: None, preview: None, avatar: None }
    }

    /// No override for any variant.
    pub fn empty() -> (r: VariantSizes)
        ensures
            r == VariantSizes::none(),
    {
        VariantSizes { badge: None, static_image: None, emoji: None, preview: None, avatar: None }
    }
}

/// The settings read from `config.json`.
///
/// `webp_quality_bits` holds the IEEE-754 bits of the WebP quality factor.
pub struct ConfigFile {
    pub bind_addr: String,
    pub timeout: u64,
    pub user_agent: String,
    pub max_size: u64,
    pub proxy: Option<String>,
    pub filter_type: FilterType,
    pub max_pixels: u32,
    pub append_headers: Vec<String>,
    pub load_system_fonts: bool,
    pub webp_quality_bits: u32,
    pub encode_avif: bool,
    pub allowed_networks: Option<Vec<String>>,
    pub blocked_networks: Option<Vec<String>>,
    pub blocked_hosts: Option<Vec<String>>,
    pub max_concurrent: u32,
    pub variant_sizes: VariantSizes,
    pub enable_transform: bool,
    pub unix_socket_permissions: Option<String>,
    pub unsafe_allow_proxy: bool,
}

/// The query parameters of a proxied request.
pub struct RequestParams {
    pub url: String,
    pub static_image: Option<String>,
    pub emoji: Option<String>,
    pub avatar: Option<String>,
    pub preview: Option<String>,
    pub badge: Option<String>,
    pub fallback: Option<String>,
}

/// IEEE-754 single-precision bits of 75.0.
pub const WEBP_QUALITY_75_BITS: u32 = 0x4296_0000u32;

/// Concurrency limit used when the configuration does not set one.
pub fn default_max_concurrent() -> (r: u32)
    ensures
        r == 64,
{
    64
}

/// The configuration written on first start.
pub fn default_config() -> (c: ConfigFile)
    ensures
        c.bind_addr@ == "0.0.0.0:12766"@,
        c.timeout == 10000,
        c.user_agent@ == "https://github.com/yojo-art/media-proxy-rs"@,
        c.max_size == 256 * 1024 * 1024,
        c.proxy is None,
        c.filter_type == FilterType::Triangle,
        c.max_pixels == 2048,
        c.append_headers@.len() == 3,
        c.append_headers@[0]@
            == "Content-Security-Policy:default-src 'none'; img-src 'self'; media-src 'self'; style-src 'unsafe-inline'"@,
        c.append_headers@[1]@ == "Access-Control-Allow-Origin:*"@,
        c.append_headers@[2]@ == "X-Content-Type-Options:nosniff"@,
        c.load_system_fonts,
        c.webp_quality_bits == WEBP_QUALITY_75_BITS,
        !c.encode_avif,
        c.allowed_networks is None,
        c.blocked_networks is None,
        c.blocked_hosts is None,
        c.max_concurrent == 64,
        c.variant_sizes == VariantSizes::none(),
        !c.enable_transform,
        c.unix_socket_permissions is None,
        !c.unsafe_allow_proxy,
{
    let mut append_headers: Vec<String> = Vec::new();
    append_headers.push(
        "Content-Security-Policy:default-src 'none'; img-src 'self'; media-src 'self'; style-src 'unsafe-inline'".to_owned(),
    );
    append_headers.push("Access-Control-Allow-Origin:*".to_owned());
    append_headers.push("X-Content-Type-Options:nosniff".to_owned());
    ConfigFile {
        bind_addr: "0.0.0.0:12766".to_owned(),
        timeout: 10000,
        user_agent: "https://github.com/yojo-art/media-proxy-rs".to_owned(),
        max_size: 256 * 1024 * 1024,
        proxy: None,
        filter_type: FilterType::Triangle,
        max_pixels: 2048,
        append_headers,
        load_system_fonts: true,
        webp_quality_bits: WEBP_QUALITY_75_BITS,
        encode_avif: false,
        allowed_networks: None,
        blocked_networks: None,
        blocked_hosts: None,
        max_concurrent: default_max_concurrent(),
        variant_sizes: VariantSizes::empty(),
        enable_transform: false,
        unix_socket_permissions: None,
        unsafe_allow_proxy: false,
    }
}

/// The fixed values of a test configuration, apart from its variant sizes.
pub open spec fn is_test_config(c: ConfigFile, vs: VariantSizes) -> bool {
    &&& c.bind_addr@ == "0.0.0.0:12766"@
    &&& c.timeout == 10000
    &&& c.user_agent@ == "test"@
    &&& c.max_size == 256 * 1024 * 1024
    &&& c.proxy is None
    &&& c.filter_type == FilterType::Triangle
    &&& c.max_pixels == 2048
    &&& c.append_headers@.len() == 0
    &&& !c.load_system_fonts
    &&& c.webp_quality_bits == WEBP_QUALITY_75_BITS
    &&& !c.encode_avif
    &&& c.allowed_networks is None
    &&& c.blocked_networks is None
    &&& c.blocked_hosts is None
    &&& c.max_concurrent == 64
    &&& c.variant_sizes == vs
    &&& !c.enable_transform
    &&& c.unix_socket_permissions is None
    &&& !c.unsafe_allow_proxy
}

/// A configuration with test values and the given variant sizes.
fn test_config_with(vs: VariantSizes) -> (c: ConfigFile)
    ensures
        is_test_config(c, vs),
{
    ConfigFile {
        bind_addr: "0.0.0.0:12766".to_owned(),
        timeout: 10000,
        user_agent: "test".to_owned(),
        max_size: 256 * 1024 * 1024,
        proxy: None,
        filter_type: FilterType::Triangle,
        max_pixels: 2048,
        append_headers: Vec::new(),
        load_system_fonts: false,
        webp_quality_bits: WEBP_QUALITY_75_BITS,
        encode_avif: false,
        allowed_networks: None,
        blocked_networks: None,
        blocked_hosts: None,
        max_concurrent: 64,
        variant_sizes: vs,
        enable_transform: false,
        unix_socket_permissions: None,
        unsafe_allow_proxy: false,
    }
}

/// The shared configuration used by request tests.
pub fn test_config() -> (c: Arc<ConfigFile>)
    ensures
        is_test_config(*c, VariantSizes::none()),
{
    Arc::new(test_config_with(VariantSizes::empty()))
}

/// The test configuration with its variant sizes replaced.
pub fn test_config_with_variant_sizes(vs: VariantSizes) -> (c: Arc<ConfigFile>)
    ensures
        is_test_config(*c, vs),
{
    Arc::new(test_config_with(vs))
}

/// Request parameters with an empty URL and no flags set.
pub fn default_parms() -> (p: RequestParams)
    ensures
        p.url@.len() == 0,
        p.static_image is None,
        p.emoji is None,
        p.avatar is None,
        p.preview is None,
        p.badge is None,
        p.fallback is None,
{
    RequestParams {
        url: String::new(),
        static_image: None,
        emoji: None,
        avatar: None,
        preview: None,
        badge: None,
        fallback: None,
    }
}

} // verus!
