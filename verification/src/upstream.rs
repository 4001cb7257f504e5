//! Preparing the response to a proxied fetch: the headers it starts with,
//! the upstream headers it keeps, and how its body is treated.

use vstd::prelude::*;
use vstd::utf8::is_char_boundary;
use vstd::string::StringSliceAdditionalSpecFns;
use std::sync::Arc;
use crate::config::{ConfigFile, RequestParams, VariantSize, VariantSizes};
use crate::text::{truncated, truncate_url};
use crate::headers::{HeaderList, appended, copied, lookup, header_name, ascii_lower, header_value_ok, is_tchar, law_copied_field, law_copied_other_field, law_appended_keeps_found};
use crate::request::{accepts_avif, accept_lists_avif, append_configured_headers, with_configured, law_configured_keeps_found};
use crate::response::{RequestContext, Sniffed, starts_with};

verus! {

/// The headers a proxied response starts with: `X-Remote-Url` holding the
/// requested URL cut to 512 bytes (when that is a valid header value) and,
/// when AVIF encoding is on, `Vary: Accept,Range`.
pub open spec fn initial_headers_of(url: &str, encode_avif: bool) -> Seq<(Seq<char>, Seq<char>)> {
    let h = appended(Seq::empty(), "X-Remote-Url"@, truncated(url, 512));
    if encode_avif {
        appended(h, "Vary"@, "Accept,Range"@)
    } else {
        h
    }
}

/// The headers a proxied response starts with.
///
/// A URL longer than 512 bytes must have a character boundary at byte 512.
pub fn initial_headers(url: &str, encode_avif: bool) -> (h: HeaderList)
    requires
        url.spec_bytes().len() <= usize::MAX,
        url.spec_bytes().len() <= 512 || is_char_boundary(url.spec_bytes(), 512),
    ensures
        h@ == initial_headers_of(url, encode_avif),
{
    let mut h = HeaderList::new();
    let shown = truncate_url(url, 512);
    h.append("X-Remote-Url", shown.as_str());
    if encode_avif {
        h.append("Vary", "Accept,Range");
    }
    h
}

/// Whether the first `Content-Type` of `h` is an `image/` type.
pub open spec fn is_image_type(h: Seq<(Seq<char>, Seq<char>)>) -> bool {
    lookup(h, "Content-Type"@) matches Some(ct) && starts_with(ct, "image/"@)
}

/// `h` with the upstream `Content-Disposition` and `Content-Type` fields.
pub open spec fn with_remote_type(h: Seq<(Seq<char>, Seq<char>)>, remote: Seq<(Seq<char>, Seq<char>)>) -> Seq<(Seq<char>, Seq<char>)> {
    copied(copied(h, remote, "Content-Disposition"@), remote, "Content-Type"@)
}

/// The headers of a fetched response before its body is seen: the upstream
/// `Content-Disposition` and `Content-Type`; for anything but an image also
/// the upstream `Content-Length`, `Content-Range` and `Accept-Ranges`; then
/// `Cache-Control: max-age=300` and the configured header lines.
pub open spec fn fetched_headers(
    h: Seq<(Seq<char>, Seq<char>)>,
    remote: Seq<(Seq<char>, Seq<char>)>,
    lines: Seq<Seq<char>>,
) -> Seq<(Seq<char>, Seq<char>)> {
    let h1 = with_remote_type(h, remote);
    let h2 = if is_image_type(h1) {
        h1
    } else {
        copied(
            copied(copied(h1, remote, "Content-Length"@), remote, "Content-Range"@),
            remote,
            "Accept-Ranges"@,
        )
    };
    with_configured(appended(h2, "Cache-Control"@, "max-age=300"@), lines)
}

/// Whether a string starts with `image/`.
fn is_image_prefix(s: &str) -> (b: bool)
    ensures
        b == starts_with(s@, "image/"@),
{
    let v = crate::text::chars_of(s);
    proof {
        reveal_strlit("image/");
    }
    if v.len() < 6 {
        return false;
    }
    let r = crate::text::slice_is(&v, 0, 6, "image/");
    r
}

/// How the body of a fetched response is treated.
#[derive(Clone, Copy, Debug, PartialEq, Eq, Structural)]
pub enum BodyRoute {
    /// Rendered as SVG.
    Svg,
    /// Converted as an image.
    Image,
    /// Passed through as it came.
    Passthrough,
}

/// SVG first; then an image, when the headers or the signature said so or a
/// codec is known; anything else passes through.
pub open spec fn route_of(is_svg: bool, is_img: bool, has_codec: bool) -> BodyRoute {
    if is_svg {
        BodyRoute::Svg
    } else if is_img || has_codec {
        BodyRoute::Image
    } else {
        BodyRoute::Passthrough
    }
}

/// A configured variant size, a missing side unbounded; `default` when the
/// variant has no configured size.
pub open spec fn variant_bounds(v: Option<VariantSize>, default: (u32, u32)) -> (u32, u32) {
    match v {
        Some(vs) => (
            match vs.width {
                Some(w) => w,
                None => u32::MAX,
            },
            match vs.height {
                Some(h) => h,
                None => u32::MAX,
            },
        ),
        None => default,
    }
}

/// The largest width and height of a converted image: the first variant
/// asked for, in the order badge, static, emoji, preview, avatar, bounds it
/// by its configured size or else by its default (badge 96x96, static
/// 498x422, emoji unbounded by 128, preview 200x200, avatar unbounded by
/// 320); with no variant, `max_pixels` both ways.
pub open spec fn size_hint(p: RequestParams, vs: VariantSizes, max_pixels: u32) -> (u32, u32) {
    if p.badge is Some {
        variant_bounds(vs.badge, (96, 96))
    } else if p.static_image is Some {
        variant_bounds(vs.static_image, (498, 422))
    } else if p.emoji is Some {
        variant_bounds(vs.emoji, (u32::MAX, 128))
    } else if p.preview is Some {
        variant_bounds(vs.preview, (200, 200))
    } else if p.avatar is Some {
        variant_bounds(vs.avatar, (u32::MAX, 320))
    } else {
        (max_pixels, max_pixels)
    }
}

fn bounds_of(v: Option<VariantSize>, default: (u32, u32)) -> (r: (u32, u32))
    ensures
        r == variant_bounds(v, default),
{
    match v {
        Some(vs) => (
            match vs.width {
                Some(w) => w,
                None => u32::MAX,
            },
            match vs.height {
                Some(h) => h,
                None => u32::MAX,
            },
        ),
        None => default,
    }
}

impl RequestContext {
    /// The context for a fetched response: `headers` are those the response
    /// started with, `remote` the upstream's, and `accept` the client's
    /// `Accept` header when it is text. Also says whether the upstream
    /// `Content-Type` is an image type.
    pub fn for_response(
        headers: HeaderList,
        remote: &HeaderList,
        parms: RequestParams,
        config: Arc<ConfigFile>,
        accept: Option<&str>,
    ) -> (r: (RequestContext, bool))
        ensures
            r.1 == is_image_type(with_remote_type(headers@, remote@)),
            r.0.headers@ == fetched_headers(
                headers@,
                remote@,
                config.append_headers@.map_values(|l: String| l@),
            ),
            r.0.is_accept_avif == (config.encode_avif && (accept matches Some(a) && accept_lists_avif(a@))),
            r.0.parms == parms,
            r.0.config == config,
            r.0.src_bytes@.len() == 0,
            r.0.codec is None,
    {
        let mut headers = headers;
        headers.copy_from(remote, "Content-Disposition");
        headers.copy_from(remote, "Content-Type");
        let is_img = match headers.get("Content-Type") {
            Some(ct) => is_image_prefix(ct.as_str()),
            None => false,
        };
        if !is_img {
            headers.copy_from(remote, "Content-Length");
            headers.copy_from(remote, "Content-Range");
            headers.copy_from(remote, "Accept-Ranges");
        }
        let is_accept_avif = accepts_avif(config.encode_avif, accept);
        headers.append("Cache-Control", "max-age=300");
        append_configured_headers(&mut headers, &config.append_headers);
        let ctx = RequestContext {
            is_accept_avif,
            headers,
            parms,
            src_bytes: Vec::new(),
            config,
            codec: None,
        };
        (ctx, is_img)
    }

    /// The largest width and height the converted image may have.
    pub fn image_size_hint(&self) -> (r: (u32, u32))
        ensures
            r == size_hint(self.parms, self.config.variant_sizes, self.config.max_pixels),
    {
        let vs = self.config.variant_sizes;
        if self.parms.badge.is_some() {
            bounds_of(vs.badge, (96, 96))
        } else if self.parms.static_image.is_some() {
            bounds_of(vs.static_image, (498, 422))
        } else if self.parms.emoji.is_some() {
            bounds_of(vs.emoji, (u32::MAX, 128))
        } else if self.parms.preview.is_some() {
            bounds_of(vs.preview, (200, 200))
        } else if self.parms.avatar.is_some() {
            bounds_of(vs.avatar, (u32::MAX, 320))
        } else {
            (self.config.max_pixels, self.config.max_pixels)
        }
    }

    /// How the body is treated after sniffing.
    pub fn route(&self, s: &Sniffed) -> (r: BodyRoute)
        ensures
            r == route_of(s.is_svg, s.is_img, self.codec is Some),
    {
        if s.is_svg {
            BodyRoute::Svg
        } else if s.is_img || self.codec.is_some() {
            BodyRoute::Image
        } else {
            BodyRoute::Passthrough
        }
    }

    /// After an image conversion answered with `status`: whether that answer
    /// stands. It stands unless a fallback was asked for and the status is
    /// not 200; then the placeholder is sent, so `Content-Type` becomes
    /// `image/png`.
    pub fn conversion_stands(&mut self, status: u16) -> (stands: bool)
        ensures
            stands == (old(self).parms.fallback is None || status == 200),
            stands ==> final(self).headers@ == old(self).headers@,
            !stands ==> final(self).headers@ == crate::response::with_content_type(
                old(self).headers@,
                "image/png"@,
            ),
            final(self).parms == old(self).parms,
            final(self).config == old(self).config,
            final(self).codec == old(self).codec,
            final(self).src_bytes == old(self).src_bytes,
            final(self).is_accept_avif == old(self).is_accept_avif,
    {
        if self.parms.fallback.is_none() || status == 200 {
            true
        } else {
            Self::set_content_type(&mut self.headers, "image/png");
            false
        }
    }
}

proof fn lemma_fetch_header_names()
    ensures
        header_name("Content-Type"@) is Some,
        header_name("Content-Disposition"@) is Some,
        header_name("Content-Length"@) is Some,
        header_name("Content-Range"@) is Some,
        header_name("Accept-Ranges"@) is Some,
        header_name("Cache-Control"@) is Some,
        header_name("Content-Type"@) != header_name("Content-Disposition"@),
        header_name("Content-Length"@) != header_name("Content-Type"@),
        header_name("Content-Length"@) != header_name("Content-Disposition"@),
        header_name("Content-Length"@) != header_name("Content-Range"@),
        header_name("Content-Length"@) != header_name("Accept-Ranges"@),
        header_name("Content-Range"@) != header_name("Content-Type"@),
        header_name("Content-Range"@) != header_name("Content-Disposition"@),
        header_name("Content-Range"@) != header_name("Accept-Ranges"@),
        header_name("Accept-Ranges"@) != header_name("Content-Type"@),
        header_name("Accept-Ranges"@) != header_name("Content-Disposition"@),
{
    reveal_strlit("Content-Type");
    reveal_strlit("Content-Disposition");
    reveal_strlit("Content-Length");
    reveal_strlit("Content-Range");
    reveal_strlit("Accept-Ranges");
    reveal_strlit("Cache-Control");
    let ct = "Content-Type"@;
    let cd = "Content-Disposition"@;
    let cl = "Content-Length"@;
    let cr = "Content-Range"@;
    let ar = "Accept-Ranges"@;
    let cc = "Cache-Control"@;
    assert forall|i: int| 0 <= i < ct.len() implies is_tchar(#[trigger] ct[i]) by {}
    assert forall|i: int| 0 <= i < cd.len() implies is_tchar(#[trigger] cd[i]) by {}
    assert forall|i: int| 0 <= i < cl.len() implies is_tchar(#[trigger] cl[i]) by {}
    assert forall|i: int| 0 <= i < cr.len() implies is_tchar(#[trigger] cr[i]) by {}
    assert forall|i: int| 0 <= i < ar.len() implies is_tchar(#[trigger] ar[i]) by {}
    assert forall|i: int| 0 <= i < cc.len() implies is_tchar(#[trigger] cc[i]) by {}
    let nct = header_name(ct)->Some_0;
    let ncd = header_name(cd)->Some_0;
    let ncl = header_name(cl)->Some_0;
    let ncr = header_name(cr)->Some_0;
    let nar = header_name(ar)->Some_0;
    assert(nct.len() == 12 && ncd.len() == 19 && ncl.len() == 14 && ncr.len() == 13 && nar.len() == 13);
    assert(ncr[0] == 'c' && nar[0] == 'a');
}

/// For a fetched response whose upstream `Content-Type` is not an image
/// type, the upstream `Content-Length`, `Content-Range` and `Accept-Ranges`
/// reach the response: when the upstream list (with valid values) has one,
/// the response's first such field is the upstream's first, whatever
/// header lines are configured. The starting headers must hold none of
/// these fields, as `initial_headers` gives.
pub proof fn law_fetched_keeps_range_fields(
    h: Seq<(Seq<char>, Seq<char>)>,
    remote: Seq<(Seq<char>, Seq<char>)>,
    lines: Seq<Seq<char>>,
)
    requires
        lookup(h, "Content-Type"@) is None,
        lookup(h, "Content-Length"@) is None,
        lookup(h, "Content-Range"@) is None,
        lookup(h, "Accept-Ranges"@) is None,
        forall|i: int| 0 <= i < remote.len() ==> header_value_ok(#[trigger] remote[i].1),
        !(lookup(remote, "Content-Type"@) matches Some(ct) && starts_with(ct, "image/"@)),
    ensures
        lookup(remote, "Content-Length"@) is Some ==> lookup(fetched_headers(h, remote, lines), "Content-Length"@)
            == lookup(remote, "Content-Length"@),
        lookup(remote, "Content-Range"@) is Some ==> lookup(fetched_headers(h, remote, lines), "Content-Range"@)
            == lookup(remote, "Content-Range"@),
        lookup(remote, "Accept-Ranges"@) is Some ==> lookup(fetched_headers(h, remote, lines), "Accept-Ranges"@)
            == lookup(remote, "Accept-Ranges"@),
{
    lemma_fetch_header_names();
    let ct = "Content-Type"@;
    let cd = "Content-Disposition"@;
    let cl = "Content-Length"@;
    let cr = "Content-Range"@;
    let ar = "Accept-Ranges"@;
    let ha = copied(h, remote, cd);
    let h1 = copied(ha, remote, ct);
    law_copied_other_field(h, remote, cd, ct);
    law_copied_field(ha, remote, ct);
    assert(!is_image_type(h1));
    // each range field: absent before, then copied, then kept
    law_copied_other_field(h, remote, cd, cl);
    law_copied_other_field(ha, remote, ct, cl);
    law_copied_other_field(h, remote, cd, cr);
    law_copied_other_field(ha, remote, ct, cr);
    law_copied_other_field(h, remote, cd, ar);
    law_copied_other_field(ha, remote, ct, ar);
    let hb = copied(h1, remote, cl);
    let hc = copied(hb, remote, cr);
    let h2 = copied(hc, remote, ar);
    law_copied_field(h1, remote, cl);
    law_copied_other_field(h1, remote, cl, cr);
    law_copied_other_field(h1, remote, cl, ar);
    law_copied_field(hb, remote, cr);
    law_copied_other_field(hb, remote, cr, cl);
    law_copied_other_field(hb, remote, cr, ar);
    law_copied_field(hc, remote, ar);
    law_copied_other_field(hc, remote, ar, cl);
    law_copied_other_field(hc, remote, ar, cr);
    let h3 = appended(h2, "Cache-Control"@, "max-age=300"@);
    if lookup(remote, cl) is Some {
        law_appended_keeps_found(h2, "Cache-Control"@, "max-age=300"@, cl);
        law_configured_keeps_found(h3, lines, cl);
    }
    if lookup(remote, cr) is Some {
        law_appended_keeps_found(h2, "Cache-Control"@, "max-age=300"@, cr);
        law_configured_keeps_found(h3, lines, cr);
    }
    if lookup(remote, ar) is Some {
        law_appended_keeps_found(h2, "Cache-Control"@, "max-age=300"@, ar);
        law_configured_keeps_found(h3, lines, ar);
    }
}

/// The headers a proxied response starts with hold no `Content-Type`,
/// `Content-Length`, `Content-Range` or `Accept-Ranges`, so those of a
/// fetched response come from the upstream (see
/// `law_fetched_keeps_range_fields`).
pub proof fn law_initial_headers_hold_no_body_fields(url: &str, encode_avif: bool, name: Seq<char>)
    requires
        name == "Content-Type"@ || name == "Content-Length"@ || name == "Content-Range"@ || name
            == "Accept-Ranges"@,
    ensures
        lookup(initial_headers_of(url, encode_avif), name) is None,
{
    lemma_fetch_header_names();
    reveal_strlit("X-Remote-Url");
    reveal_strlit("Vary");
    let xr = "X-Remote-Url"@;
    let va = "Vary"@;
    assert forall|i: int| 0 <= i < xr.len() implies is_tchar(#[trigger] xr[i]) by {}
    assert forall|i: int| 0 <= i < va.len() implies is_tchar(#[trigger] va[i]) by {}
    assert(header_name(xr)->Some_0[0] == 'x');
    assert(header_name(va)->Some_0.len() == 4);
    reveal_strlit("Content-Type");
    reveal_strlit("Content-Length");
    reveal_strlit("Content-Range");
    reveal_strlit("Accept-Ranges");
    assert(header_name(name)->Some_0[0] == ascii_lower(name[0]));
    assert(name[0] == 'C' || name[0] == 'A');
    assert(header_name(name)->Some_0.len() == name.len());
    assert(name.len() >= 12);
    let e = Seq::<(Seq<char>, Seq<char>)>::empty();
    crate::headers::law_other_fields_kept(e, xr, crate::text::truncated(url, 512), name);
    let h = appended(e, xr, crate::text::truncated(url, 512));
    crate::headers::law_other_fields_kept(h, va, "Accept,Range"@, name);
}

} // verus!
