//! The decisions that shape a proxied response: content sniffing, header
//! rewriting, status mapping and the size limit on downloaded bodies.

use vstd::prelude::*;
use vstd::utf8::{valid_utf8, decode_utf8};
use std::sync::Arc;
use crate::config::{ConfigFile, RequestParams};
use crate::text::{trim, chars_of, trim_bounds, slice_is, same_text};
use crate::headers::{HeaderList, lookup, removed, appended};
use crate::browsersafe::{browser_safe, is_browser_safe, FILE_TYPE_BROWSERSAFE};
use crate::disposition::{disposition_ext_result, rewrite_disposition, disposition_with_ext};

verus! {

/// An image container format, as `image::ImageFormat` names them.
#[derive(Clone, Copy, Debug, PartialEq, Eq, Structural)]
pub enum ImageFormatKind {
    Png,
    Jpeg,
    Gif,
    WebP,
    Pnm,
    Tiff,
    Tga,
    Dds,
    Bmp,
    Ico,
    Hdr,
    OpenExr,
    Farbfeld,
    Avif,
    Qoi,
    Pcx,
    Other,
}

/// The `Debug` name of the format `image::guess_format` finds from the
/// leading bytes (`Png`, `Jpeg`, ...), or `None` when it finds none.
pub uninterp spec fn guessed_format_name(bytes: Seq<u8>) -> Option<Seq<char>>;

/// `image::guess_format`, with the format given by its variant name.
#[verifier::external_body]
fn guess_format_name(bytes: &[u8]) -> (r: Option<String>)
    ensures
        crate::urlparts::opt_view(r) == guessed_format_name(bytes@),
{
    image::guess_format(bytes).ok().map(|f| format!("{:?}", f))
}

/// The format an `image::ImageFormat` variant name stands for.
pub open spec fn format_kind_of(name: Seq<char>) -> ImageFormatKind {
    if name == "Png"@ {
        ImageFormatKind::Png
    } else if name == "Jpeg"@ {
        ImageFormatKind::Jpeg
    } else if name == "Gif"@ {
        ImageFormatKind::Gif
    } else if name == "WebP"@ {
        ImageFormatKind::WebP
    } else if name == "Pnm"@ {
        ImageFormatKind::Pnm
    } else if name == "Tiff"@ {
        ImageFormatKind::Tiff
    } else if name == "Tga"@ {
        ImageFormatKind::Tga
    } else if name == "Dds"@ {
        ImageFormatKind::Dds
    } else if name == "Bmp"@ {
        ImageFormatKind::Bmp
    } else if name == "Ico"@ {
        ImageFormatKind::Ico
    } else if name == "Hdr"@ {
        ImageFormatKind::Hdr
    } else if name == "OpenExr"@ {
        ImageFormatKind::OpenExr
    } else if name == "Farbfeld"@ {
        ImageFormatKind::Farbfeld
    } else if name == "Avif"@ {
        ImageFormatKind::Avif
    } else if name == "Qoi"@ {
        ImageFormatKind::Qoi
    } else if name == "Pcx"@ {
        ImageFormatKind::Pcx
    } else {
        ImageFormatKind::Other
    }
}

/// The format guessed from the leading bytes, if any.
pub open spec fn guessed_format(bytes: Seq<u8>) -> Option<ImageFormatKind> {
    match guessed_format_name(bytes) {
        Some(n) => Some(format_kind_of(n)),
        None => None,
    }
}

/// The format a variant name stands for.
pub fn format_kind(name: &str) -> (k: ImageFormatKind)
    ensures
        k == format_kind_of(name@),
{
    if same_text(name, "Png") {
        ImageFormatKind::Png
    } else if same_text(name, "Jpeg") {
        ImageFormatKind::Jpeg
    } else if same_text(name, "Gif") {
        ImageFormatKind::Gif
    } else if same_text(name, "WebP") {
        ImageFormatKind::WebP
    } else if same_text(name, "Pnm") {
        ImageFormatKind::Pnm
    } else if same_text(name, "Tiff") {
        ImageFormatKind::Tiff
    } else if same_text(name, "Tga") {
        ImageFormatKind::Tga
    } else if same_text(name, "Dds") {
        ImageFormatKind::Dds
    } else if same_text(name, "Bmp") {
        ImageFormatKind::Bmp
    } else if same_text(name, "Ico") {
        ImageFormatKind::Ico
    } else if same_text(name, "Hdr") {
        ImageFormatKind::Hdr
    } else if same_text(name, "OpenExr") {
        ImageFormatKind::OpenExr
    } else if same_text(name, "Farbfeld") {
        ImageFormatKind::Farbfeld
    } else if same_text(name, "Avif") {
        ImageFormatKind::Avif
    } else if same_text(name, "Qoi") {
        ImageFormatKind::Qoi
    } else if same_text(name, "Pcx") {
        ImageFormatKind::Pcx
    } else {
        ImageFormatKind::Other
    }
}

/// The format `image::guess_format` finds from the leading bytes, if any.
pub fn guess_image_format(bytes: &[u8]) -> (r: Option<ImageFormatKind>)
    ensures
        r == guessed_format(bytes@),
{
    match guess_format_name(bytes) {
        Some(n) => Some(format_kind(n.as_str())),
        None => None,
    }
}

/// `std::str::from_utf8`: the text when `bytes` are valid UTF-8.
#[verifier::external_body]
pub(crate) fn utf8_text(bytes: &[u8]) -> (r: Option<String>)
    ensures
        r is Some <==> valid_utf8(bytes@),
        r matches Some(s) ==> s@ == decode_utf8(bytes@),
{
    std::str::from_utf8(bytes).ok().map(|s| s.to_owned())
}

/// Whether `s` starts with `p`.
pub open spec fn starts_with<T>(s: Seq<T>, p: Seq<T>) -> bool {
    p.len() <= s.len() && s.subrange(0, p.len() as int) == p
}

/// Whether `bytes` are UTF-8 text that, trimmed, begins with `<svg`.
pub open spec fn looks_like_svg(bytes: Seq<u8>) -> bool {
    valid_utf8(bytes) && starts_with(trim(decode_utf8(bytes)), "<svg"@)
}

/// Whether `bytes` look like an SVG document.
pub fn is_svg_text(bytes: &[u8]) -> (b: bool)
    ensures
        b == looks_like_svg(bytes@),
{
    match utf8_text(bytes) {
        Some(s) => {
            let v = chars_of(s.as_str());
            let (a, e) = trim_bounds(&v, 0, v.len());
            assert(v@.subrange(0, v@.len() as int) =~= v@);
            if e - a < 4 {
                assert("<svg"@.len() == 4) by {
                    reveal_strlit("<svg");
                }
                return false;
            }
            let r = slice_is(&v, a, a + 4, "<svg");
            assert(v@.subrange(a as int, e as int).subrange(0, 4) =~= v@.subrange(a as int, a + 4));
            assert("<svg"@.len() == 4) by {
                reveal_strlit("<svg");
            }
            r
        },
        None => false,
    }
}

/// Whether `bytes` starts with the byte string `p`.
fn has_prefix(bytes: &[u8], p: &[u8]) -> (b: bool)
    ensures
        b == starts_with(bytes@, p@),
{
    if p.len() > bytes.len() {
        return false;
    }
    let mut i: usize = 0;
    while i < p.len()
        invariant
            p@.len() <= bytes@.len(),
            i <= p@.len(),
            forall|j: int| 0 <= j < i ==> bytes@[j] == p@[j],
        decreases p@.len() - i,
    {
        if bytes[i] != p[i] {
            assert(bytes@.subrange(0, p@.len() as int)[i as int] != p@[i as int]);
            return false;
        }
        i += 1;
    }
    assert(bytes@.subrange(0, p@.len() as int) =~= p@);
    true
}

/// JPEG XL codestream and container signatures.
pub open spec fn jxl_signature(b: Seq<u8>) -> bool {
    starts_with(b, seq![0xFFu8, 0x0Au8]) || starts_with(
        b,
        seq![0x00u8, 0x00u8, 0x00u8, 0x0Cu8, 0x4Au8, 0x58u8, 0x4Cu8, 0x20u8, 0x0Du8, 0x0Au8, 0x87u8, 0x0Au8],
    )
}

/// JPEG 2000 codestream and container signatures.
pub open spec fn jp2_signature(b: Seq<u8>) -> bool {
    starts_with(b, seq![0xFFu8, 0x4Fu8, 0xFFu8, 0x51u8]) || starts_with(
        b,
        seq![0x00u8, 0x00u8, 0x00u8, 0x0Cu8, 0x6Au8, 0x50u8, 0x20u8, 0x20u8, 0x0Du8, 0x0Au8, 0x87u8, 0x0Au8],
    )
}

/// JPEG XR signature.
pub open spec fn jxr_signature(b: Seq<u8>) -> bool {
    starts_with(b, seq![0x49u8, 0x49u8, 0xBCu8])
}

/// The list with its `Content-Type` replaced by `v`.
pub open spec fn with_content_type(h: Seq<(Seq<char>, Seq<char>)>, v: Seq<char>) -> Seq<(Seq<char>, Seq<char>)> {
    appended(removed(h, "Content-Type"@), "Content-Type"@, v)
}

/// The state of one proxied request: what it asked for and the response
/// being built.
pub struct RequestContext {
    pub is_accept_avif: bool,
    pub headers: HeaderList,
    pub parms: RequestParams,
    pub src_bytes: Vec<u8>,
    pub config: Arc<ConfigFile>,
    pub codec: Option<ImageFormatKind>,
}

/// What sniffing the first bytes of a response decided.
pub struct Sniffed {
    pub is_svg: bool,
    pub is_img: bool,
}

/// Sniffing as a function of the headers, the first chunk of the body (when
/// it arrived), the earlier image flag and the earlier codec: the SVG flag,
/// the image flag, the codec and the headers afterwards.
///
/// A `Content-Type` of `image/svg+xml`, or a first chunk that is text
/// beginning with `<svg`, marks SVG. Otherwise the codec is guessed from the
/// first chunk; when no format is recognised, a TGA `Content-Type` selects
/// TGA, and JPEG XL, JPEG 2000 and JPEG XR signatures mark an image and set
/// the matching `Content-Type`.
pub open spec fn sniff_outcome(
    h: Seq<(Seq<char>, Seq<char>)>,
    head: Option<Seq<u8>>,
    is_img: bool,
    codec: Option<ImageFormatKind>,
) -> (bool, bool, Option<ImageFormatKind>, Seq<(Seq<char>, Seq<char>)>) {
    let ct = lookup(h, "Content-Type"@);
    let svg_type = ct == Some("image/svg+xml"@);
    match head {
        None => (svg_type, is_img, codec, h),
        Some(b) => if looks_like_svg(b) {
            (true, is_img, codec, h)
        } else if guessed_format(b) is Some {
            (svg_type, is_img, guessed_format(b), h)
        } else {
            let tga = !svg_type && (ct == Some("image/x-targa"@) || ct == Some("image/x-tga"@));
            let h1 = if jxl_signature(b) { with_content_type(h, "image/jxl"@) } else { h };
            let h2 = if jp2_signature(b) { with_content_type(h1, "image/jp2"@) } else { h1 };
            let h3 = if jxr_signature(b) { with_content_type(h2, "image/jxr"@) } else { h2 };
            (
                svg_type,
                is_img || jxl_signature(b) || jp2_signature(b) || jxr_signature(b),
                if tga { Some(ImageFormatKind::Tga) } else { None },
                h3,
            )
        },
    }
}

/// How the body of a passed-through response is produced.
#[derive(Clone, Copy, Debug, PartialEq, Eq, Structural)]
pub enum ReplyBody {
    /// The upstream body, streamed.
    Stream,
    /// The placeholder image.
    Dummy,
    /// No body.
    Empty,
    /// The downloaded upstream body, as it came.
    Loaded,
}

/// The status and body of a passed-through response; the headers are the
/// context's.
pub struct Reply {
    pub status: u16,
    pub body: ReplyBody,
}

/// The decimal digits of `n`.
pub open spec fn decimal(n: nat) -> Seq<char>
    decreases n,
{
    if n < 10 {
        seq![(('0' as u32) + n) as char]
    } else {
        decimal(n / 10) + seq![(('0' as u32) + (n % 10)) as char]
    }
}

/// The decimal text of `n`.
pub fn decimal_text(n: u16) -> (s: String)
    ensures
        s@ == decimal(n as nat),
    decreases n,
{
    let d: u16 = n % 10;
    let c: char = if d == 0 { '0' } else if d == 1 { '1' } else if d == 2 { '2' } else if d == 3 {
        '3'
    } else if d == 4 { '4' } else if d == 5 { '5' } else if d == 6 { '6' } else if d == 7 {
        '7'
    } else if d == 8 { '8' } else { '9' };
    assert(c == (('0' as u32) + (n % 10) as nat) as char);
    if n < 10 {
        let mut s = String::new();
        crate::text::push_char(&mut s, c);
        assert(s@ =~= decimal(n as nat));
        s
    } else {
        let mut s = decimal_text(n / 10);
        crate::text::push_char(&mut s, c);
        s
    }
}

/// The status the proxy answers with when the upstream answered `status`
/// without success: 400, 403, 404, 410 and 451 are kept, 408 becomes 504,
/// anything else 502.
pub open spec fn mapped_status(status: u16) -> u16 {
    if status == 400 {
        400
    } else if status == 403 {
        403
    } else if status == 404 {
        404
    } else if status == 408 {
        504
    } else if status == 410 {
        410
    } else if status == 451 {
        451
    } else {
        502
    }
}

/// The error status for an unsuccessful upstream `status`.
pub fn map_upstream_status(status: u16) -> (r: u16)
    ensures
        r == mapped_status(status),
{
    if status == 400 {
        400
    } else if status == 403 {
        403
    } else if status == 404 {
        404
    } else if status == 408 {
        504
    } else if status == 410 {
        410
    } else if status == 451 {
        451
    } else {
        502
    }
}

/// The headers of a passed-through (non-image) response before its status
/// is considered: a `Content-Type` that is not browser-safe becomes
/// `octet-stream` and the download is renamed to `.unknown`.
pub open spec fn passthrough_headers(h: Seq<(Seq<char>, Seq<char>)>) -> Seq<(Seq<char>, Seq<char>)> {
    match lookup(h, "Content-Type"@) {
        Some(ct) => if browser_safe(ct) {
            h
        } else {
            disposition_ext_result(with_content_type(h, "octet-stream"@), ".unknown"@)
        },
        None => h,
    }
}

/// A passed-through response: on upstream success (2xx) the headers are made
/// cacheable for a year and the status is 206 for a partial response, else
/// 200, with the upstream body; otherwise `X-Proxy-Error: status:<code>` is
/// added and the reply is the placeholder image (200, `image/png`) when a
/// fallback was asked for, else the mapped error status with no body.
pub open spec fn passthrough_outcome(h: Seq<(Seq<char>, Seq<char>)>, status: u16, fallback: bool) -> (u16, ReplyBody, Seq<(Seq<char>, Seq<char>)>) {
    let h1 = passthrough_headers(h);
    if 200 <= status <= 299 {
        (
            if status == 206 { 206u16 } else { 200u16 },
            ReplyBody::Stream,
            appended(removed(h1, "Cache-Control"@), "Cache-Control"@, "max-age=31536000, immutable"@),
        )
    } else {
        let h2 = appended(h1, "X-Proxy-Error"@, "status:"@ + decimal(status as nat));
        if fallback {
            (200u16, ReplyBody::Dummy, with_content_type(h2, "image/png"@))
        } else {
            (mapped_status(status), ReplyBody::Empty, h2)
        }
    }
}

/// Why downloading a body failed.
#[derive(Clone, Copy, Debug, PartialEq, Eq, Structural)]
pub enum DownloadError {
    /// The body is larger than the configured maximum.
    TooLarge,
    /// Reading the upstream body failed.
    ReadError,
    /// The download took longer than three times the request timeout.
    Timeout,
}

/// The `X-Proxy-Error` text for a download failure.
pub open spec fn download_error_text(e: DownloadError) -> Seq<char> {
    match e {
        DownloadError::TooLarge => "content-too-large"@,
        DownloadError::ReadError => "upstream-read-error"@,
        DownloadError::Timeout => "download-timeout"@,
    }
}

/// The size an upstream body is expected to have: its `Content-Length`, or
/// 2048 bytes (at most the maximum) when it has none.
pub open spec fn length_hint(content_length: Option<u64>, max_size: u64) -> u64 {
    match content_length {
        Some(n) => n,
        None => if 2048 <= max_size { 2048 } else { max_size },
    }
}

/// The initial buffer capacity for a body of `hint` bytes: at most 4 MiB.
pub open spec fn initial_capacity(hint: u64) -> usize {
    if hint <= 4 * 1024 * 1024 { hint as usize } else { (4 * 1024 * 1024) as usize }
}

/// A downloaded body that never grows beyond its maximum size.
pub struct BodyBuffer {
    bytes: Vec<u8>,
    max_size: u64,
}

impl BodyBuffer {
    pub closed spec fn contents(self) -> Seq<u8> {
        self.bytes@
    }

    pub closed spec fn limit(self) -> u64 {
        self.max_size
    }

    /// The buffer never holds more than its limit.
    pub open spec fn wf(self) -> bool {
        self.contents().len() <= self.limit()
    }

    /// An empty buffer with room for `capacity` bytes.
    pub fn new(max_size: u64, capacity: usize) -> (b: BodyBuffer)
        ensures
            b.contents() == Seq::<u8>::empty(),
            b.limit() == max_size,
            b.wf(),
    {
        BodyBuffer { bytes: Vec::with_capacity(capacity), max_size }
    }

    /// Adds a chunk unless the body would then exceed the limit, in which case
    /// nothing is added and the download fails as too large.
    pub fn push_chunk(&mut self, chunk: &[u8]) -> (r: Result<(), DownloadError>)
        requires
            old(self).wf(),
        ensures
            final(self).wf(),
            final(self).limit() == old(self).limit(),
            old(self).contents().len() + chunk@.len() > old(self).limit() ==> r == Err::<(), DownloadError>(
                DownloadError::TooLarge,
            ) && final(self).contents() == old(self).contents(),
            old(self).contents().len() + chunk@.len() <= old(self).limit() ==> r is Ok
                && final(self).contents() == old(self).contents() + chunk@,
    {
        let len = self.bytes.len() as u64;
        if chunk.len() as u64 > self.max_size - len {
            return Err(DownloadError::TooLarge);
        }
        let ghost before = self.bytes@;
        self.bytes.extend_from_slice(chunk);
        assert(self.bytes@ =~= before + chunk@);
        Ok(())
    }

    /// The bytes downloaded.
    pub fn into_bytes(self) -> (v: Vec<u8>)
        ensures
            v@ == self.contents(),
    {
        self.bytes
    }
}

impl RequestContext {
    /// Checks the expected body size before downloading: when the hint
    /// exceeds the maximum size, `X-Proxy-Error: content-too-large` is added
    /// and the answer is 502; otherwise the initial buffer capacity.
    pub fn download_plan(&mut self, content_length: Option<u64>) -> (r: Result<usize, u16>)
        ensures
            ({
                let hint = length_hint(content_length, old(self).config.max_size);
                if hint > old(self).config.max_size {
                    &&& r == Err::<usize, u16>(502)
                    &&& final(self).headers@ == appended(old(self).headers@, "X-Proxy-Error"@, "content-too-large"@)
                } else {
                    &&& r == Ok::<usize, u16>(initial_capacity(hint))
                    &&& final(self).headers@ == old(self).headers@
                }
            }),
            final(self).config == old(self).config,
            final(self).parms == old(self).parms,
            final(self).codec == old(self).codec,
            final(self).src_bytes == old(self).src_bytes,
            final(self).is_accept_avif == old(self).is_accept_avif,
    {
        let max_size = self.config.max_size;
        let hint = match content_length {
            Some(n) => n,
            None => if 2048 <= max_size { 2048 } else { max_size },
        };
        if hint > max_size {
            self.headers.append("X-Proxy-Error", "content-too-large");
            return Err(502);
        }
        let cap: usize = if hint <= 4 * 1024 * 1024 { hint as usize } else { 4 * 1024 * 1024 };
        Ok(cap)
    }

    /// Records a failed download: `X-Proxy-Error` names the reason and the
    /// answer is 502.
    pub fn download_failed(&mut self, e: DownloadError) -> (status: u16)
        ensures
            status == 502,
            final(self).headers@ == appended(old(self).headers@, "X-Proxy-Error"@, download_error_text(e)),
            final(self).config == old(self).config,
            final(self).parms == old(self).parms,
            final(self).codec == old(self).codec,
            final(self).src_bytes == old(self).src_bytes,
            final(self).is_accept_avif == old(self).is_accept_avif,
    {
        let text = match e {
            DownloadError::TooLarge => "content-too-large",
            DownloadError::ReadError => "upstream-read-error",
            DownloadError::Timeout => "download-timeout",
        };
        self.headers.append("X-Proxy-Error", text);
        502
    }

    /// Before an image body is loaded: the length and range headers of the
    /// upstream body no longer apply.
    pub fn drop_body_range_headers(&mut self)
        ensures
            final(self).headers@ == removed(
                removed(removed(old(self).headers@, "Content-Length"@), "Content-Range"@),
                "Accept-Ranges"@,
            ),
            final(self).config == old(self).config,
            final(self).parms == old(self).parms,
            final(self).codec == old(self).codec,
            final(self).src_bytes == old(self).src_bytes,
            final(self).is_accept_avif == old(self).is_accept_avif,
    {
        self.headers.remove("Content-Length");
        self.headers.remove("Content-Range");
        self.headers.remove("Accept-Ranges");
    }

    /// When the conversion thread could not run: `X-Proxy-Error:
    /// ImageEncodeThread`, then the placeholder image (200, `image/png`) when a
    /// fallback was asked for, else 500 with no body.
    pub fn conversion_thread_failed(&mut self) -> (r: Reply)
        ensures
            ({
                let h = appended(old(self).headers@, "X-Proxy-Error"@, "ImageEncodeThread"@);
                if old(self).parms.fallback is Some {
                    &&& r.status == 200 && r.body == ReplyBody::Dummy
                    &&& final(self).headers@ == with_content_type(h, "image/png"@)
                } else {
                    &&& r.status == 500 && r.body == ReplyBody::Empty
                    &&& final(self).headers@ == h
                }
            }),
            final(self).config == old(self).config,
            final(self).parms == old(self).parms,
            final(self).codec == old(self).codec,
            final(self).src_bytes == old(self).src_bytes,
            final(self).is_accept_avif == old(self).is_accept_avif,
    {
        self.headers.append("X-Proxy-Error", "ImageEncodeThread");
        if self.parms.fallback.is_some() {
            Self::set_content_type(&mut self.headers, "image/png");
            Reply { status: 200, body: ReplyBody::Dummy }
        } else {
            Reply { status: 500, body: ReplyBody::Empty }
        }
    }

    /// Replaces the `Content-Disposition` header, when there is one, by an
    /// inline disposition naming the same file with the extension `ext`.
    pub fn disposition_ext(headers: &mut HeaderList, ext: &str)
        ensures
            final(headers)@ == disposition_ext_result(old(headers)@, ext@),
    {
        let cd = match headers.get("Content-Disposition") {
            Some(v) => v.clone(),
            None => return,
        };
        let value = rewrite_disposition(cd.as_str(), ext);
        headers.remove("Content-Disposition");
        headers.append("Content-Disposition", value.as_str());
    }

    /// Replaces the `Content-Type` header by `v`.
    pub fn set_content_type(headers: &mut HeaderList, v: &str)
        ensures
            final(headers)@ == with_content_type(old(headers)@, v@),
    {
        headers.remove("Content-Type");
        headers.append("Content-Type", v);
    }

    /// Sniffs the first chunk of the upstream body (`None` when none arrived)
    /// and updates the codec and `Content-Type`.
    pub fn sniff(&mut self, head: Option<&[u8]>, is_img: bool) -> (r: Sniffed)
        ensures
            ({
                let o = sniff_outcome(
                    old(self).headers@,
                    match head {
                        Some(b) => Some(b@),
                        None => None,
                    },
                    is_img,
                    old(self).codec,
                );
                &&& r.is_svg == o.0
                &&& r.is_img == o.1
                &&& final(self).codec == o.2
                &&& final(self).headers@ == o.3
            }),
            final(self).is_accept_avif == old(self).is_accept_avif,
            final(self).parms == old(self).parms,
            final(self).src_bytes == old(self).src_bytes,
            final(self).config == old(self).config,
    {
        let mut is_svg = false;
        let mut is_img = is_img;
        let mut tga_type = false;
        match self.headers.get("Content-Type") {
            Some(media) => {
                if crate::text::same_text(media.as_str(), "image/svg+xml") {
                    is_svg = true;
                } else {
                    tga_type = crate::text::same_text(media.as_str(), "image/x-targa")
                        || crate::text::same_text(media.as_str(), "image/x-tga");
                }
            },
            None => {},
        }
        if let Some(b) = head {
            if is_svg_text(b) {
                is_svg = true;
            } else {
                self.codec = guess_image_format(b);
                if self.codec.is_none() {
                    if tga_type {
                        self.codec = Some(ImageFormatKind::Tga);
                    }
                    let jxl1: [u8; 2] = [0xFF, 0x0A];
                    let jxl2: [u8; 12] = [0x00, 0x00, 0x00, 0x0C, 0x4A, 0x58, 0x4C, 0x20, 0x0D, 0x0A, 0x87, 0x0A];
                    let jp21: [u8; 4] = [0xFF, 0x4F, 0xFF, 0x51];
                    let jp22: [u8; 12] = [0x00, 0x00, 0x00, 0x0C, 0x6A, 0x50, 0x20, 0x20, 0x0D, 0x0A, 0x87, 0x0A];
                    let jxr: [u8; 3] = [0x49, 0x49, 0xBC];
                    assert(jxl1@ =~= seq![0xFFu8, 0x0Au8]);
                    assert(jxl2@ =~= seq![0x00u8, 0x00u8, 0x00u8, 0x0Cu8, 0x4Au8, 0x58u8, 0x4Cu8, 0x20u8, 0x0Du8, 0x0Au8, 0x87u8, 0x0Au8]);
                    assert(jp21@ =~= seq![0xFFu8, 0x4Fu8, 0xFFu8, 0x51u8]);
                    assert(jp22@ =~= seq![0x00u8, 0x00u8, 0x00u8, 0x0Cu8, 0x6Au8, 0x50u8, 0x20u8, 0x20u8, 0x0Du8, 0x0Au8, 0x87u8, 0x0Au8]);
                    assert(jxr@ =~= seq![0x49u8, 0x49u8, 0xBCu8]);
                    if has_prefix(b, jxl1.as_slice()) || has_prefix(b, jxl2.as_slice()) {
                        is_img = true;
                        Self::set_content_type(&mut self.headers, "image/jxl");
                    }
                    if has_prefix(b, jp21.as_slice()) || has_prefix(b, jp22.as_slice()) {
                        is_img = true;
                        Self::set_content_type(&mut self.headers, "image/jp2");
                    }
                    if has_prefix(b, jxr.as_slice()) {
                        is_img = true;
                        Self::set_content_type(&mut self.headers, "image/jxr");
                    }
                }
            }
        }
        Sniffed { is_svg, is_img }
    }

    /// Makes headers fit for an upstream body sent as it came: a
    /// `Content-Type` that is not browser-safe becomes `octet-stream` and
    /// the download is renamed to `.unknown` (see `passthrough_headers`).
    pub fn make_body_type_safe(headers: &mut HeaderList)
        ensures
            final(headers)@ == passthrough_headers(old(headers)@),
    {
        let safe = match headers.get("Content-Type") {
            Some(media) => Some(is_browser_safe(media.as_str())),
            None => None,
        };
        if safe == Some(false) {
            Self::set_content_type(headers, "octet-stream");
            Self::disposition_ext(headers, ".unknown");
        }
    }

    /// Finishes a response whose downloaded body is sent without conversion
    /// (no renderer or encoder took it): 200 with the body as it came, under
    /// the same `Content-Type` rule as a passed-through body.
    pub fn serve_unconverted(&mut self) -> (r: Reply)
        ensures
            r.status == 200 && r.body == ReplyBody::Loaded,
            final(self).headers@ == passthrough_headers(old(self).headers@),
            final(self).is_accept_avif == old(self).is_accept_avif,
            final(self).parms == old(self).parms,
            final(self).src_bytes == old(self).src_bytes,
            final(self).config == old(self).config,
            final(self).codec == old(self).codec,
    {
        Self::make_body_type_safe(&mut self.headers);
        Reply { status: 200, body: ReplyBody::Loaded }
    }

    /// Finishes a response that is neither an image nor SVG, from the
    /// upstream status (see `passthrough_outcome`).
    pub fn passthrough(&mut self, status: u16) -> (r: Reply)
        ensures
            ({
                let o = passthrough_outcome(old(self).headers@, status, old(self).parms.fallback is Some);
                &&& r.status == o.0
                &&& r.body == o.1
                &&& final(self).headers@ == o.2
            }),
            final(self).is_accept_avif == old(self).is_accept_avif,
            final(self).parms == old(self).parms,
            final(self).src_bytes == old(self).src_bytes,
            final(self).config == old(self).config,
            final(self).codec == old(self).codec,
    {
        Self::make_body_type_safe(&mut self.headers);
        if 200 <= status && status <= 299 {
            self.headers.remove("Cache-Control");
            self.headers.append("Cache-Control", "max-age=31536000, immutable");
            Reply { status: if status == 206 { 206 } else { 200 }, body: ReplyBody::Stream }
        } else {
            let mut e = "status:".to_owned();
            let code = decimal_text(status);
            e.append(code.as_str());
            self.headers.append("X-Proxy-Error", e.as_str());
            if self.parms.fallback.is_some() {
                Self::set_content_type(&mut self.headers, "image/png");
                Reply { status: 200, body: ReplyBody::Dummy }
            } else {
                Reply { status: map_upstream_status(status), body: ReplyBody::Empty }
            }
        }
    }
}

/// Whether a `Content-Type` may reach the client: absent, browser-safe, or
/// the opaque `octet-stream`.
pub open spec fn type_is_served_safely(ct: Option<Seq<char>>) -> bool {
    match ct {
        None => true,
        Some(t) => browser_safe(t) || t == "octet-stream"@,
    }
}

proof fn lemma_type_and_disposition_names()
    ensures
        crate::headers::header_name("Content-Type"@) is Some,
        crate::headers::header_name("Content-Disposition"@) is Some,
        crate::headers::header_name("Cache-Control"@) is Some,
        crate::headers::header_name("X-Proxy-Error"@) is Some,
        crate::headers::header_name("Content-Type"@) != crate::headers::header_name("Content-Disposition"@),
        crate::headers::header_name("Content-Type"@) != crate::headers::header_name("Cache-Control"@),
        crate::headers::header_name("Content-Type"@) != crate::headers::header_name("X-Proxy-Error"@),
        crate::headers::header_value_ok("octet-stream"@),
        crate::headers::header_value_ok("image/png"@),
        browser_safe("image/png"@),
{
    reveal_strlit("Content-Type");
    reveal_strlit("Content-Disposition");
    reveal_strlit("Cache-Control");
    reveal_strlit("X-Proxy-Error");
    reveal_strlit("octet-stream");
    reveal_strlit("image/png");
    let ct = "Content-Type"@;
    assert(crate::headers::header_name(ct) is Some) by {
        assert forall|i: int| 0 <= i < ct.len() implies crate::headers::is_tchar(#[trigger] ct[i]) by {}
    }
    let cd = "Content-Disposition"@;
    assert(crate::headers::header_name(cd) is Some) by {
        assert forall|i: int| 0 <= i < cd.len() implies crate::headers::is_tchar(#[trigger] cd[i]) by {}
    }
    let cc = "Cache-Control"@;
    assert(crate::headers::header_name(cc) is Some) by {
        assert forall|i: int| 0 <= i < cc.len() implies crate::headers::is_tchar(#[trigger] cc[i]) by {}
    }
    let xe = "X-Proxy-Error"@;
    assert(crate::headers::header_name(xe) is Some) by {
        assert forall|i: int| 0 <= i < xe.len() implies crate::headers::is_tchar(#[trigger] xe[i]) by {}
    }
    assert(crate::headers::header_name(ct)->Some_0[0] == 'c');
    assert(crate::headers::header_name(cc)->Some_0[2] == 'c');
    assert(crate::headers::header_name(xe)->Some_0[0] == 'x');
    assert(crate::headers::header_name(ct)->Some_0.len() != crate::headers::header_name(cd)->Some_0.len());
    assert(crate::headers::header_name(ct)->Some_0[2] == 'n');
    assert(FILE_TYPE_BROWSERSAFE@[0]@ == "image/png"@);
}

/// A passed-through response never carries a `Content-Type` that browsers
/// could render unsafely: it is absent, on the browser-safe list, or
/// `octet-stream`, whatever the upstream sent, whatever its status and
/// whether or not a fallback was asked for.
pub proof fn law_passthrough_type_safe(h: Seq<(Seq<char>, Seq<char>)>, status: u16, fallback: bool)
    ensures
        type_is_served_safely(lookup(passthrough_outcome(h, status, fallback).2, "Content-Type"@)),
{
    lemma_type_and_disposition_names();
    let ct = "Content-Type"@;
    let h1 = passthrough_headers(h);
    law_raw_body_type_safe(h);
    if 200 <= status <= 299 {
        crate::headers::law_other_fields_kept(h1, "Cache-Control"@, "max-age=31536000, immutable"@, ct);
    } else {
        let h2 = appended(h1, "X-Proxy-Error"@, "status:"@ + decimal(status as nat));
        crate::headers::law_other_fields_kept(h1, "X-Proxy-Error"@, "status:"@ + decimal(status as nat), ct);
        if fallback {
            crate::headers::law_replaced_is_read_back(h2, ct, "image/png"@);
        }
    }
}

/// Whatever upstream headers a body comes with, once made fit for sending
/// it as it came (`passthrough_headers`, used by `passthrough` and
/// `serve_unconverted`), the `Content-Type` is absent, browser-safe or
/// `octet-stream`: never `text/html`, a script or `image/svg+xml`.
pub proof fn law_raw_body_type_safe(h: Seq<(Seq<char>, Seq<char>)>)
    ensures
        type_is_served_safely(lookup(passthrough_headers(h), "Content-Type"@)),
{
    lemma_type_and_disposition_names();
    let ct = "Content-Type"@;
    let h1 = passthrough_headers(h);
    assert(type_is_served_safely(lookup(h1, ct))) by {
        match lookup(h, ct) {
            Some(t) => {
                if !browser_safe(t) {
                    let h0 = with_content_type(h, "octet-stream"@);
                    crate::headers::law_replaced_is_read_back(h, ct, "octet-stream"@);
                    match lookup(h0, "Content-Disposition"@) {
                        Some(cd) => {
                            crate::headers::law_other_fields_kept(
                                h0,
                                "Content-Disposition"@,
                                disposition_with_ext(cd, ".unknown"@),
                                ct,
                            );
                        },
                        None => {},
                    }
                }
            },
            None => {},
        }
    }
}

/// An upstream failure is never passed on as a success: without a fallback
/// the answer is a 4xx or 5xx error with no body, and with one it is the
/// placeholder image.
pub proof fn law_upstream_failure_not_forwarded(h: Seq<(Seq<char>, Seq<char>)>, status: u16, fallback: bool)
    requires
        !(200 <= status <= 299),
    ensures
        !fallback ==> 400 <= passthrough_outcome(h, status, fallback).0 <= 599
            && passthrough_outcome(h, status, fallback).1 == ReplyBody::Empty,
        fallback ==> passthrough_outcome(h, status, fallback).0 == 200
            && passthrough_outcome(h, status, fallback).1 == ReplyBody::Dummy,
{
}

proof fn lemma_image_type_values()
    ensures
        crate::headers::header_name("Content-Type"@) is Some,
        crate::headers::header_value_ok("image/jxl"@),
        crate::headers::header_value_ok("image/jp2"@),
        crate::headers::header_value_ok("image/jxr"@),
{
    lemma_type_and_disposition_names();
    reveal_strlit("image/jxl");
    reveal_strlit("image/jp2");
    reveal_strlit("image/jxr");
}

/// The signature bytes that mark an image no decoder recognises, and the
/// media type each sets: `FF 0A` and the container `00 00 00 0C 'JXL '
/// 0D 0A 87 0A` are JPEG XL (`image/jxl`); `FF 4F FF 51` and the container
/// `00 00 00 0C 'jP  ' 0D 0A 87 0A` are JPEG 2000 (`image/jp2`); `49 49 BC`
/// is JPEG XR (`image/jxr`). Whatever the headers were, the body then counts
/// as an image and the first `Content-Type` is that media type.
pub proof fn law_signature_media_types(
    h: Seq<(Seq<char>, Seq<char>)>,
    b: Seq<u8>,
    is_img: bool,
    codec: Option<ImageFormatKind>,
)
    requires
        guessed_format(b) is None,
        !looks_like_svg(b),
    ensures
        ({
            let o = sniff_outcome(h, Some(b), is_img, codec);
            &&& (b.len() >= 2 && b[0] == 0xFF && b[1] == 0x0A) ==> o.1 && lookup(o.3, "Content-Type"@)
                == Some("image/jxl"@)
            &&& (b.len() >= 12 && b[0] == 0 && b[1] == 0 && b[2] == 0 && b[3] == 0x0C && b[4] == 0x4A
                && b[5] == 0x58 && b[6] == 0x4C && b[7] == 0x20 && b[8] == 0x0D && b[9] == 0x0A && b[10]
                == 0x87 && b[11] == 0x0A) ==> o.1 && lookup(o.3, "Content-Type"@) == Some("image/jxl"@)
            &&& (b.len() >= 4 && b[0] == 0xFF && b[1] == 0x4F && b[2] == 0xFF && b[3] == 0x51) ==> o.1
                && lookup(o.3, "Content-Type"@) == Some("image/jp2"@)
            &&& (b.len() >= 12 && b[0] == 0 && b[1] == 0 && b[2] == 0 && b[3] == 0x0C && b[4] == 0x6A
                && b[5] == 0x50 && b[6] == 0x20 && b[7] == 0x20 && b[8] == 0x0D && b[9] == 0x0A && b[10]
                == 0x87 && b[11] == 0x0A) ==> o.1 && lookup(o.3, "Content-Type"@) == Some("image/jp2"@)
            &&& (b.len() >= 3 && b[0] == 0x49 && b[1] == 0x49 && b[2] == 0xBC) ==> o.1 && lookup(
                o.3,
                "Content-Type"@,
            ) == Some("image/jxr"@)
        }),
{
    lemma_image_type_values();
    let ct = "Content-Type"@;
    let jxl1 = seq![0xFFu8, 0x0Au8];
    let jxl2 = seq![0x00u8, 0x00u8, 0x00u8, 0x0Cu8, 0x4Au8, 0x58u8, 0x4Cu8, 0x20u8, 0x0Du8, 0x0Au8, 0x87u8, 0x0Au8];
    let jp21 = seq![0xFFu8, 0x4Fu8, 0xFFu8, 0x51u8];
    let jp22 = seq![0x00u8, 0x00u8, 0x00u8, 0x0Cu8, 0x6Au8, 0x50u8, 0x20u8, 0x20u8, 0x0Du8, 0x0Au8, 0x87u8, 0x0Au8];
    let jxr = seq![0x49u8, 0x49u8, 0xBCu8];
    // which signatures can hold, from the first bytes
    if b.len() >= 2 && starts_with(b, jxl1) {
        assert(b[0] == b.subrange(0, 2)[0]);
        assert(b[1] == b.subrange(0, 2)[1]);
    }
    if starts_with(b, jxl2) {
        assert(b[4] == b.subrange(0, 12)[4]);
        assert(b[0] == b.subrange(0, 12)[0]);
    }
    if starts_with(b, jp21) {
        assert(b[1] == b.subrange(0, 4)[1]);
        assert(b[0] == b.subrange(0, 4)[0]);
    }
    if starts_with(b, jp22) {
        assert(b[4] == b.subrange(0, 12)[4]);
        assert(b[0] == b.subrange(0, 12)[0]);
    }
    if starts_with(b, jxr) {
        assert(b[0] == b.subrange(0, 3)[0]);
    }
    if b.len() >= 2 && b[0] == 0xFF && b[1] == 0x0A {
        assert(b.subrange(0, 2) =~= jxl1);
        crate::headers::law_replaced_is_read_back(h, ct, "image/jxl"@);
    }
    if b.len() >= 12 && b[0] == 0 && b[1] == 0 && b[2] == 0 && b[3] == 0x0C && b[4] == 0x4A && b[5] == 0x58
        && b[6] == 0x4C && b[7] == 0x20 && b[8] == 0x0D && b[9] == 0x0A && b[10] == 0x87 && b[11] == 0x0A {
        assert(b.subrange(0, 12) =~= jxl2);
        crate::headers::law_replaced_is_read_back(h, ct, "image/jxl"@);
    }
    if b.len() >= 4 && b[0] == 0xFF && b[1] == 0x4F && b[2] == 0xFF && b[3] == 0x51 {
        assert(b.subrange(0, 4) =~= jp21);
        crate::headers::law_replaced_is_read_back(h, ct, "image/jp2"@);
    }
    if b.len() >= 12 && b[0] == 0 && b[1] == 0 && b[2] == 0 && b[3] == 0x0C && b[4] == 0x6A && b[5] == 0x50
        && b[6] == 0x20 && b[7] == 0x20 && b[8] == 0x0D && b[9] == 0x0A && b[10] == 0x87 && b[11] == 0x0A {
        assert(b.subrange(0, 12) =~= jp22);
        crate::headers::law_replaced_is_read_back(h, ct, "image/jp2"@);
    }
    if b.len() >= 3 && b[0] == 0x49 && b[1] == 0x49 && b[2] == 0xBC {
        assert(b.subrange(0, 3) =~= jxr);
        crate::headers::law_replaced_is_read_back(h, ct, "image/jxr"@);
    }
}

/// A body whose `Content-Type` is browser-safe (or absent) is sent with
/// its headers as they were: making it fit to send changes nothing, and a
/// successful passthrough changes no field but `Cache-Control`; in
/// particular its `Content-Type` and `Content-Disposition` stay.
pub proof fn law_safe_type_headers_kept(h: Seq<(Seq<char>, Seq<char>)>, status: u16, fallback: bool, name: Seq<char>)
    requires
        lookup(h, "Content-Type"@) matches Some(ct) ==> browser_safe(ct),
    ensures
        passthrough_headers(h) == h,
        200 <= status <= 299 && crate::headers::header_name(name) is Some && crate::headers::header_name(name)
            != crate::headers::header_name("Cache-Control"@) ==> lookup(passthrough_outcome(h, status, fallback).2, name)
            == lookup(h, name),
{
    lemma_type_and_disposition_names();
    if 200 <= status <= 299 && crate::headers::header_name(name) is Some && crate::headers::header_name(name)
        != crate::headers::header_name("Cache-Control"@) {
        crate::headers::law_other_fields_kept(h, "Cache-Control"@, "max-age=31536000, immutable"@, name);
    }
}

} // verus!
