//! Media types that browsers render safely when served from the proxy's origin.

use vstd::prelude::*;
use crate::text::same_text;

verus! {

/// The media types passed through with their own `Content-Type`; any other
/// type is served as an opaque download.
pub const FILE_TYPE_BROWSERSAFE: [&'static str; 29] = [
    "image/png",
    "image/gif",
    "image/jpeg",
    "image/webp",
    "image/avif",
    "image/apng",
    "image/bmp",
    "image/tiff",
    "image/x-icon",
    "audio/opus",
    "video/ogg",
    "audio/ogg",
    "application/ogg",
    "video/quicktime",
    "video/mp4",
    "audio/mp4",
    "video/x-m4v",
    "audio/x-m4a",
    "video/3gpp",
    "video/3gpp2",
    "video/mpeg",
    "audio/mpeg",
    "video/webm",
    "audio/webm",
    "audio/aac",
    "audio/flac",
    "audio/wav",
    "audio/x-flac",
    "audio/vnd.wave",
];

/// Whether `mime` is one of the browser-safe media types.
pub open spec fn browser_safe(mime: Seq<char>) -> bool {
    exists|i: int| 0 <= i < 29 && (#[trigger] FILE_TYPE_BROWSERSAFE@[i])@ == mime
}

/// Whether `mime` is listed in `FILE_TYPE_BROWSERSAFE`.
pub fn is_browser_safe(mime: &str) -> (b: bool)
    ensures
        b == browser_safe(mime@),
{
    let list = FILE_TYPE_BROWSERSAFE;
    let mut i: usize = 0;
    while i < 29
        invariant
            i <= 29,
            list == FILE_TYPE_BROWSERSAFE,
            forall|j: int| 0 <= j < i ==> (#[trigger] FILE_TYPE_BROWSERSAFE@[j])@ != mime@,
        decreases 29 - i,
    {
        if same_text(list[i], mime) {
            return true;
        }
        i += 1;
    }
    false
}

} // verus!
