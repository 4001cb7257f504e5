//! Building a request from an uploaded form (the `/transform` endpoint).

use vstd::prelude::*;
use std::sync::Arc;
use crate::config::{ConfigFile, RequestParams};
use crate::headers::{HeaderList, appended};
use crate::request::{accepts_avif, accept_lists_avif, append_configured_headers, with_configured};
use crate::response::{RequestContext, ImageFormatKind, guessed_format, guess_image_format, looks_like_svg, is_svg_text};

verus! {

/// How a form field is read.
#[derive(Clone, Copy, Debug, PartialEq, Eq, Structural)]
pub enum FieldKind {
    /// The uploaded file, read as bytes.
    File,
    /// A variant flag, read as text.
    Text,
    /// Any other field, skipped.
    Ignored,
}

/// The kind of the form field named `name`.
pub open spec fn field_kind_of(name: Seq<char>) -> FieldKind {
    if name == "file"@ {
        FieldKind::File
    } else if name == "avatar"@ || name == "emoji"@ || name == "preview"@ || name == "static"@
        || name == "badge"@ {
        FieldKind::Text
    } else {
        FieldKind::Ignored
    }
}

/// How the form field named `name` is read.
pub fn field_kind(name: &str) -> (k: FieldKind)
    ensures
        k == field_kind_of(name@),
{
    if crate::text::same_text(name, "file") {
        FieldKind::File
    } else if crate::text::same_text(name, "avatar") || crate::text::same_text(name, "emoji")
        || crate::text::same_text(name, "preview") || crate::text::same_text(name, "static")
        || crate::text::same_text(name, "badge") {
        FieldKind::Text
    } else {
        FieldKind::Ignored
    }
}

/// The fields of an upload form read so far.
pub struct TransformForm {
    pub file: Option<Vec<u8>>,
    pub avatar: Option<String>,
    pub emoji: Option<String>,
    pub preview: Option<String>,
    pub static_image: Option<String>,
    pub badge: Option<String>,
}

/// Why an upload is refused, with the status to answer.
pub struct Refusal {
    pub status: u16,
    pub headers: HeaderList,
}

/// A request built from an upload, and whether its file is SVG.
pub struct Upload {
    pub ctx: RequestContext,
    pub is_svg: bool,
}

impl TransformForm {
    /// A form with no field read.
    pub fn new() -> (f: TransformForm)
        ensures
            f.file is None && f.avatar is None && f.emoji is None && f.preview is None
                && f.static_image is None && f.badge is None,
    {
        TransformForm { file: None, avatar: None, emoji: None, preview: None, static_image: None, badge: None }
    }

    /// Takes the uploaded file, unless it is larger than `max_size`: then the
    /// upload is refused with 400 and `X-Proxy-Error: content-too-large`.
    pub fn set_file(&mut self, bytes: Vec<u8>, max_size: u64) -> (r: Result<(), Refusal>)
        ensures
            bytes@.len() > max_size ==> (r matches Err(e) && e.status == 400 && e.headers@ == appended(
                Seq::empty(),
                "X-Proxy-Error"@,
                "content-too-large"@,
            )) && final(self).file == old(self).file,
            bytes@.len() <= max_size ==> r is Ok && final(self).file == Some(bytes),
            final(self).avatar == old(self).avatar,
            final(self).emoji == old(self).emoji,
            final(self).preview == old(self).preview,
            final(self).static_image == old(self).static_image,
            final(self).badge == old(self).badge,
    {
        if bytes.len() as u64 > max_size {
            let mut headers = HeaderList::new();
            headers.append("X-Proxy-Error", "content-too-large");
            return Err(Refusal { status: 400, headers });
        }
        self.file = Some(bytes);
        Ok(())
    }

    /// Records a text field (`None` when its text could not be read);
    /// other names leave the form unchanged.
    pub fn set_text(&mut self, name: &str, value: Option<String>)
        ensures
            final(self).file == old(self).file,
            final(self).avatar == (if name@ == "avatar"@ { value } else { old(self).avatar }),
            final(self).emoji == (if name@ == "emoji"@ { value } else { old(self).emoji }),
            final(self).preview == (if name@ == "preview"@ { value } else { old(self).preview }),
            final(self).static_image == (if name@ == "static"@ { value } else { old(self).static_image }),
            final(self).badge == (if name@ == "badge"@ { value } else { old(self).badge }),
    {
        proof {
            reveal_strlit("avatar");
            reveal_strlit("emoji");
            reveal_strlit("preview");
            reveal_strlit("static");
            reveal_strlit("badge");
            let names = seq!["avatar"@, "emoji"@, "preview"@, "static"@, "badge"@];
            assert forall|i: int, j: int| 0 <= i < 5 && 0 <= j < 5 && i != j implies names[i] != names[j] by {
                if names[i].len() == names[j].len() {
                    assert(names[i][0] != names[j][0]);
                }
            }
        }
        if crate::text::same_text(name, "avatar") {
            self.avatar = value;
        } else if crate::text::same_text(name, "emoji") {
            self.emoji = value;
        } else if crate::text::same_text(name, "preview") {
            self.preview = value;
        } else if crate::text::same_text(name, "static") {
            self.static_image = value;
        } else if crate::text::same_text(name, "badge") {
            self.badge = value;
        }
    }

    /// Builds the request for the uploaded file: refused with 400 when no
    /// file, or an empty one, was sent. The response is not cached, carries
    /// the configured headers, may be AVIF when the client accepts it, and
    /// the codec is guessed from the file.
    pub fn finish(self, config: Arc<ConfigFile>, accept: Option<&str>) -> (r: Result<Upload, u16>)
        ensures
            match self.file {
                Some(b) if b@.len() > 0 => r matches Ok(u) && {
                    &&& u.is_svg == looks_like_svg(b@)
                    &&& u.ctx.src_bytes@ == b@
                    &&& u.ctx.codec == guessed_format(b@)
                    &&& u.ctx.is_accept_avif == (config.encode_avif && (accept matches Some(a)
                        && accept_lists_avif(a@)))
                    &&& u.ctx.headers@ == with_configured(
                        appended(Seq::empty(), "Cache-Control"@, "no-cache"@),
                        config.append_headers@.map_values(|l: String| l@),
                    )
                    &&& u.ctx.config == config
                    &&& u.ctx.parms.url@.len() == 0
                    &&& u.ctx.parms.fallback is None
                    &&& u.ctx.parms.avatar == self.avatar
                    &&& u.ctx.parms.emoji == self.emoji
                    &&& u.ctx.parms.preview == self.preview
                    &&& u.ctx.parms.static_image == self.static_image
                    &&& u.ctx.parms.badge == self.badge
                },
                _ => r == Err::<Upload, u16>(400),
            },
    {
        let bytes = match self.file {
            Some(b) => b,
            None => return Err(400),
        };
        if bytes.len() == 0 {
            return Err(400);
        }
        let parms = RequestParams {
            url: String::new(),
            static_image: self.static_image,
            emoji: self.emoji,
            avatar: self.avatar,
            preview: self.preview,
            badge: self.badge,
            fallback: None,
        };
        let is_svg = is_svg_text(bytes.as_slice());
        let codec = guess_image_format(bytes.as_slice());
        let is_accept_avif = accepts_avif(config.encode_avif, accept);
        let mut headers = HeaderList::new();
        headers.append("Cache-Control", "no-cache");
        append_configured_headers(&mut headers, &config.append_headers);
        let ctx = RequestContext { is_accept_avif, headers, parms, src_bytes: bytes, config, codec };
        Ok(Upload { ctx, is_svg })
    }
}

/// The form fields read: `file` is the upload; `avatar`, `emoji`,
/// `preview`, `static` and `badge` are the variant flags, read as text;
/// any other field is skipped.
pub proof fn law_form_field_names(name: Seq<char>)
    ensures
        field_kind_of("file"@) == FieldKind::File,
        field_kind_of("avatar"@) == FieldKind::Text,
        field_kind_of("emoji"@) == FieldKind::Text,
        field_kind_of("preview"@) == FieldKind::Text,
        field_kind_of("static"@) == FieldKind::Text,
        field_kind_of("badge"@) == FieldKind::Text,
        name != "file"@ && name != "avatar"@ && name != "emoji"@ && name != "preview"@ && name != "static"@
            && name != "badge"@ ==> field_kind_of(name) == FieldKind::Ignored,
{
    reveal_strlit("file");
    reveal_strlit("avatar");
    reveal_strlit("emoji");
    reveal_strlit("preview");
    reveal_strlit("static");
    reveal_strlit("badge");
    assert("file"@ != "avatar"@ && "file"@ != "emoji"@ && "file"@ != "preview"@ && "file"@ != "static"@ && "file"@
        != "badge"@) by {
        assert("file"@[0] != "avatar"@[0]);
        assert("file"@.len() != "emoji"@.len());
        assert("file"@[0] != "preview"@[0]);
        assert("file"@.len() != "static"@.len());
        assert("file"@.len() != "badge"@.len());
    }
}

} // verus!
