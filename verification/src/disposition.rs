//! Rewriting `Content-Disposition` so a download keeps its name with a new extension.

use vstd::prelude::*;
use vstd::utf8::encode_utf8;
use crate::text::{chars_of, string_of, slice_is, uppercase, to_uppercase};
use crate::headers::{HeaderList, lookup, removed, appended};

verus! {

/// The `filename*`, `filename` and `name` parameters that
/// `mailparse::parse_content_disposition` finds in a header value.
pub uninterp spec fn disposition_params(s: Seq<char>) -> (Option<Seq<char>>, Option<Seq<char>>, Option<Seq<char>>);

/// The decoded value of the mail header line `s`
/// (`mailparse::parse_header` then `get_value`), or `None` when it does not parse.
pub uninterp spec fn mail_header_value(s: Seq<char>) -> Option<Seq<char>>;

/// `urlencoding::decode`: the percent-decoded text, or `None` when the
/// decoded bytes are not UTF-8.
pub uninterp spec fn percent_decoded(s: Seq<char>) -> Option<Seq<char>>;

/// A byte that `urlencoding::encode` leaves as it is.
pub open spec fn is_unreserved(b: u8) -> bool {
    (0x30 <= b <= 0x39) || (0x41 <= b <= 0x5A) || (0x61 <= b <= 0x7A) || b == 0x2D || b == 0x2E
        || b == 0x5F || b == 0x7E
}

/// The uppercase hexadecimal digit for `d < 16`.
pub open spec fn hex_digit(d: u8) -> char {
    if d < 10 {
        ((0x30 + d) as u8) as char
    } else {
        ((0x37 + d) as u8) as char
    }
}

/// Percent-encoding of `bytes`: unreserved bytes stay, every other byte
/// becomes `%` and two uppercase hex digits.
pub open spec fn percent_encode(bytes: Seq<u8>) -> Seq<char>
    decreases bytes.len(),
{
    if bytes.len() == 0 {
        Seq::empty()
    } else {
        let b = bytes[0];
        (if is_unreserved(b) {
            seq![b as char]
        } else {
            seq!['%', hex_digit(b >> 4u8), hex_digit(b & 15u8)]
        }) + percent_encode(bytes.drop_first())
    }
}

pub open spec fn opt_string_view(o: Option<String>) -> Option<Seq<char>> {
    match o {
        Some(s) => Some(s@),
        None => None,
    }
}

/// `mailparse::parse_content_disposition(s).params`, read at `filename*`,
/// `filename` and `name`.
#[verifier::external_body]
fn parse_disposition_params(s: &str) -> (r: (Option<String>, Option<String>, Option<String>))
    ensures
        (opt_string_view(r.0), opt_string_view(r.1), opt_string_view(r.2)) == disposition_params(s@),
{
    let cd = mailparse::parse_content_disposition(s);
    (cd.params.get("filename*").cloned(), cd.params.get("filename").cloned(), cd.params.get("name").cloned())
}

/// `mailparse::parse_header(s.as_bytes())`, then `get_value` of the header.
#[verifier::external_body]
fn parse_mail_header_value(s: &str) -> (r: Option<String>)
    ensures
        opt_string_view(r) == mail_header_value(s@),
{
    match mailparse::parse_header(s.as_bytes()) {
        Ok((h, _)) => Some(h.get_value()),
        Err(_) => None,
    }
}

/// `urlencoding::decode`.
#[verifier::external_body]
fn url_decode(s: &str) -> (r: Option<String>)
    ensures
        opt_string_view(r) == percent_decoded(s@),
{
    urlencoding::decode(s).map(|d| d.to_string()).ok()
}

/// `urlencoding::encode`: percent-encodes every UTF-8 byte except
/// alphanumerics and `-`, `.`, `_`, `~`, with uppercase hex digits.
#[verifier::external_body]
fn url_encode(s: &str) -> (r: String)
    ensures
        r@ == percent_encode(encode_utf8(s@)),
{
    urlencoding::encode(s).into_owned()
}

/// The index of the last `c` in `s`, or -1.
pub open spec fn last_index_of(s: Seq<char>, c: char) -> int
    decreases s.len(),
{
    if s.len() == 0 {
        -1
    } else if s.last() == c {
        s.len() - 1
    } else {
        last_index_of(s.drop_last(), c)
    }
}

/// `name` without its last `.`-separated part, as splitting on `.`,
/// dropping the last piece and joining with `.` gives.
pub open spec fn file_stem(name: Seq<char>) -> Seq<char> {
    let k = last_index_of(name, '.');
    if k < 0 {
        Seq::empty()
    } else {
        name.subrange(0, k)
    }
}

/// The file name a `Content-Disposition` value names: the UTF-8
/// `filename*` (uppercased, then percent-decoded), else the `filename`
/// (decoded as a mail header, or taken as it is when that fails and there
/// is no `name`), else the `name`, else `null`.
pub open spec fn disposition_file_name(cd: Seq<char>) -> Seq<char> {
    let (fstar, filename, param_name) = disposition_params(cd);
    let from_star = match fstar {
        Some(f) => {
            let up = uppercase(f);
            if up.len() > 7 && up.subrange(0, 7) == "UTF-8''"@ {
                percent_decoded(up.subrange(7, up.len() as int))
            } else {
                None
            }
        },
        None => None,
    };
    let chosen = match from_star {
        Some(n) => Some(n),
        None => match filename {
            Some(f) => match mail_header_value("_:"@ + f) {
                Some(v) => Some(v),
                None => if param_name is None {
                    Some(f)
                } else {
                    None
                },
            },
            None => None,
        },
    };
    match chosen {
        Some(n) => n,
        None => match param_name {
            Some(p) => p,
            None => "null"@,
        },
    }
}

/// The rewritten header value: an inline disposition whose `filename` and
/// `filename*` both carry the percent-encoded stem of the file name with `ext`.
pub open spec fn disposition_with_ext(cd: Seq<char>, ext: Seq<char>) -> Seq<char> {
    let enc = percent_encode(encode_utf8(file_stem(disposition_file_name(cd)) + ext));
    "inline; filename=\""@ + enc + "\";filename*=UTF-8''"@ + enc + ";"@
}

proof fn lemma_last_index_bounds(s: Seq<char>, c: char)
    ensures
        -1 <= last_index_of(s, c) < s.len(),
        last_index_of(s, c) >= 0 ==> s[last_index_of(s, c)] == c,
    decreases s.len(),
{
    if s.len() > 0 && s.last() != c {
        lemma_last_index_bounds(s.drop_last(), c);
    }
}

proof fn lemma_last_index_scan(s: Seq<char>, c: char, k: int)
    requires
        0 <= k <= s.len(),
        forall|j: int| k <= j < s.len() ==> s[j] != c,
    ensures
        last_index_of(s, c) == last_index_of(s.subrange(0, k), c),
    decreases s.len() - k,
{
    if k < s.len() {
        let t = s.drop_last();
        assert forall|j: int| k <= j < t.len() implies t[j] != c by {
            assert(t[j] == s[j]);
        }
        lemma_last_index_scan(t, c, k);
        assert(t.subrange(0, k) =~= s.subrange(0, k));
    } else {
        assert(s.subrange(0, k) =~= s);
    }
}

/// The stem of `name` (see `file_stem`).
fn stem_of(name: &str) -> (r: String)
    ensures
        r@ == file_stem(name@),
{
    let v = chars_of(name);
    let mut k = v.len();
    while k > 0 && v[k - 1] != '.'
        invariant
            k <= v@.len(),
            v@ == name@,
            forall|j: int| k <= j < v@.len() ==> v@[j] != '.',
        decreases k,
    {
        k -= 1;
    }
    proof {
        lemma_last_index_scan(v@, '.', k as int);
        if k > 0 {
            let p = v@.subrange(0, k as int);
            assert(p.last() == '.');
            assert(last_index_of(p, '.') == k - 1);
        } else {
            assert(v@.subrange(0, 0) =~= Seq::<char>::empty());
        }
    }
    if k == 0 {
        String::new()
    } else {
        string_of(&v, 0, k - 1)
    }
}

/// The file name chosen from a `Content-Disposition` value.
fn file_name_of(cd: &str) -> (r: String)
    ensures
        r@ == disposition_file_name(cd@),
{
    let (fstar, filename, param_name) = parse_disposition_params(cd);
    let mut name: Option<String> = None;
    if let Some(f) = &fstar {
        let up = to_uppercase(f.as_str());
        let v = chars_of(up.as_str());
        if v.len() > 7 && slice_is(&v, 0, 7, "UTF-8''") {
            let rest = string_of(&v, 7, v.len());
            name = url_decode(rest.as_str());
        }
    }
    if name.is_none() {
        if let Some(f) = &filename {
            let mut m = "_:".to_owned();
            m.append(f.as_str());
            match parse_mail_header_value(m.as_str()) {
                Some(value) => {
                    name = Some(value);
                },
                None => {
                    if param_name.is_none() {
                        name = Some(f.clone());
                    }
                },
            }
        }
    }
    match name {
        Some(n) => n,
        None => match param_name {
            Some(p) => p,
            None => "null".to_owned(),
        },
    }
}

/// The rewritten `Content-Disposition` value for `cd` and the extension `ext`.
pub fn rewrite_disposition(cd: &str, ext: &str) -> (r: String)
    ensures
        r@ == disposition_with_ext(cd@, ext@),
{
    let name = file_name_of(cd);
    let mut file = stem_of(name.as_str());
    file.append(ext);
    let enc = url_encode(file.as_str());
    let mut r = "inline; filename=\"".to_owned();
    r.append(enc.as_str());
    r.append("\";filename*=UTF-8''");
    r.append(enc.as_str());
    r.append(";");
    r
}

/// Replaces the `Content-Disposition` header, when there is one, by an
/// inline disposition naming the same file with the extension `ext`.
pub open spec fn disposition_ext_result(h: Seq<(Seq<char>, Seq<char>)>, ext: Seq<char>) -> Seq<(Seq<char>, Seq<char>)> {
    match lookup(h, "Content-Disposition"@) {
        Some(cd) => appended(
            removed(h, "Content-Disposition"@),
            "Content-Disposition"@,
            disposition_with_ext(cd, ext),
        ),
        None => h,
    }
}

/// Which file name a `Content-Disposition` value names, by its parameters:
/// a `filename*` whose uppercase form is `UTF-8''` followed by text that
/// percent-decodes gives that decoded text; otherwise a `filename` gives
/// its value decoded as a mail header (RFC 2047 words and all) or, when it
/// does not decode and there is no `name`, itself; otherwise `name`; and
/// `null` when there is none.
pub proof fn law_disposition_file_name(cd: Seq<char>)
    ensures
        ({
            let (fstar, filename, param_name) = disposition_params(cd);
            let star_name = match fstar {
                Some(f) => {
                    let up = uppercase(f);
                    if up.len() > 7 && up.subrange(0, 7) == "UTF-8''"@ {
                        percent_decoded(up.subrange(7, up.len() as int))
                    } else {
                        None
                    }
                },
                None => None,
            };
            &&& (star_name is Some ==> disposition_file_name(cd) == star_name->Some_0)
            &&& (star_name is None && filename is Some && mail_header_value("_:"@ + filename->Some_0) is Some
                ==> disposition_file_name(cd) == mail_header_value("_:"@ + filename->Some_0)->Some_0)
            &&& (star_name is None && filename is Some && mail_header_value("_:"@ + filename->Some_0) is None
                && param_name is None ==> disposition_file_name(cd) == filename->Some_0)
            &&& (star_name is None && filename is Some && mail_header_value("_:"@ + filename->Some_0) is None
                && param_name is Some ==> disposition_file_name(cd) == param_name->Some_0)
            &&& (star_name is None && filename is None && param_name is Some ==> disposition_file_name(cd)
                == param_name->Some_0)
            &&& (star_name is None && filename is None && param_name is None ==> disposition_file_name(cd)
                == "null"@)
        }),
{
}

/// The rewritten `Content-Disposition` keeps the file's name and replaces
/// only its last extension: both `filename` and `filename*` carry the
/// percent-encoded UTF-8 of the name up to its last `.`, followed by `ext`.
pub proof fn law_disposition_keeps_stem(cd: Seq<char>, ext: Seq<char>, stem: Seq<char>, last: Seq<char>)
    requires
        disposition_file_name(cd) == stem + "."@ + last,
        !last.contains('.'),
    ensures
        disposition_with_ext(cd, ext) == "inline; filename=\""@ + percent_encode(encode_utf8(stem + ext))
            + "\";filename*=UTF-8''"@ + percent_encode(encode_utf8(stem + ext)) + ";"@,
{
    let name = stem + "."@ + last;
    assert("."@ =~= seq!['.']) by {
        reveal_strlit(".");
    }
    lemma_last_index_after(stem, last);
    assert(name.subrange(0, stem.len() as int) =~= stem);
}

proof fn lemma_last_index_after(stem: Seq<char>, last: Seq<char>)
    requires
        !last.contains('.'),
        "."@ =~= seq!['.'],
    ensures
        last_index_of(stem + "."@ + last, '.') == stem.len(),
    decreases last.len(),
{
    let name = stem + "."@ + last;
    if last.len() == 0 {
        assert(name =~= stem.push('.'));
        assert(name.drop_last() =~= stem);
    } else {
        let shorter = last.drop_last();
        assert(!shorter.contains('.')) by {
            if shorter.contains('.') {
                let i = choose|i: int| 0 <= i < shorter.len() && shorter[i] == '.';
                assert(last[i] == '.');
            }
        }
        assert(last.last() != '.') by {
            assert(last[last.len() - 1] == last.last());
        }
        lemma_last_index_after(stem, shorter);
        assert(name.drop_last() =~= stem + "."@ + shorter);
    }
}

} // verus!
