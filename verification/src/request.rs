//! Per-request decisions that read the client's headers and the configuration.

use vstd::prelude::*;
use crate::text::{trim, chars_of, string_of, trim_bounds, index_of_char, slice_is, find_char};
use crate::headers::{HeaderList, appended};

verus! {

/// The part of `s` before its first `c` (all of `s` when there is none).
pub open spec fn before_char(s: Seq<char>, c: char) -> Seq<char> {
    s.subrange(0, index_of_char(s, c))
}

/// The media type of one `Accept` entry: the entry trimmed, cut at its
/// first `;`, and trimmed again.
pub open spec fn accept_media_type(entry: Seq<char>) -> Seq<char> {
    trim(before_char(trim(entry), ';'))
}

/// Whether some comma-separated entry of `s` has the media type `image/avif`.
pub open spec fn accept_lists_avif(s: Seq<char>) -> bool
    decreases s.len(),
{
    let k = index_of_char(s, ',');
    if 0 <= k < s.len() {
        accept_media_type(s.subrange(0, k)) == "image/avif"@ || accept_lists_avif(
            s.subrange(k + 1, s.len() as int),
        )
    } else {
        accept_media_type(s) == "image/avif"@
    }
}

/// Whether the `Accept` header value `accept` lists `image/avif`.
pub fn accept_has_avif(accept: &str) -> (b: bool)
    ensures
        b == accept_lists_avif(accept@),
{
    let v = chars_of(accept);
    let n = v.len();
    let mut found = false;
    let mut start: usize = 0;
    assert(v@.subrange(0, n as int) =~= v@);
    loop
        invariant
            n == v@.len(),
            start <= n,
            v@ == accept@,
            accept_lists_avif(accept@) == (found || accept_lists_avif(v@.subrange(start as int, n as int))),
        decreases n - start,
    {
        let ghost rest = v@.subrange(start as int, n as int);
        let k = find_char(&v, start, n, ',');
        let (a, b) = trim_bounds(&v, start, k);
        let semi = find_char(&v, a, b, ';');
        let (a2, b2) = trim_bounds(&v, a, semi);
        let is_avif = slice_is(&v, a2, b2, "image/avif");
        proof {
            assert(rest.subrange(0, k - start) =~= v@.subrange(start as int, k as int));
            assert(v@.subrange(a as int, b as int).subrange(0, semi - a) =~= v@.subrange(a as int, semi as int));
            assert(is_avif == (accept_media_type(rest.subrange(0, k - start)) == "image/avif"@));
        }
        if is_avif {
            found = true;
        }
        if k == n {
            assert(rest.subrange(0, k - start) =~= rest);
            return found;
        }
        proof {
            assert(rest.subrange(k - start + 1, rest.len() as int) =~= v@.subrange(k + 1, n as int));
        }
        start = k + 1;
    }
}

/// Whether the response may be AVIF: only when AVIF encoding is enabled and
/// the client's `Accept` header (when it is text) lists `image/avif`.
pub fn accepts_avif(encode_avif: bool, accept: Option<&str>) -> (b: bool)
    ensures
        b == (encode_avif && (accept matches Some(a) && accept_lists_avif(a@))),
{
    if !encode_avif {
        return false;
    }
    match accept {
        Some(a) => accept_has_avif(a),
        None => false,
    }
}

/// The name and value of a configured `Name:value` header line: the text
/// before and after its first `:`; `None` when there is no `:` or nothing
/// follows it.
pub open spec fn header_line_parts(line: Seq<char>) -> Option<(Seq<char>, Seq<char>)> {
    let k = index_of_char(line, ':');
    if k + 1 < line.len() {
        Some((line.subrange(0, k), line.subrange(k + 1, line.len() as int)))
    } else {
        None
    }
}

/// Splits a configured header line into name and value.
pub fn split_header_line(line: &str) -> (r: Option<(String, String)>)
    ensures
        match r {
            Some((n, v)) => header_line_parts(line@) == Some((n@, v@)),
            None => header_line_parts(line@) is None,
        },
{
    let v = chars_of(line);
    let k = find_char(&v, 0, v.len(), ':');
    assert(v@.subrange(0, v@.len() as int) =~= v@);
    if k == v.len() || k + 1 == v.len() {
        return None;
    }
    Some((string_of(&v, 0, k), string_of(&v, k + 1, v.len())))
}

/// The header list after applying the configured header lines in order;
/// lines without a usable `Name:value` form, or with an invalid name or
/// value, are skipped.
pub open spec fn with_configured(h: Seq<(Seq<char>, Seq<char>)>, lines: Seq<Seq<char>>) -> Seq<(Seq<char>, Seq<char>)>
    decreases lines.len(),
{
    if lines.len() == 0 {
        h
    } else {
        let before = with_configured(h, lines.drop_last());
        match header_line_parts(lines.last()) {
            Some((n, v)) => appended(before, n, v),
            None => before,
        }
    }
}

/// Appends the configured `append_headers` lines to `headers`.
pub fn append_configured_headers(headers: &mut HeaderList, lines: &Vec<String>)
    ensures
        final(headers)@ == with_configured(old(headers)@, lines@.map_values(|l: String| l@)),
{
    let ghost h0 = headers@;
    let ghost all = lines@.map_values(|l: String| l@);
    let mut i: usize = 0;
    while i < lines.len()
        invariant
            i <= lines@.len(),
            all == lines@.map_values(|l: String| l@),
            headers@ == with_configured(h0, all.subrange(0, i as int)),
        decreases lines@.len() - i,
    {
        if let Some((n, v)) = split_header_line(lines[i].as_str()) {
            headers.append(n.as_str(), v.as_str());
        }
        proof {
            assert(all.subrange(0, i + 1).drop_last() =~= all.subrange(0, i as int));
            assert(all.subrange(0, i + 1).last() == lines@[i as int]@);
        }
        i += 1;
    }
    assert(all.subrange(0, lines@.len() as int) =~= all);
}

/// The configured header lines never change a value `get` already finds.
pub proof fn law_configured_keeps_found(h: Seq<(Seq<char>, Seq<char>)>, lines: Seq<Seq<char>>, other: Seq<char>)
    requires
        crate::headers::lookup(h, other) is Some,
    ensures
        crate::headers::lookup(with_configured(h, lines), other) == crate::headers::lookup(h, other),
    decreases lines.len(),
{
    if lines.len() > 0 {
        law_configured_keeps_found(h, lines.drop_last(), other);
        let before = with_configured(h, lines.drop_last());
        if let Some((n, v)) = header_line_parts(lines.last()) {
            crate::headers::law_appended_keeps_found(before, n, v, other);
        }
    }
}

} // verus!
