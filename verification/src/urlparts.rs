//! Trusted access to the URL parser of `reqwest` (`url::Url`).

use vstd::prelude::*;
use std::str::FromStr;

verus! {

/// The parts of a parsed URL the proxy reads: scheme, host text and port
/// (explicit, or the scheme's known default); or the parse error's
/// debug text.
pub uninterp spec fn url_components(s: Seq<char>) -> Result<
    (Seq<char>, Option<Seq<char>>, Option<u16>),
    Seq<char>,
>;

/// The text of `base` joined with the reference `input`, or `None` when
/// either does not parse.
pub uninterp spec fn url_join(base: Seq<char>, input: Seq<char>) -> Option<Seq<char>>;

pub open spec fn opt_view(o: Option<String>) -> Option<Seq<char>> {
    match o {
        Some(s) => Some(s@),
        None => None,
    }
}

pub open spec fn components_view(r: Result<(String, Option<String>, Option<u16>), String>) -> Result<
    (Seq<char>, Option<Seq<char>>, Option<u16>),
    Seq<char>,
> {
    match r {
        Ok((scheme, host, port)) => Ok((scheme@, opt_view(host), port)),
        Err(e) => Err(e@),
    }
}

/// `Url::from_str`, read through `scheme`, `host_str` and
/// `port_or_known_default`; a parse error becomes its `Debug` text.
#[verifier::external_body]
pub(crate) fn parse_url_components(s: &str) -> (r: Result<(String, Option<String>, Option<u16>), String>)
    ensures
        components_view(r) == url_components(s@),
{
    match reqwest::Url::from_str(s) {
        Ok(u) => Ok((u.scheme().to_owned(), u.host_str().map(|h| h.to_owned()), u.port_or_known_default())),
        Err(e) => Err(format!("{:?}", e)),
    }
}

/// `Url::from_str(base)` then `Url::join(input)`, as text.
#[verifier::external_body]
pub(crate) fn join_url(base: &str, input: &str) -> (r: Option<String>)
    ensures
        opt_view(r) == url_join(base@, input@),
{
    match reqwest::Url::from_str(base) {
        Ok(b) => b.join(input).ok().map(|u| u.to_string()),
        Err(_) => None,
    }
}

} // verus!
