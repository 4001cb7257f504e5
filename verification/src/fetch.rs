//! Following upstream redirects by hand, so every hop passes the URL check.

use vstd::prelude::*;
use crate::text::{chars_of, slice_is};
use crate::urlparts::{url_join, join_url, opt_view};
use crate::headers::{HeaderList, appended};
use crate::response::{Reply, ReplyBody, starts_with};
use crate::policy::{RuntimeConfig, ResolvedAddr, url_target, all_addrs_permitted, check_url_target, check_resolved_addrs};

verus! {

/// The most requests one fetch sends (the first one and its redirects).
pub const MAX_REDIRECTS: usize = 5;

/// The outcome of one upstream request.
pub enum FetchEvent {
    /// No response arrived.
    Failed,
    /// A 3xx response, with its `Location` header if it had one.
    Redirect(Option<String>),
    /// Any other response.
    Final,
}

/// What the caller does next.
pub enum FetchAction {
    /// Send a request to this URL.
    Send(String),
    /// Resolve this host (for this port) and report its addresses.
    Resolve { host: String, port: u16 },
    /// Use the last response.
    Accept,
    /// Answer the client with this status (and the placeholder image when
    /// `dummy` holds).
    Reply { status: u16, dummy: bool },
}

/// Whether `a` sends a request to `u`.
pub open spec fn sends(a: FetchAction, u: Seq<char>) -> bool {
    match a {
        FetchAction::Send(x) => x@ == u,
        _ => false,
    }
}

/// Whether `a` asks to resolve `host` for `port`.
pub open spec fn resolves(a: FetchAction, host: Seq<char>, port: u16) -> bool {
    match a {
        FetchAction::Resolve { host: h, port: p } => h@ == host && p == port,
        _ => false,
    }
}

/// Whether `a` answers the client with `status` (and the placeholder when `dummy`).
pub open spec fn replies(a: FetchAction, status: u16, dummy: bool) -> bool {
    match a {
        FetchAction::Reply { status: s, dummy: d } => s == status && d == dummy,
        _ => false,
    }
}

/// Whether `e` is a redirect with the `Location` value `l`.
pub open spec fn redirects(e: FetchEvent, l: Option<Seq<char>>) -> bool {
    match e {
        FetchEvent::Redirect(x) => opt_view(x) == l,
        _ => false,
    }
}

/// Classifies an upstream response by its status: 3xx is a redirect.
pub fn classify_response(status: u16, location: Option<String>) -> (e: FetchEvent)
    ensures
        300 <= status <= 399 ==> redirects(e, opt_view(location)),
        !(300 <= status <= 399) ==> e is Final,
{
    if 300 <= status && status <= 399 {
        FetchEvent::Redirect(location)
    } else {
        FetchEvent::Final
    }
}

/// The URL a `Location` value points to from `current`: the value itself
/// when it starts with `http://` or `https://`, else the value joined to
/// `current`, or `None` when joining fails.
pub open spec fn redirect_target(current: Seq<char>, location: Seq<char>) -> Option<Seq<char>> {
    if starts_with(location, "http://"@) || starts_with(location, "https://"@) {
        Some(location)
    } else {
        url_join(current, location)
    }
}

/// Resolves a `Location` value against the current URL.
pub fn resolve_location(current: &str, location: &str) -> (r: Option<String>)
    ensures
        opt_view(r) == redirect_target(current@, location@),
{
    let v = chars_of(location);
    let http = v.len() >= 7 && slice_is(&v, 0, 7, "http://");
    let https = v.len() >= 8 && slice_is(&v, 0, 8, "https://");
    proof {
        reveal_strlit("http://");
        reveal_strlit("https://");
    }
    if http || https {
        Some(location.to_owned())
    } else {
        join_url(current, location)
    }
}

/// Whether the URL check passes for `u` when its host resolved to `addrs`:
/// the scheme and host rules hold and no address is refused.
pub open spec fn passes_check(rtc: RuntimeConfig, u: Seq<char>, addrs: Seq<ResolvedAddr>) -> bool {
    url_target(rtc, u) is Ok && all_addrs_permitted(rtc, addrs)
}

/// Whether every URL recorded in `m` passed the check with its addresses.
pub open spec fn checks_hold(rtc: RuntimeConfig, m: Map<Seq<char>, Seq<ResolvedAddr>>) -> bool {
    forall|u: Seq<char>| #[trigger] m.dom().contains(u) ==> passes_check(rtc, u, m[u])
}

/// Whether every URL of `req` is recorded in `m`.
pub open spec fn all_recorded(req: Seq<Seq<char>>, m: Map<Seq<char>, Seq<ResolvedAddr>>) -> bool {
    forall|i: int| 0 <= i < req.len() ==> m.dom().contains(#[trigger] req[i])
}

proof fn lemma_record_check(
    rtc: RuntimeConfig,
    req: Seq<Seq<char>>,
    m: Map<Seq<char>, Seq<ResolvedAddr>>,
    u: Seq<char>,
    addrs: Seq<ResolvedAddr>,
)
    requires
        checks_hold(rtc, m),
        all_recorded(req, m),
        passes_check(rtc, u, addrs),
    ensures
        checks_hold(rtc, m.insert(u, addrs)),
        all_recorded(req, m.insert(u, addrs)),
        all_recorded(req.push(u), m.insert(u, addrs)),
{
    let m2 = m.insert(u, addrs);
    assert forall|x: Seq<char>| #[trigger] m2.dom().contains(x) implies passes_check(rtc, x, m2[x]) by {
        if x != u {
            assert(m.dom().contains(x));
        }
    }
    assert forall|i: int| 0 <= i < req.push(u).len() implies m2.dom().contains(#[trigger] req.push(u)[i]) by {
        if i < req.len() {
            assert(req.push(u)[i] == req[i]);
            assert(m.dom().contains(req[i]));
        }
    }
    assert forall|i: int| 0 <= i < req.len() implies m2.dom().contains(#[trigger] req[i]) by {
        assert(m.dom().contains(req[i]));
    }
}

proof fn lemma_push_recorded(req: Seq<Seq<char>>, m: Map<Seq<char>, Seq<ResolvedAddr>>, u: Seq<char>)
    requires
        all_recorded(req, m),
        m.dom().contains(u),
    ensures
        all_recorded(req.push(u), m),
{
    assert forall|i: int| 0 <= i < req.push(u).len() implies m.dom().contains(#[trigger] req.push(u)[i]) by {
        if i < req.len() {
            assert(req.push(u)[i] == req[i]);
        }
    }
}

/// A fetch in progress.
pub struct Fetch {
    current: String,
    pending: Option<String>,
    sent: usize,
    fallback: bool,
    policy: Ghost<RuntimeConfig>,
    checked: Ghost<Map<Seq<char>, Seq<ResolvedAddr>>>,
    requested: Ghost<Seq<Seq<char>>>,
}

impl Fetch {
    /// The URL requested last (or to request first).
    pub closed spec fn current(self) -> Seq<char> {
        self.current@
    }

    /// The URL whose host is being resolved for its check.
    pub closed spec fn pending(self) -> Option<Seq<char>> {
        opt_view(self.pending)
    }

    /// How many requests have been sent.
    pub closed spec fn sent(self) -> nat {
        self.sent as nat
    }

    /// Whether the client asked for the placeholder image on failure.
    pub closed spec fn fallback(self) -> bool {
        self.fallback
    }

    /// The URL policy every check of this fetch applies.
    pub closed spec fn policy(self) -> RuntimeConfig {
        self.policy@
    }

    /// The URLs that passed the check, each with the addresses its host
    /// resolved to when it was checked.
    pub closed spec fn checked(self) -> Map<Seq<char>, Seq<ResolvedAddr>> {
        self.checked@
    }

    /// The URLs requested so far, in order.
    pub closed spec fn requested(self) -> Seq<Seq<char>> {
        self.requested@
    }

    /// At most `MAX_REDIRECTS` requests; every URL requested, and every
    /// URL recorded as checked, passed the check; a URL awaiting
    /// resolution passed the scheme and host rules.
    pub open spec fn wf(self) -> bool {
        &&& self.sent() == self.requested().len()
        &&& self.sent() <= MAX_REDIRECTS
        &&& all_recorded(self.requested(), self.checked())
        &&& checks_hold(self.policy(), self.checked())
        &&& (self.pending() matches Some(p) ==> url_target(self.policy(), p) is Ok)
    }

    /// Starts a fetch of `url`: its host must be resolved for the check, or,
    /// when its scheme or host is refused, the answer is 400 (the
    /// placeholder image when a fallback was asked for).
    pub fn new(rtc: &RuntimeConfig, url: &str, fallback: bool) -> (r: (Fetch, FetchAction))
        ensures
            r.0.wf(),
            r.0.policy() == *rtc,
            r.0.current() == url@,
            r.0.sent() == 0,
            r.0.fallback() == fallback,
            r.0.checked() == Map::<Seq<char>, Seq<ResolvedAddr>>::empty(),
            match url_target(*rtc, url@) {
                Ok((h, p)) => r.0.pending() == Some(url@) && resolves(r.1, h, p),
                Err(_) => r.0.pending() is None && replies(r.1, 400, fallback),
            },
    {
        let policy: Ghost<RuntimeConfig> = Ghost(*rtc);
        let checked: Ghost<Map<Seq<char>, Seq<ResolvedAddr>>> = Ghost(Map::empty());
        let requested: Ghost<Seq<Seq<char>>> = Ghost(Seq::empty());
        match check_url_target(rtc, url) {
            Ok((host, port)) => {
                let f = Fetch { current: url.to_owned(), pending: Some(url.to_owned()), sent: 0, fallback, policy, checked, requested };
                (f, FetchAction::Resolve { host, port })
            },
            Err(_) => {
                let f = Fetch { current: url.to_owned(), pending: None, sent: 0, fallback, policy, checked, requested };
                (f, FetchAction::Reply { status: 400, dummy: fallback })
            },
        }
    }

    /// The next request, unless `MAX_REDIRECTS` have been sent, in which case
    /// the answer is 502 (too many redirects).
    fn next_request(&mut self) -> (a: FetchAction)
        requires
            old(self).wf(),
            old(self).checked().dom().contains(old(self).current()),
        ensures
            final(self).wf(),
            final(self).current() == old(self).current(),
            final(self).pending() == old(self).pending(),
            final(self).fallback() == old(self).fallback(),
            final(self).policy() == old(self).policy(),
            final(self).checked() == old(self).checked(),
            old(self).sent() < MAX_REDIRECTS ==> final(self).sent() == old(self).sent() + 1
                && sends(a, old(self).current())
                && final(self).requested() == old(self).requested().push(old(self).current()),
            old(self).sent() >= MAX_REDIRECTS ==> final(self).sent() == old(self).sent()
                && final(self).requested() == old(self).requested() && replies(a, 502, false),
    {
        if self.sent < MAX_REDIRECTS {
            self.sent = self.sent + 1;
            proof {
                lemma_push_recorded(self.requested@, self.checked@, self.current@);
                self.requested@ = self.requested@.push(self.current@);
            }
            FetchAction::Send(self.current.clone())
        } else {
            FetchAction::Reply { status: 502, dummy: false }
        }
    }

    /// After the host of the URL awaiting its check was resolved (`None`
    /// when resolution failed): when every address is permitted the URL is
    /// recorded as checked and requested next (or 502 once `MAX_REDIRECTS`
    /// requests were sent); otherwise the answer is 400, with the
    /// placeholder image when it was the first URL and a fallback was asked
    /// for.
    pub fn on_resolved(&mut self, rtc: &RuntimeConfig, addrs: Option<&Vec<ResolvedAddr>>) -> (a: FetchAction)
        requires
            old(self).wf(),
            old(self).pending() is Some,
            *rtc == old(self).policy(),
        ensures
            final(self).wf(),
            final(self).pending() is None,
            final(self).fallback() == old(self).fallback(),
            final(self).policy() == old(self).policy(),
            ({
                let u = old(self).pending()->Some_0;
                if addrs matches Some(v) && all_addrs_permitted(*rtc, v@) {
                    &&& final(self).checked() == old(self).checked().insert(u, addrs->Some_0@)
                    &&& final(self).current() == u
                    &&& (old(self).sent() < MAX_REDIRECTS ==> final(self).sent() == old(self).sent() + 1
                        && sends(a, u) && final(self).requested() == old(self).requested().push(u))
                    &&& (old(self).sent() >= MAX_REDIRECTS ==> final(self).sent() == old(self).sent()
                        && final(self).requested() == old(self).requested() && replies(a, 502, false))
                } else {
                    &&& final(self).checked() == old(self).checked()
                    &&& final(self).current() == old(self).current()
                    &&& final(self).sent() == old(self).sent()
                    &&& final(self).requested() == old(self).requested()
                    &&& replies(a, 400, old(self).fallback() && old(self).sent() == 0)
                }
            }),
    {
        let ghost u = self.pending()->Some_0;
        let t = self.pending.take();
        let permitted = match addrs {
            Some(v) => check_resolved_addrs(rtc, v).is_ok(),
            None => false,
        };
        match t {
            Some(t) => {
                if !permitted {
                    return FetchAction::Reply { status: 400, dummy: self.fallback && self.sent == 0 };
                }
                proof {
                    lemma_record_check(self.policy@, self.requested@, self.checked@, u, addrs->Some_0@);
                    self.checked@ = self.checked@.insert(u, addrs->Some_0@);
                }
                self.current = t;
                self.next_request()
            },
            None => FetchAction::Reply { status: 400, dummy: false },
        }
    }

    /// Decides on the outcome of the last request: a failed request answers
    /// with the placeholder image (200) when a fallback was asked for, else
    /// 502; a redirect without a usable `Location` answers 502; a redirect
    /// target whose scheme or host is refused answers 400; any other
    /// redirect target must be resolved for its check; any other response
    /// is used.
    pub fn on_response(&mut self, rtc: &RuntimeConfig, e: FetchEvent) -> (a: FetchAction)
        requires
            old(self).wf(),
            old(self).pending() is None,
            *rtc == old(self).policy(),
        ensures
            final(self).wf(),
            final(self).current() == old(self).current(),
            final(self).sent() == old(self).sent(),
            final(self).fallback() == old(self).fallback(),
            final(self).policy() == old(self).policy(),
            final(self).checked() == old(self).checked(),
            final(self).requested() == old(self).requested(),
            match e {
                FetchEvent::Failed => final(self).pending() is None && (if old(self).fallback() {
                    replies(a, 200, true)
                } else {
                    replies(a, 502, false)
                }),
                FetchEvent::Final => final(self).pending() is None && a is Accept,
                FetchEvent::Redirect(None) => final(self).pending() is None && replies(a, 502, false),
                FetchEvent::Redirect(Some(loc)) => match redirect_target(old(self).current(), loc@) {
                    None => final(self).pending() is None && replies(a, 502, false),
                    Some(t) => match url_target(*rtc, t) {
                        Err(_) => final(self).pending() is None && replies(a, 400, false),
                        Ok((h, p)) => final(self).pending() == Some(t) && resolves(a, h, p),
                    },
                },
            },
    {
        match e {
            FetchEvent::Failed => {
                if self.fallback {
                    FetchAction::Reply { status: 200, dummy: true }
                } else {
                    FetchAction::Reply { status: 502, dummy: false }
                }
            },
            FetchEvent::Final => FetchAction::Accept,
            FetchEvent::Redirect(None) => FetchAction::Reply { status: 502, dummy: false },
            FetchEvent::Redirect(Some(loc)) => {
                match resolve_location(self.current.as_str(), loc.as_str()) {
                    None => FetchAction::Reply { status: 502, dummy: false },
                    Some(t) => {
                        match check_url_target(rtc, t.as_str()) {
                            Err(_) => FetchAction::Reply { status: 400, dummy: false },
                            Ok((host, port)) => {
                                self.pending = Some(t);
                                FetchAction::Resolve { host, port }
                            },
                        }
                    },
                }
            },
        }
    }
}

/// Over a whole fetch: at most `MAX_REDIRECTS` requests are sent, and every
/// URL requested, the first one and each redirect target, passed the URL
/// check (its scheme and host rules, and every address its host resolved
/// to) before it was requested.
pub proof fn law_fetch_requests_only_checked_urls(f: Fetch)
    requires
        f.wf(),
    ensures
        f.requested().len() <= MAX_REDIRECTS,
        forall|i: int|
            0 <= i < f.requested().len() ==> #[trigger] f.checked().dom().contains(f.requested()[i])
                && passes_check(f.policy(), f.requested()[i], f.checked()[f.requested()[i]]),
{
    assert forall|i: int| 0 <= i < f.requested().len() implies #[trigger] f.checked().dom().contains(
        f.requested()[i],
    ) && passes_check(f.policy(), f.requested()[i], f.checked()[f.requested()[i]]) by {
        assert(f.checked().dom().contains(f.requested()[i]));
    }
}

/// A reply that ends the request early: the placeholder image (200, with
/// `Content-Type: image/png` appended) when `dummy` holds, else `status`
/// with no body.
pub fn early_reply(headers: &mut HeaderList, status: u16, dummy: bool) -> (r: Reply)
    ensures
        dummy ==> r.status == 200 && r.body == ReplyBody::Dummy && final(headers)@ == appended(
            old(headers)@,
            "Content-Type"@,
            "image/png"@,
        ),
        !dummy ==> r.status == status && r.body == ReplyBody::Empty && final(headers)@ == old(headers)@,
{
    if dummy {
        headers.append("Content-Type", "image/png");
        Reply { status: 200, body: ReplyBody::Dummy }
    } else {
        Reply { status, body: ReplyBody::Empty }
    }
}

} // verus!
