//! Startup decisions: where the configuration lives, how environment
//! lists extend it, where the server listens, the mode of its socket file,
//! and whether an upstream HTTP proxy may be used.

use vstd::prelude::*;
use crate::text::{chars_of, slice_is, string_of, find_char, index_of_char};
use crate::response::starts_with;
use crate::config::ConfigFile;

verus! {

/// Where the server listens.
pub enum BindTarget {
    /// A Unix domain socket at `path`; `legacy` when it was given without
    /// the `unix://` prefix (a bare path starting with `/` or ending in
    /// `.sock`), a form that still works but is deprecated.
    Unix { path: String, legacy: bool },
    /// A TCP address, as written.
    Tcp(String),
}

/// Whether `s` ends with `p`.
pub open spec fn ends_with(s: Seq<char>, p: Seq<char>) -> bool {
    p.len() <= s.len() && s.subrange(s.len() - p.len(), s.len() as int) == p
}

/// The listening target `bind_addr` names: its path after `unix://`;
/// itself as a (deprecated) socket path when it starts with `/` or ends in
/// `.sock`; else a TCP address.
pub open spec fn bind_target_of(s: Seq<char>) -> (bool, bool, Seq<char>) {
    if starts_with(s, "unix://"@) {
        (true, false, s.subrange(7, s.len() as int))
    } else if starts_with(s, "/"@) || ends_with(s, ".sock"@) {
        (true, true, s)
    } else {
        (false, false, s)
    }
}

/// The parts of a target: whether it is a socket, whether the form is
/// deprecated, and the path or address.
pub open spec fn target_view(t: BindTarget) -> (bool, bool, Seq<char>) {
    match t {
        BindTarget::Unix { path, legacy } => (true, legacy, path@),
        BindTarget::Tcp(a) => (false, false, a@),
    }
}

/// Reads the configured `bind_addr`.
pub fn bind_target(bind_addr: &str) -> (t: BindTarget)
    ensures
        target_view(t) == bind_target_of(bind_addr@),
{
    let v = chars_of(bind_addr);
    let n = v.len();
    proof {
        reveal_strlit("unix://");
        reveal_strlit("/");
        reveal_strlit(".sock");
    }
    if n >= 7 && slice_is(&v, 0, 7, "unix://") {
        return BindTarget::Unix { path: string_of(&v, 7, n), legacy: false };
    }
    let slash = n >= 1 && slice_is(&v, 0, 1, "/");
    let sock = n >= 5 && slice_is(&v, n - 5, n, ".sock");
    if slash || sock {
        BindTarget::Unix { path: bind_addr.to_owned(), legacy: true }
    } else {
        BindTarget::Tcp(bind_addr.to_owned())
    }
}

/// The value of a digit character.
pub open spec fn digit_value(c: char) -> int {
    (c as u32) - ('0' as u32)
}

/// Whether `c` is an octal digit.
pub open spec fn is_octal_digit(c: char) -> bool {
    '0' <= c && c <= '7'
}

/// The number the octal digits `s` spell.
pub open spec fn octal_value(s: Seq<char>) -> int
    decreases s.len(),
{
    if s.len() == 0 {
        0
    } else {
        octal_value(s.drop_last()) * 8 + digit_value(s.last())
    }
}

/// The socket file mode written as `s`: one to four octal digits.
pub open spec fn socket_mode_of(s: Seq<char>) -> Option<u32> {
    if 0 < s.len() <= 4 && forall|i: int| 0 <= i < s.len() ==> is_octal_digit(#[trigger] s[i]) {
        Some(octal_value(s) as u32)
    } else {
        None
    }
}

proof fn lemma_octal_bound(s: Seq<char>)
    requires
        forall|i: int| 0 <= i < s.len() ==> is_octal_digit(#[trigger] s[i]),
    ensures
        0 <= octal_value(s),
        s.len() <= 4 ==> octal_value(s) < 4096,
        s.len() <= 3 ==> octal_value(s) < 512,
        s.len() <= 2 ==> octal_value(s) < 64,
        s.len() <= 1 ==> octal_value(s) < 8,
    decreases s.len(),
{
    if s.len() > 0 {
        let t = s.drop_last();
        assert forall|i: int| 0 <= i < t.len() implies is_octal_digit(#[trigger] t[i]) by {
            assert(t[i] == s[i]);
        }
        lemma_octal_bound(t);
        assert(is_octal_digit(s[s.len() - 1]));
    }
}

/// The mode of the socket file: `unix_socket_permissions` read as octal
/// digits, `0o660` when unset; `None` when the setting is not one to four
/// octal digits.
pub fn socket_mode(setting: Option<&str>) -> (m: Option<u32>)
    ensures
        setting is None ==> m == Some(0o660u32),
        setting matches Some(s) ==> m == socket_mode_of(s@),
{
    let s = match setting {
        None => return Some(0o660),
        Some(s) => s,
    };
    let v = chars_of(s);
    if v.len() == 0 || v.len() > 4 {
        return None;
    }
    let mut acc: u32 = 0;
    let mut i: usize = 0;
    while i < v.len()
        invariant
            setting == Some(s),
            v@ == s@,
            0 < v@.len() <= 4,
            i <= v@.len(),
            forall|j: int| 0 <= j < i ==> is_octal_digit(#[trigger] v@[j]),
            acc == octal_value(v@.subrange(0, i as int)),
        decreases v@.len() - i,
    {
        let c = v[i];
        if c < '0' || c > '7' {
            assert(!is_octal_digit(v@[i as int]));
            return None;
        }
        proof {
            let p = v@.subrange(0, i as int);
            assert forall|j: int| 0 <= j < p.len() implies is_octal_digit(#[trigger] p[j]) by {
                assert(p[j] == v@[j]);
            }
            lemma_octal_bound(p);
            assert(v@.subrange(0, i + 1).drop_last() =~= p);
        }
        let d: u32 = (c as u32) - ('0' as u32);
        acc = acc * 8 + d;
        i += 1;
    }
    assert(v@.subrange(0, v@.len() as int) =~= v@);
    Some(acc)
}

/// Whether the configuration may start: an upstream `proxy` is only used
/// when `unsafe_allow_proxy` confirms that the proxy does its own SSRF
/// filtering.
pub fn proxy_permitted(config: &ConfigFile) -> (r: Result<(), String>)
    ensures
        r is Ok <==> (config.proxy is None || config.unsafe_allow_proxy),
{
    if config.proxy.is_some() && !config.unsafe_allow_proxy {
        return Err(
            "proxy is set but unsafe_allow_proxy is not true; the proxy must filter SSRF itself".to_owned(),
        );
    }
    Ok(())
}

/// The configuration file: `MEDIA_PROXY_CONFIG_PATH` when it is set and
/// not empty, else `config.json`.
pub fn config_path(env: Option<&str>) -> (p: String)
    ensures
        p@ == (match env {
            Some(e) => if e@.len() > 0 {
                e@
            } else {
                "config.json"@
            },
            None => "config.json"@,
        }),
{
    match env {
        Some(e) => {
            if e.unicode_len() > 0 {
                return e.to_owned();
            }
        },
        None => {},
    }
    "config.json".to_owned()
}

/// The pieces of `s` between commas, in order (`str::split(',')`): one
/// more piece than there are commas, empty ones included.
pub open spec fn comma_pieces(s: Seq<char>) -> Seq<Seq<char>>
    decreases s.len(),
{
    let k = index_of_char(s, ',');
    if 0 <= k < s.len() {
        seq![s.subrange(0, k)] + comma_pieces(s.subrange(k + 1, s.len() as int))
    } else {
        seq![s]
    }
}

/// A configured list extended by a comma-separated environment value:
/// the list (empty when unset) followed by each piece of `value`.
pub fn extend_from_env(list: Option<Vec<String>>, value: &str) -> (r: Vec<String>)
    ensures
        r@.map_values(|x: String| x@) == (match list {
            Some(l) => l@.map_values(|x: String| x@),
            None => Seq::<Seq<char>>::empty(),
        }) + comma_pieces(value@),
{
    let ghost init = if list is Some {
        list->Some_0@.map_values(|x: String| x@)
    } else {
        Seq::<Seq<char>>::empty()
    };
    let mut r = match list {
        Some(l) => l,
        None => Vec::new(),
    };
    let ghost base = r@.map_values(|x: String| x@);
    assert(base =~= init);
    let v = chars_of(value);
    let n = v.len();
    let mut start: usize = 0;
    assert(v@.subrange(0, n as int) =~= v@);
    loop
        invariant
            n == v@.len(),
            v@ == value@,
            start <= n,
            base == init,
            init == (match list {
                Some(l) => l@.map_values(|x: String| x@),
                None => Seq::<Seq<char>>::empty(),
            }),
            base + comma_pieces(value@) == r@.map_values(|x: String| x@) + comma_pieces(
                v@.subrange(start as int, n as int),
            ),
        decreases n - start,
    {
        let ghost rest = v@.subrange(start as int, n as int);
        let ghost before = r@.map_values(|x: String| x@);
        let k = find_char(&v, start, n, ',');
        let piece = string_of(&v, start, k);
        r.push(piece);
        proof {
            assert(rest.subrange(0, k - start) =~= v@.subrange(start as int, k as int));
            assert(r@.map_values(|x: String| x@) =~= before.push(v@.subrange(start as int, k as int)));
        }
        if k == n {
            assert(rest =~= v@.subrange(start as int, k as int));
            assert(before + comma_pieces(rest) =~= before.push(rest));
            return r;
        }
        proof {
            assert(rest.subrange(k - start + 1, rest.len() as int) =~= v@.subrange(k + 1, n as int));
            let tail = comma_pieces(v@.subrange(k + 1, n as int));
            assert(comma_pieces(rest) == seq![v@.subrange(start as int, k as int)] + tail);
            assert(before + (seq![v@.subrange(start as int, k as int)] + tail) =~= before.push(
                v@.subrange(start as int, k as int),
            ) + tail);
        }
        start = k + 1;
    }
}

} // verus!
