//! An ordered list of HTTP header fields, as `http::HeaderMap` keeps them.

use vstd::prelude::*;
use std::str::FromStr;
use crate::text::same_text;

verus! {

/// A token character allowed in a header name.
pub open spec fn is_tchar(c: char) -> bool {
    ||| ('a' <= c && c <= 'z')
    ||| ('A' <= c && c <= 'Z')
    ||| ('0' <= c && c <= '9')
    ||| c == '!' || c == '#' || c == '$' || c == '%' || c == '&' || c == '\'' || c == '*'
    ||| c == '+' || c == '-' || c == '.' || c == '^' || c == '_' || c == '`' || c == '|' || c == '~'
}

/// ASCII lowercase of one character.
pub open spec fn ascii_lower(c: char) -> char {
    if 'A' <= c && c <= 'Z' {
        ((c as u32) + 32) as char
    } else {
        c
    }
}

/// The normalized (lowercase) header name for `s`, or `None` when `s` is
/// not a valid header name: empty, longer than 65535, or with a character
/// outside the token set.
pub open spec fn header_name(s: Seq<char>) -> Option<Seq<char>> {
    if 0 < s.len() <= 65535 && forall|i: int| 0 <= i < s.len() ==> is_tchar(#[trigger] s[i]) {
        Some(s.map_values(|c: char| ascii_lower(c)))
    } else {
        None
    }
}

/// Whether `s` is a valid header value: every character is a tab, or is
/// neither a control character below space nor DEL.
pub open spec fn header_value_ok(s: Seq<char>) -> bool {
    forall|i: int| 0 <= i < s.len() ==> (#[trigger] s[i] == '\t' || (s[i] as u32 >= 32 && s[i] as u32 != 127))
}

/// `HeaderName::from_str`: the normalized name, or `None` when invalid.
#[verifier::external_body]
pub(crate) fn parse_header_name(s: &str) -> (r: Option<String>)
    ensures
        match r {
            Some(n) => header_name(s@) == Some(n@),
            None => header_name(s@) is None,
        },
{
    match axum::http::HeaderName::from_str(s) {
        Ok(n) => Some(n.as_str().to_owned()),
        Err(_) => None,
    }
}

/// `HeaderValue::from_str(s).is_ok()`.
#[verifier::external_body]
pub(crate) fn is_valid_header_value(s: &str) -> (b: bool)
    ensures
        b == header_value_ok(s@),
{
    axum::http::HeaderValue::from_str(s).is_ok()
}

/// Header fields in order; each name is stored normalized.
pub struct HeaderList {
    entries: Vec<(String, String)>,
}

pub open spec fn entry_view(e: (String, String)) -> (Seq<char>, Seq<char>) {
    (e.0@, e.1@)
}

impl View for HeaderList {
    type V = Seq<(Seq<char>, Seq<char>)>;

    closed spec fn view(&self) -> Seq<(Seq<char>, Seq<char>)> {
        self.entries@.map_values(|e: (String, String)| entry_view(e))
    }
}

/// The first value stored under the normalized name `n`.
pub open spec fn first_value(h: Seq<(Seq<char>, Seq<char>)>, n: Seq<char>) -> Option<Seq<char>>
    decreases h.len(),
{
    if h.len() == 0 {
        None
    } else if h[0].0 == n {
        Some(h[0].1)
    } else {
        first_value(h.drop_first(), n)
    }
}

/// The fields whose name is not `n`.
pub open spec fn without(h: Seq<(Seq<char>, Seq<char>)>, n: Seq<char>) -> Seq<(Seq<char>, Seq<char>)> {
    h.filter(|e: (Seq<char>, Seq<char>)| e.0 != n)
}

/// The list after `append(name, value)`: the field is added when both the
/// name and the value are valid, else nothing changes.
pub open spec fn appended(h: Seq<(Seq<char>, Seq<char>)>, name: Seq<char>, value: Seq<char>) -> Seq<(Seq<char>, Seq<char>)> {
    match header_name(name) {
        Some(n) => if header_value_ok(value) {
            h.push((n, value))
        } else {
            h
        },
        None => h,
    }
}

/// The list after `remove(name)`.
pub open spec fn removed(h: Seq<(Seq<char>, Seq<char>)>, name: Seq<char>) -> Seq<(Seq<char>, Seq<char>)> {
    match header_name(name) {
        Some(n) => without(h, n),
        None => h,
    }
}

/// The value `get(name)` returns.
pub open spec fn lookup(h: Seq<(Seq<char>, Seq<char>)>, name: Seq<char>) -> Option<Seq<char>> {
    match header_name(name) {
        Some(n) => first_value(h, n),
        None => None,
    }
}

proof fn lemma_first_value_prefix(h: Seq<(Seq<char>, Seq<char>)>, n: Seq<char>, i: int)
    requires
        0 <= i <= h.len(),
        forall|j: int| 0 <= j < i ==> (#[trigger] h[j]).0 != n,
    ensures
        first_value(h, n) == first_value(h.subrange(i, h.len() as int), n),
    decreases i,
{
    if i > 0 {
        let t = h.drop_first();
        assert forall|j: int| 0 <= j < i - 1 implies (#[trigger] t[j]).0 != n by {
            assert(t[j] == h[j + 1]);
        }
        lemma_first_value_prefix(t, n, i - 1);
        assert(t.subrange(i - 1, t.len() as int) =~= h.subrange(i, h.len() as int));
    } else {
        assert(h.subrange(0, h.len() as int) =~= h);
    }
}

/// The list after appending each field of `fields` in turn.
pub open spec fn appended_all(h: Seq<(Seq<char>, Seq<char>)>, fields: Seq<(Seq<char>, Seq<char>)>) -> Seq<(Seq<char>, Seq<char>)>
    decreases fields.len(),
{
    if fields.len() == 0 {
        h
    } else {
        appended(appended_all(h, fields.drop_last()), fields.last().0, fields.last().1)
    }
}

/// The fields whose name is `n`.
pub open spec fn only(h: Seq<(Seq<char>, Seq<char>)>, n: Seq<char>) -> Seq<(Seq<char>, Seq<char>)> {
    h.filter(|e: (Seq<char>, Seq<char>)| e.0 == n)
}

/// The list after copying the fields named `name` from `from`.
pub open spec fn copied(h: Seq<(Seq<char>, Seq<char>)>, from: Seq<(Seq<char>, Seq<char>)>, name: Seq<char>) -> Seq<(Seq<char>, Seq<char>)> {
    match header_name(name) {
        Some(n) => appended_all(h, only(from, n)),
        None => h,
    }
}

impl HeaderList {
    /// An empty list.
    pub fn new() -> (h: HeaderList)
        ensures
            h@ == Seq::<(Seq<char>, Seq<char>)>::empty(),
    {
        let h = HeaderList { entries: Vec::new() };
        assert(h@ =~= Seq::<(Seq<char>, Seq<char>)>::empty());
        h
    }

    /// The fields, names normalized.
    pub fn entries(&self) -> (e: &Vec<(String, String)>)
        ensures
            e@.map_values(|x: (String, String)| entry_view(x)) == self@,
    {
        &self.entries
    }

    /// Appends `name: value` when both are valid (as parsing them into
    /// `HeaderName` and `HeaderValue` would accept), and says whether it did.
    pub fn append(&mut self, name: &str, value: &str) -> (added: bool)
        ensures
            final(self)@ == appended(old(self)@, name@, value@),
            added == (header_name(name@) is Some && header_value_ok(value@)),
    {
        match parse_header_name(name) {
            Some(n) => {
                if is_valid_header_value(value) {
                    let ghost before = self@;
                    self.entries.push((n, value.to_owned()));
                    assert(self@ =~= before.push((n@, value@)));
                    true
                } else {
                    false
                }
            },
            None => false,
        }
    }

    /// The first value stored under `name`.
    pub fn get(&self, name: &str) -> (v: Option<&String>)
        ensures
            match v {
                Some(s) => lookup(self@, name@) == Some(s@),
                None => lookup(self@, name@) is None,
            },
    {
        let n = match parse_header_name(name) {
            Some(n) => n,
            None => return None,
        };
        let ghost h = self@;
        let mut i: usize = 0;
        while i < self.entries.len()
            invariant
                i <= self.entries@.len(),
                h == self@,
                h.len() == self.entries@.len(),
                header_name(name@) == Some(n@),
                forall|j: int| 0 <= j < i ==> (#[trigger] h[j]).0 != n@,
            decreases self.entries@.len() - i,
        {
            assert(h[i as int] == entry_view(self.entries@[i as int]));
            if same_text(self.entries[i].0.as_str(), n.as_str()) {
                proof {
                    lemma_first_value_prefix(h, n@, i as int);
                }
                return Some(&self.entries[i].1);
            }
            i += 1;
        }
        proof {
            lemma_first_value_prefix(h, n@, i as int);
        }
        None
    }

    /// Appends, in order, every field of `from` stored under `name`.
    pub fn copy_from(&mut self, from: &HeaderList, name: &str)
        ensures
            final(self)@ == copied(old(self)@, from@, name@),
    {
        let n = match parse_header_name(name) {
            Some(n) => n,
            None => return,
        };
        let ghost h0 = self@;
        let ghost src = from@;
        let mut i: usize = 0;
        while i < from.entries.len()
            invariant
                i <= from.entries@.len(),
                src == from@,
                src.len() == from.entries@.len(),
                header_name(name@) == Some(n@),
                self@ == appended_all(h0, only(src.subrange(0, i as int), n@)),
            decreases from.entries@.len() - i,
        {
            let ghost before = self@;
            assert(src[i as int] == entry_view(from.entries@[i as int]));
            if same_text(from.entries[i].0.as_str(), n.as_str()) {
                self.append(from.entries[i].0.as_str(), from.entries[i].1.as_str());
            }
            proof {
                reveal_with_fuel(Seq::<_>::filter, 1);
                assert(src.subrange(0, i + 1).drop_last() =~= src.subrange(0, i as int));
                let f = only(src.subrange(0, i as int), n@);
                if src[i as int].0 == n@ {
                    assert(only(src.subrange(0, i + 1), n@) == f.push(src[i as int]));
                    assert(only(src.subrange(0, i + 1), n@).drop_last() =~= f);
                } else {
                    assert(only(src.subrange(0, i + 1), n@) == f);
                }
            }
            i += 1;
        }
        assert(src.subrange(0, src.len() as int) =~= src);
    }

    /// Removes every field stored under `name`.
    pub fn remove(&mut self, name: &str)
        ensures
            final(self)@ == removed(old(self)@, name@),
    {
        let n = match parse_header_name(name) {
            Some(n) => n,
            None => return,
        };
        let ghost h = self@;
        let mut kept: Vec<(String, String)> = Vec::new();
        let mut i: usize = 0;
        while i < self.entries.len()
            invariant
                i <= self.entries@.len(),
                h == self@,
                h.len() == self.entries@.len(),
                header_name(name@) == Some(n@),
                kept@.map_values(|e: (String, String)| entry_view(e)) == without(h.subrange(0, i as int), n@),
            decreases self.entries@.len() - i,
        {
            let ghost before = kept@.map_values(|e: (String, String)| entry_view(e));
            assert(h[i as int] == entry_view(self.entries@[i as int]));
            if !same_text(self.entries[i].0.as_str(), n.as_str()) {
                let name_copy = self.entries[i].0.clone();
                let value_copy = self.entries[i].1.clone();
                kept.push((name_copy, value_copy));
                assert(kept@.map_values(|e: (String, String)| entry_view(e)) =~= before.push(h[i as int]));
            }
            proof {
                reveal_with_fuel(Seq::<_>::filter, 1);
                assert(h.subrange(0, i + 1).drop_last() =~= h.subrange(0, i as int));
            }
            i += 1;
        }
        assert(h.subrange(0, h.len() as int) =~= h);
        self.entries = kept;
    }
}


/// Looking a name up after a push: an earlier field wins; else the pushed
/// field when it has that name.
pub proof fn lemma_first_value_push(h: Seq<(Seq<char>, Seq<char>)>, e: (Seq<char>, Seq<char>), n: Seq<char>)
    ensures
        first_value(h.push(e), n) == (match first_value(h, n) {
            Some(v) => Some(v),
            None => if e.0 == n {
                Some(e.1)
            } else {
                None
            },
        }),
    decreases h.len(),
{
    if h.len() > 0 {
        assert(h.push(e)[0] == h[0]);
        assert(h.push(e).drop_first() =~= h.drop_first().push(e));
        lemma_first_value_push(h.drop_first(), e, n);
    } else {
        assert(h.push(e).drop_first() =~= Seq::<(Seq<char>, Seq<char>)>::empty());
        assert(first_value(h.push(e).drop_first(), n) is None);
        assert(h.push(e)[0] == e);
    }
}

/// Dropping the fields named `m` hides `m` and keeps every other name's value.
pub proof fn lemma_first_value_without(h: Seq<(Seq<char>, Seq<char>)>, m: Seq<char>, n: Seq<char>)
    ensures
        first_value(without(h, m), n) == (if m == n {
            None
        } else {
            first_value(h, n)
        }),
    decreases h.len(),
{
    if h.len() == 0 {
        assert(without(h, m) =~= Seq::<(Seq<char>, Seq<char>)>::empty());
    } else {
        let t = h.drop_last();
        let e = h.last();
        assert(h =~= t.push(e));
        reveal_with_fuel(Seq::<_>::filter, 1);
        lemma_first_value_without(t, m, n);
        lemma_first_value_push(t, e, n);
        if e.0 != m {
            assert(without(h, m) == without(t, m).push(e));
            lemma_first_value_push(without(t, m), e, n);
        } else {
            assert(without(h, m) == without(t, m));
        }
    }
}

/// After `remove(name)`, `get(name)` finds nothing.
pub proof fn law_removed_is_absent(h: Seq<(Seq<char>, Seq<char>)>, name: Seq<char>)
    ensures
        lookup(removed(h, name), name) is None,
{
    if let Some(n) = header_name(name) {
        lemma_first_value_without(h, n, n);
    }
}

/// Replacing a field (`remove`, then `append`) with a valid value makes
/// `get` return that value.
pub proof fn law_replaced_is_read_back(h: Seq<(Seq<char>, Seq<char>)>, name: Seq<char>, value: Seq<char>)
    requires
        header_name(name) is Some,
        header_value_ok(value),
    ensures
        lookup(appended(removed(h, name), name, value), name) == Some(value),
{
    let n = header_name(name)->Some_0;
    lemma_first_value_without(h, n, n);
    lemma_first_value_push(without(h, n), (n, value), n);
}

/// Appending, removing or replacing one field leaves what `get` returns for
/// every other field name unchanged.
pub proof fn law_other_fields_kept(
    h: Seq<(Seq<char>, Seq<char>)>,
    name: Seq<char>,
    value: Seq<char>,
    other: Seq<char>,
)
    requires
        header_name(name) != header_name(other),
        header_name(other) is Some,
    ensures
        lookup(removed(h, name), other) == lookup(h, other),
        lookup(appended(h, name, value), other) == lookup(h, other),
        lookup(appended(removed(h, name), name, value), other) == lookup(h, other),
{
    let o = header_name(other)->Some_0;
    if let Some(n) = header_name(name) {
        lemma_first_value_without(h, n, o);
        lemma_first_value_push(h, (n, value), o);
        lemma_first_value_push(without(h, n), (n, value), o);
    }
}

/// A normalized header name normalizes to itself.
pub proof fn lemma_header_name_idempotent(name: Seq<char>)
    requires
        header_name(name) is Some,
    ensures
        header_name(header_name(name)->Some_0) == header_name(name),
{
    let n = header_name(name)->Some_0;
    assert forall|i: int| 0 <= i < n.len() implies is_tchar(#[trigger] n[i]) by {
        assert(is_tchar(name[i]));
    }
    assert(n.map_values(|c: char| ascii_lower(c)) =~= n);
}

/// The first value stored under `n` is the value of the first field that
/// `only` keeps; every field `only` keeps has the name `n` and a value
/// that was in the list.
pub proof fn lemma_first_value_only(h: Seq<(Seq<char>, Seq<char>)>, n: Seq<char>)
    ensures
        first_value(h, n) == (if only(h, n).len() > 0 {
            Some(only(h, n)[0].1)
        } else {
            None
        }),
        forall|i: int| 0 <= i < only(h, n).len() ==> (#[trigger] only(h, n)[i]).0 == n,
        (forall|i: int| 0 <= i < h.len() ==> header_value_ok(#[trigger] h[i].1)) ==> (forall|i: int|
            0 <= i < only(h, n).len() ==> header_value_ok(#[trigger] only(h, n)[i].1)),
    decreases h.len(),
{
    reveal_with_fuel(Seq::<_>::filter, 1);
    if h.len() == 0 {
        assert(only(h, n) =~= Seq::<(Seq<char>, Seq<char>)>::empty());
    } else {
        let t = h.drop_last();
        let e = h.last();
        assert(h =~= t.push(e));
        lemma_first_value_only(t, n);
        lemma_first_value_push(t, e, n);
        if (forall|i: int| 0 <= i < h.len() ==> header_value_ok(#[trigger] h[i].1)) {
            assert forall|i: int| 0 <= i < t.len() implies header_value_ok(#[trigger] t[i].1) by {
                assert(t[i] == h[i]);
            }
            assert(header_value_ok(h[h.len() - 1].1));
        }
        if e.0 == n {
            assert(only(h, n) == only(t, n).push(e));
            if only(t, n).len() > 0 {
                assert(only(h, n)[0] == only(t, n)[0]);
            }
            assert forall|i: int| 0 <= i < only(h, n).len() implies (#[trigger] only(h, n)[i]).0 == n by {
                if i < only(t, n).len() {
                    assert(only(h, n)[i] == only(t, n)[i]);
                }
            }
        } else {
            assert(only(h, n) == only(t, n));
        }
    }
}

/// Appending fields that all carry the normalized name `n` and valid values:
/// the first value under `n` stays when there was one, else it is the first
/// appended value; every other name keeps its first value.
pub proof fn lemma_first_value_appended_all(
    h: Seq<(Seq<char>, Seq<char>)>,
    fs: Seq<(Seq<char>, Seq<char>)>,
    n: Seq<char>,
    o: Seq<char>,
)
    requires
        header_name(n) == Some(n),
        forall|i: int| 0 <= i < fs.len() ==> (#[trigger] fs[i]).0 == n && header_value_ok(fs[i].1),
    ensures
        first_value(appended_all(h, fs), n) == (match first_value(h, n) {
            Some(v) => Some(v),
            None => if fs.len() > 0 {
                Some(fs[0].1)
            } else {
                None
            },
        }),
        o != n ==> first_value(appended_all(h, fs), o) == first_value(h, o),
    decreases fs.len(),
{
    if fs.len() > 0 {
        let t = fs.drop_last();
        let e = fs.last();
        assert forall|i: int| 0 <= i < t.len() implies (#[trigger] t[i]).0 == n && header_value_ok(t[i].1) by {
            assert(t[i] == fs[i]);
        }
        lemma_first_value_appended_all(h, t, n, o);
        assert(e.0 == n && header_value_ok(e.1));
        let before = appended_all(h, t);
        assert(appended_all(h, fs) == before.push((n, e.1)));
        lemma_first_value_push(before, (n, e.1), n);
        lemma_first_value_push(before, (n, e.1), o);
        if t.len() > 0 {
            assert(t[0] == fs[0]);
        }
    }
}

/// Copying the fields named `name` from a list whose values are valid: a
/// value already stored under `name` is kept, else the first value `from`
/// stores under `name` is.
pub proof fn law_copied_field(
    h: Seq<(Seq<char>, Seq<char>)>,
    from: Seq<(Seq<char>, Seq<char>)>,
    name: Seq<char>,
)
    requires
        header_name(name) is Some,
        forall|i: int| 0 <= i < from.len() ==> header_value_ok(#[trigger] from[i].1),
    ensures
        lookup(copied(h, from, name), name) == (match lookup(h, name) {
            Some(v) => Some(v),
            None => lookup(from, name),
        }),
{
    let n = header_name(name)->Some_0;
    lemma_header_name_idempotent(name);
    lemma_first_value_only(from, n);
    lemma_first_value_appended_all(h, only(from, n), n, n);
}

/// Copying the fields named `name` leaves what `get` returns for any other
/// name unchanged.
pub proof fn law_copied_other_field(
    h: Seq<(Seq<char>, Seq<char>)>,
    from: Seq<(Seq<char>, Seq<char>)>,
    name: Seq<char>,
    other: Seq<char>,
)
    requires
        header_name(name) != header_name(other),
        header_name(other) is Some,
    ensures
        lookup(copied(h, from, name), other) == lookup(h, other),
{
    if let Some(n) = header_name(name) {
        let o = header_name(other)->Some_0;
        lemma_header_name_idempotent(name);
        lemma_first_value_only(from, n);
        // values of `only(from, n)` may be invalid: those appends are skipped
        lemma_first_value_appended_all_other(h, only(from, n), n, o);
    }
}

proof fn lemma_first_value_appended_all_other(
    h: Seq<(Seq<char>, Seq<char>)>,
    fs: Seq<(Seq<char>, Seq<char>)>,
    n: Seq<char>,
    o: Seq<char>,
)
    requires
        header_name(n) == Some(n),
        o != n,
        forall|i: int| 0 <= i < fs.len() ==> (#[trigger] fs[i]).0 == n,
    ensures
        first_value(appended_all(h, fs), o) == first_value(h, o),
    decreases fs.len(),
{
    if fs.len() > 0 {
        let t = fs.drop_last();
        assert forall|i: int| 0 <= i < t.len() implies (#[trigger] t[i]).0 == n by {
            assert(t[i] == fs[i]);
        }
        lemma_first_value_appended_all_other(h, t, n, o);
        let e = fs.last();
        assert(e.0 == n);
        lemma_first_value_push(appended_all(h, t), (n, e.1), o);
    }
}

/// Appending never changes a value `get` already finds.
pub proof fn law_appended_keeps_found(
    h: Seq<(Seq<char>, Seq<char>)>,
    name: Seq<char>,
    value: Seq<char>,
    other: Seq<char>,
)
    requires
        lookup(h, other) is Some,
    ensures
        lookup(appended(h, name, value), other) == lookup(h, other),
{
    if let Some(n) = header_name(name) {
        let o = header_name(other)->Some_0;
        lemma_first_value_push(h, (n, value), o);
    }
}

} // verus!
