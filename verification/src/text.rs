use vstd::prelude::*;
use vstd::string::*;
use vstd::utf8::*;

verus! {

broadcast use vstd::utf8::encode_utf8_decode_utf8;

/// The Unicode `White_Space` property, which `char::is_whitespace` and `str::trim` use.
pub open spec fn is_unicode_whitespace(c: char) -> bool {
    let u = c as u32;
    ||| 0x09 <= u <= 0x0D
    ||| u == 0x20
    ||| u == 0x85
    ||| u == 0xA0
    ||| u == 0x1680
    ||| 0x2000 <= u <= 0x200A
    ||| u == 0x2028
    ||| u == 0x2029
    ||| u == 0x202F
    ||| u == 0x205F
    ||| u == 0x3000
}

/// Whether `c` is Unicode whitespace.
pub fn is_whitespace(c: char) -> (b: bool)
    ensures
        b == is_unicode_whitespace(c),
{
    let u = c as u32;
    (0x09 <= u && u <= 0x0D) || u == 0x20 || u == 0x85 || u == 0xA0 || u == 0x1680 || (0x2000
        <= u && u <= 0x200A) || u == 0x2028 || u == 0x2029 || u == 0x202F || u == 0x205F || u
        == 0x3000
}

/// `s` with leading whitespace removed.
pub open spec fn trim_start(s: Seq<char>) -> Seq<char>
    decreases s.len(),
{
    if s.len() > 0 && is_unicode_whitespace(s[0]) {
        trim_start(s.drop_first())
    } else {
        s
    }
}

/// `s` with trailing whitespace removed.
pub open spec fn trim_end(s: Seq<char>) -> Seq<char>
    decreases s.len(),
{
    if s.len() > 0 && is_unicode_whitespace(s.last()) {
        trim_end(s.drop_last())
    } else {
        s
    }
}

/// `s` with leading and trailing whitespace removed, as `str::trim` does.
pub open spec fn trim(s: Seq<char>) -> Seq<char> {
    trim_end(trim_start(s))
}

/// The characters of `s`.
pub fn chars_of(s: &str) -> (v: Vec<char>)
    ensures
        v@ == s@,
{
    let n = s.unicode_len();
    let mut v: Vec<char> = Vec::new();
    let mut i: usize = 0;
    while i < n
        invariant
            n == s@.len(),
            i <= n,
            v@ == s@.subrange(0, i as int),
        decreases n - i,
    {
        v.push(s.get_char(i));
        i += 1;
        assert(v@ =~= s@.subrange(0, i as int));
    }
    assert(v@ =~= s@);
    v
}

/// Appends one character to a `String` (`String::push`).
#[verifier::external_body]
pub(crate) fn push_char(s: &mut String, c: char)
    ensures
        final(s)@ == old(s)@.push(c),
{
    s.push(c);
}

/// The string made of `v[from..to]`.
pub fn string_of(v: &Vec<char>, from: usize, to: usize) -> (s: String)
    requires
        from <= to <= v@.len(),
    ensures
        s@ == v@.subrange(from as int, to as int),
{
    let mut s = String::new();
    let mut i = from;
    while i < to
        invariant
            from <= i <= to <= v@.len(),
            s@ == v@.subrange(from as int, i as int),
        decreases to - i,
    {
        push_char(&mut s, v[i]);
        i += 1;
        assert(s@ =~= v@.subrange(from as int, i as int));
    }
    s
}

proof fn lemma_trim_start_skip(s: Seq<char>, i: int)
    requires
        0 <= i <= s.len(),
        forall|k: int| 0 <= k < i ==> is_unicode_whitespace(#[trigger] s[k]),
    ensures
        trim_start(s) == trim_start(s.subrange(i, s.len() as int)),
    decreases i,
{
    if i > 0 {
        let t = s.drop_first();
        assert forall|k: int| 0 <= k < i - 1 implies is_unicode_whitespace(#[trigger] t[k]) by {
            assert(t[k] == s[k + 1]);
        }
        lemma_trim_start_skip(t, i - 1);
        assert(t.subrange(i - 1, t.len() as int) =~= s.subrange(i, s.len() as int));
    } else {
        assert(s.subrange(0, s.len() as int) =~= s);
    }
}

proof fn lemma_trim_end_cut(s: Seq<char>, j: int)
    requires
        0 <= j <= s.len(),
        forall|k: int| j <= k < s.len() ==> is_unicode_whitespace(#[trigger] s[k]),
    ensures
        trim_end(s) == trim_end(s.subrange(0, j)),
    decreases s.len() - j,
{
    if j < s.len() {
        let t = s.drop_last();
        assert forall|k: int| j <= k < t.len() implies is_unicode_whitespace(#[trigger] t[k]) by {
            assert(t[k] == s[k]);
        }
        lemma_trim_end_cut(t, j);
        assert(t.subrange(0, j) =~= s.subrange(0, j));
    } else {
        assert(s.subrange(0, j) =~= s);
    }
}

/// The bounds `(a, b)` of `v[from..to]` with surrounding whitespace removed.
pub fn trim_bounds(v: &Vec<char>, from: usize, to: usize) -> (r: (usize, usize))
    requires
        from <= to <= v@.len(),
    ensures
        from <= r.0 <= r.1 <= to,
        v@.subrange(r.0 as int, r.1 as int) == trim(v@.subrange(from as int, to as int)),
{
    let ghost s = v@.subrange(from as int, to as int);
    let mut a = from;
    while a < to && is_whitespace(v[a])
        invariant
            from <= a <= to <= v@.len(),
            s == v@.subrange(from as int, to as int),
            forall|k: int| from <= k < a ==> is_unicode_whitespace(#[trigger] v@[k]),
        decreases to - a,
    {
        a += 1;
    }
    proof {
        assert forall|k: int| 0 <= k < a - from implies is_unicode_whitespace(#[trigger] s[k]) by {
            assert(s[k] == v@[from + k]);
        }
        lemma_trim_start_skip(s, a - from);
        assert(s.subrange(a - from, s.len() as int) =~= v@.subrange(a as int, to as int));
        if a < to {
            assert(trim_start(v@.subrange(a as int, to as int)) == v@.subrange(a as int, to as int));
        } else {
            assert(v@.subrange(a as int, to as int) =~= Seq::<char>::empty());
        }
    }
    let ghost t = v@.subrange(a as int, to as int);
    let mut b = to;
    while b > a && is_whitespace(v[b - 1])
        invariant
            from <= a <= b <= to <= v@.len(),
            t == v@.subrange(a as int, to as int),
            forall|k: int| b <= k < to ==> is_unicode_whitespace(#[trigger] v@[k]),
        decreases b - a,
    {
        b -= 1;
    }
    proof {
        assert forall|k: int| b - a <= k < t.len() implies is_unicode_whitespace(#[trigger] t[k]) by {
            assert(t[k] == v@[a + k]);
        }
        lemma_trim_end_cut(t, b - a);
        assert(t.subrange(0, b - a) =~= v@.subrange(a as int, b as int));
        if b > a {
            assert(trim_end(v@.subrange(a as int, b as int)) == v@.subrange(a as int, b as int));
        }
    }
    (a, b)
}

/// `url` unchanged when it fits in `max_len` bytes, else its first `max_len`
/// bytes followed by `...`.
pub open spec fn truncated(url: &str, max_len: usize) -> Seq<char> {
    if url.spec_bytes().len() <= max_len {
        url@
    } else {
        decode_utf8(url.spec_bytes().subrange(0, max_len as int)) + "..."@
    }
}

/// Shortens a URL for logging and headers.
///
/// The cut must fall on a character boundary; cutting inside a character
/// is refused by `str` slicing.
pub fn truncate_url(url: &str, max_len: usize) -> (r: String)
    requires
        url.spec_bytes().len() <= usize::MAX,
        url.spec_bytes().len() <= max_len || is_char_boundary(url.spec_bytes(), max_len as int),
    ensures
        r@ == truncated(url, max_len),
{
    if url.len() <= max_len {
        url.to_owned()
    } else {
        let (head, _tail) = url.split_at(max_len);
        let mut r = head.to_owned();
        r.append("...");
        proof {
            assert(head.spec_bytes() =~= url.spec_bytes().subrange(0, max_len as int));
            assert(decode_utf8(encode_utf8(head@)) == head@);
        }
        r
    }
}

/// The index of the first `c` in `s`, or `s.len()` when there is none.
pub open spec fn index_of_char(s: Seq<char>, c: char) -> int
    decreases s.len(),
{
    if s.len() == 0 {
        0
    } else if s[0] == c {
        0
    } else {
        1 + index_of_char(s.drop_first(), c)
    }
}

pub proof fn lemma_index_of_char_bounds(s: Seq<char>, c: char)
    ensures
        0 <= index_of_char(s, c) <= s.len(),
        index_of_char(s, c) < s.len() ==> s[index_of_char(s, c)] == c,
        forall|j: int| 0 <= j < index_of_char(s, c) ==> s[j] != c,
    decreases s.len(),
{
    if s.len() > 0 && s[0] != c {
        lemma_index_of_char_bounds(s.drop_first(), c);
        assert forall|j: int| 0 <= j < index_of_char(s, c) implies s[j] != c by {
            if j > 0 {
                assert(s[j] == s.drop_first()[j - 1]);
            }
        }
    }
}

pub proof fn lemma_index_of_char_scan(s: Seq<char>, c: char, k: int)
    requires
        0 <= k <= s.len(),
        forall|j: int| 0 <= j < k ==> s[j] != c,
        k == s.len() || s[k] == c,
    ensures
        index_of_char(s, c) == k,
    decreases k,
{
    if k > 0 {
        let t = s.drop_first();
        assert forall|j: int| 0 <= j < k - 1 implies t[j] != c by {
            assert(t[j] == s[j + 1]);
        }
        lemma_index_of_char_scan(t, c, k - 1);
    }
}

/// Whether `v[from..to]` holds the characters of `lit`.
pub fn slice_is(v: &Vec<char>, from: usize, to: usize, lit: &str) -> (b: bool)
    requires
        from <= to <= v@.len(),
    ensures
        b == (v@.subrange(from as int, to as int) == lit@),
{
    let n = lit.unicode_len();
    if to - from != n {
        return false;
    }
    let mut i: usize = 0;
    while i < n
        invariant
            n == lit@.len(),
            to - from == n,
            from <= to <= v@.len(),
            i <= n,
            forall|j: int| 0 <= j < i ==> v@[from + j] == lit@[j],
        decreases n - i,
    {
        if v[from + i] != lit.get_char(i) {
            assert(v@.subrange(from as int, to as int)[i as int] != lit@[i as int]);
            return false;
        }
        i += 1;
    }
    assert(v@.subrange(from as int, to as int) =~= lit@);
    true
}

/// The index of the first `c` in `v[from..to]`, or `to`.
pub fn find_char(v: &Vec<char>, from: usize, to: usize, c: char) -> (k: usize)
    requires
        from <= to <= v@.len(),
    ensures
        from <= k <= to,
        k - from == index_of_char(v@.subrange(from as int, to as int), c),
{
    let mut k = from;
    while k < to && v[k] != c
        invariant
            from <= k <= to <= v@.len(),
            forall|j: int| from <= j < k ==> v@[j] != c,
        decreases to - k,
    {
        k += 1;
    }
    proof {
        let s = v@.subrange(from as int, to as int);
        assert forall|j: int| 0 <= j < k - from implies s[j] != c by {
            assert(s[j] == v@[from + j]);
        }
        lemma_index_of_char_scan(s, c, k - from);
    }
    k
}

/// What `str::to_lowercase` yields for `s` (full Unicode lowercase mapping).
pub uninterp spec fn lowercase(s: Seq<char>) -> Seq<char>;

/// What `str::to_uppercase` yields for `s` (full Unicode uppercase mapping).
pub uninterp spec fn uppercase(s: Seq<char>) -> Seq<char>;

/// `str::to_lowercase`.
#[verifier::external_body]
pub(crate) fn to_lowercase(s: &str) -> (r: String)
    ensures
        r@ == lowercase(s@),
{
    s.to_lowercase()
}

/// `str::to_uppercase`.
#[verifier::external_body]
pub(crate) fn to_uppercase(s: &str) -> (r: String)
    ensures
        r@ == uppercase(s@),
{
    s.to_uppercase()
}

/// Whether two strings hold the same characters.
pub fn same_text(a: &str, b: &str) -> (r: bool)
    ensures
        r == (a@ == b@),
{
    let x = a.to_owned();
    let y = b.to_owned();
    x == y
}

} // verus!
