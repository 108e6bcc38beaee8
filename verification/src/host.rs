//! Finding the tunnel a public HTTP request is meant for, from its `Host` header.

use vstd::prelude::*;
use vstd::string::*;
use vstd::utf8::*;
use vstd::slice::slice_to_vec;
use crate::decimal::chars_of;

verus! {

broadcast use vstd::string::group_string_axioms;

/// Most bytes read from a public connection before its `Host` header is looked for.
pub const HOST_READ_LIMIT: usize = 2048;

/// The first index at or after `start` where `pat` occurs in `data`.
pub open spec fn find_from(data: Seq<u8>, pat: Seq<u8>, start: int) -> Option<int>
    decreases data.len() + 1 - start,
{
    if start < 0 || start + pat.len() > data.len() {
        None
    } else if data.subrange(start, start + pat.len()) == pat {
        Some(start)
    } else {
        find_from(data, pat, start + 1)
    }
}

/// An index that [`find_from`] returns holds an occurrence of the pattern, at or after
/// the starting index.
pub proof fn lemma_find_from_bounds(data: Seq<u8>, pat: Seq<u8>, start: int)
    ensures
        find_from(data, pat, start) matches Some(i) ==> start <= i && i + pat.len() <= data.len()
            && data.subrange(i, i + pat.len()) == pat,
    decreases data.len() + 1 - start,
{
    if !(start < 0 || start + pat.len() > data.len()) && data.subrange(start, start + pat.len())
        != pat {
        lemma_find_from_bounds(data, pat, start + 1);
    }
}

/// The bytes `Host: ` that open the header naming the requested host.
pub open spec fn host_marker() -> Seq<u8> {
    seq![72u8, 111u8, 115u8, 116u8, 58u8, 32u8]
}

/// The newline byte that ends a header line.
pub open spec fn newline() -> Seq<u8> {
    seq![10u8]
}

/// What `String::from_utf8_lossy` makes of `bytes`.
pub uninterp spec fn utf8_lossy(bytes: Seq<u8>) -> Seq<char>;

/// The text lossy decoding gives for `bytes`: what they encode when they are valid
/// UTF-8, and otherwise what [`utf8_lossy`] names.
pub open spec fn lossy_text(bytes: Seq<u8>) -> Seq<char> {
    if valid_utf8(bytes) {
        decode_utf8(bytes)
    } else {
        utf8_lossy(bytes)
    }
}

/// Whether `c` has the Unicode property White_Space.
pub open spec fn is_white_space(c: char) -> bool {
    ('\u{9}' <= c && c <= '\u{d}') || c == ' ' || c == '\u{85}' || c == '\u{a0}' || c
        == '\u{1680}' || ('\u{2000}' <= c && c <= '\u{200a}') || c == '\u{2028}' || c
        == '\u{2029}' || c == '\u{202f}' || c == '\u{205f}' || c == '\u{3000}'
}

/// `s` without its leading white space.
pub open spec fn trim_start(s: Seq<char>) -> Seq<char>
    decreases s.len(),
{
    if s.len() > 0 && is_white_space(s[0]) {
        trim_start(s.drop_first())
    } else {
        s
    }
}

/// `s` without its trailing white space.
pub open spec fn trim_end(s: Seq<char>) -> Seq<char>
    decreases s.len(),
{
    if s.len() > 0 && is_white_space(s.last()) {
        trim_end(s.drop_last())
    } else {
        s
    }
}

/// `s` without its leading and trailing white space, as `str::trim` gives it.
pub open spec fn trim_white_space(s: Seq<char>) -> Seq<char> {
    trim_end(trim_start(s))
}

/// The text of `s` before its first `.`, or all of `s` when it has none.
pub open spec fn first_label(s: Seq<char>) -> Seq<char>
    decreases s.len(),
{
    if s.len() == 0 {
        s
    } else if s[0] == '.' {
        Seq::empty()
    } else {
        seq![s[0]] + first_label(s.drop_first())
    }
}

/// The subdomain a request names: the first label of the trimmed text between the
/// first `Host: ` and the newline after it. The search runs on the bytes; the marker
/// and the newline are ASCII, which lossy decoding keeps one for one, so it finds
/// what a search of the decoded text finds. `None` when either is missing.
pub open spec fn host_subdomain(data: Seq<u8>) -> Option<Seq<char>> {
    match find_from(data, host_marker(), 0) {
        None => None,
        Some(i) => match find_from(data, newline(), i + 6) {
            None => None,
            Some(j) => Some(first_label(trim_white_space(lossy_text(data.subrange(i + 6, j))))),
        },
    }
}

/// Why no tunnel could be read from a public request.
#[derive(Debug, PartialEq, Eq, Structural)]
pub enum HostError {
    NoHostDetected,
}

/// Decodes `bytes` with `String::from_utf8_lossy`. The result is the name
/// [`utf8_lossy`]; on valid UTF-8 it is the decoded text, as the function's
/// documentation states.
#[verifier::external_body]
fn decode_lossy(bytes: &[u8]) -> (s: String)
    ensures
        s@ == utf8_lossy(bytes@),
        valid_utf8(bytes@) ==> s@ == decode_utf8(bytes@),
{
    String::from_utf8_lossy(bytes).into_owned()
}

/// Whether `c` has the Unicode property White_Space.
fn white_space(c: char) -> (r: bool)
    ensures
        r == is_white_space(c),
{
    ('\u{9}' <= c && c <= '\u{d}') || c == ' ' || c == '\u{85}' || c == '\u{a0}' || c
        == '\u{1680}' || ('\u{2000}' <= c && c <= '\u{200a}') || c == '\u{2028}' || c
        == '\u{2029}' || c == '\u{202f}' || c == '\u{205f}' || c == '\u{3000}'
}

/// `s` without its leading and trailing white space, as `str::trim` gives it.
fn trim(s: &str) -> (r: String)
    ensures
        r@ == trim_white_space(s@),
{
    let chars = chars_of(s);
    let n = chars.len();
    let mut a: usize = 0;
    assert(s@.subrange(0, n as int) =~= s@);
    while a < n && white_space(chars[a])
        invariant
            a <= n,
            n == s@.len(),
            chars@ == s@,
            trim_start(s@) == trim_start(s@.subrange(a as int, n as int)),
        decreases n - a,
    {
        assert(s@.subrange(a as int, n as int).drop_first() =~= s@.subrange(a + 1, n as int));
        a = a + 1;
    }
    let mut b: usize = n;
    while b > a && white_space(chars[b - 1])
        invariant
            a <= b <= n,
            n == s@.len(),
            chars@ == s@,
            trim_start(s@) == s@.subrange(a as int, n as int),
            trim_end(s@.subrange(a as int, n as int)) == trim_end(s@.subrange(a as int, b as int)),
        decreases b - a,
    {
        assert(s@.subrange(a as int, b as int).drop_last() =~= s@.subrange(a as int, b - 1));
        b = b - 1;
    }
    s.substring_char(a, b).to_owned()
}

/// The first index at or after `start` where `pat` occurs in `data`.
fn find_bytes(data: &[u8], pat: &[u8], start: usize) -> (r: Option<usize>)
    ensures
        match r {
            Some(i) => find_from(data@, pat@, start as int) == Some(i as int),
            None => find_from(data@, pat@, start as int) is None,
        },
{
    let n = data.len();
    let m = pat.len();
    let mut i = start;
    while i <= n && m <= n - i
        invariant
            start <= i,
            n == data@.len(),
            m == pat@.len(),
            find_from(data@, pat@, start as int) == find_from(data@, pat@, i as int),
        decreases n + 1 - i,
    {
        let mut k: usize = 0;
        let mut same = true;
        while k < m
            invariant
                k <= m,
                i + m <= n,
                n == data@.len(),
                m == pat@.len(),
                same <==> forall|t: int| 0 <= t < k ==> data@[i + t] == pat@[t],
            decreases m - k,
        {
            if data[i + k] != pat[k] {
                same = false;
            }
            k = k + 1;
        }
        if same {
            assert(data@.subrange(i as int, i + m) =~= pat@);
        } else {
            assert(data@.subrange(i as int, i + m) != pat@) by {
                let t = choose|t: int| 0 <= t < m && data@[i + t] != pat@[t];
                assert(data@.subrange(i as int, i + m)[t] == data@[i + t]);
            }
        }
        if same {
            return Some(i);
        }
        i = i + 1;
    }
    None
}

/// The text of `s` before its first `.`, as `s.split('.').next()` gives it.
fn before_first_dot(s: &str) -> (r: String)
    ensures
        r@ == first_label(s@),
{
    let chars = chars_of(s);
    let n = chars.len();
    let mut k: usize = 0;
    assert(s@.subrange(0, n as int) =~= s@);
    assert(s@.subrange(0, 0) + first_label(s@) =~= first_label(s@));
    while k < n && chars[k] != '.'
        invariant
            k <= n,
            n == s@.len(),
            chars@ == s@,
            first_label(s@) == s@.subrange(0, k as int) + first_label(s@.subrange(k as int, n as int)),
        decreases n - k,
    {
        let ghost rest = s@.subrange(k as int, n as int);
        assert(rest.drop_first() =~= s@.subrange(k + 1, n as int));
        assert(s@.subrange(0, k + 1) =~= s@.subrange(0, k as int) + seq![rest[0]]);
        k = k + 1;
    }
    assert(s@.subrange(0, 0) =~= Seq::<char>::empty());
    assert(s@.subrange(0, n as int) =~= s@);
    assert(first_label(s@.subrange(k as int, n as int)) =~= Seq::<char>::empty());
    s.substring_char(0, k).to_owned()
}

/// Reads the subdomain a public HTTP request is meant for, from the bytes first read
/// from its connection, and hands those bytes back to be replayed to the tunnel.
pub fn parse_host(data: &[u8]) -> (r: Result<(String, Vec<u8>), HostError>)
    ensures
        match r {
            Ok((subdomain, buffer)) => host_subdomain(data@) == Some(subdomain@) && buffer@
                == data@,
            Err(e) => host_subdomain(data@) is None && e == HostError::NoHostDetected,
        },
{
    let marker: [u8; 6] = [72u8, 111u8, 115u8, 116u8, 58u8, 32u8];
    let newline_byte: [u8; 1] = [10u8];
    assert(marker@ =~= host_marker());
    assert(newline_byte@ =~= newline());
    proof {
        lemma_find_from_bounds(data@, host_marker(), 0);
        assert(host_marker().len() == 6);
    }
    let total = data.len();
    let marker_slice = marker.as_slice();
    assert(marker_slice@ == host_marker());
    let left = match find_bytes(data, marker_slice, 0) {
        Some(i) => {
            assert(i + host_marker().len() <= data@.len());
            i + 6
        },
        None => return Err(HostError::NoHostDetected),
    };
    proof {
        lemma_find_from_bounds(data@, newline(), left as int);
    }
    let right = match find_bytes(data, newline_byte.as_slice(), left) {
        Some(j) => j,
        None => return Err(HostError::NoHostDetected),
    };
    let line = slice_range(data, left, right);
    let text = decode_lossy(line.as_slice());
    let host = trim(text.as_str());
    let subdomain = before_first_dot(host.as_str());
    Ok((subdomain, slice_to_vec(data)))
}

/// The bytes of `data` from `from` up to `to`.
pub(crate) fn slice_range(data: &[u8], from: usize, to: usize) -> (r: Vec<u8>)
    requires
        from <= to <= data@.len(),
    ensures
        r@ == data@.subrange(from as int, to as int),
{
    let mut r: Vec<u8> = Vec::new();
    let mut k = from;
    while k < to
        invariant
            from <= k <= to,
            to <= data@.len(),
            r@ == data@.subrange(from as int, k as int),
        decreases to - k,
    {
        r.push(data[k]);
        k = k + 1;
        assert(r@ =~= data@.subrange(from as int, k as int));
    }
    r
}

/// The search finds the occurrence at `k` when none starts earlier.
pub proof fn lemma_find_from_first(data: Seq<u8>, pat: Seq<u8>, start: int, k: int)
    requires
        0 <= start <= k,
        k + pat.len() <= data.len(),
        data.subrange(k, k + pat.len()) == pat,
        forall|i: int| start <= i < k ==> #[trigger] data.subrange(i, i + pat.len()) != pat,
    ensures
        find_from(data, pat, start) == Some(k),
    decreases k - start,
{
    if start < k {
        assert(data.subrange(start, start + pat.len()) != pat);
        lemma_find_from_first(data, pat, start + 1, k);
    }
}

/// The first label of `s.rest` is `s`, when `s` holds no `.`.
pub proof fn lemma_first_label_before_dot(s: Seq<char>, rest: Seq<char>)
    requires
        forall|i: int| 0 <= i < s.len() ==> #[trigger] s[i] != '.',
    ensures
        first_label(s + seq!['.'] + rest) == s,
    decreases s.len(),
{
    if s.len() == 0 {
        assert(s + seq!['.'] + rest =~= seq!['.'] + rest);
    } else {
        let t = s + seq!['.'] + rest;
        assert(t[0] == s[0]);
        assert(t.drop_first() =~= s.drop_first() + seq!['.'] + rest);
        lemma_first_label_before_dot(s.drop_first(), rest);
        assert(seq![s[0]] + s.drop_first() =~= s);
    }
}

/// Trailing white space is trimmed from the end only: a prefix that ends in other text
/// stays as it is.
pub proof fn lemma_trim_end_after(p: Seq<char>, q: Seq<char>)
    requires
        p.len() > 0,
        !is_white_space(p.last()),
    ensures
        trim_end(p + q) == p + trim_end(q),
    decreases q.len(),
{
    if q.len() == 0 {
        assert(p + q =~= p);
        assert(p + trim_end(q) =~= p);
    } else {
        assert((p + q).last() == q.last());
        if is_white_space(q.last()) {
            assert((p + q).drop_last() =~= p + q.drop_last());
            lemma_trim_end_after(p, q.drop_last());
        }
    }
}

} // verus!
