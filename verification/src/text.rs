//! Character-level text helpers shared by the parsers: conversion between
//! `str`/`String` and character vectors, whitespace trimming, line splitting,
//! substring search and decimal numbers.

use vstd::prelude::*;

verus! {

broadcast use vstd::string::group_string_axioms;

// ===================== conversion =====================

/// The characters of `s`, in order.
pub fn chars_of(s: &str) -> (v: Vec<char>)
    ensures
        v@ == s@,
{
    let mut v: Vec<char> = Vec::new();
    for c in it: s.chars()
        invariant
            v@ == it.seq().take(it.index() as int),
            it.seq() == s@,
    {
        v.push(c);
    }
    v
}

/// Appends one character (`String::push`).
#[verifier::external_body]
pub fn push_char(s: &mut String, c: char)
    ensures
        final(s)@ == old(s)@.push(c),
{
    s.push(c);
}

/// Appends `v[lo..hi]` to `out`.
pub fn push_range(out: &mut String, v: &Vec<char>, lo: usize, hi: usize)
    requires
        lo <= hi <= v.len(),
    ensures
        final(out)@ == old(out)@ + v@.subrange(lo as int, hi as int),
{
    let mut i = lo;
    while i < hi
        invariant
            lo <= i <= hi <= v.len(),
            out@ == old(out)@ + v@.subrange(lo as int, i as int),
        decreases hi - i,
    {
        push_char(out, v[i]);
        assert(v@.subrange(lo as int, i + 1) == v@.subrange(lo as int, i as int).push(v@[i as int]));
        i += 1;
    }
}

/// A new string holding `v[lo..hi]`.
pub fn string_of_range(v: &Vec<char>, lo: usize, hi: usize) -> (s: String)
    requires
        lo <= hi <= v.len(),
    ensures
        s@ == v@.subrange(lo as int, hi as int),
{
    let mut s = String::new();
    push_range(&mut s, v, lo, hi);
    s
}

/// Appends a string slice.
pub fn push_str(out: &mut String, t: &str)
    ensures
        final(out)@ == old(out)@ + t@,
{
    let v = chars_of(t);
    push_range(out, &v, 0, v.len());
    assert(v@.subrange(0, v@.len() as int) == v@);
}

/// An owned copy of `s`.
pub fn owned(s: &str) -> (r: String)
    ensures
        r@ == s@,
{
    let mut r = String::new();
    push_str(&mut r, s);
    r
}

/// Whether `s` begins with `p`.
pub fn str_starts_with(s: &str, p: &str) -> (b: bool)
    ensures
        b == starts_with(s@, p@),
{
    let v = chars_of(s);
    let w = chars_of(p);
    starts_with_exec(&v, &w)
}

/// Whether `s` and `t` hold the same characters.
pub fn str_eq(s: &str, t: &str) -> (b: bool)
    ensures
        b == (s@ == t@),
{
    let v = chars_of(s);
    let w = chars_of(t);
    if v.len() != w.len() {
        return false;
    }
    let r = starts_with_exec(&v, &w);
    assert(v@.subrange(0, w@.len() as int) == v@);
    r
}

/// `a` followed by `b`.
pub fn concat2(a: &str, b: &str) -> (s: String)
    ensures
        s@ == a@ + b@,
{
    let mut s = String::new();
    push_str(&mut s, a);
    push_str(&mut s, b);
    s
}

/// `a`, `b` and `c` one after another.
pub fn concat3(a: &str, b: &str, c: &str) -> (s: String)
    ensures
        s@ == a@ + b@ + c@,
{
    let mut s = String::new();
    push_str(&mut s, a);
    push_str(&mut s, b);
    push_str(&mut s, c);
    s
}

/// `String::from_utf8_lossy`: the text of `bytes`, each invalid sequence
/// replaced by U+FFFD.
pub uninterp spec fn lossy_utf8(bytes: Seq<u8>) -> Seq<char>;

/// `String::from_utf8_lossy(bytes).into_owned()`. Valid UTF-8 comes back
/// unchanged, as the documentation says.
#[verifier::external_body]
pub fn utf8_lossy(bytes: &[u8]) -> (s: String)
    ensures
        s@ == lossy_utf8(bytes@),
        vstd::utf8::valid_utf8(bytes@) ==> s@ == vstd::utf8::decode_utf8(bytes@),
{
    String::from_utf8_lossy(bytes).into_owned()
}

// ===================== whitespace =====================

/// Unicode `White_Space`, the set that `char::is_whitespace` documents.
pub open spec fn is_ws(c: char) -> bool {
    ||| '\u{9}' <= c <= '\u{d}'
    ||| c == ' '
    ||| c == '\u{85}'
    ||| c == '\u{a0}'
    ||| c == '\u{1680}'
    ||| '\u{2000}' <= c <= '\u{200a}'
    ||| c == '\u{2028}'
    ||| c == '\u{2029}'
    ||| c == '\u{202f}'
    ||| c == '\u{205f}'
    ||| c == '\u{3000}'
}

pub fn is_ws_exec(c: char) -> (b: bool)
    ensures
        b == is_ws(c),
{
    ('\u{9}' <= c && c <= '\u{d}') || c == ' ' || c == '\u{85}' || c == '\u{a0}' || c == '\u{1680}'
        || ('\u{2000}' <= c && c <= '\u{200a}') || c == '\u{2028}' || c == '\u{2029}' || c
        == '\u{202f}' || c == '\u{205f}' || c == '\u{3000}'
}

/// `s` without its leading whitespace.
pub open spec fn trim_start(s: Seq<char>) -> Seq<char>
    decreases s.len(),
{
    if s.len() > 0 && is_ws(s[0]) {
        trim_start(s.drop_first())
    } else {
        s
    }
}

/// `s` without its trailing whitespace.
pub open spec fn trim_end(s: Seq<char>) -> Seq<char>
    decreases s.len(),
{
    if s.len() > 0 && is_ws(s.last()) {
        trim_end(s.drop_last())
    } else {
        s
    }
}

/// `str::trim`: `s` without leading and trailing whitespace.
pub open spec fn trim(s: Seq<char>) -> Seq<char> {
    trim_end(trim_start(s))
}

/// Index of the first non-whitespace character of `v[lo..hi]` (or `hi`).
pub fn skip_ws_forward(v: &Vec<char>, lo: usize, hi: usize) -> (i: usize)
    requires
        lo <= hi <= v.len(),
    ensures
        lo <= i <= hi,
        trim_start(v@.subrange(lo as int, hi as int)) == v@.subrange(i as int, hi as int),
{
    let mut i = lo;
    while i < hi && is_ws_exec(v[i])
        invariant
            lo <= i <= hi <= v.len(),
            trim_start(v@.subrange(lo as int, hi as int)) == trim_start(
                v@.subrange(i as int, hi as int),
            ),
        decreases hi - i,
    {
        assert(v@.subrange(i as int, hi as int).drop_first() == v@.subrange(i + 1, hi as int));
        i += 1;
    }
    i
}

/// One past the last non-whitespace character of `v[lo..hi]` (or `lo`).
pub fn skip_ws_backward(v: &Vec<char>, lo: usize, hi: usize) -> (j: usize)
    requires
        lo <= hi <= v.len(),
    ensures
        lo <= j <= hi,
        trim_end(v@.subrange(lo as int, hi as int)) == v@.subrange(lo as int, j as int),
{
    let mut j = hi;
    while j > lo && is_ws_exec(v[j - 1])
        invariant
            lo <= j <= hi <= v.len(),
            trim_end(v@.subrange(lo as int, hi as int)) == trim_end(
                v@.subrange(lo as int, j as int),
            ),
        decreases j - lo,
    {
        assert(v@.subrange(lo as int, j as int).drop_last() == v@.subrange(lo as int, j - 1));
        j -= 1;
    }
    j
}

/// Bounds of `trim(v[lo..hi])` inside `v`.
pub fn trim_range(v: &Vec<char>, lo: usize, hi: usize) -> (r: (usize, usize))
    requires
        lo <= hi <= v.len(),
    ensures
        lo <= r.0 <= r.1 <= hi,
        trim(v@.subrange(lo as int, hi as int)) == v@.subrange(r.0 as int, r.1 as int),
{
    let a = skip_ws_forward(v, lo, hi);
    let b = skip_ws_backward(v, a, hi);
    (a, b)
}

/// `str::trim` on a string slice.
pub fn trimmed(s: &str) -> (r: String)
    ensures
        r@ == trim(s@),
{
    let v = chars_of(s);
    let (a, b) = trim_range(&v, 0, v.len());
    assert(v@.subrange(0, v@.len() as int) == v@);
    string_of_range(&v, a, b)
}

/// `s` without the copies of `c` it begins with (`trim_start_matches(c)`).
pub open spec fn strip_leading(s: Seq<char>, c: char) -> Seq<char>
    decreases s.len(),
{
    if s.len() > 0 && s[0] == c {
        strip_leading(s.drop_first(), c)
    } else {
        s
    }
}

/// `s` without the copies of `c` it ends with (`trim_end_matches(c)`).
pub open spec fn strip_trailing(s: Seq<char>, c: char) -> Seq<char>
    decreases s.len(),
{
    if s.len() > 0 && s.last() == c {
        strip_trailing(s.drop_last(), c)
    } else {
        s
    }
}

/// Index of the first character of `v[lo..hi]` that is not `c` (or `hi`).
pub fn skip_char_forward(v: &Vec<char>, lo: usize, hi: usize, c: char) -> (i: usize)
    requires
        lo <= hi <= v.len(),
    ensures
        lo <= i <= hi,
        strip_leading(v@.subrange(lo as int, hi as int), c) == v@.subrange(i as int, hi as int),
{
    let mut i = lo;
    while i < hi && v[i] == c
        invariant
            lo <= i <= hi <= v.len(),
            strip_leading(v@.subrange(lo as int, hi as int), c) == strip_leading(
                v@.subrange(i as int, hi as int),
                c,
            ),
        decreases hi - i,
    {
        assert(v@.subrange(i as int, hi as int).drop_first() == v@.subrange(i + 1, hi as int));
        i += 1;
    }
    i
}

/// One past the last character of `v[lo..hi]` that is not `c` (or `lo`).
pub fn skip_char_backward(v: &Vec<char>, lo: usize, hi: usize, c: char) -> (j: usize)
    requires
        lo <= hi <= v.len(),
    ensures
        lo <= j <= hi,
        strip_trailing(v@.subrange(lo as int, hi as int), c) == v@.subrange(lo as int, j as int),
{
    let mut j = hi;
    while j > lo && v[j - 1] == c
        invariant
            lo <= j <= hi <= v.len(),
            strip_trailing(v@.subrange(lo as int, hi as int), c) == strip_trailing(
                v@.subrange(lo as int, j as int),
                c,
            ),
        decreases j - lo,
    {
        assert(v@.subrange(lo as int, j as int).drop_last() == v@.subrange(lo as int, j - 1));
        j -= 1;
    }
    j
}

// ===================== search =====================

/// `p` occurs in `s` at index `i`.
pub open spec fn occurs_at(s: Seq<char>, p: Seq<char>, i: int) -> bool {
    0 <= i && i + p.len() <= s.len() && s.subrange(i, i + p.len()) == p
}

/// The first index `>= i` at which `p` occurs in `s`.
pub open spec fn find_from(s: Seq<char>, p: Seq<char>, i: int) -> Option<int>
    decreases s.len() + 1 - i,
{
    if i < 0 || i + p.len() > s.len() {
        None
    } else if s.subrange(i, i + p.len()) == p {
        Some(i)
    } else {
        find_from(s, p, i + 1)
    }
}

/// `str::find`: the first index at which `p` occurs in `s`.
pub open spec fn find(s: Seq<char>, p: Seq<char>) -> Option<int> {
    find_from(s, p, 0)
}

/// `str::contains`.
pub open spec fn contains(s: Seq<char>, p: Seq<char>) -> bool {
    find(s, p) is Some
}

pub proof fn lemma_find_from_bounds(s: Seq<char>, p: Seq<char>, i: int)
    requires
        0 <= i,
    ensures
        find_from(s, p, i) matches Some(k) ==> i <= k && occurs_at(s, p, k) && forall|j: int|
            i <= j < k ==> !occurs_at(s, p, j),
        find_from(s, p, i) is None ==> forall|j: int| i <= j ==> !occurs_at(s, p, j),
    decreases s.len() + 1 - i,
{
    if i + p.len() > s.len() {
    } else if s.subrange(i, i + p.len()) == p {
    } else {
        lemma_find_from_bounds(s, p, i + 1);
    }
}


/// Whether `p` occurs in `v` at index `i`.
pub fn occurs_at_exec(v: &Vec<char>, p: &Vec<char>, i: usize) -> (b: bool)
    ensures
        b == occurs_at(v@, p@, i as int),
{
    if i > v.len() || p.len() > v.len() - i {
        return false;
    }
    let mut k: usize = 0;
    while k < p.len()
        invariant
            i + p.len() <= v.len(),
            k <= p.len(),
            forall|j: int| 0 <= j < k ==> v@[i + j] == p@[j],
        decreases p.len() - k,
    {
        if v[i + k] != p[k] {
            assert(v@.subrange(i as int, i + p.len())[k as int] != p@[k as int]);
            return false;
        }
        k += 1;
    }
    assert(v@.subrange(i as int, i + p.len()) =~= p@);
    true
}

/// The first index `>= lo` at which `p` occurs in `v`.
pub fn find_exec(v: &Vec<char>, p: &Vec<char>, lo: usize) -> (r: Option<usize>)
    ensures
        r matches Some(k) ==> find_from(v@, p@, lo as int) == Some(k as int),
        r is None ==> find_from(v@, p@, lo as int) is None,
{
    let mut i = lo;
    if i > v.len() || p.len() > v.len() - i {
        return None;
    }
    while i <= v.len() - p.len()
        invariant
            lo <= i,
            p.len() <= v.len(),
            find_from(v@, p@, lo as int) == find_from(v@, p@, i as int),
        decreases v.len() + 1 - i,
    {
        if occurs_at_exec(v, p, i) {
            return Some(i);
        }
        if i == v.len() - p.len() {
            assert(find_from(v@, p@, i + 1) is None);
            return None;
        }
        i += 1;
    }
    None
}

/// `find_from` on a suffix of `s` is `find_from` on `s`, shifted.
pub proof fn lemma_find_from_shift(s: Seq<char>, p: Seq<char>, lo: int, i: int)
    requires
        0 <= lo <= i,
        lo <= s.len(),
    ensures
        find_from(s.subrange(lo, s.len() as int), p, i - lo) == match find_from(s, p, i) {
            Some(k) => Some(k - lo),
            None => None::<int>,
        },
    decreases s.len() + 1 - i,
{
    let t = s.subrange(lo, s.len() as int);
    if i + p.len() <= s.len() {
        assert(t.subrange(i - lo, i - lo + p.len()) == s.subrange(i, i + p.len()));
        if s.subrange(i, i + p.len()) != p {
            lemma_find_from_shift(s, p, lo, i + 1);
        }
    }
}

/// `str::replace`: every occurrence of the non-empty `pat` in `s`, from
/// left to right and without overlap, replaced by `rep`.
pub open spec fn replace_all(s: Seq<char>, pat: Seq<char>, rep: Seq<char>) -> Seq<char>
    decreases s.len(),
{
    if pat.len() == 0 {
        s
    } else {
        match find(s, pat) {
            Some(k) => if 0 <= k && k + pat.len() <= s.len() {
                s.subrange(0, k) + rep + replace_all(s.subrange(k + pat.len(), s.len() as int), pat, rep)
            } else {
                s
            },
            None => s,
        }
    }
}

/// `s.replace(pat, rep)` for a non-empty `pat`.
pub fn replace_str(s: &str, pat: &str, rep: &str) -> (r: String)
    requires
        pat@.len() > 0,
    ensures
        r@ == replace_all(s@, pat@, rep@),
{
    let v = chars_of(s);
    let p = chars_of(pat);
    let mut out = String::new();
    let mut i: usize = 0;
    assert(v@.subrange(0, v@.len() as int) == v@);
    loop
        invariant
            i <= v.len(),
            v@ == s@,
            p@ == pat@,
            p@.len() > 0,
            out@ + replace_all(v@.subrange(i as int, v@.len() as int), p@, rep@) == replace_all(
                v@,
                p@,
                rep@,
            ),
        decreases v.len() - i,
    {
        let ghost rest = v@.subrange(i as int, v@.len() as int);
        proof {
            lemma_find_from_shift(v@, p@, i as int, i as int);
            lemma_find_from_bounds(v@, p@, i as int);
        }
        match find_exec(&v, &p, i) {
            Some(k) => {
                let ghost before = out@;
                push_range(&mut out, &v, i, k);
                push_str(&mut out, rep);
                assert(rest.subrange(0, k - i) == v@.subrange(i as int, k as int));
                assert(rest.subrange(k - i + p@.len(), rest.len() as int) == v@.subrange(
                    k + p@.len(),
                    v@.len() as int,
                ));
                assert(before + replace_all(rest, p@, rep@) == out@ + replace_all(
                    v@.subrange(k + p@.len(), v@.len() as int),
                    p@,
                    rep@,
                ));
                i = k + p.len();
            },
            None => {
                assert(find(rest, p@) is None);
                assert(replace_all(rest, p@, rep@) == rest);
                push_range(&mut out, &v, i, v.len());
                return out;
            },
        }
    }
}

/// The first index `>= lo` holding `c`.
pub open spec fn find_char_from(s: Seq<char>, c: char, i: int) -> Option<int>
    decreases s.len() - i,
{
    if i < 0 || i >= s.len() {
        None
    } else if s[i] == c {
        Some(i)
    } else {
        find_char_from(s, c, i + 1)
    }
}

pub proof fn lemma_find_char_from(s: Seq<char>, c: char, i: int)
    requires
        0 <= i,
    ensures
        find_char_from(s, c, i) matches Some(k) ==> i <= k < s.len() && s[k] == c && forall|j: int|
            i <= j < k ==> s[j] != c,
        find_char_from(s, c, i) is None ==> forall|j: int| i <= j < s.len() ==> s[j] != c,
    decreases s.len() - i,
{
    if i < s.len() && s[i] != c {
        lemma_find_char_from(s, c, i + 1);
    }
}

/// The first index in `[lo, hi)` holding `c`.
pub fn find_char_exec(v: &Vec<char>, c: char, lo: usize, hi: usize) -> (r: Option<usize>)
    requires
        lo <= hi <= v.len(),
    ensures
        r == (match find_char_from(v@.subrange(0, hi as int), c, lo as int) {
            Some(k) => Some(k as usize),
            None => None::<usize>,
        }),
        r matches Some(k) ==> lo <= k < hi,
{
    let ghost w = v@.subrange(0, hi as int);
    let mut i = lo;
    while i < hi
        invariant
            lo <= i <= hi <= v.len(),
            w == v@.subrange(0, hi as int),
            find_char_from(w, c, lo as int) == find_char_from(w, c, i as int),
        decreases hi - i,
    {
        if v[i] == c {
            return Some(i);
        }
        i += 1;
    }
    None
}

/// The first index of `c` in `v[lo..hi]`, as an index into `v`, related to
/// the slice's own search.
pub fn find_in(v: &Vec<char>, c: char, lo: usize, hi: usize) -> (r: Option<usize>)
    requires
        lo <= hi <= v.len(),
    ensures
        r matches Some(k) ==> lo <= k < hi && find_char_from(v@.subrange(lo as int, hi as int), c, 0) == Some(k - lo),
        r is None ==> find_char_from(v@.subrange(lo as int, hi as int), c, 0) is None,
{
    let ghost w = v@.subrange(lo as int, hi as int);
    let r = find_char_exec(v, c, lo, hi);
    proof {
        lemma_find_char_from(w, c, 0);
        lemma_find_char_from(v@.subrange(0, hi as int), c, lo as int);
        match find_char_from(w, c, 0) {
            Some(m) => {
                assert(w[m] == v@.subrange(0, hi as int)[lo + m]);
            },
            None => {},
        }
        match r {
            Some(k) => {
                assert(w[k - lo] == v@.subrange(0, hi as int)[k as int]);
            },
            None => {},
        }
    }
    r
}

/// The last index below `i` holding `c`.
pub open spec fn rfind_char_below(s: Seq<char>, c: char, i: int) -> Option<int>
    decreases i,
{
    if i <= 0 || i > s.len() {
        None
    } else if s[i - 1] == c {
        Some(i - 1)
    } else {
        rfind_char_below(s, c, i - 1)
    }
}

/// `str::rfind` for one character: the last index holding `c`.
pub open spec fn rfind_char(s: Seq<char>, c: char) -> Option<int> {
    rfind_char_below(s, c, s.len() as int)
}

pub proof fn lemma_rfind_char_below(s: Seq<char>, c: char, i: int)
    requires
        0 <= i <= s.len(),
    ensures
        rfind_char_below(s, c, i) matches Some(k) ==> 0 <= k < i && s[k] == c && forall|j: int|
            k < j < i ==> s[j] != c,
        rfind_char_below(s, c, i) is None ==> forall|j: int| 0 <= j < i ==> s[j] != c,
    decreases i,
{
    if i > 0 && s[i - 1] != c {
        lemma_rfind_char_below(s, c, i - 1);
    }
}

/// The last index in `[lo, hi)` holding `c`, for the slice `v[lo..hi]`.
pub fn rfind_char_exec(v: &Vec<char>, c: char, lo: usize, hi: usize) -> (r: Option<usize>)
    requires
        lo <= hi <= v.len(),
    ensures
        r matches Some(k) ==> lo <= k < hi && rfind_char(v@.subrange(lo as int, hi as int), c)
            == Some(k - lo),
        r is None ==> rfind_char(v@.subrange(lo as int, hi as int), c) is None,
{
    let ghost w = v@.subrange(lo as int, hi as int);
    let mut i = hi;
    while i > lo
        invariant
            lo <= i <= hi <= v.len(),
            w == v@.subrange(lo as int, hi as int),
            rfind_char(w, c) == rfind_char_below(w, c, i - lo),
        decreases i - lo,
    {
        if v[i - 1] == c {
            assert(w[i - 1 - lo] == c);
            return Some(i - 1);
        }
        assert(w[i - 1 - lo] != c);
        i -= 1;
    }
    None
}

// ===================== prefixes =====================

/// `str::starts_with`.
pub open spec fn starts_with(s: Seq<char>, p: Seq<char>) -> bool {
    p.len() <= s.len() && s.subrange(0, p.len() as int) == p
}

/// `str::ends_with`.
pub open spec fn ends_with(s: Seq<char>, p: Seq<char>) -> bool {
    p.len() <= s.len() && s.subrange(s.len() - p.len(), s.len() as int) == p
}

pub fn starts_with_exec(v: &Vec<char>, p: &Vec<char>) -> (b: bool)
    ensures
        b == starts_with(v@, p@),
{
    occurs_at_exec(v, p, 0)
}

pub fn ends_with_exec(v: &Vec<char>, p: &Vec<char>) -> (b: bool)
    ensures
        b == ends_with(v@, p@),
{
    if p.len() > v.len() {
        false
    } else {
        occurs_at_exec(v, p, v.len() - p.len())
    }
}

// ===================== lines =====================

/// A line as `str::lines` yields it: a trailing `\r` is dropped when it
/// stood before the `\n` that ended the line.
pub open spec fn strip_cr(l: Seq<char>) -> Seq<char> {
    if l.len() > 0 && l.last() == '\r' {
        l.drop_last()
    } else {
        l
    }
}

/// `str::lines`: the lines of `s`, split at `\n` or `\r\n`; a final line
/// ending is optional and yields no empty line.
pub open spec fn lines(s: Seq<char>) -> Seq<Seq<char>>
    decreases s.len(),
{
    if s.len() == 0 {
        Seq::empty()
    } else {
        match find_char_from(s, '\n', 0) {
            Some(k) => {
                if 0 <= k < s.len() {
                    seq![strip_cr(s.subrange(0, k))] + lines(s.subrange(k + 1, s.len() as int))
                } else {
                    Seq::empty()
                }
            },
            None => seq![s],
        }
    }
}

/// `s.lines().next()`.
pub open spec fn first_line(s: Seq<char>) -> Option<Seq<char>> {
    if lines(s).len() > 0 {
        Some(lines(s)[0])
    } else {
        None
    }
}

/// Bounds `(start, end, next)` of the line of `v[lo..]` that begins at `lo`:
/// its text is `v[start..end]` and the following line begins at `next`.
pub fn next_line(v: &Vec<char>, lo: usize) -> (r: (usize, usize))
    requires
        lo < v.len(),
    ensures
        lo <= r.0 <= v.len(),
        r.0 < r.1 <= v.len() || r.0 == r.1 == v.len(),
        lo < r.1,
        ({
            let s = v@.subrange(lo as int, v.len() as int);
            &&& lines(s).len() > 0
            &&& lines(s)[0] == v@.subrange(lo as int, r.0 as int)
            &&& lines(s).drop_first() == lines(v@.subrange(r.1 as int, v.len() as int))
        }),
{
    let ghost s = v@.subrange(lo as int, v.len() as int);
    let ghost full = v@.subrange(0, v.len() as int);
    let mut i = lo;
    while i < v.len() && v[i] != '\n'
        invariant
            lo <= i <= v.len(),
            s == v@.subrange(lo as int, v.len() as int),
            forall|j: int| lo <= j < i ==> v@[j] != '\n',
        decreases v.len() - i,
    {
        i += 1;
    }
    proof {
        lemma_find_char_from(s, '\n', 0);
    }
    if i < v.len() {
        assert(find_char_from(s, '\n', 0) == Some((i - lo) as int)) by {
            lemma_find_char_from(s, '\n', 0);
            assert(s[(i - lo) as int] == '\n');
        }
        assert(s.subrange(0, (i - lo) as int) == v@.subrange(lo as int, i as int));
        assert(s.subrange((i - lo) + 1, s.len() as int) == v@.subrange(i + 1, v.len() as int));
        if i > lo && v[i - 1] == '\r' {
            assert(strip_cr(v@.subrange(lo as int, i as int)) == v@.subrange(lo as int, i - 1));
            (i - 1, i + 1)
        } else {
            (i, i + 1)
        }
    } else {
        assert(find_char_from(s, '\n', 0) is None) by {
            if let Some(k) = find_char_from(s, '\n', 0) {
                assert(s[k] == v@[lo + k]);
            }
        }
        assert(s == v@.subrange(lo as int, i as int));
        assert(v@.subrange(i as int, v.len() as int).len() == 0);
        assert(lines(s) == seq![s]);
        assert(lines(s).drop_first() =~= Seq::<Seq<char>>::empty());
        (i, i)
    }
}


// ===================== words =====================

/// The first index `>= i` that does not hold whitespace (or the length).
pub open spec fn skip_ws_from(s: Seq<char>, i: int) -> int
    decreases s.len() - i,
{
    if i < 0 || i >= s.len() {
        s.len() as int
    } else if is_ws(s[i]) {
        skip_ws_from(s, i + 1)
    } else {
        i
    }
}

/// The first index `>= i` that holds whitespace (or the length).
pub open spec fn skip_word_from(s: Seq<char>, i: int) -> int
    decreases s.len() - i,
{
    if i < 0 || i >= s.len() {
        s.len() as int
    } else if is_ws(s[i]) {
        i
    } else {
        skip_word_from(s, i + 1)
    }
}

/// `s.split_whitespace().next()`: the first whitespace-separated word.
pub open spec fn first_word(s: Seq<char>) -> Option<Seq<char>> {
    let a0 = skip_ws_from(s, 0);
    let e0 = skip_word_from(s, a0);
    if a0 < s.len() {
        Some(s.subrange(a0, e0))
    } else {
        None
    }
}

/// `s.split_whitespace().nth(1)`: the second whitespace-separated word.
pub open spec fn second_word(s: Seq<char>) -> Option<Seq<char>> {
    let a0 = skip_ws_from(s, 0);
    let e0 = skip_word_from(s, a0);
    let a1 = skip_ws_from(s, e0);
    let e1 = skip_word_from(s, a1);
    if a1 < s.len() {
        Some(s.subrange(a1, e1))
    } else {
        None
    }
}

pub proof fn lemma_skip_bounds(s: Seq<char>, i: int)
    requires
        0 <= i <= s.len(),
    ensures
        i <= skip_ws_from(s, i) <= s.len(),
        i <= skip_word_from(s, i) <= s.len(),
    decreases s.len() - i,
{
    if i < s.len() {
        lemma_skip_bounds(s, i + 1);
    }
}

/// `skip_ws_from` (`want_ws == false`) or `skip_word_from` (`want_ws == true`)
/// on `v[lo..hi]`, as an index into `v`.
pub fn skip_exec(v: &Vec<char>, lo: usize, hi: usize, i: usize, stop_at_ws: bool) -> (j: usize)
    requires
        lo <= i <= hi <= v.len(),
    ensures
        i <= j <= hi,
        j - lo == (if stop_at_ws {
            skip_word_from(v@.subrange(lo as int, hi as int), i - lo)
        } else {
            skip_ws_from(v@.subrange(lo as int, hi as int), i - lo)
        }),
{
    let ghost s = v@.subrange(lo as int, hi as int);
    let mut j = i;
    while j < hi && is_ws_exec(v[j]) != stop_at_ws
        invariant
            lo <= i <= j <= hi <= v.len(),
            s == v@.subrange(lo as int, hi as int),
            (if stop_at_ws {
                skip_word_from(s, i - lo)
            } else {
                skip_ws_from(s, i - lo)
            }) == (if stop_at_ws {
                skip_word_from(s, j - lo)
            } else {
                skip_ws_from(s, j - lo)
            }),
        decreases hi - j,
    {
        assert(s[j - lo] == v@[j as int]);
        j += 1;
    }
    proof {
        if j < hi {
            assert(s[j - lo] == v@[j as int]);
        }
    }
    j
}

// ===================== ASCII case =====================

/// `char::to_ascii_lowercase`.
pub open spec fn ascii_lower(c: char) -> char {
    if 'A' <= c <= 'Z' {
        ((c as u32) + 32) as char
    } else {
        c
    }
}

/// `str::to_ascii_lowercase`, character by character.
pub open spec fn ascii_lower_seq(s: Seq<char>) -> Seq<char> {
    s.map_values(|c: char| ascii_lower(c))
}

pub fn ascii_lower_exec(c: char) -> (r: char)
    ensures
        r == ascii_lower(c),
{
    if 'A' <= c && c <= 'Z' {
        let b = (c as u8) + 32;
        b as char
    } else {
        c
    }
}

/// Whether `v[lo..hi]`, ASCII-lowercased, equals `t`.
pub fn eq_ascii_lower(v: &Vec<char>, lo: usize, hi: usize, t: &Vec<char>) -> (b: bool)
    requires
        lo <= hi <= v.len(),
    ensures
        b == (ascii_lower_seq(v@.subrange(lo as int, hi as int)) == t@),
{
    let ghost s = v@.subrange(lo as int, hi as int);
    if hi - lo != t.len() {
        assert(ascii_lower_seq(s).len() != t@.len());
        return false;
    }
    let mut k: usize = 0;
    while k < t.len()
        invariant
            hi - lo == t.len(),
            lo <= hi <= v.len(),
            s == v@.subrange(lo as int, hi as int),
            k <= t.len(),
            forall|j: int| 0 <= j < k ==> ascii_lower(s[j]) == t@[j],
        decreases t.len() - k,
    {
        if ascii_lower_exec(v[lo + k]) != t[k] {
            assert(ascii_lower_seq(s)[k as int] != t@[k as int]);
            return false;
        }
        k += 1;
    }
    assert(ascii_lower_seq(s) =~= t@);
    true
}

/// `v` ASCII-lowercased.
pub fn ascii_lower_vec(v: &Vec<char>) -> (r: Vec<char>)
    ensures
        r@ == ascii_lower_seq(v@),
{
    let mut r: Vec<char> = Vec::new();
    let mut i: usize = 0;
    while i < v.len()
        invariant
            i <= v.len(),
            r@ == ascii_lower_seq(v@.subrange(0, i as int)),
        decreases v.len() - i,
    {
        r.push(ascii_lower_exec(v[i]));
        assert(ascii_lower_seq(v@.subrange(0, i + 1)) =~= ascii_lower_seq(v@.subrange(0, i as int)).push(ascii_lower(v@[i as int])));
        i += 1;
    }
    assert(v@.subrange(0, v@.len() as int) == v@);
    r
}

// ===================== decimal numbers =====================

pub open spec fn is_digit(c: char) -> bool {
    '0' <= c <= '9'
}

pub open spec fn digit_val(c: char) -> int {
    c as int - '0' as int
}

/// The value of a string of decimal digits (most significant first).
pub open spec fn digits_value(s: Seq<char>) -> int
    decreases s.len(),
{
    if s.len() == 0 {
        0
    } else {
        digits_value(s.drop_last()) * 10 + digit_val(s.last())
    }
}

pub open spec fn all_digits(s: Seq<char>) -> bool {
    forall|i: int| 0 <= i < s.len() ==> is_digit(#[trigger] s[i])
}

/// The digits that `str::parse` reads for an unsigned integer: an optional
/// `+` followed by at least one ASCII digit and nothing else.
pub open spec fn unsigned_digits(s: Seq<char>) -> Option<Seq<char>> {
    let d = if s.len() > 0 && s[0] == '+' {
        s.drop_first()
    } else {
        s
    };
    if d.len() > 0 && all_digits(d) {
        Some(d)
    } else {
        None
    }
}

/// `str::parse` into an unsigned integer type whose largest value is `max`.
pub open spec fn parse_unsigned(s: Seq<char>, max: int) -> Option<int> {
    match unsigned_digits(s) {
        Some(d) => if digits_value(d) <= max {
            Some(digits_value(d))
        } else {
            None
        },
        None => None,
    }
}

pub proof fn lemma_digits_value_prefix(s: Seq<char>, k: int)
    requires
        0 <= k < s.len(),
    ensures
        digits_value(s.subrange(0, k + 1)) == digits_value(s.subrange(0, k)) * 10 + digit_val(s[k]),
{
    assert(s.subrange(0, k + 1).drop_last() == s.subrange(0, k));
}

pub proof fn lemma_digits_value_nonneg(s: Seq<char>)
    requires
        all_digits(s),
    ensures
        digits_value(s) >= 0,
    decreases s.len(),
{
    if s.len() > 0 {
        lemma_digits_value_nonneg(s.drop_last());
        assert(is_digit(s[s.len() - 1]));
    }
}

pub proof fn lemma_digits_value_monotone(s: Seq<char>, k: int)
    requires
        all_digits(s),
        0 <= k <= s.len(),
    ensures
        digits_value(s.subrange(0, k)) <= digits_value(s),
    decreases s.len() - k,
{
    if k < s.len() {
        lemma_digits_value_prefix(s, k);
        assert(all_digits(s.subrange(0, k)));
        lemma_digits_value_nonneg(s.subrange(0, k));
        assert(is_digit(s[k]));
        lemma_digits_value_monotone(s, k + 1);
    } else {
        assert(s.subrange(0, k) == s);
    }
}

/// Parses `v[lo..hi]` as an unsigned decimal no larger than `max`.
pub fn parse_unsigned_exec(v: &Vec<char>, lo: usize, hi: usize, max: u64) -> (r: Option<u64>)
    requires
        lo <= hi <= v.len(),
    ensures
        r matches Some(n) ==> parse_unsigned(v@.subrange(lo as int, hi as int), max as int) == Some(
            n as int,
        ),
        r is None ==> parse_unsigned(v@.subrange(lo as int, hi as int), max as int) is None,
{
    let ghost s = v@.subrange(lo as int, hi as int);
    let mut start = lo;
    if lo < hi && v[lo] == '+' {
        start = lo + 1;
    }
    let ghost d = v@.subrange(start as int, hi as int);
    assert(unsigned_digits(s) == (if d.len() > 0 && all_digits(d) { Some(d) } else { None::<Seq<char>> })) by {
        if lo < hi && v@[lo as int] == '+' {
            assert(s.drop_first() == d);
        } else {
            assert(s == d);
        }
    }
    if start >= hi {
        return None;
    }
    let mut acc: u64 = 0;
    let mut i = start;
    let mut overflow = false;
    while i < hi
        invariant
            start <= i <= hi <= v.len(),
            d == v@.subrange(start as int, hi as int),
            !overflow ==> all_digits(d.subrange(0, i - start)),
            !overflow ==> acc as int == digits_value(d.subrange(0, i - start)),
            !overflow ==> acc <= max,
            overflow ==> (!all_digits(d) || digits_value(d) > max),
            unsigned_digits(v@.subrange(lo as int, hi as int)) == (if d.len() > 0 && all_digits(d) {
                Some(d)
            } else {
                None::<Seq<char>>
            }),
        decreases hi - i,
    {
        let c = v[i];
        if !('0' <= c && c <= '9') {
            assert(!is_digit(d[i - start]));
            return None;
        }
        if !overflow {
            let dv = (c as u64) - ('0' as u64);
            proof {
                lemma_digits_value_prefix(d, i - start);
                assert(d[i - start] == c);
            }
            if dv > max || acc > (max - dv) / 10 {
                proof {
                    assert(acc * 10 + dv > max) by (nonlinear_arith)
                        requires dv > max || acc > (max - dv) / 10, acc >= 0;
                    if all_digits(d) {
                        lemma_digits_value_monotone(d, i - start + 1);
                    }
                }
                overflow = true;
            } else {
                proof {
                    assert(acc * 10 + dv <= max) by (nonlinear_arith)
                        requires acc <= (max - dv) / 10, dv <= max;
                    assert(all_digits(d.subrange(0, i - start + 1)));
                }
                acc = acc * 10 + dv;
            }
        }
        i += 1;
    }
    if overflow {
        None
    } else {
        assert(d.subrange(0, hi - start) == d);
        Some(acc)
    }
}

pub open spec fn digit_char(d: int) -> char {
    (d + '0' as int) as char
}

/// The decimal digits of `n`, as `u64`'s `Display` writes them.
pub open spec fn decimal(n: nat) -> Seq<char>
    decreases n,
{
    if n < 10 {
        seq![digit_char(n as int)]
    } else {
        decimal(n / 10).push(digit_char((n % 10) as int))
    }
}

/// Appends the decimal digits of `n`.
pub fn push_decimal(out: &mut String, n: u64)
    ensures
        final(out)@ == old(out)@ + decimal(n as nat),
    decreases n,
{
    if n >= 10 {
        push_decimal(out, n / 10);
    }
    let b = ((n % 10) as u8) + 48;
    push_char(out, b as char);
    assert(old(out)@ + decimal(n as nat) == if n >= 10 { old(out)@ + decimal((n / 10) as nat) } else { old(out)@ }.push(digit_char((n % 10) as int)));
}

/// The decimal digits of `n` as a new string.
pub fn decimal_string(n: u64) -> (s: String)
    ensures
        s@ == decimal(n as nat),
{
    let mut s = String::new();
    push_decimal(&mut s, n);
    s
}

} // verus!
