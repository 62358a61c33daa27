//! Update checking: compares versions and tells, downloads nothing.
//!
//! Sources are tried in order and the first that answers wins:
//! 1. the static manifest `version.json` among the latest release's assets;
//! 2. the GitHub API `repos/<owner>/<repo>/releases/latest`, as a fallback.
//!
//! The manifest needs only `version`; `notes` and `url` are optional.
//! Fetching is the caller's part: [`fetch`] and [`UpdateCheck::on_response`]
//! say which URL to get next, or what the outcome is.

use vstd::prelude::*;
use crate::text::{
    chars_of, find, find_char_from, lemma_find_char_from, lemma_find_from_bounds, find_in,
    find_exec, owned, parse_unsigned, parse_unsigned_exec, push_char, push_str,
    skip_char_backward, string_of_range, strip_trailing, trim, trim_range, trimmed, concat2,
    concat3, decimal, decimal_string, ends_with, ends_with_exec, starts_with, starts_with_exec,
};

verus! {

broadcast use vstd::string::group_string_axioms;

// ===================== versions =====================

/// `trim_start_matches(['v', 'V'])`.
pub open spec fn strip_v(s: Seq<char>) -> Seq<char>
    decreases s.len(),
{
    if s.len() > 0 && (s[0] == 'v' || s[0] == 'V') {
        strip_v(s.drop_first())
    } else {
        s
    }
}

/// `s` up to the first `c`, or all of `s`.
pub open spec fn before_char(s: Seq<char>, c: char) -> Seq<char> {
    match find_char_from(s, c, 0) {
        Some(k) => s.subrange(0, k),
        None => s,
    }
}

/// What follows the first `c` in `s`, if `s` holds one.
pub open spec fn after_char(s: Seq<char>, c: char) -> Option<Seq<char>> {
    match find_char_from(s, c, 0) {
        Some(k) => Some(s.subrange(k + 1, s.len() as int)),
        None => None,
    }
}

/// `s.split(c)`: the pieces between the copies of `c`, empty ones included.
pub open spec fn split_on(s: Seq<char>, c: char) -> Seq<Seq<char>>
    decreases s.len(),
{
    match find_char_from(s, c, 0) {
        Some(k) => if 0 <= k < s.len() {
            seq![s.subrange(0, k)] + split_on(s.subrange(k + 1, s.len() as int), c)
        } else {
            seq![s]
        },
        None => seq![s],
    }
}

/// Length of the run of ASCII digits at the start of `s`, from `i` on.
pub open spec fn digit_run(s: Seq<char>, i: int) -> int
    decreases s.len() - i,
{
    if 0 <= i < s.len() && '0' <= s[i] <= '9' {
        digit_run(s, i + 1)
    } else {
        i
    }
}

/// The number a dot-separated part stands for: its leading ASCII digits,
/// read as a `u64`. Nothing without a leading digit or beyond `u64`.
pub open spec fn part_number(part: Seq<char>) -> Option<u64> {
    let d = part.subrange(0, digit_run(part, 0));
    if d.len() == 0 {
        None
    } else {
        match parse_unsigned(d, u64::MAX as int) {
            Some(n) => Some(n as u64),
            None => None,
        }
    }
}

/// The numbers of all parts, if each part has one.
pub open spec fn part_numbers(parts: Seq<Seq<char>>) -> Option<Seq<u64>>
    decreases parts.len(),
{
    if parts.len() == 0 {
        Some(Seq::empty())
    } else {
        match (part_numbers(parts.drop_last()), part_number(parts.last())) {
            (Some(ns), Some(n)) => Some(ns.push(n)),
            _ => None,
        }
    }
}

/// The version text: trimmed, without leading `v`/`V`, trimmed again.
pub open spec fn version_text(raw: Seq<char>) -> Seq<char> {
    trim(strip_v(trim(raw)))
}

/// `v1.2.3`, `1.2.3-beta.1+build` read as numbers and pre-release tag:
/// build metadata after `+` is ignored, the tag is what follows the first
/// `-`, and every dot-separated part of the rest needs leading digits.
pub open spec fn parsed_version(raw: Seq<char>) -> Option<(Seq<u64>, Option<Seq<char>>)> {
    let core_and_pre = before_char(version_text(raw), '+');
    match part_numbers(split_on(before_char(core_and_pre, '-'), '.')) {
        Some(ns) => Some((ns, after_char(core_and_pre, '-'))),
        None => None,
    }
}

proof fn lemma_digit_run_bounds(s: Seq<char>, i: int)
    requires
        0 <= i <= s.len(),
    ensures
        i <= digit_run(s, i) <= s.len(),
        forall|j: int| i <= j < digit_run(s, i) ==> '0' <= #[trigger] s[j] <= '9',
        digit_run(s, i) < s.len() ==> !('0' <= s[digit_run(s, i)] <= '9'),
    decreases s.len() - i,
{
    if i < s.len() && '0' <= s[i] <= '9' {
        lemma_digit_run_bounds(s, i + 1);
    }
}

/// Number of the part `v[lo..hi]` (see [`part_number`]).
fn part_number_exec(v: &Vec<char>, lo: usize, hi: usize) -> (r: Option<u64>)
    requires
        lo <= hi <= v.len(),
    ensures
        r == part_number(v@.subrange(lo as int, hi as int)),
{
    let ghost s = v@.subrange(lo as int, hi as int);
    let mut e = lo;
    while e < hi && '0' <= v[e] && v[e] <= '9'
        invariant
            lo <= e <= hi <= v.len(),
            s == v@.subrange(lo as int, hi as int),
            digit_run(s, 0) == digit_run(s, e - lo),
        decreases hi - e,
    {
        assert(s[e - lo] == v@[e as int]);
        e += 1;
    }
    proof {
        lemma_digit_run_bounds(s, e - lo);
        if e < hi {
            assert(s[e - lo] == v@[e as int]);
        }
        assert(digit_run(s, (e - lo) as int) == e - lo);
        assert(s.subrange(0, e - lo) == v@.subrange(lo as int, e as int));
    }
    if e == lo {
        return None;
    }
    match parse_unsigned_exec(v, lo, e, u64::MAX) {
        Some(n) => Some(n),
        None => None,
    }
}

/// Parses a version (see [`parsed_version`]): its numbers and its
/// pre-release tag.
pub fn parse_version(raw: &str) -> (r: Option<(Vec<u64>, Option<String>)>)
    ensures
        match parsed_version(raw@) {
            Some((ns, pre)) => r matches Some((v, p)) && v@ == ns && match p {
                Some(ps) => pre == Some(ps@),
                None => pre is None,
            },
            None => r is None,
        },
{
    let t = trimmed(raw);
    let w = chars_of(t.as_str());
    assert(w@.subrange(0, w@.len() as int) == w@);
    let mut a: usize = 0;
    while a < w.len() && (w[a] == 'v' || w[a] == 'V')
        invariant
            a <= w.len(),
            strip_v(w@) == strip_v(w@.subrange(a as int, w.len() as int)),
        decreases w.len() - a,
    {
        assert(w@.subrange(a as int, w.len() as int).drop_first() == w@.subrange(a + 1, w.len() as int));
        a += 1;
    }
    let (s0, e0) = trim_range(&w, a, w.len());
    let ghost text = w@.subrange(s0 as int, e0 as int);
    assert(text == version_text(raw@));
    // the part before `+`
    let e1 = match find_in(&w, '+', s0, e0) {
        Some(k) => k,
        None => e0,
    };
    let ghost cp = w@.subrange(s0 as int, e1 as int);
    assert(cp == before_char(text, '+'));
    // core and pre-release tag
    let dash = find_in(&w, '-', s0, e1);
    let e2 = match dash {
        Some(k) => k,
        None => e1,
    };
    let pre = match dash {
        Some(k) => Some(string_of_range(&w, k + 1, e1)),
        None => None,
    };
    assert(w@.subrange(s0 as int, e2 as int) == before_char(cp, '-'));
    assert(match pre {
        Some(ps) => after_char(cp, '-') == Some(ps@),
        None => after_char(cp, '-') is None,
    });
    // the dot-separated parts of `w[s0..e2]`
    let mut numbers: Vec<u64> = Vec::new();
    let mut i = s0;
    let ghost core = w@.subrange(s0 as int, e2 as int);
    proof {
        if let Some(r) = part_numbers(split_on(core, '.')) {
            assert(numbers@ + r == r);
        }
    }
    loop
        invariant
            s0 <= i <= e2 <= w.len(),
            core == w@.subrange(s0 as int, e2 as int),
            parsed_version(raw@) == match part_numbers(split_on(core, '.')) {
                Some(ns) => Some((ns, after_char(cp, '-'))),
                None => None,
            },
            match pre {
                Some(ps) => after_char(cp, '-') == Some(ps@),
                None => after_char(cp, '-') is None,
            },
            part_numbers(split_on(core, '.')) == match part_numbers(
                split_on(w@.subrange(i as int, e2 as int), '.'),
            ) {
                Some(rest) => Some(numbers@ + rest),
                None => None::<Seq<u64>>,
            },
        decreases e2 - i,
    {
        let ghost rest = w@.subrange(i as int, e2 as int);
        match find_in(&w, '.', i, e2) {
            Some(k) => {
                assert(rest.subrange(0, k - i) == w@.subrange(i as int, k as int));
                assert(rest.subrange(k - i + 1, rest.len() as int) == w@.subrange(k + 1, e2 as int));
                assert(split_on(rest, '.') == seq![w@.subrange(i as int, k as int)] + split_on(
                    w@.subrange(k + 1, e2 as int),
                    '.',
                ));
                proof {
                    lemma_part_numbers_cons(
                        w@.subrange(i as int, k as int),
                        split_on(w@.subrange(k + 1, e2 as int), '.'),
                    );
                }
                match part_number_exec(&w, i, k) {
                    Some(n) => {
                        let ghost before = numbers@;
                        numbers.push(n);
                        proof {
                            match part_numbers(split_on(w@.subrange(k + 1, e2 as int), '.')) {
                                Some(tail) => {
                                    assert(before + (seq![n] + tail) == numbers@ + tail);
                                },
                                None => {},
                            }
                        }
                        i = k + 1;
                    },
                    None => {
                        return None;
                    },
                }
            },
            None => {
                assert(split_on(rest, '.') == seq![rest]);
                proof {
                    lemma_part_numbers_cons(rest, Seq::empty());
                    assert(seq![rest] + Seq::<Seq<char>>::empty() == seq![rest]);
                }
                match part_number_exec(&w, i, e2) {
                    Some(n) => {
                        let ghost before = numbers@;
                        numbers.push(n);
                        assert(before + seq![n] == numbers@);
                        return Some((numbers, pre));
                    },
                    None => {
                        return None;
                    },
                }
            },
        }
    }
}


/// Part `i` of `ns`, a missing part counting as zero.
pub open spec fn part_at(ns: Seq<u64>, i: int) -> int {
    if 0 <= i < ns.len() {
        ns[i] as int
    } else {
        0
    }
}

/// Compares `a` and `b` part by part from part `i` below `n`: `1` when `a`
/// is greater at the first difference, `-1` when smaller, `0` without one.
pub open spec fn compare_from(a: Seq<u64>, b: Seq<u64>, i: int, n: int) -> int
    decreases n - i,
{
    if i >= n {
        0
    } else if part_at(a, i) > part_at(b, i) {
        1
    } else if part_at(a, i) < part_at(b, i) {
        -1
    } else {
        compare_from(a, b, i + 1, n)
    }
}

pub open spec fn max_len(a: Seq<u64>, b: Seq<u64>) -> int {
    if a.len() >= b.len() {
        a.len() as int
    } else {
        b.len() as int
    }
}

/// Numeric comparison of version numbers: `1.0.10 > 1.0.9`, `1.1 == 1.1.0`.
pub open spec fn compare_numbers(a: Seq<u64>, b: Seq<u64>) -> int {
    compare_from(a, b, 0, max_len(a, b))
}

/// `remote` is a newer version than `local`: both parse, and `remote` has
/// greater numbers, or equal numbers and is a release where `local` is a
/// pre-release. A version that does not parse is never newer nor older.
pub open spec fn newer_version(remote: Seq<char>, local: Seq<char>) -> bool {
    match (parsed_version(remote), parsed_version(local)) {
        (Some((rn, rp)), Some((ln, lp))) => {
            let c = compare_numbers(rn, ln);
            c > 0 || (c == 0 && rp is None && lp is Some)
        },
        _ => false,
    }
}

/// Whether `remote` is newer than `local` (see [`newer_version`]).
pub fn is_newer(remote: &str, local: &str) -> (r: bool)
    ensures
        r == newer_version(remote@, local@),
{
    let (rn, rp) = match parse_version(remote) {
        Some(x) => x,
        None => {
            return false;
        },
    };
    let (ln, lp) = match parse_version(local) {
        Some(x) => x,
        None => {
            return false;
        },
    };
    let n = if rn.len() >= ln.len() {
        rn.len()
    } else {
        ln.len()
    };
    let mut index: usize = 0;
    while index < n
        invariant
            index <= n,
            n == max_len(rn@, ln@),
            compare_numbers(rn@, ln@) == compare_from(rn@, ln@, index as int, n as int),
            newer_version(remote@, local@) == (compare_numbers(rn@, ln@) > 0 || (compare_numbers(
                rn@,
                ln@,
            ) == 0 && rp is None && lp is Some)),
        decreases n - index,
    {
        let remote_part: u64 = if index < rn.len() {
            rn[index]
        } else {
            0
        };
        let local_part: u64 = if index < ln.len() {
            ln[index]
        } else {
            0
        };
        assert(part_at(rn@, index as int) == remote_part && part_at(ln@, index as int) == local_part);
        if remote_part != local_part {
            return remote_part > local_part;
        }
        index += 1;
    }
    rp.is_none() && lp.is_some()
}

proof fn lemma_compare_self(a: Seq<u64>, i: int, n: int)
    ensures
        compare_from(a, a, i, n) == 0,
    decreases n - i,
{
    if i < n {
        lemma_compare_self(a, i + 1, n);
    }
}

proof fn lemma_compare_flip(a: Seq<u64>, b: Seq<u64>, i: int, n: int)
    ensures
        compare_from(a, b, i, n) == -compare_from(b, a, i, n),
    decreases n - i,
{
    if i < n {
        lemma_compare_flip(a, b, i + 1, n);
    }
}

/// Beyond both lengths every part is zero.
proof fn lemma_compare_tail(a: Seq<u64>, b: Seq<u64>, i: int, n: int)
    requires
        i >= max_len(a, b),
    ensures
        compare_from(a, b, i, n) == 0,
    decreases n - i,
{
    if i < n {
        lemma_compare_tail(a, b, i + 1, n);
    }
}

/// A bound past both lengths does not change the comparison.
proof fn lemma_compare_extend(a: Seq<u64>, b: Seq<u64>, i: int, n: int, m: int)
    requires
        max_len(a, b) <= n <= m,
        i <= n,
    ensures
        compare_from(a, b, i, n) == compare_from(a, b, i, m),
    decreases n - i,
{
    if i < n {
        lemma_compare_extend(a, b, i + 1, n, m);
    } else {
        lemma_compare_tail(a, b, i, m);
    }
}

proof fn lemma_compare_chain(a: Seq<u64>, b: Seq<u64>, c: Seq<u64>, i: int, n: int)
    requires
        compare_from(a, b, i, n) >= 0,
        compare_from(b, c, i, n) >= 0,
    ensures
        compare_from(a, c, i, n) >= 0,
        compare_from(a, c, i, n) == 0 ==> compare_from(a, b, i, n) == 0 && compare_from(b, c, i, n) == 0,
    decreases n - i,
{
    if i < n && part_at(a, i) == part_at(b, i) && part_at(b, i) == part_at(c, i) {
        lemma_compare_chain(a, b, c, i + 1, n);
    }
}

/// Law: no version is newer than itself.
pub proof fn law_newer_irreflexive(v: Seq<char>)
    ensures
        !newer_version(v, v),
{
    if let Some((ns, _)) = parsed_version(v) {
        lemma_compare_self(ns, 0, max_len(ns, ns));
    }
}

/// Law: of two versions at most one is newer than the other.
pub proof fn law_newer_asymmetric(a: Seq<char>, b: Seq<char>)
    ensures
        !(newer_version(a, b) && newer_version(b, a)),
{
    if let (Some((an, _)), Some((bn, _))) = (parsed_version(a), parsed_version(b)) {
        lemma_compare_flip(an, bn, 0, max_len(an, bn));
        assert(max_len(an, bn) == max_len(bn, an));
    }
}

/// Law: "newer" is transitive.
pub proof fn law_newer_transitive(a: Seq<char>, b: Seq<char>, c: Seq<char>)
    requires
        newer_version(a, b),
        newer_version(b, c),
    ensures
        newer_version(a, c),
{
    let (an, ap) = parsed_version(a).unwrap();
    let (bn, bp) = parsed_version(b).unwrap();
    let (cn, cp) = parsed_version(c).unwrap();
    let m = max_len(an, bn) + max_len(bn, cn) + max_len(an, cn);
    lemma_compare_extend(an, bn, 0, max_len(an, bn), m);
    lemma_compare_extend(bn, cn, 0, max_len(bn, cn), m);
    lemma_compare_extend(an, cn, 0, max_len(an, cn), m);
    lemma_compare_chain(an, bn, cn, 0, m);
}

/// Equal parts all the way compare equal.
proof fn lemma_compare_equal_parts(a: Seq<u64>, b: Seq<u64>, i: int, n: int)
    requires
        forall|j: int| i <= j < n ==> part_at(a, j) == part_at(b, j),
    ensures
        compare_from(a, b, i, n) == 0,
    decreases n - i,
{
    if i < n {
        lemma_compare_equal_parts(a, b, i + 1, n);
    }
}

/// Parts never smaller and once greater compare greater.
proof fn lemma_compare_dominates(a: Seq<u64>, b: Seq<u64>, i: int, n: int)
    requires
        forall|j: int| i <= j < n ==> part_at(a, j) >= part_at(b, j),
        exists|j: int| i <= j < n && part_at(a, j) > part_at(b, j),
    ensures
        compare_from(a, b, i, n) == 1,
    decreases n - i,
{
    if part_at(a, i) <= part_at(b, i) {
        let j = choose|j: int| i <= j < n && part_at(a, j) > part_at(b, j);
        assert(j != i);
        lemma_compare_dominates(a, b, i + 1, n);
    }
}

/// Law: a part that a version lacks counts as zero. Appending zero parts to
/// a version's numbers gives numbers that compare equal to it, either way
/// round (`1.1` and `1.1.0` are the same version).
pub proof fn law_missing_parts_count_as_zero(a: Seq<u64>, z: Seq<u64>)
    requires
        forall|j: int| 0 <= j < z.len() ==> z[j] == 0,
    ensures
        compare_numbers(a, a + z) == 0,
        compare_numbers(a + z, a) == 0,
{
    let n = (a + z).len() as int;
    assert forall|j: int| 0 <= j < n implies part_at(a, j) == part_at(a + z, j) by {
        if j >= a.len() {
            assert((a + z)[j] == z[j - a.len()]);
        }
    }
    lemma_compare_equal_parts(a, a + z, 0, n);
    lemma_compare_flip(a, a + z, 0, n);
    assert(max_len(a, a + z) == n && max_len(a + z, a) == n);
}

/// Law: numbers that go on past another version's numbers, with some further
/// part above zero, are greater than them (`1.2.5` above `1.2`), and those
/// are smaller.
pub proof fn law_longer_with_nonzero_part_is_greater(a: Seq<u64>, t: Seq<u64>)
    requires
        exists|j: int| 0 <= j < t.len() && t[j] > 0,
    ensures
        compare_numbers(a + t, a) == 1,
        compare_numbers(a, a + t) == -1,
{
    let n = (a + t).len() as int;
    let j0 = choose|j: int| 0 <= j < t.len() && t[j] > 0;
    assert forall|j: int| 0 <= j < n implies part_at(a + t, j) >= part_at(a, j) by {
        if j < a.len() {
            assert((a + t)[j] == a[j]);
        }
    }
    assert((a + t)[a.len() + j0] == t[j0]);
    assert(part_at(a + t, a.len() + j0) > part_at(a, a.len() + j0));
    lemma_compare_dominates(a + t, a, 0, n);
    lemma_compare_flip(a + t, a, 0, n);
    assert(max_len(a, a + t) == n && max_len(a + t, a) == n);
}

/// Law: two versions whose numbers differ only by trailing zero parts, with
/// the same pre-release tag, are the same version: neither is newer.
pub proof fn law_trailing_zeros_not_newer(r: Seq<char>, l: Seq<char>, z: Seq<u64>)
    requires
        parsed_version(r) is Some,
        parsed_version(l) is Some,
        parsed_version(l).unwrap().0 == parsed_version(r).unwrap().0 + z,
        parsed_version(l).unwrap().1 == parsed_version(r).unwrap().1,
        forall|j: int| 0 <= j < z.len() ==> z[j] == 0,
    ensures
        !newer_version(r, l),
        !newer_version(l, r),
{
    law_missing_parts_count_as_zero(parsed_version(r).unwrap().0, z);
}

/// Law: a version whose numbers extend another's with some part above zero
/// is newer than it, whatever the pre-release tags, and not the other way.
pub proof fn law_more_parts_is_newer(r: Seq<char>, l: Seq<char>, t: Seq<u64>)
    requires
        parsed_version(r) is Some,
        parsed_version(l) is Some,
        parsed_version(r).unwrap().0 == parsed_version(l).unwrap().0 + t,
        exists|j: int| 0 <= j < t.len() && t[j] > 0,
    ensures
        newer_version(r, l),
        !newer_version(l, r),
{
    law_longer_with_nonzero_part_is_greater(parsed_version(l).unwrap().0, t);
}

// ===================== repository coordinates =====================

/// The pieces of `s` between `/` that are not empty
/// (`s.split('/').filter(|part| !part.is_empty())`).
pub open spec fn nonempty_segments(s: Seq<char>) -> Seq<Seq<char>>
    decreases s.len(),
{
    match find_char_from(s, '/', 0) {
        Some(k) => if 0 <= k < s.len() {
            (if k > 0 {
                seq![s.subrange(0, k)]
            } else {
                Seq::empty()
            }) + nonempty_segments(s.subrange(k + 1, s.len() as int))
        } else {
            Seq::empty()
        },
        None => if s.len() > 0 {
            seq![s]
        } else {
            Seq::empty()
        },
    }
}

/// `trim_start_matches([':', '/'])`.
pub open spec fn strip_separators(s: Seq<char>) -> Seq<char>
    decreases s.len(),
{
    if s.len() > 0 && (s[0] == ':' || s[0] == '/') {
        strip_separators(s.drop_first())
    } else {
        s
    }
}

/// The path after `github.com` in a remote address, without leading `:`
/// or `/` and without a final `.git`; nothing for a blank address or one
/// that does not name `github.com`.
pub open spec fn repo_path(remote: Seq<char>) -> Option<Seq<char>> {
    let r = strip_trailing(trim(remote), '/');
    if r.len() == 0 {
        None
    } else {
        match find(r, "github.com"@) {
            Some(k) => {
                let p = strip_separators(r.subrange(k + "github.com"@.len(), r.len() as int));
                Some(
                    if ends_with(p, ".git"@) {
                        p.subrange(0, p.len() - ".git"@.len())
                    } else {
                        p
                    },
                )
            },
            None => None,
        }
    }
}

/// `(owner, repo)` of a GitHub remote: the first two non-empty pieces of
/// its path.
pub open spec fn repo_coordinates(remote: Seq<char>) -> Option<(Seq<char>, Seq<char>)> {
    match repo_path(remote) {
        Some(p) => {
            let segs = nonempty_segments(p);
            if segs.len() >= 2 {
                Some((segs[0], segs[1]))
            } else {
                None
            }
        },
        None => None,
    }
}

/// The first non-empty piece of `v[i..hi]`: its bounds and where the rest
/// begins.
fn next_segment(v: &Vec<char>, i: usize, hi: usize) -> (r: Option<(usize, usize, usize)>)
    requires
        i <= hi <= v.len(),
    ensures
        r matches Some((a, b, next)) ==> i <= a < b <= hi && b <= next <= hi && nonempty_segments(
            v@.subrange(i as int, hi as int),
        ) == seq![v@.subrange(a as int, b as int)] + nonempty_segments(
            v@.subrange(next as int, hi as int),
        ),
        r is None ==> nonempty_segments(v@.subrange(i as int, hi as int)).len() == 0,
{
    let mut j = i;
    loop
        invariant
            i <= j <= hi <= v.len(),
            nonempty_segments(v@.subrange(i as int, hi as int)) == nonempty_segments(
                v@.subrange(j as int, hi as int),
            ),
        decreases hi - j,
    {
        let ghost rest = v@.subrange(j as int, hi as int);
        match find_in(v, '/', j, hi) {
            Some(k) => {
                assert(rest.subrange(0, k - j) == v@.subrange(j as int, k as int));
                assert(rest.subrange(k - j + 1, rest.len() as int) == v@.subrange(k + 1, hi as int));
                if k == j {
                    assert(Seq::<Seq<char>>::empty() + nonempty_segments(v@.subrange(k + 1, hi as int))
                        == nonempty_segments(v@.subrange(k + 1, hi as int)));
                    j = k + 1;
                } else {
                    return Some((j, k, k + 1));
                }
            },
            None => {
                if j < hi {
                    assert(v@.subrange(hi as int, hi as int).len() == 0);
                    assert(nonempty_segments(v@.subrange(hi as int, hi as int)) == Seq::<Seq<char>>::empty());
                    assert(seq![rest] + Seq::<Seq<char>>::empty() == seq![rest]);
                    return Some((j, hi, hi));
                } else {
                    return None;
                }
            },
        }
    }
}

/// `(owner, repo)` of a GitHub remote address (see [`repo_coordinates`]):
/// `https://github.com/o/r(.git)`, `git@github.com:o/r(.git)` and
/// `github.com/o/r` are understood; another host gives nothing.
pub fn repo_coords(remote: &str) -> (r: Option<(String, String)>)
    ensures
        match repo_coordinates(remote@) {
            Some((o, p)) => r matches Some((ro, rp)) && ro@ == o && rp@ == p,
            None => r is None,
        },
{
    let t = trimmed(remote);
    let v = chars_of(t.as_str());
    let e = skip_char_backward(&v, 0, v.len(), '/');
    assert(v@.subrange(0, v@.len() as int) == v@);
    if e == 0 {
        return None;
    }
    let r = chars_of(string_of_range(&v, 0, e).as_str());
    let host = chars_of("github.com");
    proof {
        reveal_strlit("github.com");
        lemma_find_from_bounds(r@, host@, 0);
    }
    let k = match find_exec(&r, &host, 0) {
        Some(k) => k,
        None => {
            return None;
        },
    };
    let mut a = k + 10;
    assert(strip_separators(r@.subrange(k + 10, r@.len() as int)) == strip_separators(
        r@.subrange(a as int, r@.len() as int),
    ));
    while a < r.len() && (r[a] == ':' || r[a] == '/')
        invariant
            k + 10 <= a <= r.len(),
            strip_separators(r@.subrange(k + 10, r@.len() as int)) == strip_separators(
                r@.subrange(a as int, r@.len() as int),
            ),
        decreases r.len() - a,
    {
        assert(r@.subrange(a as int, r@.len() as int).drop_first() == r@.subrange(a + 1, r@.len() as int));
        a += 1;
    }
    let p = chars_of(string_of_range(&r, a, r.len()).as_str());
    let git = chars_of(".git");
    proof {
        reveal_strlit(".git");
    }
    let pe = if ends_with_exec(&p, &git) {
        p.len() - 4
    } else {
        p.len()
    };
    assert(repo_path(remote@) == Some(p@.subrange(0, pe as int)));
    let (s1, e1, n1) = match next_segment(&p, 0, pe) {
        Some(x) => x,
        None => {
            return None;
        },
    };
    let (s2, e2, _) = match next_segment(&p, n1, pe) {
        Some(x) => x,
        None => {
            return None;
        },
    };
    Some((string_of_range(&p, s1, e1), string_of_range(&p, s2, e2)))
}

// ===================== releases and outcomes =====================

/// At most this many characters of release notes are shown.
pub const MAX_NOTES_CHARS: usize = 300;

/// What a source says of the latest release.
#[derive(Debug, Clone, PartialEq, Eq)]
pub struct Release {
    pub version: String,
    pub notes: String,
    pub url: String,
}

impl View for Release {
    type V = ReleaseView;

    open spec fn view(&self) -> ReleaseView {
        ReleaseView { version: self.version@, notes: self.notes@, url: self.url@ }
    }
}

/// A release as text.
pub struct ReleaseView {
    pub version: Seq<char>,
    pub notes: Seq<char>,
    pub url: Seq<char>,
}

/// The result of one check.
#[derive(Debug, Clone, PartialEq, Eq)]
pub enum Outcome {
    /// The remote version is newer.
    Newer(Release),
    /// Nothing newer; `latest` is the remote version, for display.
    UpToDate { latest: String },
    /// The check failed (no network, no repository configured, rate
    /// limited, ...); the text says why.
    Failed(String),
}

/// An outcome as text.
pub enum OutcomeView {
    Newer(ReleaseView),
    UpToDate(Seq<char>),
    Failed(Seq<char>),
}

impl View for Outcome {
    type V = OutcomeView;

    open spec fn view(&self) -> OutcomeView {
        match self {
            Outcome::Newer(r) => OutcomeView::Newer(r@),
            Outcome::UpToDate { latest } => OutcomeView::UpToDate(latest@),
            Outcome::Failed(m) => OutcomeView::Failed(m@),
        }
    }
}

fn copy_release(r: &Release) -> (c: Release)
    ensures
        c@ == r@,
{
    Release { version: owned(r.version.as_str()), notes: owned(r.notes.as_str()), url: owned(r.url.as_str()) }
}

/// A copy of `o` with the same text.
pub fn copy_outcome(o: &Outcome) -> (c: Outcome)
    ensures
        c@ == o@,
{
    match o {
        Outcome::Newer(r) => Outcome::Newer(copy_release(r)),
        Outcome::UpToDate { latest } => Outcome::UpToDate { latest: owned(latest.as_str()) },
        Outcome::Failed(m) => Outcome::Failed(owned(m.as_str())),
    }
}

/// Notes for display: trimmed, and cut to `max` characters followed by
/// `…` when longer.
pub open spec fn truncated(text: Seq<char>, max: int) -> Seq<char> {
    let t = trim(text);
    if t.len() <= max {
        t
    } else {
        t.subrange(0, max) + seq!['…']
    }
}

/// Law: shown notes are never longer than the limit and its ellipsis, and
/// notes within the limit are only trimmed.
pub proof fn law_notes_bounded(text: Seq<char>, max: nat)
    ensures
        truncated(text, max as int).len() <= max + 1,
        trim(text).len() <= max ==> truncated(text, max as int) == trim(text),
{
}

/// Shortens `text` for display (see [`truncated`]).
pub fn truncate(text: &str, max_chars: usize) -> (r: String)
    ensures
        r@ == truncated(text@, max_chars as int),
{
    let t = trimmed(text);
    let v = chars_of(t.as_str());
    if v.len() <= max_chars {
        return t;
    }
    let mut cut = string_of_range(&v, 0, max_chars);
    push_char(&mut cut, '…');
    cut
}

/// The outcome for `release` against the local version: newer or up to
/// date, with the notes shortened.
pub open spec fn judged(local: Seq<char>, release: ReleaseView) -> OutcomeView {
    if newer_version(release.version, local) {
        OutcomeView::Newer(
            ReleaseView {
                version: release.version,
                notes: truncated(release.notes, MAX_NOTES_CHARS as int),
                url: release.url,
            },
        )
    } else {
        OutcomeView::UpToDate(release.version)
    }
}

/// Judges a fetched release against the local version.
pub fn judge(local_version: &str, release: Release) -> (o: Outcome)
    ensures
        o@ == judged(local_version@, release@),
{
    let mut release = release;
    release.notes = truncate(release.notes.as_str(), MAX_NOTES_CHARS);
    if is_newer(release.version.as_str(), local_version) {
        Outcome::Newer(release)
    } else {
        Outcome::UpToDate { latest: release.version }
    }
}

// ===================== reading the sources =====================

/// Text of the error `serde_json::from_str::<serde_json::Value>` gives for
/// `body`; nothing when `body` is a JSON document.
pub uninterp spec fn json_error(body: Seq<char>) -> Option<Seq<char>>;

/// The string that the JSON document `body` holds at its top-level member
/// `key` (`serde_json::from_str::<Value>`, then `get(key)`, then `as_str`);
/// nothing when `body` does not parse, is not an object, lacks the member,
/// or the member is not a string.
pub uninterp spec fn json_str_member(body: Seq<char>, key: Seq<char>) -> Option<Seq<char>>;

/// `serde_json::from_str::<serde_json::Value>(body)`: the error's text
/// (its `Display`) if it fails.
#[verifier::external_body]
fn json_parse_error(body: &str) -> (r: Option<String>)
    ensures
        match json_error(body@) {
            Some(e) => r matches Some(s) && s@ == e,
            None => r is None,
        },
{
    match serde_json::from_str::<serde_json::Value>(body) {
        Ok(_) => None,
        Err(e) => Some(e.to_string()),
    }
}

/// The string at the top-level member `key` of the JSON document `body`
/// (see [`json_str_member`]).
#[verifier::external_body]
fn json_member(body: &str, key: &str) -> (r: Option<String>)
    ensures
        match json_str_member(body@, key@) {
            Some(t) => r matches Some(s) && s@ == t,
            None => r is None,
        },
{
    match serde_json::from_str::<serde_json::Value>(body) {
        Ok(value) => value.get(key).and_then(serde_json::Value::as_str).map(str::to_string),
        Err(_) => None,
    }
}

/// `a` as text if present, else nothing.
pub open spec fn view_opt(a: Option<String>) -> Option<Seq<char>> {
    match a {
        Some(s) => Some(s@),
        None => None,
    }
}

/// A release read from the manifest: the document must parse and hold
/// `version`; `notes` defaults to empty and `url` to the releases page
/// under `base`.
pub open spec fn manifest_release_spec(
    parse_error: Option<Seq<char>>,
    version: Option<Seq<char>>,
    notes: Option<Seq<char>>,
    url: Option<Seq<char>>,
    base: Seq<char>,
) -> Result<ReleaseView, Seq<char>> {
    match parse_error {
        Some(e) => Err(e),
        None => match version {
            None => Err("缺少 version 字段"@),
            Some(v) => Ok(
                ReleaseView {
                    version: v,
                    notes: match notes {
                        Some(n) => n,
                        None => Seq::empty(),
                    },
                    url: match url {
                        Some(u) => u,
                        None => base + "/releases/latest"@,
                    },
                },
            ),
        },
    }
}

/// `r` read as text.
pub open spec fn release_result_view(r: Result<Release, String>) -> Result<ReleaseView, Seq<char>> {
    match r {
        Ok(rel) => Ok(rel@),
        Err(e) => Err(e@),
    }
}

/// Builds the manifest's release from what was read of it (see
/// [`manifest_release_spec`]).
pub fn manifest_release(
    parse_error: Option<String>,
    version: Option<String>,
    notes: Option<String>,
    url: Option<String>,
    base: &str,
) -> (r: Result<Release, String>)
    ensures
        release_result_view(r) == manifest_release_spec(
            view_opt(parse_error),
            view_opt(version),
            view_opt(notes),
            view_opt(url),
            base@,
        ),
{
    if let Some(e) = parse_error {
        return Err(e);
    }
    let version = match version {
        Some(v) => v,
        None => {
            return Err(owned("缺少 version 字段"));
        },
    };
    let notes = match notes {
        Some(n) => n,
        None => String::new(),
    };
    let url = match url {
        Some(u) => u,
        None => concat2(base, "/releases/latest"),
    };
    Ok(Release { version, notes, url })
}

/// Reads the release manifest `body`; `base` is the repository page.
pub fn release_from_manifest(body: &str, base: &str) -> (r: Result<Release, String>)
    ensures
        release_result_view(r) == manifest_release_spec(
            json_error(body@),
            json_str_member(body@, "version"@),
            json_str_member(body@, "notes"@),
            json_str_member(body@, "url"@),
            base@,
        ),
{
    manifest_release(
        json_parse_error(body),
        json_member(body, "version"),
        json_member(body, "notes"),
        json_member(body, "url"),
        base,
    )
}

/// A release read from the GitHub API answer: the document must parse and
/// hold `tag_name` and `html_url`; `body` defaults to empty.
pub open spec fn api_release_spec(
    parse_error: Option<Seq<char>>,
    tag_name: Option<Seq<char>>,
    body: Option<Seq<char>>,
    html_url: Option<Seq<char>>,
) -> Result<ReleaseView, Seq<char>> {
    match parse_error {
        Some(e) => Err(e),
        None => match tag_name {
            None => Err("缺少 tag_name 字段"@),
            Some(v) => match html_url {
                None => Err("缺少 html_url 字段"@),
                Some(u) => Ok(
                    ReleaseView {
                        version: v,
                        notes: match body {
                            Some(n) => n,
                            None => Seq::empty(),
                        },
                        url: u,
                    },
                ),
            },
        },
    }
}

/// Builds the API's release from what was read of it (see
/// [`api_release_spec`]).
pub fn api_release(
    parse_error: Option<String>,
    tag_name: Option<String>,
    body: Option<String>,
    html_url: Option<String>,
) -> (r: Result<Release, String>)
    ensures
        release_result_view(r) == api_release_spec(
            view_opt(parse_error),
            view_opt(tag_name),
            view_opt(body),
            view_opt(html_url),
        ),
{
    if let Some(e) = parse_error {
        return Err(e);
    }
    let version = match tag_name {
        Some(v) => v,
        None => {
            return Err(owned("缺少 tag_name 字段"));
        },
    };
    let notes = match body {
        Some(n) => n,
        None => String::new(),
    };
    let url = match html_url {
        Some(u) => u,
        None => {
            return Err(owned("缺少 html_url 字段"));
        },
    };
    Ok(Release { version, notes, url })
}

/// Reads the GitHub API answer `body` for the latest release.
pub fn release_from_api(body: &str) -> (r: Result<Release, String>)
    ensures
        release_result_view(r) == api_release_spec(
            json_error(body@),
            json_str_member(body@, "tag_name"@),
            json_str_member(body@, "body"@),
            json_str_member(body@, "html_url"@),
        ),
{
    api_release(
        json_parse_error(body),
        json_member(body, "tag_name"),
        json_member(body, "body"),
        json_member(body, "html_url"),
    )
}

// ===================== fetching =====================

/// The repository page.
pub open spec fn base_url(owner: Seq<char>, repo: Seq<char>) -> Seq<char> {
    "https://github.com/"@ + owner + "/"@ + repo
}

/// The manifest among the latest release's assets.
pub open spec fn manifest_url(owner: Seq<char>, repo: Seq<char>) -> Seq<char> {
    base_url(owner, repo) + "/releases/latest/download/version.json"@
}

/// The GitHub API's latest release.
pub open spec fn api_url(owner: Seq<char>, repo: Seq<char>) -> Seq<char> {
    "https://api.github.com/repos/"@ + owner + "/"@ + repo + "/releases/latest"@
}

/// Which source a check is waiting for.
#[derive(Debug, Clone, Copy, PartialEq, Eq, Structural)]
pub enum FetchPhase {
    /// The manifest was requested.
    Manifest,
    /// The API was requested.
    Api,
    /// The outcome is known.
    Finished,
}

/// A check in progress.
#[derive(Debug)]
pub struct UpdateCheck {
    pub phase: FetchPhase,
    pub local_version: String,
    /// The repository page.
    pub base: String,
    /// The API's latest release.
    pub api: String,
}

/// What the caller does next.
#[derive(Debug)]
pub enum UpdateStep {
    /// An HTTPS GET of `url`; its answer goes to [`UpdateCheck::on_response`]
    /// as `Ok((status, body))`, or `Err(reason)` when there was none.
    Get { url: String },
    /// The check is over.
    Done(Outcome),
}

/// The message when no GitHub repository is configured.
pub open spec fn no_repository_message() -> Seq<char> {
    "未配置 GitHub 仓库地址，无法检查更新"@
}

/// `r` is the start of a check for `local_version` against the repository
/// at `repo_url`: the manifest is requested first; without a GitHub
/// repository the check fails at once.
pub open spec fn fetch_started(repo_url: Seq<char>, local_version: Seq<char>, r: (UpdateCheck, UpdateStep)) -> bool {
    match repo_coordinates(repo_url) {
        None => r.0.phase == FetchPhase::Finished && r.0.local_version@ == local_version && (
        r.1 matches UpdateStep::Done(o) && o@ == OutcomeView::Failed(no_repository_message())),
        Some((owner, repo)) => {
            &&& r.0.phase == FetchPhase::Manifest
            &&& r.0.local_version@ == local_version
            &&& r.0.base@ == base_url(owner, repo)
            &&& r.0.api@ == api_url(owner, repo)
            &&& r.1 matches UpdateStep::Get { url } && url@ == manifest_url(owner, repo)
        },
    }
}

/// Starts a check of `local_version` against the repository at `repo_url`
/// (the address the program was built from).
pub fn fetch(repo_url: &str, local_version: &str) -> (r: (UpdateCheck, UpdateStep))
    ensures
        fetch_started(repo_url@, local_version@, r),
{
    match repo_coords(repo_url) {
        None => (
            UpdateCheck {
                phase: FetchPhase::Finished,
                local_version: owned(local_version),
                base: String::new(),
                api: String::new(),
            },
            UpdateStep::Done(Outcome::Failed(owned("未配置 GitHub 仓库地址，无法检查更新"))),
        ),
        Some((owner, repo)) => {
            let mut base = concat2("https://github.com/", owner.as_str());
            push_char(&mut base, '/');
            push_str(&mut base, repo.as_str());
            let manifest = concat2(base.as_str(), "/releases/latest/download/version.json");
            let mut api = concat3("https://api.github.com/repos/", owner.as_str(), "/");
            push_str(&mut api, repo.as_str());
            push_str(&mut api, "/releases/latest");
            proof {
                reveal_strlit("/");
                assert(base@ == base_url(owner@, repo@));
            }
            (
                UpdateCheck { phase: FetchPhase::Manifest, local_version: owned(local_version), base, api },
                UpdateStep::Get { url: manifest },
            )
        },
    }
}

/// A check: with `force` false and an outcome cached from earlier in this
/// run, that outcome again with nothing fetched; else a new fetch.
pub fn check(cache: &Option<Outcome>, repo_url: &str, local_version: &str, force: bool) -> (r: (
    UpdateCheck,
    UpdateStep,
))
    ensures
        !force && cache is Some ==> r.0.phase == FetchPhase::Finished && r.0.local_version@
            == local_version@ && (r.1 matches UpdateStep::Done(o) && o@ == cache.unwrap()@),
        force || cache is None ==> fetch_started(repo_url@, local_version@, r),
{
    if !force {
        if let Some(cached) = cache {
            return (
                UpdateCheck {
                    phase: FetchPhase::Finished,
                    local_version: owned(local_version),
                    base: String::new(),
                    api: String::new(),
                },
                UpdateStep::Done(copy_outcome(cached)),
            );
        }
    }
    fetch(repo_url, local_version)
}

/// Keeps `outcome` for later checks of this run.
pub fn remember(cache: &mut Option<Outcome>, outcome: &Outcome)
    ensures
        *final(cache) matches Some(o) && o@ == outcome@,
{
    *cache = Some(copy_outcome(outcome));
}

/// The outcome when the API answered with `status` and `body`, or not at
/// all (`Err`).
pub open spec fn api_outcome(local: Seq<char>, answer: Result<(u32, Seq<char>), Seq<char>>) -> OutcomeView {
    match answer {
        Ok((200, body)) => match api_release_spec(
            json_error(body),
            json_str_member(body, "tag_name"@),
            json_str_member(body, "body"@),
            json_str_member(body, "html_url"@),
        ) {
            Ok(rel) => judged(local, rel),
            Err(e) => OutcomeView::Failed("解析 GitHub 响应失败: "@ + e),
        },
        Ok((status, _)) => OutcomeView::Failed("GitHub 返回 HTTP "@ + decimal(status as nat)),
        Err(e) => OutcomeView::Failed(e),
    }
}

/// The release the manifest answer gives, if it gives one: status 200 and
/// a body that reads as a manifest.
pub open spec fn manifest_answer(base: Seq<char>, answer: Result<(u32, Seq<char>), Seq<char>>) -> Option<ReleaseView> {
    match answer {
        Ok((200, body)) => match manifest_release_spec(
            json_error(body),
            json_str_member(body, "version"@),
            json_str_member(body, "notes"@),
            json_str_member(body, "url"@),
            base,
        ) {
            Ok(rel) => Some(rel),
            Err(_) => None,
        },
        _ => None,
    }
}

/// `a` read as text.
pub open spec fn answer_view(a: Result<(u32, String), String>) -> Result<(u32, Seq<char>), Seq<char>> {
    match a {
        Ok((status, body)) => Ok((status, body@)),
        Err(e) => Err(e@),
    }
}

impl UpdateCheck {
    /// Takes the answer to the last `Get`. A usable manifest settles the
    /// check; anything else from the manifest turns to the API, whose
    /// answer settles it either way.
    pub fn on_response(&mut self, answer: Result<(u32, String), String>) -> (step: UpdateStep)
        requires
            old(self).phase != FetchPhase::Finished,
        ensures
            final(self).local_version@ == old(self).local_version@,
            final(self).base@ == old(self).base@,
            final(self).api@ == old(self).api@,
            old(self).phase == FetchPhase::Manifest ==> match manifest_answer(
                old(self).base@,
                answer_view(answer),
            ) {
                Some(rel) => final(self).phase == FetchPhase::Finished && (step matches UpdateStep::Done(
                    o,
                ) && o@ == judged(old(self).local_version@, rel)),
                None => final(self).phase == FetchPhase::Api && (step matches UpdateStep::Get { url }
                    && url@ == old(self).api@),
            },
            old(self).phase == FetchPhase::Api ==> final(self).phase == FetchPhase::Finished && (step matches UpdateStep::Done(o)
                && o@ == api_outcome(old(self).local_version@, answer_view(answer))),
    {
        if self.phase == FetchPhase::Manifest {
            if let Ok((200, body)) = &answer {
                if let Ok(release) = release_from_manifest(body.as_str(), self.base.as_str()) {
                    self.phase = FetchPhase::Finished;
                    return UpdateStep::Done(judge(self.local_version.as_str(), release));
                }
            }
            self.phase = FetchPhase::Api;
            return UpdateStep::Get { url: owned(self.api.as_str()) };
        }
        self.phase = FetchPhase::Finished;
        match answer {
            Ok((status, body)) => {
                if status == 200 {
                    match release_from_api(body.as_str()) {
                        Ok(release) => UpdateStep::Done(judge(self.local_version.as_str(), release)),
                        Err(e) => UpdateStep::Done(
                            Outcome::Failed(concat2("解析 GitHub 响应失败: ", e.as_str())),
                        ),
                    }
                } else {
                    let mut m = owned("GitHub 返回 HTTP ");
                    push_str(&mut m, decimal_string(status as u64).as_str());
                    UpdateStep::Done(Outcome::Failed(m))
                }
            },
            Err(e) => UpdateStep::Done(Outcome::Failed(e)),
        }
    }
}

// ===================== HTTPS addresses =====================

/// An `https://` address split into host and path (`/` when it has none);
/// the error text for any other scheme or a missing host.
pub open spec fn url_split(url: Seq<char>) -> Result<(Seq<char>, Seq<char>), Seq<char>> {
    if !starts_with(url, "https://"@) {
        Err("只支持 https 地址: "@ + url)
    } else {
        let rest = url.subrange("https://"@.len() as int, url.len() as int);
        let (host, path) = match find_char_from(rest, '/', 0) {
            Some(k) => (rest.subrange(0, k), seq!['/'] + rest.subrange(k + 1, rest.len() as int)),
            None => (rest, "/"@),
        };
        if host.len() == 0 {
            Err("地址缺少主机名: "@ + url)
        } else {
            Ok((host, path))
        }
    }
}

/// Splits an `https://` address into host and path (see [`url_split`]).
pub fn split_url(url: &str) -> (r: Result<(String, String), String>)
    ensures
        match url_split(url@) {
            Ok((h, p)) => r matches Ok((rh, rp)) && rh@ == h && rp@ == p,
            Err(e) => r matches Err(re) && re@ == e,
        },
{
    let v = chars_of(url);
    let scheme = chars_of("https://");
    proof {
        reveal_strlit("https://");
        reveal_strlit("/");
    }
    if !starts_with_exec(&v, &scheme) {
        return Err(concat2("只支持 https 地址: ", url));
    }
    let (host_end, path) = match find_in(&v, '/', 8, v.len()) {
        Some(k) => {
            let ghost rest = v@.subrange(8, v@.len() as int);
            assert(rest.subrange(0, k - 8) == v@.subrange(8, k as int));
            proof {
                lemma_find_char_from(rest, '/', 0);
            }
            assert(v@[k as int] == '/');
            assert(seq!['/'] + rest.subrange(k - 8 + 1, rest.len() as int) =~= v@.subrange(
                k as int,
                v@.len() as int,
            ));
            (k, string_of_range(&v, k, v.len()))
        },
        None => (v.len(), owned("/")),
    };
    if host_end == 8 {
        return Err(concat2("地址缺少主机名: ", url));
    }
    Ok((string_of_range(&v, 8, host_end), path))
}

/// The UTF-16 code units of one character.
pub open spec fn utf16_units(c: char) -> Seq<u16> {
    let n = c as u32;
    if n < 0x10000 {
        seq![n as u16]
    } else {
        let m = n - 0x10000;
        seq![(0xD800 + m / 0x400) as u16, (0xDC00 + m % 0x400) as u16]
    }
}

/// `str::encode_utf16`.
pub open spec fn utf16(s: Seq<char>) -> Seq<u16>
    decreases s.len(),
{
    if s.len() == 0 {
        Seq::empty()
    } else {
        utf16(s.drop_last()) + utf16_units(s.last())
    }
}

/// `text` as a NUL-terminated UTF-16 string, as Windows APIs take it.
pub fn wide(text: &str) -> (r: Vec<u16>)
    ensures
        r@ == utf16(text@).push(0u16),
{
    let v = chars_of(text);
    let mut r: Vec<u16> = Vec::new();
    let mut i: usize = 0;
    while i < v.len()
        invariant
            i <= v.len(),
            r@ == utf16(v@.subrange(0, i as int)),
        decreases v.len() - i,
    {
        let c = v[i];
        let n = c as u32;
        let ghost before = r@;
        if n < 0x10000 {
            r.push(n as u16);
        } else {
            let m = n - 0x10000;
            r.push((0xD800 + m / 0x400) as u16);
            r.push((0xDC00 + m % 0x400) as u16);
        }
        assert(v@.subrange(0, i + 1).drop_last() == v@.subrange(0, i as int));
        assert(r@ == before + utf16_units(c));
        i += 1;
    }
    assert(v@.subrange(0, v@.len() as int) == v@);
    r.push(0u16);
    r
}

/// The numbers of `seq![p] + rest` are those of `p` followed by those of
/// `rest`.
proof fn lemma_part_numbers_cons(p: Seq<char>, rest: Seq<Seq<char>>)
    ensures
        part_numbers(seq![p] + rest) == match (part_number(p), part_numbers(rest)) {
            (Some(n), Some(ns)) => Some(seq![n] + ns),
            _ => None::<Seq<u64>>,
        },
    decreases rest.len(),
{
    let all = seq![p] + rest;
    if rest.len() == 0 {
        assert(all == seq![p]);
        assert(all.drop_last() == Seq::<Seq<char>>::empty());
        assert(all.last() == p);
        assert(part_numbers(all.drop_last()) == Some(Seq::<u64>::empty()));
        match part_number(p) {
            Some(n) => {
                assert(Seq::<u64>::empty().push(n) == seq![n] + Seq::<u64>::empty());
            },
            None => {},
        }
    } else {
        assert(all.drop_last() == seq![p] + rest.drop_last());
        assert(all.last() == rest.last());
        lemma_part_numbers_cons(p, rest.drop_last());
        match (part_number(p), part_numbers(rest.drop_last()), part_number(rest.last())) {
            (Some(n), Some(ns), Some(m)) => {
                assert((seq![n] + ns).push(m) == seq![n] + ns.push(m));
            },
            _ => {},
        }
    }
}

} // verus!
