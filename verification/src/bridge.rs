//! The local beacon channel from the authentication page back to the
//! client: the page reports `GET /report?run=&state=&msg=`; this module
//! reads such a request line and percent-decodes its values.

use vstd::prelude::*;
use vstd::utf8::encode_utf8;
use crate::text::{
    chars_of, first_line, first_word, second_word, skip_exec, lemma_skip_bounds, find_char_from,
    parse_unsigned, parse_unsigned_exec, lossy_utf8,
    utf8_lossy, string_of_range, next_line, find_in,
};

verus! {

broadcast use vstd::string::group_string_axioms;

/// One report from the injected page script.
#[derive(Debug, Clone)]
pub struct BeaconEvent {
    pub run: u64,
    pub state: String,
    pub msg: String,
}

// ===================== percent-decoding =====================

/// The value of an ASCII hexadecimal digit.
pub open spec fn hex_digit(b: u8) -> Option<u8> {
    if 0x30 <= b <= 0x39 {
        Some((b - 0x30) as u8)
    } else if 0x61 <= b <= 0x66 {
        Some((b - 0x61 + 10) as u8)
    } else if 0x41 <= b <= 0x46 {
        Some((b - 0x41 + 10) as u8)
    } else {
        None
    }
}

pub fn hex_val(b: u8) -> (r: Option<u8>)
    ensures
        r == hex_digit(b),
{
    if b >= 0x30 && b <= 0x39 {
        Some(b - 0x30)
    } else if b >= 0x61 && b <= 0x66 {
        Some(b - 0x61 + 10)
    } else if b >= 0x41 && b <= 0x46 {
        Some(b - 0x41 + 10)
    } else {
        None
    }
}

/// `%XY` (two hex digits) becomes the byte `0xXY`; every other byte,
/// including a `%` not followed by two hex digits, stays.
pub open spec fn unescape(b: Seq<u8>) -> Seq<u8>
    decreases b.len(),
{
    if b.len() == 0 {
        Seq::empty()
    } else if b.len() >= 3 && b[0] == 0x25 && hex_digit(b[1]) is Some && hex_digit(b[2]) is Some {
        seq![(hex_digit(b[1])->0 * 16 + hex_digit(b[2])->0) as u8] + unescape(b.skip(3))
    } else {
        seq![b[0]] + unescape(b.skip(1))
    }
}

/// The text a percent-encoded value stands for.
pub open spec fn percent_decoded(s: Seq<char>) -> Seq<char> {
    lossy_utf8(unescape(encode_utf8(s)))
}

/// Bytes without `%` are left as they are by [`unescape`].
proof fn lemma_unescape_plain(b: Seq<u8>)
    requires
        forall|i: int| 0 <= i < b.len() ==> b[i] != 0x25,
    ensures
        unescape(b) == b,
    decreases b.len(),
{
    if b.len() > 0 {
        lemma_unescape_plain(b.skip(1));
        assert(seq![b[0]] + b.skip(1) =~= b);
    }
}

/// The UTF-8 encoding of a character other than `%` holds no `%` byte.
proof fn lemma_scalar_no_percent(c: u32)
    requires
        c != 0x25,
        vstd::utf8::is_scalar(c),
    ensures
        forall|i: int| 0 <= i < vstd::utf8::encode_scalar(c).len() ==> #[trigger] vstd::utf8::encode_scalar(c)[i] != 0x25,
{
    assert(c <= 0x7F ==> (c & 0x7F) as u8 != 0x25u8) by (bit_vector)
        requires
            c != 0x25u32;
    assert(forall|x: u8| #![trigger (0xC0u8 | x)] (0xC0u8 | x) != 0x25u8) by (bit_vector);
    assert(forall|x: u8| #![trigger (0xE0u8 | x)] (0xE0u8 | x) != 0x25u8) by (bit_vector);
    assert(forall|x: u8| #![trigger (0xF0u8 | x)] (0xF0u8 | x) != 0x25u8) by (bit_vector);
    assert(forall|x: u8| #![trigger (0x80u8 | x)] (0x80u8 | x) != 0x25u8) by (bit_vector);
}

/// Text without `%` encodes to bytes without `%`.
proof fn lemma_encode_no_percent(s: Seq<char>)
    requires
        forall|i: int| 0 <= i < s.len() ==> s[i] != '%',
    ensures
        forall|i: int| 0 <= i < encode_utf8(s).len() ==> #[trigger] encode_utf8(s)[i] != 0x25,
    decreases s.len(),
{
    if s.len() > 0 {
        let c = s[0] as u32;
        vstd::utf8::char_is_scalar(s[0]);
        vstd::utf8::char_u32_cast(s[0], c);
        if c == 0x25 {
            vstd::utf8::char_u32_cast('%', 0x25);
            assert(s[0] == '%');
        }
        lemma_scalar_no_percent(c);
        lemma_encode_no_percent(s.drop_first());
        let head = vstd::utf8::encode_scalar(c);
        let tail = encode_utf8(s.drop_first());
        assert(encode_utf8(s) == head + tail);
        assert forall|i: int| 0 <= i < encode_utf8(s).len() implies #[trigger] encode_utf8(s)[i] != 0x25 by {
            if i < head.len() {
                assert(encode_utf8(s)[i] == head[i]);
            } else {
                assert(encode_utf8(s)[i] == tail[i - head.len()]);
            }
        }
    }
}

/// Decodes `%XY` escapes (on the UTF-8 bytes of `input`), then reads the
/// bytes as UTF-8, replacing invalid sequences; where the unescaped bytes
/// are valid UTF-8 the result is exactly their text.
pub fn percent_decode(input: &str) -> (r: String)
    ensures
        r@ == percent_decoded(input@),
        vstd::utf8::valid_utf8(unescape(encode_utf8(input@))) ==> r@ == vstd::utf8::decode_utf8(
            unescape(encode_utf8(input@)),
        ),
        (forall|i: int| 0 <= i < input@.len() ==> input@[i] != '%') ==> r@ == input@,
{
    let bytes = input.as_bytes();
    let ghost b = bytes@;
    let mut out: Vec<u8> = Vec::new();
    let mut i: usize = 0;
    assert(b.skip(0) == b);
    while i < bytes.len()
        invariant
            i <= bytes@.len(),
            b == bytes@,
            unescape(b) == out@ + unescape(b.skip(i as int)),
        decreases bytes.len() - i,
    {
        if bytes[i] == 0x25 && bytes.len() - i > 2 {
            let hi = hex_val(bytes[i + 1]);
            let lo = hex_val(bytes[i + 2]);
            if let (Some(h), Some(l)) = (hi, lo) {
                assert(b.skip(i as int).skip(3) == b.skip(i + 3));
                assert(h * 16 + l < 256) by (nonlinear_arith)
                    requires h < 16, l < 16;
                out.push(h * 16 + l);
                i += 3;
                continue;
            }
        }
        assert(b.skip(i as int).skip(1) == b.skip(i + 1));
        out.push(bytes[i]);
        i += 1;
    }
    assert(b.skip(i as int).len() == 0);
    assert(out@ == unescape(b));
    proof {
        if forall|i: int| 0 <= i < input@.len() ==> input@[i] != '%' {
            lemma_encode_no_percent(input@);
            lemma_unescape_plain(b);
            vstd::utf8::encode_utf8_valid_utf8(input@);
            vstd::utf8::encode_utf8_decode_utf8(input@);
        }
    }
    utf8_lossy(out.as_slice())
}


// ===================== the request line =====================

/// The key of a `key=value` pair (all of it when there is no `=`).
pub open spec fn key_of(kv: Seq<char>) -> Seq<char> {
    match find_char_from(kv, '=', 0) {
        Some(k) => kv.subrange(0, k),
        None => kv,
    }
}

/// The value of a `key=value` pair (empty when there is no `=`).
pub open spec fn value_of(kv: Seq<char>) -> Seq<char> {
    match find_char_from(kv, '=', 0) {
        Some(k) => kv.skip(k + 1),
        None => Seq::empty(),
    }
}

/// The value of the last `&`-separated pair of `q` whose key is `key`.
pub open spec fn query_value(q: Seq<char>, key: Seq<char>) -> Option<Seq<char>>
    decreases q.len(),
{
    match find_char_from(q, '&', 0) {
        Some(k) => if 0 <= k < q.len() {
            match query_value(q.skip(k + 1), key) {
                Some(v) => Some(v),
                None => if key_of(q.subrange(0, k)) == key {
                    Some(value_of(q.subrange(0, k)))
                } else {
                    None
                },
            }
        } else {
            None
        },
        None => if key_of(q) == key {
            Some(value_of(q))
        } else {
            None
        },
    }
}

/// The path of a request target: everything before the first `?`.
pub open spec fn target_path(t: Seq<char>) -> Seq<char> {
    match find_char_from(t, '?', 0) {
        Some(k) => t.subrange(0, k),
        None => t,
    }
}

/// The query of a request target: everything after the first `?`, if any.
pub open spec fn target_query(t: Seq<char>) -> Option<Seq<char>> {
    match find_char_from(t, '?', 0) {
        Some(k) => Some(t.skip(k + 1)),
        None => None,
    }
}

/// The report a request line carries: a `GET` or `POST` of `/report` with a
/// query; `run` is read as a number (0 when missing or malformed), `state`
/// and `msg` are percent-decoded; a report without a state is no report.
pub open spec fn beacon_of(line: Seq<char>) -> Option<(int, Seq<char>, Seq<char>)> {
    match first_word(line) {
        None => None,
        Some(m) => if m != "GET"@ && m != "POST"@ {
            None
        } else {
            match second_word(line) {
                None => None,
                Some(t) => if target_path(t) != "/report"@ {
                    None
                } else {
                    match target_query(t) {
                        None => None,
                        Some(q) => {
                            let run = match query_value(q, "run"@) {
                                Some(v) => match parse_unsigned(v, u64::MAX as int) {
                                    Some(n) => n,
                                    None => 0,
                                },
                                None => 0,
                            };
                            let state = match query_value(q, "state"@) {
                                Some(v) => percent_decoded(v),
                                None => Seq::empty(),
                            };
                            let msg = match query_value(q, "msg"@) {
                                Some(v) => percent_decoded(v),
                                None => Seq::empty(),
                            };
                            if state.len() == 0 {
                                None
                            } else {
                                Some((run, state, msg))
                            }
                        },
                    }
                },
            }
        },
    }
}

/// The value range of the pair `v[lo..hi]` when its key is `key`.
fn pair_value(v: &Vec<char>, lo: usize, hi: usize, key: &Vec<char>) -> (r: Option<(usize, usize)>)
    requires
        lo <= hi <= v.len(),
    ensures
        r matches Some((a, b)) ==> a <= b <= hi && key_of(v@.subrange(lo as int, hi as int)) == key@
            && value_of(v@.subrange(lo as int, hi as int)) == v@.subrange(a as int, b as int),
        r is None ==> key_of(v@.subrange(lo as int, hi as int)) != key@,
{
    let ghost kv = v@.subrange(lo as int, hi as int);
    match find_in(v, '=', lo, hi) {
        Some(k) => {
            assert(kv.subrange(0, k - lo) == v@.subrange(lo as int, k as int));
            assert(kv.skip(k - lo + 1) == v@.subrange(k + 1, hi as int));
            if crate::text::occurs_at_exec(v, key, lo) && k - lo == key.len() {
                assert(v@.subrange(lo as int, lo + key@.len()) == key@);
                Some((k + 1, hi))
            } else {
                proof {
                    if key_of(kv) == key@ {
                        assert(v@.subrange(lo as int, lo + key@.len()) == key@);
                    }
                }
                None
            }
        },
        None => {
            if crate::text::occurs_at_exec(v, key, lo) && hi - lo == key.len() {
                assert(v@.subrange(lo as int, lo + key@.len()) == key@);
                assert(kv.skip(0).len() == 0 || true);
                Some((hi, hi))
            } else {
                proof {
                    if key_of(kv) == key@ {
                        assert(v@.subrange(lo as int, lo + key@.len()) == key@);
                    }
                }
                None
            }
        },
    }
}

/// Combines the value found so far with the value found in the rest: a
/// later pair wins.
pub open spec fn later_wins(cur: Option<Seq<char>>, rest: Option<Seq<char>>) -> Option<Seq<char>> {
    match rest {
        Some(v) => Some(v),
        None => cur,
    }
}

/// The value range of the last pair in the query `v[lo..hi]` keyed `key`.
fn query_value_exec(v: &Vec<char>, lo: usize, hi: usize, key: &Vec<char>) -> (r: Option<(usize, usize)>)
    requires
        lo <= hi <= v.len(),
    ensures
        r matches Some((a, b)) ==> a <= b <= v.len() && query_value(v@.subrange(lo as int, hi as int), key@)
            == Some(v@.subrange(a as int, b as int)),
        r is None ==> query_value(v@.subrange(lo as int, hi as int), key@) is None,
{
    let mut cur: Option<(usize, usize)> = None;
    let mut pos = lo;
    loop
        invariant
            lo <= pos <= hi <= v.len(),
            cur matches Some((a, b)) ==> a <= b <= v.len(),
            query_value(v@.subrange(lo as int, hi as int), key@) == later_wins(
                match cur {
                    Some((a, b)) => Some(v@.subrange(a as int, b as int)),
                    None => None,
                },
                query_value(v@.subrange(pos as int, hi as int), key@),
            ),
        decreases hi - pos,
    {
        let ghost rest = v@.subrange(pos as int, hi as int);
        match find_in(v, '&', pos, hi) {
            Some(k) => {
                assert(rest.subrange(0, k - pos) == v@.subrange(pos as int, k as int));
                assert(rest.skip(k - pos + 1) == v@.subrange(k + 1, hi as int));
                if let Some(range) = pair_value(v, pos, k, key) {
                    cur = Some(range);
                }
                pos = k + 1;
            },
            None => {
                if let Some(range) = pair_value(v, pos, hi, key) {
                    cur = Some(range);
                }
                return cur;
            },
        }
    }
}

/// Reads one beacon report from an HTTP request line.
#[verifier::rlimit(40)]
pub fn parse_beacon_line(request_line: &str) -> (r: Option<BeaconEvent>)
    ensures
        r matches Some(ev) ==> beacon_of(request_line@) == Some((ev.run as int, ev.state@, ev.msg@)),
        r is None ==> beacon_of(request_line@) is None,
{
    proof {
        reveal_strlit("GET");
        reveal_strlit("POST");
        reveal_strlit("/report");
    }
    let v = chars_of(request_line);
    let n = v.len();
    let ghost l = v@;
    assert(v@.subrange(0, n as int) == l);
    proof {
        lemma_skip_bounds(l, 0);
    }
    let a0 = skip_exec(&v, 0, n, 0, false);
    proof {
        lemma_skip_bounds(l, a0 as int);
    }
    let e0 = skip_exec(&v, 0, n, a0, true);
    proof {
        lemma_skip_bounds(l, e0 as int);
    }
    let a1 = skip_exec(&v, 0, n, e0, false);
    proof {
        lemma_skip_bounds(l, a1 as int);
    }
    let e1 = skip_exec(&v, 0, n, a1, true);
    if a0 >= n {
        return None;
    }
    let get = chars_of("GET");
    let post = chars_of("POST");
    let is_get = crate::text::occurs_at_exec(&v, &get, a0) && e0 - a0 == 3;
    let is_post = crate::text::occurs_at_exec(&v, &post, a0) && e0 - a0 == 4;
    proof {
        if v@.subrange(a0 as int, e0 as int) == "GET"@ {
            assert(v@.subrange(a0 as int, a0 + 3) == get@);
        }
        if v@.subrange(a0 as int, e0 as int) == "POST"@ {
            assert(v@.subrange(a0 as int, a0 + 4) == post@);
        }
    }
    if !is_get && !is_post {
        return None;
    }
    if a1 >= n {
        return None;
    }
    let ghost t = v@.subrange(a1 as int, e1 as int);
    let path_end = match find_in(&v, '?', a1, e1) {
        Some(k) => k,
        None => e1,
    };
    assert(target_path(t) == v@.subrange(a1 as int, path_end as int));
    let report = chars_of("/report");
    let path_ok = crate::text::occurs_at_exec(&v, &report, a1) && path_end - a1 == 7;
    proof {
        if target_path(t) == "/report"@ {
            assert(v@.subrange(a1 as int, a1 + 7) == report@);
        }
    }
    if !path_ok {
        return None;
    }
    if path_end >= e1 {
        return None;
    }
    let qlo = path_end + 1;
    assert(target_query(t) == Some(v@.subrange(qlo as int, e1 as int)));
    let run_key = chars_of("run");
    let state_key = chars_of("state");
    let msg_key = chars_of("msg");
    let run = match query_value_exec(&v, qlo, e1, &run_key) {
        Some((a, b)) => match parse_unsigned_exec(&v, a, b, u64::MAX) {
            Some(x) => x,
            None => 0,
        },
        None => 0,
    };
    let state = match query_value_exec(&v, qlo, e1, &state_key) {
        Some((a, b)) => {
            let raw = string_of_range(&v, a, b);
            percent_decode(raw.as_str())
        },
        None => String::new(),
    };
    let msg = match query_value_exec(&v, qlo, e1, &msg_key) {
        Some((a, b)) => {
            let raw = string_of_range(&v, a, b);
            percent_decode(raw.as_str())
        },
        None => String::new(),
    };
    let sv = chars_of(state.as_str());
    if sv.len() == 0 {
        return None;
    }
    Some(BeaconEvent { run, state, msg })
}


// ===================== reading a request head =====================

/// `buf` holds the blank line that ends a request head.
pub open spec fn has_blank_line(buf: Seq<u8>) -> bool {
    exists|i: int| 0 <= i && i + 4 <= buf.len() && #[trigger] buf[i] == 13 && buf[i + 1] == 10 && buf[i + 2] == 13
        && buf[i + 3] == 10
}

/// Reading stops once the head is complete or more than 64 KiB arrived.
pub fn head_complete(buf: &[u8]) -> (b: bool)
    ensures
        b == (has_blank_line(buf@) || buf@.len() > 65536),
{
    if buf.len() > 65536 {
        return true;
    }
    let mut i: usize = 0;
    while i + 4 <= buf.len()
        invariant
            buf.len() <= 65536,
            i <= buf.len(),
            forall|j: int| 0 <= j < i && j + 4 <= buf@.len() ==> !(#[trigger] buf@[j] == 13 && buf@[j + 1] == 10
                && buf@[j + 2] == 13 && buf@[j + 3] == 10),
        decreases buf.len() - i,
    {
        if buf[i] == 13 && buf[i + 1] == 10 && buf[i + 2] == 13 && buf[i + 3] == 10 {
            return true;
        }
        i += 1;
    }
    assert(!has_blank_line(buf@)) by {
        if has_blank_line(buf@) {
            let k = choose|k: int| 0 <= k && k + 4 <= buf@.len() && #[trigger] buf@[k] == 13 && buf@[k + 1] == 10 && buf@[k + 2] == 13
                && buf@[k + 3] == 10;
            assert(k < i);
        }
    }
    false
}

/// The request line of what was read: its first line, read as UTF-8 with
/// invalid sequences replaced; nothing when nothing was read.
pub open spec fn request_line_spec(buf: Seq<u8>) -> Option<Seq<char>> {
    if buf.len() == 0 {
        None
    } else {
        first_line(lossy_utf8(buf))
    }
}

pub fn request_line(buf: &[u8]) -> (r: Option<String>)
    ensures
        r matches Some(l) ==> request_line_spec(buf@) == Some(l@),
        r is None ==> request_line_spec(buf@) is None,
{
    if buf.len() == 0 {
        return None;
    }
    let text = utf8_lossy(buf);
    let v = chars_of(text.as_str());
    if v.len() == 0 {
        assert(crate::text::lines(v@).len() == 0);
        return None;
    }
    assert(v@.subrange(0, v@.len() as int) == v@);
    let (end, _) = next_line(&v, 0);
    Some(string_of_range(&v, 0, end))
}

} // verus!
