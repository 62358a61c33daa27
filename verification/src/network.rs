//! Network medium selection and the plain-HTTP probing logic: URL parsing,
//! redirect resolution, response-header lookup, and the judgement of a
//! probe's response.

use vstd::prelude::*;
use crate::text::{
    ascii_lower_seq, ascii_lower_vec, eq_ascii_lower, first_line, lines, next_line, second_word,
    skip_exec, trim, trim_range, lemma_skip_bounds, chars_of, find_exec, contains, concat3, decimal_string, decimal, find_char_exec, find_char_from, lemma_find_char_from, owned, parse_unsigned,
    parse_unsigned_exec, push_decimal, push_range, push_str, rfind_char, rfind_char_exec,
    starts_with, starts_with_exec, string_of_range, find, find_from, lemma_find_from_bounds, lossy_utf8,
    utf8_lossy,
};

verus! {

broadcast use vstd::string::group_string_axioms;

/// The kind of the adapter that carries the default route.
#[derive(Debug, Clone, Copy, PartialEq, Eq)]
pub enum Medium {
    Wireless,
    Wired,
    Other,
}

// ===================== URLs =====================

/// The part of `url` after `http://`, if it has that scheme.
pub open spec fn http_rest(url: Seq<char>) -> Option<Seq<char>> {
    if starts_with(url, "http://"@) {
        Some(url.skip(7))
    } else {
        None
    }
}

/// `rest` split into authority and path at the first `/` (path `/` if none).
pub open spec fn split_authority_path(rest: Seq<char>) -> (Seq<char>, Seq<char>) {
    match find_char_from(rest, '/', 0) {
        Some(k) => (rest.subrange(0, k), rest.skip(k)),
        None => (rest, seq!['/']),
    }
}

/// `host[:port]` split at its last `:` when a non-empty host precedes it;
/// port 80 when there is none. `None` when the port is not a `u16`.
pub open spec fn split_host_port(hp: Seq<char>) -> Option<(Seq<char>, int)> {
    match rfind_char(hp, ':') {
        Some(j) => if j > 0 {
            match parse_unsigned(hp.skip(j + 1), 65535) {
                Some(p) => Some((hp.subrange(0, j), p)),
                None => None,
            }
        } else {
            Some((hp, 80))
        },
        None => Some((hp, 80)),
    }
}

/// `(host, port, path)` of a plain `http://` URL.
pub open spec fn http_url_parts(url: Seq<char>) -> Option<(Seq<char>, int, Seq<char>)> {
    match http_rest(url) {
        None => None,
        Some(rest) => {
            let (hp, path) = split_authority_path(rest);
            match split_host_port(hp) {
                Some((h, p)) => Some((h, p, path)),
                None => None,
            }
        },
    }
}

/// Splits a plain `http://` URL into host, port and path.
pub fn parse_http_url(url: &str) -> (r: Option<(String, u16, String)>)
    ensures
        r matches Some((h, p, path)) ==> http_url_parts(url@) == Some((h@, p as int, path@)),
        r is None ==> http_url_parts(url@) is None,
{
    proof {
        reveal_strlit("http://");
    }
    let v = chars_of(url);
    let scheme = chars_of("http://");
    if !starts_with_exec(&v, &scheme) {
        return None;
    }
    let ghost rest = v@.skip(7);
    assert(rest == v@.subrange(7, v@.len() as int));
    let (hp_end, path) = match find_char_exec(&v, '/', 7, v.len()) {
        Some(k) => {
            proof {
                lemma_find_char_from(v@, '/', 7);
                lemma_find_char_from(rest, '/', 0);
                assert(v@.subrange(0, v@.len() as int) == v@);
                assert(rest[k - 7] == '/');
                assert(find_char_from(rest, '/', 0) == Some(k - 7)) by {
                    match find_char_from(rest, '/', 0) {
                        Some(m) => {
                            assert(v@[m + 7] == '/');
                            assert(rest[m] == v@[m + 7]);
                        },
                        None => {},
                    }
                }
                assert(rest.skip(k - 7) == v@.subrange(k as int, v@.len() as int));
                assert(rest.subrange(0, k - 7) == v@.subrange(7, k as int));
            }
            (k, string_of_range(&v, k, v.len()))
        },
        None => {
            proof {
                assert(v@.subrange(0, v@.len() as int) == v@);
                lemma_find_char_from(v@, '/', 7);
                assert(find_char_from(rest, '/', 0) is None) by {
                    lemma_find_char_from(rest, '/', 0);
                    match find_char_from(rest, '/', 0) {
                        Some(m) => {
                            assert(rest[m] == v@[m + 7]);
                        },
                        None => {},
                    }
                }
            }
            let mut p = String::new();
            crate::text::push_char(&mut p, '/');
            (v.len(), p)
        },
    };
    let ghost hp = v@.subrange(7, hp_end as int);
    assert(split_authority_path(rest) == (hp, path@));
    match rfind_char_exec(&v, ':', 7, hp_end) {
        Some(j) => {
            if j > 7 {
                assert(hp.skip(j - 7 + 1) == v@.subrange(j + 1, hp_end as int));
                assert(hp.subrange(0, j - 7) == v@.subrange(7, j as int));
                match parse_unsigned_exec(&v, j + 1, hp_end, 65535) {
                    Some(port) => Some((string_of_range(&v, 7, j), port as u16, path)),
                    None => None,
                }
            } else {
                Some((string_of_range(&v, 7, hp_end), 80, path))
            }
        },
        None => Some((string_of_range(&v, 7, hp_end), 80, path)),
    }
}

/// `host` when the port is 80, else `host:port`.
pub open spec fn authority(host: Seq<char>, port: int) -> Seq<char> {
    if port == 80 {
        host
    } else {
        host + ":"@ + decimal(port as nat)
    }
}

/// The directory part of a path: everything before its last `/`.
pub open spec fn path_dir(path: Seq<char>) -> Seq<char> {
    match rfind_char(path, '/') {
        Some(i) => path.subrange(0, i),
        None => Seq::empty(),
    }
}

/// Where a `Location` header leads from `base`: an absolute `http://` URL
/// as it is, a `/`-rooted path on the same origin, anything else relative
/// to the directory of `base`'s path.
pub open spec fn resolved_url(base: Seq<char>, location: Seq<char>) -> Option<Seq<char>> {
    if starts_with(location, "http://"@) {
        Some(location)
    } else {
        match http_url_parts(base) {
            None => None,
            Some((h, p, path)) => {
                let origin = "http://"@ + authority(h, p);
                if location.len() > 0 && location[0] == '/' {
                    Some(origin + location)
                } else {
                    Some(origin + path_dir(path) + "/"@ + location)
                }
            },
        }
    }
}

/// Resolves a `Location` header against the URL that was requested.
pub fn resolve_url(base: &str, location: &str) -> (r: Option<String>)
    ensures
        r matches Some(u) ==> resolved_url(base@, location@) == Some(u@),
        r is None ==> resolved_url(base@, location@) is None,
{
    proof {
        reveal_strlit("http://");
        reveal_strlit(":");
        reveal_strlit("/");
    }
    let lv = chars_of(location);
    let scheme = chars_of("http://");
    if starts_with_exec(&lv, &scheme) {
        return Some(owned(location));
    }
    let (host, port, path) = match parse_http_url(base) {
        Some(parts) => parts,
        None => return None,
    };
    let mut out = owned("http://");
    push_str(&mut out, host.as_str());
    if port != 80 {
        crate::text::push_char(&mut out, ':');
        push_decimal(&mut out, port as u64);
    }
    assert(out@ == "http://"@ + authority(host@, port as int));
    if lv.len() > 0 && lv[0] == '/' {
        push_str(&mut out, location);
        Some(out)
    } else {
        let pv = chars_of(path.as_str());
        match rfind_char_exec(&pv, '/', 0, pv.len()) {
            Some(i) => {
                assert(pv@.subrange(0, pv@.len() as int) == pv@);
                push_range(&mut out, &pv, 0, i);
            },
            None => {
                assert(pv@.subrange(0, pv@.len() as int) == pv@);
            },
        }
        crate::text::push_char(&mut out, '/');
        push_str(&mut out, location);
        Some(out)
    }
}


// ===================== responses =====================

/// The trimmed value of `line` when it is a header line whose trimmed name,
/// ASCII-lowercased, is `lower`.
pub open spec fn header_match(line: Seq<char>, lower: Seq<char>) -> Option<Seq<char>> {
    match find_char_from(line, ':', 0) {
        Some(k) => if ascii_lower_seq(trim(line.subrange(0, k))) == lower {
            Some(trim(line.skip(k + 1)))
        } else {
            None
        },
        None => None,
    }
}

/// Law: a header line is split at its first colon. For any name without a
/// colon and any value (which may hold colons, as a URL does), the line
/// `name:value` is the header named by the name, lowercased and trimmed, and
/// its value is everything after that first colon, trimmed.
pub proof fn law_header_split_at_first_colon(name: Seq<char>, value: Seq<char>)
    requires
        forall|i: int| 0 <= i < name.len() ==> name[i] != ':',
    ensures
        header_match(name + seq![':'] + value, ascii_lower_seq(trim(name))) == Some(trim(value)),
{
    let line = name + seq![':'] + value;
    let n = name.len() as int;
    assert(line[n] == ':');
    lemma_find_char_from(line, ':', 0);
    match find_char_from(line, ':', 0) {
        Some(k) => {
            if k < n {
                assert(line[k] == name[k]);
            }
            assert(k == n);
        },
        None => {},
    }
    assert(line.subrange(0, n) =~= name);
    assert(line.skip(n + 1) =~= value);
}

/// The value of the first of `ls` that is a header named `lower`.
pub open spec fn find_header_in(ls: Seq<Seq<char>>, lower: Seq<char>) -> Option<Seq<char>>
    decreases ls.len(),
{
    if ls.len() == 0 {
        None
    } else {
        match header_match(ls[0], lower) {
            Some(v) => Some(v),
            None => find_header_in(ls.drop_first(), lower),
        }
    }
}

/// The value of the first header named `name` (ASCII case-insensitively)
/// among the lines after the status line.
pub open spec fn header_value(text: Seq<char>, name: Seq<char>) -> Option<Seq<char>> {
    let ls = lines(text);
    if ls.len() == 0 {
        None
    } else {
        find_header_in(ls.drop_first(), ascii_lower_seq(name))
    }
}

/// The header value in `v[lo..hi]` if that line is a header named `lower`.
fn match_header_line(v: &Vec<char>, lo: usize, hi: usize, lower: &Vec<char>) -> (r: Option<String>)
    requires
        lo <= hi <= v.len(),
    ensures
        r matches Some(x) ==> header_match(v@.subrange(lo as int, hi as int), lower@) == Some(x@),
        r is None ==> header_match(v@.subrange(lo as int, hi as int), lower@) is None,
{
    let ghost l = v@.subrange(lo as int, hi as int);
    match find_char_exec(v, ':', lo, hi) {
        None => {
            proof {
                assert(find_char_from(l, ':', 0) is None) by {
                    lemma_find_char_from(l, ':', 0);
                    lemma_find_char_from(v@.subrange(0, hi as int), ':', lo as int);
                    if let Some(m) = find_char_from(l, ':', 0) {
                        assert(l[m] == v@.subrange(0, hi as int)[lo + m]);
                    }
                }
            }
            None
        },
        Some(k) => {
            proof {
                lemma_find_char_from(l, ':', 0);
                lemma_find_char_from(v@.subrange(0, hi as int), ':', lo as int);
                assert(l[k - lo] == ':');
                assert(find_char_from(l, ':', 0) == Some(k - lo)) by {
                    if let Some(m) = find_char_from(l, ':', 0) {
                        assert(l[m] == v@.subrange(0, hi as int)[lo + m]);
                    }
                }
                assert(l.subrange(0, k - lo) == v@.subrange(lo as int, k as int));
                assert(l.skip(k - lo + 1) == v@.subrange(k + 1, hi as int));
            }
            let (a, b) = trim_range(v, lo, k);
            if eq_ascii_lower(v, a, b, lower) {
                let (c, d) = trim_range(v, k + 1, hi);
                Some(string_of_range(v, c, d))
            } else {
                None
            }
        },
    }
}

/// Looks up a response header by name, ASCII case-insensitively, in the
/// lines after the status line.
pub fn find_header(text: &str, name: &str) -> (r: Option<String>)
    ensures
        r matches Some(x) ==> header_value(text@, name@) == Some(x@),
        r is None ==> header_value(text@, name@) is None,
{
    let v = chars_of(text);
    let nv = chars_of(name);
    let lower = ascii_lower_vec(&nv);
    if v.len() == 0 {
        assert(lines(text@).len() == 0);
        return None;
    }
    assert(v@.subrange(0, v@.len() as int) == v@);
    let (_, mut pos) = next_line(&v, 0);
    while pos < v.len()
        invariant
            pos <= v.len(),
            v@ == text@,
            lower@ == ascii_lower_seq(name@),
            header_value(text@, name@) == find_header_in(
                lines(v@.subrange(pos as int, v.len() as int)),
                lower@,
            ),
        decreases v.len() - pos,
    {
        let (end, next) = next_line(&v, pos);
        match match_header_line(&v, pos, end, &lower) {
            Some(x) => return Some(x),
            None => {},
        }
        pos = next;
    }
    assert(v@.subrange(pos as int, v.len() as int).len() == 0);
    None
}

/// The status code of a response: the second word of its first line, read
/// as a `u16`.
pub open spec fn status_code(text: Seq<char>) -> Option<int> {
    match first_line(text) {
        Some(l) => match second_word(l) {
            Some(w) => parse_unsigned(w, 65535),
            None => None,
        },
        None => None,
    }
}

/// Reads the status code of a response.
pub fn parse_status(text: &str) -> (r: Option<u16>)
    ensures
        r matches Some(c) ==> status_code(text@) == Some(c as int),
        r is None ==> status_code(text@) is None,
{
    let v = chars_of(text);
    if v.len() == 0 {
        return None;
    }
    assert(v@.subrange(0, v@.len() as int) == v@);
    let (end, _) = next_line(&v, 0);
    let ghost l = v@.subrange(0, end as int);
    proof {
        lemma_skip_bounds(l, 0);
    }
    let a0 = skip_exec(&v, 0, end, 0, false);
    proof {
        lemma_skip_bounds(l, a0 as int);
    }
    let e0 = skip_exec(&v, 0, end, a0, true);
    proof {
        lemma_skip_bounds(l, e0 as int);
    }
    let a1 = skip_exec(&v, 0, end, e0, false);
    proof {
        lemma_skip_bounds(l, a1 as int);
    }
    let e1 = skip_exec(&v, 0, end, a1, true);
    if a1 >= end {
        return None;
    }
    assert(l.subrange(a1 as int, e1 as int) == v@.subrange(a1 as int, e1 as int));
    match parse_unsigned_exec(&v, a1, e1, 65535) {
        Some(c) => Some(c as u16),
        None => None,
    }
}


/// The trimmed text of the first of `ls` that is not blank (empty if none).
pub open spec fn first_nonblank(ls: Seq<Seq<char>>) -> Seq<char>
    decreases ls.len(),
{
    if ls.len() == 0 {
        Seq::empty()
    } else if trim(ls[0]).len() > 0 {
        trim(ls[0])
    } else {
        first_nonblank(ls.drop_first())
    }
}

/// The first non-blank line of `body`, trimmed, cut to 120 characters.
pub open spec fn snippet(body: Seq<char>) -> Seq<char> {
    let t = first_nonblank(lines(body));
    if t.len() <= 120 {
        t
    } else {
        t.subrange(0, 120)
    }
}

/// The first non-blank line of a body, trimmed and cut short (for logs).
pub fn first_text_snippet(body: &str) -> (r: String)
    ensures
        r@ == snippet(body@),
{
    let v = chars_of(body);
    let mut pos: usize = 0;
    assert(v@.subrange(0, v@.len() as int) == v@);
    while pos < v.len()
        invariant
            pos <= v.len(),
            v@ == body@,
            first_nonblank(lines(body@)) == first_nonblank(
                lines(v@.subrange(pos as int, v.len() as int)),
            ),
        decreases v.len() - pos,
    {
        let (end, next) = next_line(&v, pos);
        let (a, b) = trim_range(&v, pos, end);
        if a < b {
            let hi = if b - a <= 120 { b } else { a + 120 };
            assert(v@.subrange(a as int, hi as int) == (if (b - a) <= 120 {
                v@.subrange(a as int, b as int)
            } else {
                v@.subrange(a as int, b as int).subrange(0, 120)
            }));
            return string_of_range(&v, a, hi);
        }
        pos = next;
    }
    assert(v@.subrange(pos as int, v.len() as int).len() == 0);
    String::new()
}

/// A portal counts as reachable when it answered with any status in 200..500.
pub open spec fn reachable(response: Option<(u16, String)>) -> bool {
    match response {
        Some((code, _)) => 200 <= code < 500,
        None => false,
    }
}

/// Whether a portal's response shows it reachable.
pub fn http_ok(response: &Option<(u16, String)>) -> (b: bool)
    ensures
        b == reachable(*response),
{
    match response {
        Some((code, _)) => 200 <= *code && *code < 500,
        None => false,
    }
}

/// The verdict on an external probe's response: online or not, and why.
pub open spec fn probe_verdict(response: Option<(u16, String)>, timeout_secs: u64) -> (bool, Seq<char>) {
    match response {
        None => (false, "连接失败或超时（"@ + decimal(timeout_secs as nat) + "s）"@),
        Some((code, body)) => if code == 204 {
            (true, "HTTP 204"@)
        } else if code == 200 {
            if contains(body@, "Microsoft Connect Test"@) {
                (true, "HTTP 200 命中探活文本"@)
            } else if trim(body@).len() == 0 {
                (true, "HTTP 200 空正文"@)
            } else {
                (false, "HTTP 200 但正文非预期（"@ + snippet(body@) + "）"@)
            }
        } else {
            (false, "HTTP "@ + decimal(code as nat) + "（"@ + snippet(body@) + "）"@)
        },
    }
}

/// Judges an external probe: a 204, or a 200 with the connect-test text or
/// an empty body, means online; anything else is a reason for the log.
pub fn external_probe(response: &Option<(u16, String)>, timeout_secs: u64) -> (r: (bool, String))
    ensures
        r.0 == probe_verdict(*response, timeout_secs).0,
        r.1@ == probe_verdict(*response, timeout_secs).1,
{
    match response {
        None => {
            let d = decimal_string(timeout_secs);
            (false, concat3("连接失败或超时（", d.as_str(), "s）"))
        },
        Some((code, body)) => {
            if *code == 204 {
                (true, owned("HTTP 204"))
            } else if *code == 200 {
                let bv = chars_of(body.as_str());
                let needle = chars_of("Microsoft Connect Test");
                if find_exec(&bv, &needle, 0).is_some() {
                    (true, owned("HTTP 200 命中探活文本"))
                } else {
                    let (a, b) = trim_range(&bv, 0, bv.len());
                    assert(bv@.subrange(0, bv@.len() as int) == bv@);
                    if a == b {
                        (true, owned("HTTP 200 空正文"))
                    } else {
                        let sn = first_text_snippet(body.as_str());
                        (false, concat3("HTTP 200 但正文非预期（", sn.as_str(), "）"))
                    }
                }
            } else {
                let sn = first_text_snippet(body.as_str());
                let d = decimal_string(*code as u64);
                let head = concat3("HTTP ", d.as_str(), "（");
                (false, concat3(head.as_str(), sn.as_str(), "）"))
            }
        },
    }
}


// ===================== GET with redirects =====================

/// A GET sends at most this many requests (the first and four redirects).
pub const MAX_HTTP_REQUESTS: u32 = 5;

/// The request a GET sends for `path` on `host`.
pub open spec fn request_text(host: Seq<char>, path: Seq<char>) -> Seq<char> {
    "GET "@ + path + " HTTP/1.0\r\nHost: "@ + host + "\r\nConnection: close\r\n\r\n"@
}

/// A redirect status that `http_get` follows.
pub open spec fn is_redirect(code: int) -> bool {
    code == 301 || code == 302 || code == 303 || code == 307 || code == 308
}

/// What a GET asks its driver to do next.
#[derive(Debug)]
pub enum HttpAction {
    /// Connect to `host:port`, send `request`, and hand back the bytes read.
    Send { host: String, port: u16, request: String },
    /// The GET is over: the status and the body, or `None` on failure.
    Done(Option<(u16, String)>),
}

/// A GET of a plain `http://` URL that follows redirects.
pub struct HttpGet {
    /// The URL of the request in flight.
    pub current: String,
    /// Requests sent so far.
    pub requests: u32,
    /// At most this many bytes of a response are read.
    pub limit: usize,
}

/// The action for requesting `url`: `Send` with its parts, or `Done(None)`
/// when it is not a plain `http://` URL.
pub open spec fn request_for(url: Seq<char>, a: HttpAction) -> bool {
    match http_url_parts(url) {
        Some((h, p, path)) => a matches HttpAction::Send { host, port, request } && host@ == h
            && port as int == p && request@ == request_text(h, path),
        None => a matches HttpAction::Done(None),
    }
}

fn action_for(url: &str) -> (a: HttpAction)
    ensures
        request_for(url@, a),
{
    match parse_http_url(url) {
        Some((host, port, path)) => {
            let mut req = owned("GET ");
            push_str(&mut req, path.as_str());
            push_str(&mut req, " HTTP/1.0\r\nHost: ");
            push_str(&mut req, host.as_str());
            push_str(&mut req, "\r\nConnection: close\r\n\r\n");
            HttpAction::Send { host, port, request: req }
        },
        None => HttpAction::Done(None),
    }
}

/// Starts a GET of `url` that reads at most `limit` bytes of each
/// response; the driver performs each `Send` and hands the bytes read (or
/// `None` when connecting or writing failed) to `on_response`.
pub fn http_get(url: &str, limit: usize) -> (r: (HttpGet, HttpAction))
    ensures
        r.0.current@ == url@,
        r.0.limit == limit,
        request_for(url@, r.1),
        r.0.requests == (if r.1 is Send { 1u32 } else { 0u32 }),
{
    let a = action_for(url);
    let n: u32 = if let HttpAction::Send { .. } = a { 1 } else { 0 };
    (HttpGet { current: owned(url), requests: n, limit }, a)
}

/// The text of a response: its first `limit` bytes, read as UTF-8 with
/// invalid sequences replaced.
pub open spec fn response_text(bytes: Seq<u8>, limit: usize) -> Seq<char> {
    if bytes.len() <= limit {
        lossy_utf8(bytes)
    } else {
        lossy_utf8(bytes.take(limit as int))
    }
}

/// The body of a response text: what follows the first blank line (empty
/// when the head never ends).
pub open spec fn body_of(text: Seq<char>) -> Seq<char> {
    match find(text, "\r\n\r\n"@) {
        Some(k) => text.subrange(k + 4, text.len() as int),
        None => Seq::empty(),
    }
}

/// The body of a response text (see [`body_of`]).
pub fn response_body(text: &str) -> (b: String)
    ensures
        b@ == body_of(text@),
{
    proof {
        reveal_strlit("\r\n\r\n");
    }
    let v = chars_of(text);
    let sep = chars_of("\r\n\r\n");
    assert(sep@.len() == 4);
    proof {
        lemma_find_from_bounds(v@, sep@, 0);
    }
    match find_exec(&v, &sep, 0) {
        Some(k) => {
            assert(find_from(v@, sep@, 0) == Some(k as int));
            assert(k + sep@.len() <= v@.len());
            assert(k + 4 <= v.len());
            let start: usize = k + 4;
            string_of_range(&v, start, v.len())
        },
        None => String::new(),
    }
}

/// The first `limit` bytes of `bytes`.
fn first_bytes(bytes: &Vec<u8>, limit: usize) -> (r: Vec<u8>)
    ensures
        r@ == (if bytes@.len() <= limit { bytes@ } else { bytes@.take(limit as int) }),
{
    let n = if bytes.len() <= limit { bytes.len() } else { limit };
    let mut r: Vec<u8> = Vec::new();
    let mut i: usize = 0;
    while i < n
        invariant
            i <= n <= bytes.len(),
            r@ == bytes@.take(i as int),
        decreases n - i,
    {
        r.push(bytes[i]);
        assert(bytes@.take(i + 1) == bytes@.take(i as int).push(bytes@[i as int]));
        i += 1;
    }
    assert(bytes@.take(bytes@.len() as int) == bytes@);
    r
}

impl HttpGet {
    /// Takes in the bytes read for the request in flight. A redirect with a
    /// resolvable `Location` is followed while fewer than five requests were
    /// sent; any other response with a status line ends the GET with its
    /// status and body.
    pub fn on_response(&mut self, response: Option<Vec<u8>>) -> (a: HttpAction)
        requires
            1 <= old(self).requests <= MAX_HTTP_REQUESTS,
        ensures
            final(self).requests <= MAX_HTTP_REQUESTS,
            final(self).limit == old(self).limit,
            a is Send ==> final(self).requests == old(self).requests + 1,
            match response {
                None => a matches HttpAction::Done(None),
                Some(bytes) => {
                    let text = response_text(bytes@, old(self).limit);
                    match status_code(text) {
                        None => a matches HttpAction::Done(None),
                        Some(code) => {
                            let next = match header_value(text, "location"@) {
                                Some(loc) => resolved_url(old(self).current@, loc),
                                None => None,
                            };
                            if is_redirect(code) && next is Some {
                                if old(self).requests < MAX_HTTP_REQUESTS {
                                    final(self).current@ == next->0 && request_for(next->0, a)
                                } else {
                                    a matches HttpAction::Done(None)
                                }
                            } else {
                                a matches HttpAction::Done(Some((c, b))) && c as int == code && b@ == body_of(text)
                            }
                        },
                    }
                },
            },
    {
        let bytes = match response {
            Some(b) => b,
            None => return HttpAction::Done(None),
        };
        let received = first_bytes(&bytes, self.limit);
        let text = utf8_lossy(received.as_slice());
        let code = match parse_status(text.as_str()) {
            Some(c) => c,
            None => return HttpAction::Done(None),
        };
        if code == 301 || code == 302 || code == 303 || code == 307 || code == 308 {
            let next = match find_header(text.as_str(), "location") {
                Some(loc) => resolve_url(self.current.as_str(), loc.as_str()),
                None => None,
            };
            if let Some(url) = next {
                if self.requests < MAX_HTTP_REQUESTS {
                    let a = action_for(url.as_str());
                    if let HttpAction::Send { .. } = a {
                        self.requests = self.requests + 1;
                    }
                    self.current = url;
                    return a;
                } else {
                    return HttpAction::Done(None);
                }
            }
        }
        HttpAction::Done(Some((code, response_body(text.as_str()))))
    }
}

// ===================== medium =====================

/// `IF_TYPE_ETHERNET_CSMACD`.
pub const IF_TYPE_ETHERNET: u32 = 6;
/// `IF_TYPE_IEEE80211`.
pub const IF_TYPE_WIRELESS: u32 = 71;

pub open spec fn medium_of_type(if_type: u32) -> Medium {
    if if_type == IF_TYPE_WIRELESS {
        Medium::Wireless
    } else if if_type == IF_TYPE_ETHERNET {
        Medium::Wired
    } else {
        Medium::Other
    }
}

/// The medium of an adapter type.
pub fn medium_of(if_type: u32) -> (m: Medium)
    ensures
        m == medium_of_type(if_type),
{
    if if_type == IF_TYPE_WIRELESS {
        Medium::Wireless
    } else if if_type == IF_TYPE_ETHERNET {
        Medium::Wired
    } else {
        Medium::Other
    }
}

/// One network adapter as the system lists it.
#[derive(Debug, Clone, Copy, PartialEq, Eq)]
pub struct Adapter {
    pub index: u32,
    pub if_type: u32,
    pub up: bool,
}

/// The position of the first adapter with interface index `idx`.
pub open spec fn first_with_index(a: Seq<Adapter>, idx: u32, i: int) -> Option<int>
    decreases a.len() - i,
{
    if i < 0 || i >= a.len() {
        None
    } else if a[i].index == idx {
        Some(i)
    } else {
        first_with_index(a, idx, i + 1)
    }
}

/// The position of the first adapter that is up and wired or wireless.
pub open spec fn first_up_lan(a: Seq<Adapter>, i: int) -> Option<int>
    decreases a.len() - i,
{
    if i < 0 || i >= a.len() {
        None
    } else if a[i].up && (a[i].if_type == IF_TYPE_ETHERNET || a[i].if_type == IF_TYPE_WIRELESS) {
        Some(i)
    } else {
        first_up_lan(a, i + 1)
    }
}

/// The medium of the default-route adapter when it is listed and up;
/// otherwise that of the first wired or wireless adapter that is up.
pub open spec fn selected_medium(best: Option<u32>, a: Seq<Adapter>) -> Medium {
    let fallback = match first_up_lan(a, 0) {
        Some(k) => medium_of_type(a[k].if_type),
        None => Medium::Other,
    };
    match best {
        Some(b) => match first_with_index(a, b, 0) {
            Some(k) => if a[k].up {
                medium_of_type(a[k].if_type)
            } else {
                fallback
            },
            None => fallback,
        },
        None => fallback,
    }
}

fn position_of_index(adapters: &Vec<Adapter>, b: u32) -> (r: Option<usize>)
    ensures
        r matches Some(k) ==> first_with_index(adapters@, b, 0) == Some(k as int) && k < adapters.len(),
        r is None ==> first_with_index(adapters@, b, 0) is None,
{
    let mut i: usize = 0;
    while i < adapters.len()
        invariant
            i <= adapters.len(),
            first_with_index(adapters@, b, 0) == first_with_index(adapters@, b, i as int),
        decreases adapters.len() - i,
    {
        if adapters[i].index == b {
            return Some(i);
        }
        i += 1;
    }
    None
}

fn position_up_lan(adapters: &Vec<Adapter>) -> (r: Option<usize>)
    ensures
        r matches Some(k) ==> first_up_lan(adapters@, 0) == Some(k as int) && k < adapters.len(),
        r is None ==> first_up_lan(adapters@, 0) is None,
{
    let mut j: usize = 0;
    while j < adapters.len()
        invariant
            j <= adapters.len(),
            first_up_lan(adapters@, 0) == first_up_lan(adapters@, j as int),
        decreases adapters.len() - j,
    {
        let a = adapters[j];
        if a.up && (a.if_type == IF_TYPE_ETHERNET || a.if_type == IF_TYPE_WIRELESS) {
            return Some(j);
        }
        j += 1;
    }
    None
}

/// Picks the medium from the default-route interface index (when the
/// system could tell it) and the adapter list.
pub fn select_medium(best: Option<u32>, adapters: &Vec<Adapter>) -> (m: Medium)
    ensures
        m == selected_medium(best, adapters@),
{
    if let Some(b) = best {
        if let Some(k) = position_of_index(adapters, b) {
            if adapters[k].up {
                return medium_of(adapters[k].if_type);
            }
        }
    }
    match position_up_lan(adapters) {
        Some(k) => medium_of(adapters[k].if_type),
        None => Medium::Other,
    }
}

} // verus!
