//! The local stand-in for the authentication portal, used in development
//! and end-to-end runs: which page each request gets, and the response head.

use vstd::prelude::*;
use crate::text::{
    chars_of, first_word, second_word, skip_exec, lemma_skip_bounds, string_of_range, owned,
    str_eq, find_in, push_str, push_decimal, decimal,
};
use crate::update::before_char;

verus! {

broadcast use vstd::string::group_string_axioms;

/// The body a response carries.
#[derive(Debug, Clone, Copy, PartialEq, Eq, Structural)]
pub enum MockBody {
    /// The wireless portal page.
    Wireless,
    /// The wired portal page.
    Wired,
    /// No body.
    Empty,
    /// The text `not found`.
    NotFound,
}

/// A response of the stand-in portal.
#[derive(Debug, Clone, PartialEq, Eq)]
pub struct MockReply {
    pub status: u16,
    pub reason: String,
    pub body: MockBody,
}

/// The method of a request line: its first word, or empty.
pub open spec fn request_method(line: Seq<char>) -> Seq<char> {
    match first_word(line) {
        Some(w) => w,
        None => Seq::empty(),
    }
}

/// The target of a request line: its second word, or `/`.
pub open spec fn request_target(line: Seq<char>) -> Seq<char> {
    match second_word(line) {
        Some(w) => w,
        None => "/"@,
    }
}

/// Status, reason and body for a request line. Only `GET` is served; the
/// path (the target before any `?`) picks the page. `probe_page` adds
/// `/ext-ok`, an empty answer that stands for a reachable internet.
pub open spec fn mock_route(line: Seq<char>, probe_page: bool) -> (u16, Seq<char>, MockBody) {
    let path = before_char(request_target(line), '?');
    if request_method(line) != "GET"@ {
        (405, "Method Not Allowed"@, MockBody::Empty)
    } else if path == "/"@ || path == "/index.html"@ || path == "/wireless.html"@ {
        (200, "OK"@, MockBody::Wireless)
    } else if path == "/wired.html"@ {
        (200, "OK"@, MockBody::Wired)
    } else if probe_page && path == "/ext-ok"@ {
        (204, "No Content"@, MockBody::Empty)
    } else {
        (404, "Not Found"@, MockBody::NotFound)
    }
}

/// The response to a request line (see [`mock_route`]).
pub fn mock_reply(request_line: &str, probe_page: bool) -> (r: MockReply)
    ensures
        (r.status, r.reason@, r.body) == mock_route(request_line@, probe_page),
{
    let v = chars_of(request_line);
    let n = v.len();
    let ghost l = v@;
    assert(v@.subrange(0, n as int) == l);
    proof {
        lemma_skip_bounds(l, 0);
    }
    let a0 = skip_exec(&v, 0, n, 0, false);
    proof {
        lemma_skip_bounds(l, a0 as int);
    }
    let e0 = skip_exec(&v, 0, n, a0, true);
    proof {
        lemma_skip_bounds(l, e0 as int);
    }
    let a1 = skip_exec(&v, 0, n, e0, false);
    proof {
        lemma_skip_bounds(l, a1 as int);
    }
    let e1 = skip_exec(&v, 0, n, a1, true);
    let method = if a0 < n {
        string_of_range(&v, a0, e0)
    } else {
        String::new()
    };
    assert(method@ == request_method(l));
    let target = if a1 < n {
        string_of_range(&v, a1, e1)
    } else {
        owned("/")
    };
    assert(target@ == request_target(l));
    let t = chars_of(target.as_str());
    let path_end = match find_in(&t, '?', 0, t.len()) {
        Some(k) => k,
        None => t.len(),
    };
    assert(t@.subrange(0, t@.len() as int) == t@);
    let path = string_of_range(&t, 0, path_end);
    assert(path@ == before_char(target@, '?'));
    let p = path.as_str();
    if !str_eq(method.as_str(), "GET") {
        MockReply { status: 405, reason: owned("Method Not Allowed"), body: MockBody::Empty }
    } else if str_eq(p, "/") || str_eq(p, "/index.html") || str_eq(p, "/wireless.html") {
        MockReply { status: 200, reason: owned("OK"), body: MockBody::Wireless }
    } else if str_eq(p, "/wired.html") {
        MockReply { status: 200, reason: owned("OK"), body: MockBody::Wired }
    } else if probe_page && str_eq(p, "/ext-ok") {
        MockReply { status: 204, reason: owned("No Content"), body: MockBody::Empty }
    } else {
        MockReply { status: 404, reason: owned("Not Found"), body: MockBody::NotFound }
    }
}

/// The head of an HTTP/1.1 response carrying `body_len` bytes of HTML.
pub open spec fn response_head_spec(status: u16, reason: Seq<char>, body_len: usize) -> Seq<char> {
    "HTTP/1.1 "@ + decimal(status as nat) + " "@ + reason
        + "\r\nContent-Type: text/html; charset=utf-8\r\nContent-Length: "@ + decimal(
        body_len as nat,
    ) + "\r\nConnection: close\r\n\r\n"@
}

/// The response head (see [`response_head_spec`]).
pub fn response_head(status: u16, reason: &str, body_len: usize) -> (h: String)
    ensures
        h@ == response_head_spec(status, reason@, body_len),
{
    let mut h = owned("HTTP/1.1 ");
    push_decimal(&mut h, status as u64);
    push_str(&mut h, " ");
    push_str(&mut h, reason);
    push_str(&mut h, "\r\nContent-Type: text/html; charset=utf-8\r\nContent-Length: ");
    push_decimal(&mut h, body_len as u64);
    push_str(&mut h, "\r\nConnection: close\r\n\r\n");
    h
}

} // verus!
