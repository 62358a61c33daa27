//! Stored configuration: account, preferences, and the text form in which
//! encrypted secrets are kept (`dpapi:v1:<base64>`).

use vstd::prelude::*;
use base64::Engine as _;
use crate::text::{chars_of, owned, push_str, starts_with, string_of_range};

verus! {

broadcast use vstd::string::group_string_axioms;

/// Where the configuration lives: the directory of `config.json`.
#[derive(Debug, Clone, PartialEq)]
pub struct ConfigPaths {
    pub dir: String,
}

/// The account as stored; the password only in encrypted form.
#[derive(Debug, Clone, PartialEq)]
pub struct Account {
    pub username: String,
    pub password_enc: String,
    pub isp: String,
}

impl Default for Account {
    fn default() -> (a: Self)
        ensures
            a.username@ == Seq::<char>::empty(),
            a.password_enc@ == Seq::<char>::empty(),
            a.isp@ == "2"@,
    {
        Account { username: String::new(), password_enc: String::new(), isp: owned("2") }
    }
}

/// User preferences.
#[derive(Debug, Clone, PartialEq)]
pub struct Preferences {
    pub autostart: bool,
    pub adapter_mode: String,
    pub portal_wireless: String,
    pub portal_wired: String,
    pub external_probe_url: String,
    pub check_interval_online_sec: u64,
    pub check_interval_offline_sec: u64,
    pub login_max_retries: u32,
    /// Away from campus: all automatic and manual authentication is paused.
    pub away_mode: bool,
    /// Show the authentication window on screen.
    pub show_auth_window: bool,
    /// Log in again automatically after the network drops.
    pub auto_relogin: bool,
    /// Quit once the first connection of this run succeeds.
    pub quit_after_first_connect: bool,
    /// Remove the logon delay Windows puts on startup entries.
    pub startup_boost: bool,
}

impl Default for Preferences {
    fn default() -> (p: Self)
        ensures
            p.autostart,
            p.adapter_mode@ == "auto"@,
            p.portal_wireless@ == "http://172.26.255.2/"@,
            p.portal_wired@ == "http://172.26.255.3/"@,
            p.external_probe_url@ == "http://www.msftconnecttest.com/connecttest.txt"@,
            p.check_interval_online_sec == 120,
            p.check_interval_offline_sec == 30,
            p.login_max_retries == 3,
            !p.away_mode,
            !p.show_auth_window,
            p.auto_relogin,
            !p.quit_after_first_connect,
            !p.startup_boost,
    {
        Preferences {
            autostart: true,
            adapter_mode: owned("auto"),
            portal_wireless: owned("http://172.26.255.2/"),
            portal_wired: owned("http://172.26.255.3/"),
            external_probe_url: owned("http://www.msftconnecttest.com/connecttest.txt"),
            check_interval_online_sec: 120,
            check_interval_offline_sec: 30,
            login_max_retries: 3,
            away_mode: false,
            show_auth_window: false,
            auto_relogin: true,
            quit_after_first_connect: false,
            startup_boost: false,
        }
    }
}

// ===================== secrets =====================

/// The prefix of an encrypted secret's text form.
pub const DPAPI_PREFIX: &'static str = "dpapi:v1:";

/// The character of the standard base64 alphabet for a 6-bit value.
pub open spec fn b64_char(n: int) -> char {
    if n < 26 {
        ('A' as int + n) as char
    } else if n < 52 {
        ('a' as int + (n - 26)) as char
    } else if n < 62 {
        ('0' as int + (n - 52)) as char
    } else if n == 62 {
        '+'
    } else {
        '/'
    }
}

/// Standard base64 (RFC 4648, `+` and `/`, `=` padding to a multiple of 4).
pub open spec fn base64_encode(b: Seq<u8>) -> Seq<char>
    decreases b.len(),
{
    if b.len() == 0 {
        Seq::empty()
    } else if b.len() == 1 {
        seq![b64_char((b[0] as int) / 4), b64_char(((b[0] as int) % 4) * 16), '=', '=']
    } else if b.len() == 2 {
        seq![
            b64_char((b[0] as int) / 4),
            b64_char(((b[0] as int) % 4) * 16 + (b[1] as int) / 16),
            b64_char(((b[1] as int) % 16) * 4),
            '=',
        ]
    } else {
        seq![
            b64_char((b[0] as int) / 4),
            b64_char(((b[0] as int) % 4) * 16 + (b[1] as int) / 16),
            b64_char(((b[1] as int) % 16) * 4 + (b[2] as int) / 64),
            b64_char((b[2] as int) % 64),
        ] + base64_encode(b.skip(3))
    }
}

#[verifier::external_type_specification]
#[verifier::external_body]
pub struct ExDecodeError(base64::DecodeError);

/// `base64::engine::general_purpose::STANDARD.encode`: the standard
/// alphabet with padding.
#[verifier::external_body]
fn b64_encode(bytes: &[u8]) -> (s: String)
    requires
        bytes@.len() <= usize::MAX / 2,
    ensures
        s@ == base64_encode(bytes@),
{
    base64::engine::general_purpose::STANDARD.encode(bytes)
}

/// `base64::engine::general_purpose::STANDARD.decode`: the engine requires
/// canonical padding and no stray trailing bits, so it accepts exactly the
/// encodings `b64_encode` produces, and gives back the bytes encoded.
#[verifier::external_body]
fn b64_decode(s: &str) -> (r: Result<Vec<u8>, base64::DecodeError>)
    ensures
        r matches Ok(w) ==> base64_encode(w@) == s@ && forall|v: Seq<u8>|
            #[trigger] base64_encode(v) == s@ ==> w@ == v,
        r is Err ==> forall|v: Seq<u8>| #[trigger] base64_encode(v) != s@,
{
    base64::engine::general_purpose::STANDARD.decode(s)
}

/// The `Display` text of a base64 decoding error.
#[verifier::external_body]
fn decode_error_text(e: &base64::DecodeError) -> String {
    e.to_string()
}

/// The text form of an encrypted secret.
pub open spec fn encoded_secret(encrypted: Seq<u8>) -> Seq<char> {
    DPAPI_PREFIX@ + base64_encode(encrypted)
}

/// `secret` is the text form of the encrypted bytes `v`.
pub open spec fn secret_holds(secret: Seq<char>, v: Seq<u8>) -> bool {
    starts_with(secret, DPAPI_PREFIX@) && base64_encode(v) == secret.skip(DPAPI_PREFIX@.len() as int)
}

/// Writes encrypted bytes in their stored text form.
pub fn encode_secret(encrypted: &[u8]) -> (s: String)
    requires
        encrypted@.len() <= usize::MAX / 2,
    ensures
        s@ == encoded_secret(encrypted@),
{
    let mut s = owned(DPAPI_PREFIX);
    let b = b64_encode(encrypted);
    push_str(&mut s, b.as_str());
    s
}

/// Reads the encrypted bytes back from a stored text form.
pub fn decode_secret(secret: &str) -> (r: Result<Vec<u8>, String>)
    ensures
        r matches Ok(w) ==> secret_holds(secret@, w@) && forall|v: Seq<u8>|
            #[trigger] secret_holds(secret@, v) ==> w@ == v,
        r is Err ==> forall|v: Seq<u8>| !#[trigger] secret_holds(secret@, v),
        !starts_with(secret@, DPAPI_PREFIX@) ==> (r matches Err(m) && m@ == "密文缺少 dpapi:v1: 前缀"@),
        starts_with(secret@, DPAPI_PREFIX@) && r is Err ==> (r matches Err(m) && starts_with(
            m@,
            "base64 解码失败: "@,
        )),
{
    proof {
        reveal_strlit("dpapi:v1:");
    }
    let v = chars_of(secret);
    let p = chars_of(DPAPI_PREFIX);
    if !crate::text::starts_with_exec(&v, &p) {
        return Err(owned("密文缺少 dpapi:v1: 前缀"));
    }
    let rest = string_of_range(&v, p.len(), v.len());
    assert(rest@ == secret@.skip(DPAPI_PREFIX@.len() as int));
    match b64_decode(rest.as_str()) {
        Ok(bytes) => Ok(bytes),
        Err(e) => {
            let mut m = owned("base64 解码失败: ");
            let ghost head = m@;
            let t = decode_error_text(&e);
            push_str(&mut m, t.as_str());
            assert(m@.subrange(0, head.len() as int) == head);
            Err(m)
        },
    }
}

/// Law: a secret written by `encode_secret` reads back, through
/// `decode_secret`, as exactly the bytes that were written.
pub proof fn law_secret_roundtrip(encrypted: Seq<u8>)
    ensures
        secret_holds(encoded_secret(encrypted), encrypted),
{
    let s = encoded_secret(encrypted);
    assert(s.subrange(0, DPAPI_PREFIX@.len() as int) == DPAPI_PREFIX@);
    assert(s.skip(DPAPI_PREFIX@.len() as int) == base64_encode(encrypted));
}

} // verus!
