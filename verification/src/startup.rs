//! Decisions taken when the program starts: the switches read from the
//! environment, the end-to-end stand-in portals, and what the start-up
//! check of the startup entry means for the settings.

use vstd::prelude::*;
use crate::autostart::Sync;
use crate::store::Preferences;
use crate::text::{
    ascii_lower_seq, chars_of, decimal, eq_ascii_lower, owned, push_decimal, push_str,
    str_eq,
};

verus! {

broadcast use vstd::string::group_string_axioms;

/// Seconds between two looks at the startup entry while running.
pub const AUTOSTART_WATCH_INTERVAL_SEC: u64 = 60;

/// A switch set to exactly `1`.
pub fn flag_set(value: Option<&str>) -> (b: bool)
    ensures
        b == (value matches Some(v) && v@ == "1"@),
{
    match value {
        Some(v) => str_eq(v, "1"),
        None => false,
    }
}

/// The proof-of-concept switch: on when set to anything but `0` or
/// `false` (in any ASCII case).
pub fn poc_enabled(value: Option<&str>) -> (b: bool)
    ensures
        b == (value matches Some(v) && v@ != "0"@ && ascii_lower_seq(v@) != "false"@),
{
    match value {
        Some(v) => {
            let c = chars_of(v);
            let f = chars_of("false");
            assert(c@.subrange(0, c@.len() as int) == c@);
            !str_eq(v, "0") && !eq_ascii_lower(&c, 0, c.len(), &f)
        },
        None => false,
    }
}

/// The address of a stand-in page on the local port `port`.
pub open spec fn local_page(port: u16, page: Seq<char>) -> Seq<char> {
    "http://127.0.0.1:"@ + decimal(port as nat) + page
}

fn local_page_exec(port: u16, page: &str) -> (s: String)
    ensures
        s@ == local_page(port, page@),
{
    let mut s = owned("http://127.0.0.1:");
    push_decimal(&mut s, port as u64);
    push_str(&mut s, page);
    s
}

/// Points the portals at the stand-in server on `port` and makes the
/// internet probe fail for sure (end-to-end runs).
pub fn use_mock_portals(prefs: &mut Preferences, port: u16)
    ensures
        final(prefs).portal_wireless@ == local_page(port, "/wireless.html?result=success"@),
        final(prefs).portal_wired@ == local_page(port, "/wired.html?result=success"@),
        final(prefs).external_probe_url@ == "http://127.0.0.1:1/"@,
        final(prefs).autostart == old(prefs).autostart,
        final(prefs).away_mode == old(prefs).away_mode,
        final(prefs).auto_relogin == old(prefs).auto_relogin,
        final(prefs).show_auth_window == old(prefs).show_auth_window,
        final(prefs).quit_after_first_connect == old(prefs).quit_after_first_connect,
        final(prefs).startup_boost == old(prefs).startup_boost,
        final(prefs).adapter_mode == old(prefs).adapter_mode,
        final(prefs).check_interval_online_sec == old(prefs).check_interval_online_sec,
        final(prefs).check_interval_offline_sec == old(prefs).check_interval_offline_sec,
        final(prefs).login_max_retries == old(prefs).login_max_retries,
{
    prefs.portal_wireless = local_page_exec(port, "/wireless.html?result=success");
    prefs.portal_wired = local_page_exec(port, "/wired.html?result=success");
    prefs.external_probe_url = owned("http://127.0.0.1:1/");
}

/// After the start-up check of the startup entry: when the user switched
/// it off in Task Manager, the setting follows and must be saved. Returns
/// whether the preferences changed.
pub fn follow_startup_check(prefs: &mut Preferences, found: &Sync) -> (changed: bool)
    ensures
        changed == (*found == Sync::DisabledByUser),
        changed ==> !final(prefs).autostart,
        *final(prefs) == (Preferences { autostart: old(prefs).autostart && !changed, ..*old(prefs) }),
{
    match found {
        Sync::DisabledByUser => {
            prefs.autostart = false;
            true
        },
        _ => false,
    }
}

/// The startup boost is set in the settings but Windows still delays
/// startup entries: it must be applied again.
pub fn boost_needs_repair(boost: bool, delay_is_zero: bool) -> (b: bool)
    ensures
        b == (boost && !delay_is_zero),
{
    boost && !delay_is_zero
}

} // verus!
