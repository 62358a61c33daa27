//! The rules behind the settings page's commands: what the status line
//! says, which edits are accepted, and what the commands answer.

use vstd::prelude::*;
use crate::store::Preferences;
use crate::state::StatusPayload;
use crate::scheduler::SchedMessage;
use crate::text::{chars_of, owned, trim, trimmed};

verus! {

broadcast use vstd::string::group_string_axioms;

/// The status line of the settings page.
#[derive(Debug, Clone, PartialEq, Eq)]
pub struct StatusView {
    /// unconfigured | needs-sms | ready
    pub kind: String,
    pub text: String,
}

/// An account as typed on the settings page.
#[derive(Debug, Clone, PartialEq, Eq)]
pub struct AccountInput {
    pub username: String,
    pub password: String,
    pub isp: String,
}

/// The answer of a command that only reports.
#[derive(Debug, Clone, PartialEq, Eq)]
pub struct CommandResult {
    pub ok: bool,
    pub message: String,
}

/// The status line's kind: no account, no valid SMS code, or ready.
pub open spec fn settings_kind(account_configured: bool, sms_valid: bool) -> Seq<char> {
    if !account_configured {
        "unconfigured"@
    } else if !sms_valid {
        "needs-sms"@
    } else {
        "ready"@
    }
}

/// The status line's text for each kind.
pub open spec fn settings_text(account_configured: bool, sms_valid: bool) -> Seq<char> {
    if !account_configured {
        "未配置账号"@
    } else if !sms_valid {
        "动态密码缺失或已过期"@
    } else {
        "已就绪，可自动登录"@
    }
}

/// The settings page's status line, from whether an account is stored and
/// whether the SMS code is valid now.
pub fn settings_status(account_configured: bool, sms_valid: bool) -> (v: StatusView)
    ensures
        v.kind@ == settings_kind(account_configured, sms_valid),
        v.text@ == settings_text(account_configured, sms_valid),
{
    if !account_configured {
        StatusView { kind: owned("unconfigured"), text: owned("未配置账号") }
    } else if !sms_valid {
        StatusView { kind: owned("needs-sms"), text: owned("动态密码缺失或已过期") }
    } else {
        StatusView { kind: owned("ready"), text: owned("已就绪，可自动登录") }
    }
}

/// Checks a typed account: the username, trimmed, and the password must
/// both be non-empty. Gives the trimmed username.
pub fn validate_account(input: &AccountInput) -> (r: Result<String, String>)
    ensures
        trim(input.username@).len() > 0 && input.password@.len() > 0 ==> (r matches Ok(u) && u@
            == trim(input.username@)),
        !(trim(input.username@).len() > 0 && input.password@.len() > 0) ==> (r matches Err(e)
            && e@ == "账号与密码需同时填写"@),
{
    let username = trimmed(input.username.as_str());
    let u = chars_of(username.as_str());
    let p = chars_of(input.password.as_str());
    if u.len() == 0 || p.len() == 0 {
        return Err(owned("账号与密码需同时填写"));
    }
    Ok(username)
}

/// The SMS code to store from what was typed: the trimmed code, or nothing
/// when it is blank (the stored code is then kept).
pub fn sms_code_to_save(code: &str) -> (r: Option<String>)
    ensures
        trim(code@).len() > 0 ==> (r matches Some(c) && c@ == trim(code@)),
        trim(code@).len() == 0 ==> r is None,
{
    let c = trimmed(code);
    let v = chars_of(c.as_str());
    if v.len() == 0 {
        None
    } else {
        Some(c)
    }
}

/// Checks a typed portal address: trimmed, it must not be empty. `wired`
/// picks the message.
pub fn portal_setting(url: &str, wired: bool) -> (r: Result<String, String>)
    ensures
        trim(url@).len() > 0 ==> (r matches Ok(u) && u@ == trim(url@)),
        trim(url@).len() == 0 && !wired ==> (r matches Err(e) && e@ == "无线认证网址不能为空"@),
        trim(url@).len() == 0 && wired ==> (r matches Err(e) && e@ == "有线认证网址不能为空"@),
{
    let u = trimmed(url);
    let v = chars_of(u.as_str());
    if v.len() == 0 {
        if wired {
            return Err(owned("有线认证网址不能为空"));
        } else {
            return Err(owned("无线认证网址不能为空"));
        }
    }
    Ok(u)
}

/// `b` if given, else `old`.
pub open spec fn or_keep(b: Option<bool>, old: bool) -> bool {
    match b {
        Some(x) => x,
        None => old,
    }
}

/// Applies the edits of the settings page to the preferences: portal
/// addresses (checked, wireless first) and switches; a `None` keeps the
/// setting. On an error nothing is changed.
pub fn apply_preference_changes(
    prefs: &mut Preferences,
    portal_wireless: Option<&str>,
    portal_wired: Option<&str>,
    away_mode: Option<bool>,
    show_auth_window: Option<bool>,
    auto_relogin: Option<bool>,
    quit_after_first_connect: Option<bool>,
) -> (r: Result<(), String>)
    ensures
        portal_wireless matches Some(u) && trim(u@).len() == 0 ==> (r matches Err(e) && e@
            == "无线认证网址不能为空"@),
        !(portal_wireless matches Some(u) && trim(u@).len() == 0) && (portal_wired matches Some(u)
            && trim(u@).len() == 0) ==> (r matches Err(e) && e@ == "有线认证网址不能为空"@),
        r is Err ==> *final(prefs) == *old(prefs),
        !(portal_wireless matches Some(u) && trim(u@).len() == 0) && !(portal_wired matches Some(u)
            && trim(u@).len() == 0) ==> {
            &&& r is Ok
            &&& match portal_wireless {
                Some(u) => final(prefs).portal_wireless@ == trim(u@),
                None => final(prefs).portal_wireless == old(prefs).portal_wireless,
            }
            &&& match portal_wired {
                Some(u) => final(prefs).portal_wired@ == trim(u@),
                None => final(prefs).portal_wired == old(prefs).portal_wired,
            }
            &&& final(prefs).away_mode == or_keep(away_mode, old(prefs).away_mode)
            &&& final(prefs).show_auth_window == or_keep(show_auth_window, old(prefs).show_auth_window)
            &&& final(prefs).auto_relogin == or_keep(auto_relogin, old(prefs).auto_relogin)
            &&& final(prefs).quit_after_first_connect == or_keep(
                quit_after_first_connect,
                old(prefs).quit_after_first_connect,
            )
            &&& final(prefs).autostart == old(prefs).autostart
            &&& final(prefs).adapter_mode == old(prefs).adapter_mode
            &&& final(prefs).external_probe_url == old(prefs).external_probe_url
            &&& final(prefs).check_interval_online_sec == old(prefs).check_interval_online_sec
            &&& final(prefs).check_interval_offline_sec == old(prefs).check_interval_offline_sec
            &&& final(prefs).login_max_retries == old(prefs).login_max_retries
            &&& final(prefs).startup_boost == old(prefs).startup_boost
        },
{
    let wireless = match portal_wireless {
        Some(u) => match portal_setting(u, false) {
            Ok(v) => Some(v),
            Err(e) => {
                return Err(e);
            },
        },
        None => None,
    };
    let wired = match portal_wired {
        Some(u) => match portal_setting(u, true) {
            Ok(v) => Some(v),
            Err(e) => {
                return Err(e);
            },
        },
        None => None,
    };
    if let Some(v) = wireless {
        prefs.portal_wireless = v;
    }
    if let Some(v) = wired {
        prefs.portal_wired = v;
    }
    if let Some(b) = away_mode {
        prefs.away_mode = b;
    }
    if let Some(b) = show_auth_window {
        prefs.show_auth_window = b;
    }
    if let Some(b) = auto_relogin {
        prefs.auto_relogin = b;
    }
    if let Some(b) = quit_after_first_connect {
        prefs.quit_after_first_connect = b;
    }
    Ok(())
}

/// The answer to "log in now": refused in away mode, with no message for the
/// scheduler; otherwise the answer and the one `LoginNow` to send.
pub fn login_now(away_mode: bool) -> (r: Result<(CommandResult, SchedMessage), String>)
    ensures
        away_mode ==> (r matches Err(e) && e@ == "离校模式已开启，不会执行验证流程。请先在设置中关闭离校模式"@),
        !away_mode ==> (r matches Ok((c, m)) && c.ok && c.message@ == "已触发自动登录，请稍候查看状态"@
            && m == SchedMessage::LoginNow),
{
    if away_mode {
        return Err(owned("离校模式已开启，不会执行验证流程。请先在设置中关闭离校模式"));
    }
    Ok((CommandResult { ok: true, message: owned("已触发自动登录，请稍候查看状态") }, SchedMessage::LoginNow))
}

/// The answer once starting with Windows was switched on or off.
pub fn set_autostart(enabled: bool) -> (r: CommandResult)
    ensures
        r.ok,
        enabled ==> r.message@ == "开机自启已开启"@,
        !enabled ==> r.message@ == "开机自启已关闭"@,
{
    if enabled {
        CommandResult { ok: true, message: owned("开机自启已开启") }
    } else {
        CommandResult { ok: true, message: owned("开机自启已关闭") }
    }
}

/// The status to show: the last one recorded, or "checking" before any.
pub fn get_runtime_status(current: Option<StatusPayload>) -> (p: StatusPayload)
    ensures
        current matches Some(c) ==> p == c,
        current is None ==> p.kind@ == "checking"@ && p.text@ == "正在检测网络…"@,
{
    match current {
        Some(c) => c,
        None => StatusPayload { kind: owned("checking"), text: owned("正在检测网络…") },
    }
}

} // verus!
