//! The tray's rules: the colour and tooltip of each status, where the
//! settings panel opens, and when a click or a lost focus shows or hides it.

use vstd::prelude::*;
use crate::text::{concat2, owned, str_eq};

verus! {

broadcast use vstd::string::group_string_axioms;

/// The status dot's colour and the label shown for a status kind.
#[derive(Debug, Clone, PartialEq, Eq)]
pub struct TrayStyle {
    pub r: u8,
    pub g: u8,
    pub b: u8,
    pub label: String,
}

/// Colour and label for each status kind; unknown kinds read as checking.
pub open spec fn style_of(kind: Seq<char>) -> (u8, u8, u8, Seq<char>) {
    if kind == "connected"@ || kind == "ready"@ {
        (31, 161, 85, "已连接"@)
    } else if kind == "needs-sms"@ {
        (208, 139, 0, "需要动态密码"@)
    } else if kind == "failed"@ {
        (216, 59, 59, "登录失败"@)
    } else if kind == "logging-in"@ {
        (29, 100, 216, "登录中"@)
    } else if kind == "away-mode"@ {
        (120, 125, 132, "离校模式"@)
    } else if kind == "network-down"@ {
        (120, 125, 132, "网络未就绪"@)
    } else {
        (154, 160, 168, "检测中"@)
    }
}

/// The tray's look for a status kind (see [`style_of`]).
pub fn tray_style(kind: &str) -> (s: TrayStyle)
    ensures
        (s.r, s.g, s.b, s.label@) == style_of(kind@),
        kind@ == "failed"@ ==> s.r == 216 && s.g == 59 && s.b == 59 && s.label@ == "登录失败"@,
        s.label@ == "已连接"@ <==> (kind@ == "connected"@ || kind@ == "ready"@),
{
    let s = if str_eq(kind, "connected") || str_eq(kind, "ready") {
        TrayStyle { r: 31, g: 161, b: 85, label: owned("已连接") }
    } else if str_eq(kind, "needs-sms") {
        TrayStyle { r: 208, g: 139, b: 0, label: owned("需要动态密码") }
    } else if str_eq(kind, "failed") {
        TrayStyle { r: 216, g: 59, b: 59, label: owned("登录失败") }
    } else if str_eq(kind, "logging-in") {
        TrayStyle { r: 29, g: 100, b: 216, label: owned("登录中") }
    } else if str_eq(kind, "away-mode") {
        TrayStyle { r: 120, g: 125, b: 132, label: owned("离校模式") }
    } else if str_eq(kind, "network-down") {
        TrayStyle { r: 120, g: 125, b: 132, label: owned("网络未就绪") }
    } else {
        TrayStyle { r: 154, g: 160, b: 168, label: owned("检测中") }
    };
    proof {
        law_tray_failed_is_red(kind@);
    }
    s
}

/// Law: the tray reads "connected" (green, "已连接") for the kinds
/// "connected" and "ready" only; "failed" (and only it) reads red,
/// "登录失败".
pub proof fn law_tray_failed_is_red(kind: Seq<char>)
    ensures
        style_of(kind).3 == "已连接"@ <==> (kind == "connected"@ || kind == "ready"@),
        (style_of(kind).0, style_of(kind).1, style_of(kind).2) == (31u8, 161u8, 85u8) <==> (kind
            == "connected"@ || kind == "ready"@),
        style_of(kind).3 == "登录失败"@ <==> kind == "failed"@,
        style_of(kind).0 == 216u8 <==> kind == "failed"@,
        kind == "failed"@ ==> style_of(kind) == (216u8, 59u8, 59u8, "登录失败"@),
{
    reveal_strlit("connected");
    reveal_strlit("ready");
    reveal_strlit("needs-sms");
    reveal_strlit("failed");
    assert("failed"@.len() == 6 && "connected"@.len() == 9 && "ready"@.len() == 5);
    assert("needs-sms"@.len() == 9);
    reveal_strlit("已连接");
    reveal_strlit("需要动态密码");
    reveal_strlit("登录失败");
    reveal_strlit("登录中");
    reveal_strlit("离校模式");
    reveal_strlit("网络未就绪");
    reveal_strlit("检测中");
    assert("已连接"@.len() == 3);
    assert("登录失败"@.len() == 4);
    assert("登录中"@[0] != "已连接"@[0]);
    assert("检测中"@[0] != "已连接"@[0]);
    assert("登录中"@.len() == 3 && "检测中"@.len() == 3);
    assert("离校模式"@[0] != "登录失败"@[0]);
    assert("网络未就绪"@.len() == 5);
    assert("需要动态密码"@.len() == 6);
}

/// The tray tooltip for a status label.
pub fn tray_tooltip(label: &str) -> (t: String)
    ensures
        t@ == "御连 YuLink - "@ + label@,
{
    concat2("御连 YuLink - ", label)
}

/// Distance of the panel from the work area's right and bottom edges.
pub const PANEL_MARGIN: i32 = 20;

/// The larger of `v` and zero.
pub open spec fn at_least_zero(v: int) -> int {
    if v < 0 {
        0
    } else {
        v
    }
}

/// Top-left corner that puts a `win_w`×`win_h` panel in the bottom right
/// of the work area at (`work_x`, `work_y`) sized `work_w`×`work_h`,
/// `PANEL_MARGIN` from its edges, never left of or above the screen origin.
pub fn bottom_right(
    work_x: i32,
    work_y: i32,
    work_w: u32,
    work_h: u32,
    win_w: u32,
    win_h: u32,
) -> (p: (i32, i32))
    requires
        work_w <= i32::MAX,
        work_h <= i32::MAX,
        win_w <= i32::MAX,
        win_h <= i32::MAX,
        i32::MIN <= work_x + work_w <= i32::MAX,
        i32::MIN <= work_x + work_w - win_w - PANEL_MARGIN <= i32::MAX,
        i32::MIN <= work_y + work_h <= i32::MAX,
        i32::MIN <= work_y + work_h - win_h - PANEL_MARGIN <= i32::MAX,
    ensures
        p.0 == at_least_zero(work_x + work_w - win_w - PANEL_MARGIN),
        p.1 == at_least_zero(work_y + work_h - win_h - PANEL_MARGIN),
{
    let x = work_x + work_w as i32 - win_w as i32 - PANEL_MARGIN;
    let y = work_y + work_h as i32 - win_h as i32 - PANEL_MARGIN;
    (if x < 0 {
        0
    } else {
        x
    }, if y < 0 {
        0
    } else {
        y
    })
}

/// What a left click on the tray does to the settings panel.
#[derive(Debug, Clone, Copy, PartialEq, Eq)]
pub enum PanelAction {
    /// Show and focus it.
    Show,
    /// Slide it out, then hide it.
    Hide,
    /// Nothing.
    Nothing,
}

/// A left click on the tray, like Windows 11's control centre: while the
/// panel is sliding out nothing happens; a visible, focused panel is put
/// away; otherwise it is shown.
pub fn toggle_settings(exit_pending: bool, window_exists: bool, visible: bool, focused: bool) -> (a:
    PanelAction)
    ensures
        exit_pending || !window_exists ==> a == PanelAction::Nothing,
        !exit_pending && window_exists && visible && focused ==> a == PanelAction::Hide,
        !exit_pending && window_exists && !(visible && focused) ==> a == PanelAction::Show,
{
    if exit_pending || !window_exists {
        PanelAction::Nothing
    } else if visible && focused {
        PanelAction::Hide
    } else {
        PanelAction::Show
    }
}

/// Whether the panel slides away when it loses focus: yes, except while a
/// login is running.
pub fn hides_on_blur(current_kind: Option<&str>) -> (b: bool)
    ensures
        b == !(current_kind matches Some(k) && k@ == "logging-in"@),
{
    match current_kind {
        Some(k) => !str_eq(k, "logging-in"),
        None => true,
    }
}

} // verus!
