use yulink::autostart::Sync;
use yulink::commands::{
    apply_preference_changes, get_runtime_status, login_now, portal_setting, set_autostart,
    settings_status, sms_code_to_save, validate_account, AccountInput,
};
use yulink::inject::build_auth_js;
use yulink::logger::{log_file_name, log_line, needs_rotation, rotation_renames, MAX_FILE_BYTES};
use yulink::mock::{mock_reply, response_head, MockBody};
use yulink::poc::{poc_failures, poc_plan, poc_repeat, poc_summary, scenarios, PocRun, PocStep};
use yulink::bridge::BeaconEvent;
use yulink::startup::{boost_needs_repair, flag_set, follow_startup_check, poc_enabled, use_mock_portals};
use yulink::state::{record_status, status, StatusPayload};
use yulink::store::{decode_secret, encode_secret, Account, ConfigPaths, Preferences};
use yulink::tray::{bottom_right, hides_on_blur, toggle_settings, tray_style, tray_tooltip, PanelAction};

#[test]
fn settings_status_line() {
    let v = settings_status(false, true);
    assert_eq!((v.kind.as_str(), v.text.as_str()), ("unconfigured", "未配置账号"));
    let v = settings_status(true, false);
    assert_eq!((v.kind.as_str(), v.text.as_str()), ("needs-sms", "动态密码缺失或已过期"));
    let v = settings_status(true, true);
    assert_eq!((v.kind.as_str(), v.text.as_str()), ("ready", "已就绪，可自动登录"));
}

#[test]
fn account_and_portal_edits() {
    let ok = AccountInput { username: "  2024001 ".into(), password: "p".into(), isp: "2".into() };
    assert_eq!(validate_account(&ok), Ok("2024001".to_string()));
    let blank = AccountInput { username: "  ".into(), password: "p".into(), isp: "2".into() };
    assert_eq!(validate_account(&blank), Err("账号与密码需同时填写".to_string()));
    let nopass = AccountInput { username: "u".into(), password: String::new(), isp: "2".into() };
    assert!(validate_account(&nopass).is_err());

    assert_eq!(sms_code_to_save(" 123456 "), Some("123456".to_string()));
    assert_eq!(sms_code_to_save("   "), None);
    assert_eq!(portal_setting(" http://a/ ", false), Ok("http://a/".to_string()));
    assert_eq!(portal_setting(" ", false), Err("无线认证网址不能为空".to_string()));
    assert_eq!(portal_setting("", true), Err("有线认证网址不能为空".to_string()));

    let mut prefs = Preferences::default();
    let before = prefs.clone();
    assert_eq!(
        apply_preference_changes(&mut prefs, Some("http://x/"), Some(" "), Some(true), None, None, None),
        Err("有线认证网址不能为空".to_string())
    );
    assert_eq!(prefs, before);
    assert_eq!(
        apply_preference_changes(&mut prefs, None, Some(" http://y/ "), Some(true), None, Some(false), None),
        Ok(())
    );
    assert_eq!(prefs.portal_wired, "http://y/");
    assert_eq!(prefs.portal_wireless, before.portal_wireless);
    assert!(prefs.away_mode);
    assert!(!prefs.auto_relogin);
    assert_eq!(prefs.show_auth_window, before.show_auth_window);
}

#[test]
fn command_answers() {
    assert!(login_now(true).unwrap_err().starts_with("离校模式已开启"));
    let (r, m) = login_now(false).unwrap();
    assert_eq!(m, yulink::scheduler::SchedMessage::LoginNow);
    assert!(r.ok);
    assert_eq!(r.message, "已触发自动登录，请稍候查看状态");
    assert_eq!(set_autostart(true).message, "开机自启已开启");
    assert_eq!(set_autostart(false).message, "开机自启已关闭");
    let p = get_runtime_status(None);
    assert_eq!((p.kind.as_str(), p.text.as_str()), ("checking", "正在检测网络…"));
    let p = get_runtime_status(Some(status("connected", "已连接".into())));
    assert_eq!(p.kind, "connected");
}

#[test]
fn status_is_announced_only_on_change() {
    let mut last: Option<StatusPayload> = None;
    assert!(record_status(&mut last, "connected", "已连接".into()));
    assert!(!record_status(&mut last, "connected", "已连接".into()));
    assert!(record_status(&mut last, "failed", "x".into()));
    assert_eq!(last.unwrap().kind, "failed");
}

#[test]
fn defaults_and_paths() {
    let p = Preferences::default();
    assert!(p.autostart && p.auto_relogin && !p.away_mode);
    assert_eq!(p.portal_wireless, "http://172.26.255.2/");
    assert_eq!(p.check_interval_offline_sec, 30);
    assert_eq!(Account::default().isp, "2");
    let c = ConfigPaths { dir: "C:\\cfg".into() };
    assert_eq!(c.clone(), c);
}

#[test]
fn secrets_roundtrip_through_base64() {
    let bytes = vec![0u8, 1, 2, 250, 251, 255, 7];
    let s = encode_secret(&bytes);
    assert_eq!(s, "dpapi:v1:AAEC+vv/Bw==");
    assert_eq!(decode_secret(&s), Ok(bytes));
    assert_eq!(encode_secret(&[]), "dpapi:v1:");
    assert_eq!(decode_secret("plain"), Err("密文缺少 dpapi:v1: 前缀".to_string()));
    assert!(decode_secret("dpapi:v1:***").unwrap_err().starts_with("base64 解码失败: "));
}

#[test]
fn tray_looks() {
    let s = tray_style("connected");
    assert_eq!((s.r, s.g, s.b, s.label.as_str()), (31, 161, 85, "已连接"));
    assert_eq!(tray_style("ready").label, "已连接");
    assert_eq!(tray_style("away-mode").label, "离校模式");
    assert_eq!(tray_style("whatever").label, "检测中");
    assert_eq!(tray_tooltip("登录中"), "御连 YuLink - 登录中");
    assert_eq!(bottom_right(0, 0, 1920, 1040, 400, 600), (1500, 420));
    assert_eq!(bottom_right(0, 0, 300, 300, 400, 600), (0, 0));
    assert_eq!(toggle_settings(false, true, true, true), PanelAction::Hide);
    assert_eq!(toggle_settings(false, true, true, false), PanelAction::Show);
    assert_eq!(toggle_settings(true, true, false, false), PanelAction::Nothing);
    assert!(!hides_on_blur(Some("logging-in")));
    assert!(hides_on_blur(Some("connected")));
    assert!(hides_on_blur(None));
}

#[test]
fn stand_in_portal_routes() {
    let r = mock_reply("GET /wireless.html?result=success HTTP/1.1", false);
    assert_eq!((r.status, r.reason.as_str(), r.body), (200, "OK", MockBody::Wireless));
    assert_eq!(mock_reply("GET / HTTP/1.1", false).body, MockBody::Wireless);
    assert_eq!(mock_reply("GET /wired.html HTTP/1.1", true).body, MockBody::Wired);
    assert_eq!(mock_reply("GET /ext-ok HTTP/1.1", true).status, 204);
    assert_eq!(mock_reply("GET /ext-ok HTTP/1.1", false).status, 404);
    assert_eq!(mock_reply("POST / HTTP/1.1", true).status, 405);
    assert_eq!(mock_reply("", true).status, 405);
    assert_eq!(mock_reply("GET", true).body, MockBody::Wireless);
    assert_eq!(
        response_head(204, "No Content", 0),
        "HTTP/1.1 204 No Content\r\nContent-Type: text/html; charset=utf-8\r\nContent-Length: 0\r\nConnection: close\r\n\r\n"
    );
}

#[test]
fn log_files() {
    assert_eq!(log_file_name(0), "yulink.log");
    assert_eq!(log_file_name(3), "yulink.log.3");
    assert_eq!(rotation_renames(), vec![(2, 3), (1, 2), (0, 1)]);
    assert!(!needs_rotation(MAX_FILE_BYTES));
    assert!(needs_rotation(MAX_FILE_BYTES + 1));
    assert_eq!(
        log_line("INFO", "2024-01-01T00:00:00+08:00", "hello"),
        "[INFO  2024-01-01T00:00:00+08:00] hello\r\n"
    );
    assert_eq!(log_line("ERROR", "t", "m"), "[ERROR t] m\r\n");
    assert_eq!(log_line("LONGER", "t", "m"), "[LONGER t] m\r\n");
}

#[test]
fn script_template() {
    assert_eq!(
        build_auth_js("const c = __YL_CFG__; f(__YL_CFG__);", "{\"a\":1}"),
        "const c = {\"a\":1}; f({\"a\":1});"
    );
    assert_eq!(build_auth_js("no token", "x"), "no token");
}

#[test]
fn startup_switches() {
    assert!(flag_set(Some("1")));
    assert!(!flag_set(Some("true")));
    assert!(!flag_set(None));
    assert!(poc_enabled(Some("1")));
    assert!(poc_enabled(Some("yes")));
    assert!(!poc_enabled(Some("0")));
    assert!(!poc_enabled(Some("FaLsE")));
    assert!(!poc_enabled(None));
    let mut p = Preferences::default();
    use_mock_portals(&mut p, 5173);
    assert_eq!(p.portal_wireless, "http://127.0.0.1:5173/wireless.html?result=success");
    assert_eq!(p.portal_wired, "http://127.0.0.1:5173/wired.html?result=success");
    assert_eq!(p.external_probe_url, "http://127.0.0.1:1/");
    let mut p = Preferences::default();
    assert!(!follow_startup_check(&mut p, &Sync::UpToDate));
    assert!(p.autostart);
    assert!(follow_startup_check(&mut p, &Sync::DisabledByUser));
    assert!(!p.autostart);
    assert!(boost_needs_repair(true, false));
    assert!(!boost_needs_repair(true, true));
    assert!(!boost_needs_repair(false, false));
}

#[test]
fn poc_table_and_timing() {
    assert_eq!(scenarios("all").unwrap().len(), 4);
    let s = &scenarios("captcha").unwrap()[0];
    assert_eq!((s.path.as_str(), s.sms_code.as_str(), s.expected.as_str()), ("/wireless.html?result=success&badcode=1", "000000", "captcha-error"));
    assert_eq!(scenarios("nope"), Err("未知的 YULINK_POC_MODE: nope".to_string()));
    assert_eq!(poc_repeat(Some("3")), 3);
    assert_eq!(poc_repeat(Some("x")), 1);
    assert_eq!(poc_repeat(None), 1);
    assert_eq!(poc_summary(0), Ok(()));
    assert_eq!(poc_summary(2), Err("2 个场景未通过".to_string()));

    let mut run = PocRun::new(3, 0);
    assert!(matches!(run.on_tick(0), PocStep::Eval));
    assert!(matches!(run.on_tick(10), PocStep::Wait));
    let ev = |state: &str| BeaconEvent { run: 3, state: state.into(), msg: String::new() };
    assert_eq!(run.on_beacon(&ev("started"), 50), None);
    assert_eq!(run.on_beacon(&ev("filled"), 60), None);
    assert_eq!(run.on_beacon(&ev("navigating"), 70), Some("ok".to_string()));
    assert_eq!(run.on_beacon(&ev("captcha-error"), 70), Some("captcha-error".to_string()));
    match run.on_tick(50 + 25_001) {
        PocStep::Finish(s) => assert_eq!(s, "timeout(rust)"),
        other => panic!("unexpected {other:?}"),
    }
    let mut silent = PocRun::new(4, 0);
    match silent.on_tick(30_001) {
        PocStep::Finish(s) => assert_eq!(s, "eval-no-response"),
        other => panic!("unexpected {other:?}"),
    }
}

#[test]
fn poc_plan_and_tally() {
    let plan = poc_plan("all", 2).unwrap();
    assert_eq!(plan.len(), 8);
    let ids: Vec<u64> = plan.iter().map(|(id, _)| *id).collect();
    assert_eq!(ids, vec![1, 2, 3, 4, 5, 6, 7, 8]);
    assert_eq!(plan[5].1.expected, "failed");
    assert_eq!(plan[7].1.path, "/wired.html?result=success");
    assert_eq!(poc_plan("wired", 0).unwrap().len(), 0);
    assert_eq!(poc_plan("x", 3), Err("未知的 YULINK_POC_MODE: x".to_string()));

    let plan = poc_plan("all", 1).unwrap();
    let good: Vec<Result<String, String>> =
        vec![Ok("ok".into()), Ok("failed".into()), Ok("captcha-error".into()), Ok("ok".into())];
    assert_eq!(poc_failures(&plan, &good), 0);
    let bad: Vec<Result<String, String>> =
        vec![Ok("ok".into()), Ok("ok".into()), Err("boom".into()), Ok("ok".into())];
    assert_eq!(poc_failures(&plan, &bad), 2);
}
