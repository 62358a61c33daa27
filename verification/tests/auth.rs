use yulink::auth::{
    classify_beacon, login_outcome_needs_reload, stale_windows, window_label,
    AuthWindowVisibility, LoginOutcome, LoginOutcomeKind, LoginSession, SessionStep,
    EVAL_WINDOW_MS, TERMINAL_WINDOW_MS,
};
use yulink::bridge::BeaconEvent;

#[test]
fn outcome_messages() {
    let ok = LoginOutcome { kind: LoginOutcomeKind::Success };
    assert!(ok.is_ok());
    assert_eq!(ok.message(), "登录成功");
    let f = LoginOutcome { kind: LoginOutcomeKind::CredentialsFailed("x".into()) };
    assert!(!f.is_ok());
    assert_eq!(f.message(), "认证失败：x");
    assert_eq!(
        LoginOutcome { kind: LoginOutcomeKind::EvalNoResponse }.message(),
        "认证页无响应（网络不可达或门户不可访问）"
    );
    assert!(login_outcome_needs_reload(&LoginOutcome { kind: LoginOutcomeKind::Timeout }));
    assert!(login_outcome_needs_reload(&LoginOutcome {
        kind: LoginOutcomeKind::PageError("timeout: form".into())
    }));
    assert!(!login_outcome_needs_reload(&f));
}

#[test]
fn window_visibility() {
    assert_eq!(AuthWindowVisibility::from_config(true), AuthWindowVisibility::Visible);
    assert_eq!(AuthWindowVisibility::from_config(false), AuthWindowVisibility::Hidden);
    assert_eq!(AuthWindowVisibility::Hidden.describe(), "完全隐藏（生产默认）");
}

#[test]
fn classifies_reports() {
    let m = "m".to_string();
    assert_eq!(classify_beacon("navigating", &m).unwrap().kind, LoginOutcomeKind::Success);
    assert_eq!(classify_beacon("online", &m).unwrap().kind, LoginOutcomeKind::AlreadyOnline);
    assert_eq!(
        classify_beacon("captcha-error", &m).unwrap().kind,
        LoginOutcomeKind::SmsCodeFailed("m".into())
    );
    assert!(classify_beacon("filled", &m).is_none());
}

#[test]
fn a_session_reloads_once_then_gives_up() {
    let mut s = LoginSession::new(5, 0);
    assert!(matches!(s.on_tick(0), SessionStep::Eval));
    assert!(matches!(s.on_tick(100), SessionStep::Wait));
    assert!(matches!(s.on_tick(EVAL_WINDOW_MS + 1), SessionStep::Reload));
    assert!(s.refreshed);
    let t = EVAL_WINDOW_MS + 1;
    match s.on_tick(t + EVAL_WINDOW_MS + 1) {
        SessionStep::Finish(o) => assert_eq!(o.kind, LoginOutcomeKind::EvalNoResponse),
        other => panic!("unexpected {other:?}"),
    }

    let mut s = LoginSession::new(6, 0);
    let started = BeaconEvent { run: 6, state: "started".into(), msg: String::new() };
    assert!(s.on_beacon(&started, 10).is_none());
    assert_eq!(s.started_at, Some(10));
    let other_run = BeaconEvent { run: 1, state: "ok".into(), msg: String::new() };
    assert!(s.on_beacon(&other_run, 11).is_none());
    match s.on_tick(10 + TERMINAL_WINDOW_MS + 1) {
        SessionStep::Reload => {}
        other => panic!("unexpected {other:?}"),
    }
    let timeout = LoginOutcome { kind: LoginOutcomeKind::Timeout };
    match s.on_outcome(timeout, 99_999) {
        SessionStep::Finish(o) => assert_eq!(o.kind, LoginOutcomeKind::Timeout),
        other => panic!("unexpected {other:?}"),
    }
}

#[test]
fn labels() {
    assert_eq!(window_label(12), "auth-12");
    let labels = vec!["main".to_string(), "auth-1".to_string(), "auth-x".to_string()];
    assert_eq!(stale_windows(&labels, "auth-"), vec!["auth-1".to_string(), "auth-x".to_string()]);
    assert!(stale_windows(&labels, "zzz").is_empty());
}
