use yulink::auth::{AuthWindowVisibility, LoginOutcome, LoginOutcomeKind};
use yulink::network::Medium;
use yulink::scheduler::{
    backoff_fits, backoff_secs, confirm_status_text, gate_update, is_login_failure, medium_display,
    portal_candidates, probe_reason, probe_urls, CheckStep, FullCheck, ProbeRound, ProbeStep,
    RestoreCheck, RestoreStep, SchedClock, SchedCtx, SchedMessage, Scheduler, GATE_HOLD_SEC,
};
use yulink::store::Preferences;

fn done(step: &CheckStep) -> (Option<(String, String)>, bool, u64) {
    match step {
        CheckStep::Done { status, quit, wait_secs } => (
            status.as_ref().map(|p| (p.kind.clone(), p.text.clone())),
            *quit,
            *wait_secs,
        ),
        other => panic!("not done: {other:?}"),
    }
}

#[test]
fn backoff_doubles_up_to_the_retry_count() {
    assert_eq!(backoff_secs(0, 3), 30);
    assert_eq!(backoff_secs(1, 3), 30);
    assert_eq!(backoff_secs(2, 3), 60);
    assert_eq!(backoff_secs(3, 3), 120);
    assert_eq!(backoff_secs(4, 3), 240);
    assert_eq!(backoff_secs(10, 3), 240);
    assert_eq!(backoff_secs(5, 0), 60);
    assert!(backoff_fits(60, 100));
    assert!(!backoff_fits(61, 100));
    let mut last = 0;
    for f in 0..20 {
        let b = backoff_secs(f, 5);
        assert!(b >= last);
        last = b;
    }
}

#[test]
fn the_gate_wakes_on_flips_and_at_the_threshold() {
    let mut ctx = SchedCtx::default();
    let mut last = None;
    let g = gate_update(&mut ctx, &mut last, true);
    assert!(g.wake_full && !g.recovered);
    let g = gate_update(&mut ctx, &mut last, true);
    assert!(!g.wake_full);
    let g = gate_update(&mut ctx, &mut last, false);
    assert!(!g.wake_full && g.log_failure);
    let g = gate_update(&mut ctx, &mut last, false);
    assert!(g.wake_full && g.log_failure);
    let g = gate_update(&mut ctx, &mut last, false);
    assert!(!g.wake_full && !g.log_failure);
    assert_eq!(ctx.external_fail, 3);
    let g = gate_update(&mut ctx, &mut last, true);
    assert!(g.wake_full && g.recovered);
    assert_eq!(ctx.external_fail, 0);
}

#[test]
fn portals_follow_the_medium() {
    let wl = "http://w/".to_string();
    let wd = "http://d/".to_string();
    assert_eq!(portal_candidates(Medium::Wired, &wl, &wd), vec![wd.clone(), wl.clone()]);
    assert_eq!(portal_candidates(Medium::Wireless, &wl, &wd), vec![wl.clone(), wd.clone()]);
    assert_eq!(medium_display(Medium::Other), "其他");
}

#[test]
fn away_mode_and_missing_account_stop_the_check() {
    let mut prefs = Preferences::default();
    prefs.away_mode = true;
    let (_, step) = FullCheck::start(&prefs, true, true, false, &SchedCtx::default());
    assert_eq!(done(&step), (Some(("away-mode".to_string(), "离校模式：自动认证已暂停".to_string())), false, 300));
    let prefs = Preferences::default();
    let (_, step) = FullCheck::start(&prefs, false, false, false, &SchedCtx::default());
    assert_eq!(done(&step).2, 60);
}

#[test]
fn one_failed_probe_never_logs_in() {
    let prefs = Preferences::default();
    let mut ctx = SchedCtx::default();
    ctx.external_fail = 1;
    let (mut fc, step) = FullCheck::start(&prefs, true, false, false, &ctx);
    assert!(matches!(step, CheckStep::ProbeExternal));
    let step = fc.on_external(&mut ctx, false);
    assert_eq!(done(&step), (None, false, GATE_HOLD_SEC));
}

#[test]
fn full_login_round() {
    let prefs = Preferences::default();
    let mut ctx = SchedCtx::default();
    ctx.external_fail = 2;
    let (mut fc, _) = FullCheck::start(&prefs, true, false, false, &ctx);
    assert!(matches!(fc.on_external(&mut ctx, false), CheckStep::DetectMedium));
    let wl = prefs.portal_wireless.clone();
    let wd = prefs.portal_wired.clone();
    match fc.on_medium(Medium::Wired, &wl, &wd) {
        CheckStep::ProbePortal(u) => assert_eq!(u, wd),
        other => panic!("unexpected {other:?}"),
    }
    match fc.on_portal(false) {
        CheckStep::ProbePortal(u) => assert_eq!(u, wl),
        other => panic!("unexpected {other:?}"),
    }
    assert!(matches!(fc.on_portal(true), CheckStep::ReadCredentials));
    match fc.on_credentials(&ctx, true, Some(("u".into(), "p".into())), Some("123456".into())) {
        CheckStep::RunLogin { portal, account, password, sms_code, visibility, detect_only, announce } => {
            assert_eq!(portal, wl);
            assert_eq!((account.as_str(), password.as_str(), sms_code.as_str()), ("u", "p", "123456"));
            assert_eq!(visibility, AuthWindowVisibility::Hidden);
            assert!(!detect_only);
            assert_eq!(announce.kind, "logging-in");
            assert_eq!(announce.text, "正在自动登录");
        }
        other => panic!("unexpected {other:?}"),
    }
    let step = fc.on_login(&mut ctx, Ok(LoginOutcome { kind: LoginOutcomeKind::Success }));
    assert!(matches!(step, CheckStep::ConfirmExternal));
    let step = fc.on_confirm(&mut ctx, true);
    assert_eq!(done(&step), (Some(("connected".to_string(), "已连接".to_string())), false, 120));
    assert_eq!(ctx.external_fail, 0);
    assert!(ctx.first_connect_done);
}

#[test]
fn failed_login_backs_off() {
    let prefs = Preferences::default();
    let mut ctx = SchedCtx::default();
    let (mut fc, _) = FullCheck::start(&prefs, true, true, false, &ctx);
    let wl = prefs.portal_wireless.clone();
    let wd = prefs.portal_wired.clone();
    assert!(matches!(fc.on_medium(Medium::Wireless, &wl, &wd), CheckStep::ReadCredentials));
    let _ = fc.on_credentials(&ctx, true, Some(("u".into(), "p".into())), Some("1".into()));
    let step = fc.on_login(&mut ctx, Ok(LoginOutcome { kind: LoginOutcomeKind::CredentialsFailed("密码错误".into()) }));
    assert_eq!(
        done(&step),
        (
            Some(("failed".to_string(), "认证失败：密码错误（动态密码保留，第 1 次失败，按退避重试）".to_string())),
            false,
            30
        )
    );
    assert_eq!(ctx.login_fail, 1);
}

#[test]
fn portal_success_without_internet_pauses_relogin() {
    let prefs = Preferences::default();
    let mut ctx = SchedCtx::default();
    let (mut fc, _) = FullCheck::start(&prefs, true, true, false, &ctx);
    let wl = prefs.portal_wireless.clone();
    let wd = prefs.portal_wired.clone();
    let _ = fc.on_medium(Medium::Wireless, &wl, &wd);
    let _ = fc.on_credentials(&ctx, true, Some(("u".into(), "p".into())), Some("1".into()));
    let _ = fc.on_login(&mut ctx, Ok(LoginOutcome { kind: LoginOutcomeKind::Success }));
    let step = fc.on_confirm(&mut ctx, false);
    assert_eq!(done(&step).2, GATE_HOLD_SEC);
    assert!(ctx.page_ok_pending);
    // the next automatic round does not log in again
    ctx.external_fail = 5;
    let (mut fc, _) = FullCheck::start(&prefs, true, false, false, &ctx);
    let step = fc.on_external(&mut ctx, false);
    assert_eq!(done(&step).0.unwrap().0, "failed");
}

#[test]
fn clock_and_messages() {
    let mut clock = SchedClock::new(1000);
    assert!(clock.gate_due(1000) && clock.full_due(1000));
    clock.gate_started();
    clock.full_finished(1000, 60);
    assert_eq!(clock.wait_ms(1000), Some(8000));
    clock.on_message(SchedMessage::LoginNow, 2000);
    assert!(clock.full_due(2000));
    assert!(clock.take_force());
    assert!(!clock.take_force());

    let (tx, rx) = std::sync::mpsc::channel();
    let s = Scheduler::new(tx);
    assert_eq!(s.request_login(), SchedMessage::LoginNow);
    assert_eq!(s.clone().check_now(), SchedMessage::CheckNow);
    assert!(rx.try_recv().is_err());
    s.sender().send(s.request_login()).unwrap();
    s.sender().send(s.check_now()).unwrap();
    assert_eq!(rx.try_recv().unwrap(), SchedMessage::LoginNow);
    assert_eq!(rx.try_recv().unwrap(), SchedMessage::CheckNow);
    assert!(rx.try_recv().is_err());
}

#[test]
fn probe_texts() {
    assert_eq!(probe_urls("http://p/")[0], "http://p/");
    assert_eq!(probe_urls("http://p/").len(), 3);
    assert_eq!(probe_reason("u", true, "HTTP 204"), "u: ok（HTTP 204）");
    assert_eq!(probe_reason("u", false, "x"), "u: x");
    assert_eq!(confirm_status_text(2), "正在确认外网恢复（2/3）");
}

#[test]
fn probing_stops_at_the_first_online_endpoint() {
    let (mut round, step) = ProbeRound::start("http://p/");
    assert!(matches!(step, ProbeStep::Probe(ref u) if u == "http://p/"));
    match round.on_result(false, "HTTP 302（x）") {
        ProbeStep::Probe(u) => assert_eq!(u, "http://connect.rom.miui.com/generate_204"),
        other => panic!("unexpected {other:?}"),
    }
    assert!(matches!(round.on_result(true, "HTTP 204"), ProbeStep::Done(true)));
    assert_eq!(
        round.reasons,
        vec![
            "http://p/: HTTP 302（x）".to_string(),
            "http://connect.rom.miui.com/generate_204: ok（HTTP 204）".to_string()
        ]
    );

    let (mut round, _) = ProbeRound::start("http://p/");
    let _ = round.on_result(false, "a");
    let _ = round.on_result(false, "b");
    assert!(matches!(round.on_result(false, "c"), ProbeStep::Done(false)));
    assert_eq!(round.reasons.len(), 3);
}

#[test]
fn confirmation_tries_three_times() {
    let (mut c, step) = RestoreCheck::start();
    assert!(matches!(step, RestoreStep::Probe { ref announce } if announce == "正在确认外网恢复（1/3）"));
    assert!(matches!(c.on_probe(false), RestoreStep::Probe { ref announce } if announce == "正在确认外网恢复（2/3）"));
    assert!(matches!(c.on_probe(false), RestoreStep::Probe { ref announce } if announce == "正在确认外网恢复（3/3）"));
    assert!(matches!(c.on_probe(false), RestoreStep::Done(false)));
    let (mut c, _) = RestoreCheck::start();
    assert!(matches!(c.on_probe(true), RestoreStep::Done(true)));
}

#[test]
fn login_failures_and_waits() {
    assert!(!is_login_failure(&Ok(LoginOutcome { kind: LoginOutcomeKind::Success })));
    assert!(!is_login_failure(&Ok(LoginOutcome { kind: LoginOutcomeKind::AlreadyOnline })));
    assert!(is_login_failure(&Ok(LoginOutcome { kind: LoginOutcomeKind::Timeout })));
    assert!(is_login_failure(&Err("x".into())));

    // a confirmed login waits the online interval, never below 10 s
    let mut prefs = Preferences::default();
    prefs.check_interval_online_sec = 3;
    let mut ctx = SchedCtx::default();
    let (mut fc, _) = FullCheck::start(&prefs, true, true, false, &ctx);
    let wl = prefs.portal_wireless.clone();
    let wd = prefs.portal_wired.clone();
    let _ = fc.on_medium(Medium::Wireless, &wl, &wd);
    let _ = fc.on_credentials(&ctx, true, Some(("u".into(), "p".into())), Some("1".into()));
    // a success needs no room for a backoff, even with the counters at their limit
    ctx.login_fail = u32::MAX;
    let _ = fc.on_login(&mut ctx, Ok(LoginOutcome { kind: LoginOutcomeKind::Success }));
    let step = fc.on_confirm(&mut ctx, true);
    assert_eq!(done(&step).2, 10);
}
