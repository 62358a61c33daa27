//! The login scheduler's decisions: the cheap connectivity watch with its
//! hysteresis, the full check (probe, pick a portal, log in, confirm), the
//! retry backoff, and the timing of the scheduler loop.

use vstd::prelude::*;
use vstd::arithmetic::power2::{pow2, lemma2_to64, lemma2_to64_rest, lemma_pow2_strictly_increases};
use crate::auth::{AuthWindowVisibility, LoginOutcome, LoginOutcomeKind, outcome_message};
use crate::network::Medium;
use crate::state::{StatusPayload, status};
use crate::store::Preferences;
use crate::text::{concat2, concat3, decimal, decimal_string, owned, push_str};

verus! {

broadcast use vstd::string::group_string_axioms;

/// Consecutive watch failures after which the network counts as down.
pub const OFFLINE_GATE_FAILS: u32 = 2;
/// How long the full check sleeps while the watch has not yet declared the
/// network down (the watch wakes it early when connectivity flips).
pub const GATE_HOLD_SEC: u64 = 300;
/// Interval of the cheap connectivity watch.
pub const GATE_INTERVAL_SEC: u64 = 8;
/// The same interval in milliseconds.
pub const GATE_INTERVAL_MS: u64 = 8000;

/// State the scheduler keeps from one round to the next.
#[derive(Debug, Clone, Copy, PartialEq, Eq)]
pub struct SchedCtx {
    /// Consecutive watch failures (shared by the watch and the full check).
    pub external_fail: u32,
    /// Consecutive login failures, for the backoff.
    pub login_fail: u32,
    /// A first connection has been reached in this run.
    pub first_connect_done: bool,
    /// The portal accepted the last login but the internet did not come back:
    /// no automatic login until it does or the user asks.
    pub page_ok_pending: bool,
}

impl Default for SchedCtx {
    fn default() -> (c: Self)
        ensures
            c.external_fail == 0,
            c.login_fail == 0,
            !c.first_connect_done,
            !c.page_ok_pending,
    {
        SchedCtx { external_fail: 0, login_fail: 0, first_connect_done: false, page_ok_pending: false }
    }
}

// ===================== backoff =====================

/// The exponent of the backoff: the failures beyond the first, capped by
/// the configured retry count (at least 1).
pub open spec fn backoff_exponent(login_fail: u32, max_retries: u32) -> nat {
    let steps: nat = if max_retries < 1 { 1 } else { max_retries as nat };
    let fails: nat = if login_fail < 1 { 0 } else { (login_fail - 1) as nat };
    if fails < steps { fails } else { steps }
}

/// Retry delay after login failures: 30 s, 60 s, 120 s, ... doubling, with
/// the exponent capped by the retry count.
pub open spec fn backoff(login_fail: u32, max_retries: u32) -> nat {
    30 * pow2(backoff_exponent(login_fail, max_retries))
}

/// The delay fits a `u64` (`30 * 2^exponent` overflows beyond this).
pub open spec fn backoff_defined(login_fail: u32, max_retries: u32) -> bool {
    backoff_exponent(login_fail, max_retries) <= 59
}

proof fn lemma_backoff_at_least_30(login_fail: u32, max_retries: u32)
    ensures
        backoff(login_fail, max_retries) >= 30,
{
    let e = backoff_exponent(login_fail, max_retries);
    vstd::arithmetic::power2::lemma_pow2_pos(e);
    let p = pow2(e);
    assert(30 * p >= 30) by (nonlinear_arith)
        requires
            p > 0,
    ;
}

pub fn backoff_secs(login_fail: u32, max_retries: u32) -> (s: u64)
    requires
        backoff_defined(login_fail, max_retries),
    ensures
        s == backoff(login_fail, max_retries),
{
    let steps = if max_retries < 1 { 1 } else { max_retries };
    let fails = login_fail.saturating_sub(1);
    let exp = if fails < steps { fails } else { steps };
    let mut v: u64 = 30;
    let mut i: u32 = 0;
    proof {
        lemma2_to64();
    }
    while i < exp
        invariant
            i <= exp <= 59,
            v == 30 * pow2(i as nat),
            exp as nat == backoff_exponent(login_fail, max_retries),
        decreases exp - i,
    {
        proof {
            lemma2_to64();
            if i + 1 < 59 {
                lemma_pow2_strictly_increases((i + 1) as nat, 59);
            }
            assert(pow2((i + 1) as nat) == 2 * pow2(i as nat)) by {
                vstd::arithmetic::power2::lemma_pow2_unfold((i + 1) as nat);
            }
            assert(pow2((i + 1) as nat) <= pow2(59));
            lemma2_to64_rest();
            assert(v * 2 == 30 * pow2((i + 1) as nat));
        }
        v = v * 2;
        i += 1;
    }
    v
}

/// Whether the backoff for these counts fits a `u64`.
pub fn backoff_fits(login_fail: u32, max_retries: u32) -> (b: bool)
    ensures
        b == backoff_defined(login_fail, max_retries),
{
    let steps = if max_retries < 1 { 1 } else { max_retries };
    let fails = login_fail.saturating_sub(1);
    let exp = if fails < steps { fails } else { steps };
    exp <= 59
}

/// Law: the backoff never shrinks as failures accumulate, starts at 30 s,
/// and never exceeds 30 s times two to the retry count.
pub proof fn law_backoff_monotone(f1: u32, f2: u32, max_retries: u32)
    requires
        f1 <= f2,
    ensures
        backoff(f1, max_retries) <= backoff(f2, max_retries),
        f1 <= 1 ==> backoff(f1, max_retries) == 30,
        backoff(f2, max_retries) <= 30 * pow2(if max_retries < 1 { 1 } else { max_retries as nat }),
{
    let e1 = backoff_exponent(f1, max_retries);
    let e2 = backoff_exponent(f2, max_retries);
    let cap: nat = if max_retries < 1 { 1 } else { max_retries as nat };
    if e1 < e2 {
        lemma_pow2_strictly_increases(e1, e2);
    }
    if e2 < cap {
        lemma_pow2_strictly_increases(e2, cap);
    }
    if f1 <= 1 {
        assert(e1 == 0);
        assert(pow2(0) == 1) by {
            lemma2_to64();
        }
    }
}

// ===================== the watch =====================

/// What one watch result asks of the scheduler loop.
#[derive(Debug, Clone, Copy, PartialEq, Eq)]
pub struct GateOutcome {
    /// Run the full check now.
    pub wake_full: bool,
    /// The network came back after being declared down (for the log).
    pub recovered: bool,
    /// Log this failure (only the first few of a streak are logged).
    pub log_failure: bool,
}

/// Takes in one watch result. A flip of connectivity, or the watch reaching
/// the offline threshold exactly, wakes the full check; later failures of
/// the same streak do not, so the backoff is not overridden every 8 s.
pub fn gate_update(ctx: &mut SchedCtx, last_online: &mut Option<bool>, online: bool) -> (g: GateOutcome)
    ensures
        *final(last_online) == Some(online),
        final(ctx).login_fail == old(ctx).login_fail,
        final(ctx).first_connect_done == old(ctx).first_connect_done,
        online ==> {
            &&& final(ctx).external_fail == 0
            &&& !final(ctx).page_ok_pending
            &&& g.recovered == (old(ctx).external_fail >= OFFLINE_GATE_FAILS)
            &&& g.wake_full == (*old(last_online) != Some(true))
            &&& !g.log_failure
        },
        !online ==> {
            &&& final(ctx).external_fail == old(ctx).external_fail.saturating_add(1)
            &&& final(ctx).page_ok_pending == old(ctx).page_ok_pending
            &&& g.wake_full == (final(ctx).external_fail == OFFLINE_GATE_FAILS)
            &&& g.log_failure == (final(ctx).external_fail <= OFFLINE_GATE_FAILS)
            &&& !g.recovered
        },
{
    let changed = match *last_online {
        Some(o) => o != online,
        None => true,
    };
    *last_online = Some(online);
    if online {
        let recovered = ctx.external_fail >= OFFLINE_GATE_FAILS;
        ctx.external_fail = 0;
        ctx.page_ok_pending = false;
        GateOutcome { wake_full: changed, recovered, log_failure: false }
    } else {
        ctx.external_fail = ctx.external_fail.saturating_add(1);
        GateOutcome {
            wake_full: ctx.external_fail == OFFLINE_GATE_FAILS,
            recovered: false,
            log_failure: ctx.external_fail <= OFFLINE_GATE_FAILS,
        }
    }
}


// ===================== portals =====================

/// The portals to try, the one matching the medium first.
pub fn portal_candidates(medium: Medium, wireless: &String, wired: &String) -> (v: Vec<String>)
    ensures
        v@.len() == 2,
        medium is Wired ==> v@[0]@ == wired@ && v@[1]@ == wireless@,
        !(medium is Wired) ==> v@[0]@ == wireless@ && v@[1]@ == wired@,
{
    let mut v: Vec<String> = Vec::new();
    match medium {
        Medium::Wired => {
            v.push(wired.clone());
            v.push(wireless.clone());
        },
        _ => {
            v.push(wireless.clone());
            v.push(wired.clone());
        },
    }
    v
}

/// How a medium is named to the user.
pub fn medium_display(medium: Medium) -> (s: &'static str)
    ensures
        s@ == (match medium {
            Medium::Wireless => "无线"@,
            Medium::Wired => "有线"@,
            Medium::Other => "其他"@,
        }),
{
    match medium {
        Medium::Wireless => "无线",
        Medium::Wired => "有线",
        Medium::Other => "其他",
    }
}

// ===================== the full check =====================

/// A configured interval, but never below 10 s.
pub open spec fn at_least_10(x: u64) -> u64 {
    if x < 10 {
        10
    } else {
        x
    }
}

/// Where a full check stands.
#[derive(Debug, Clone, Copy, PartialEq, Eq)]
pub enum CheckPhase {
    /// Waiting for the external probe.
    External,
    /// Waiting for the medium.
    Medium,
    /// Waiting for the reachability of candidate `i`.
    Portal(usize),
    /// Waiting for the clock and the decrypted credentials.
    Credentials,
    /// Waiting for the login session.
    Login,
    /// Waiting for the external confirmation after a login; `already_online`
    /// when the page showed an existing session.
    Confirm { already_online: bool },
    /// The check is over.
    Over,
}

/// What the full check asks of its driver.
#[derive(Debug)]
pub enum CheckStep {
    ProbeExternal,
    DetectMedium,
    ProbePortal(String),
    ReadCredentials,
    /// Announce `announce`, then run a login session with these inputs.
    RunLogin {
        portal: String,
        account: String,
        password: String,
        sms_code: String,
        visibility: AuthWindowVisibility,
        detect_only: bool,
        announce: StatusPayload,
    },
    /// Confirm that the internet is back (a few probes).
    ConfirmExternal,
    /// The check is over: announce `status` if any, quit if asked, and run
    /// the next full check after `wait_secs`.
    Done { status: Option<StatusPayload>, quit: bool, wait_secs: u64 },
}

/// `step` ends the check announcing `kind`/`text`.
pub open spec fn is_done(step: CheckStep, kind: Seq<char>, text: Seq<char>, quit: bool, wait: u64) -> bool {
    step matches CheckStep::Done { status: Some(p), quit: q, wait_secs: w } && p.kind@ == kind
        && p.text@ == text && q == quit && w == wait
}

/// `step` ends the check silently.
pub open spec fn is_hold(step: CheckStep, wait: u64) -> bool {
    step matches CheckStep::Done { status: None, quit: false, wait_secs: w } && w == wait
}

/// Every wait a check ends with is at least ten seconds.
pub open spec fn waits_at_least_10(step: CheckStep) -> bool {
    step matches CheckStep::Done { wait_secs: w, .. } ==> w >= 10
}

/// The login session failed: an error, or a final report other than an
/// accepted login, an existing session or a login form seen in detection.
pub open spec fn login_failed(result: Result<LoginOutcome, String>) -> bool {
    match result {
        Ok(o) => !(o.kind is AlreadyOnline || o.kind is LoginFormPresent || o.kind is Success),
        Err(_) => true,
    }
}

/// Whether a login session failed (see [`login_failed`]).
pub fn is_login_failure(result: &Result<LoginOutcome, String>) -> (b: bool)
    ensures
        b == login_failed(*result),
{
    match result {
        Ok(o) => match o.kind {
            LoginOutcomeKind::AlreadyOnline | LoginOutcomeKind::LoginFormPresent | LoginOutcomeKind::Success => false,
            _ => true,
        },
        Err(_) => true,
    }
}

/// One full check: the decisions of one round, driven step by step.
pub struct FullCheck {
    pub force_login: bool,
    pub mock_portal: bool,
    pub auto_relogin: bool,
    pub show_auth_window: bool,
    pub quit_after_connect: bool,
    pub interval_online_sec: u64,
    pub interval_offline_sec: u64,
    pub login_max_retries: u32,
    /// Gate failures when the check began.
    pub external_fail_at_start: u32,
    /// Whether a confirmed-by-portal login was pending when the check began.
    pub pending_at_start: bool,
    pub phase: CheckPhase,
    pub candidates: Vec<String>,
    pub portal: String,
    pub detect_only: bool,
}

impl FullCheck {
    /// A login is only ever reached when the user asked for it, or when no
    /// portal-accepted login is pending and the watch has seen the network
    /// down twice in a row (or the mock portal is in use).
    pub open spec fn gate_passed(&self) -> bool {
        self.force_login || (!self.pending_at_start && (self.external_fail_at_start
            >= OFFLINE_GATE_FAILS || self.mock_portal))
    }

    /// The settings a check began with, which no step changes.
    pub open spec fn same_settings(&self, other: FullCheck) -> bool {
        &&& self.force_login == other.force_login
        &&& self.mock_portal == other.mock_portal
        &&& self.auto_relogin == other.auto_relogin
        &&& self.show_auth_window == other.show_auth_window
        &&& self.quit_after_connect == other.quit_after_connect
        &&& self.interval_online_sec == other.interval_online_sec
        &&& self.interval_offline_sec == other.interval_offline_sec
        &&& self.login_max_retries == other.login_max_retries
        &&& self.external_fail_at_start == other.external_fail_at_start
        &&& self.pending_at_start == other.pending_at_start
    }

    pub open spec fn inv(&self) -> bool {
        &&& (self.phase matches CheckPhase::Portal(i) ==> i < self.candidates@.len())
        &&& self.candidates@.len() == 2
        &&& (match self.phase {
            CheckPhase::External | CheckPhase::Over => true,
            _ => self.gate_passed(),
        })
        &&& (self.phase is External ==> !self.force_login)
    }

    /// Begins a full check. Away mode stops everything, even a manual
    /// login; no account stops it too; otherwise the external probe comes
    /// first unless the user asked to log in now.
    pub fn start(prefs: &Preferences, has_account: bool, force_login: bool, mock_portal: bool, ctx: &SchedCtx) -> (r: (FullCheck, CheckStep))
        ensures
            r.0.inv(),
            waits_at_least_10(r.1),
            r.0.force_login == force_login,
            r.0.mock_portal == mock_portal,
            r.0.auto_relogin == prefs.auto_relogin,
            r.0.login_max_retries == prefs.login_max_retries,
            r.0.interval_online_sec == prefs.check_interval_online_sec,
            r.0.interval_offline_sec == prefs.check_interval_offline_sec,
            r.0.quit_after_connect == prefs.quit_after_first_connect,
            r.0.show_auth_window == prefs.show_auth_window,
            r.0.external_fail_at_start == ctx.external_fail,
            r.0.pending_at_start == ctx.page_ok_pending,
            r.0.candidates@.len() == 2,
            r.0.candidates@[0]@ == prefs.portal_wireless@,
            r.0.candidates@[1]@ == prefs.portal_wired@,
            prefs.away_mode ==> is_done(r.1, "away-mode"@, "离校模式：自动认证已暂停"@, false, 300)
                && r.0.phase is Over,
            !prefs.away_mode && !has_account ==> is_done(r.1, "unconfigured"@, "未配置账号，点击托盘打开设置"@, false, 60)
                && r.0.phase is Over,
            !prefs.away_mode && has_account && !force_login ==> r.1 is ProbeExternal && r.0.phase is External,
            !prefs.away_mode && has_account && force_login ==> r.1 is DetectMedium && r.0.phase is Medium,
    {
        let mut fc = FullCheck {
            force_login,
            mock_portal,
            auto_relogin: prefs.auto_relogin,
            show_auth_window: prefs.show_auth_window,
            quit_after_connect: prefs.quit_after_first_connect,
            interval_online_sec: prefs.check_interval_online_sec,
            interval_offline_sec: prefs.check_interval_offline_sec,
            login_max_retries: prefs.login_max_retries,
            external_fail_at_start: ctx.external_fail,
            pending_at_start: ctx.page_ok_pending,
            phase: CheckPhase::Over,
            candidates: portal_candidates(Medium::Other, &prefs.portal_wireless, &prefs.portal_wired),
            portal: String::new(),
            detect_only: false,
        };
        if prefs.away_mode {
            return (fc, CheckStep::Done { status: Some(status("away-mode", owned("离校模式：自动认证已暂停"))), quit: false, wait_secs: 300 });
        }
        if !has_account {
            return (fc, CheckStep::Done { status: Some(status("unconfigured", owned("未配置账号，点击托盘打开设置"))), quit: false, wait_secs: 60 });
        }
        if !force_login {
            fc.phase = CheckPhase::External;
            (fc, CheckStep::ProbeExternal)
        } else {
            fc.phase = CheckPhase::Medium;
            (fc, CheckStep::DetectMedium)
        }
    }

    fn connected(&mut self) -> (step: CheckStep)
        ensures
            is_done(step, "connected"@, "已连接"@, old(self).quit_after_connect, at_least_10(old(self).interval_online_sec)),
            final(self).phase is Over,
            final(self).candidates == old(self).candidates,
            old(self).same_settings(*final(self)),
            waits_at_least_10(step),
            final(self).portal == old(self).portal,
            final(self).detect_only == old(self).detect_only,
    {
        self.phase = CheckPhase::Over;
        let w = if self.interval_online_sec < 10 { 10 } else { self.interval_online_sec };
        CheckStep::Done { status: Some(status("connected", owned("已连接"))), quit: self.quit_after_connect, wait_secs: w }
    }

    /// The external probe answered. Online ends the check as connected;
    /// offline below the watch's threshold holds off without touching the
    /// status (a single failed probe never leads to a login); otherwise a
    /// pending portal-accepted login pauses automatic logins, and if none is
    /// pending the portal search begins.
    pub fn on_external(&mut self, ctx: &mut SchedCtx, online: bool) -> (step: CheckStep)
        requires
            old(self).inv(),
            old(self).phase is External,
            old(ctx).external_fail == old(self).external_fail_at_start,
            old(ctx).page_ok_pending == old(self).pending_at_start,
        ensures
            final(self).inv(),
            old(self).same_settings(*final(self)),
            waits_at_least_10(step),
            final(self).portal == old(self).portal,
            final(self).detect_only == old(self).detect_only,
            final(self).candidates == old(self).candidates,
            online ==> {
                &&& is_done(step, "connected"@, "已连接"@, old(self).quit_after_connect, at_least_10(old(self).interval_online_sec))
                &&& *final(ctx) == (SchedCtx { external_fail: 0, login_fail: 0, first_connect_done: true, page_ok_pending: false })
                &&& final(self).phase is Over
            },
            !online ==> *final(ctx) == *old(ctx),
            !online && old(ctx).external_fail < OFFLINE_GATE_FAILS && !old(self).mock_portal ==> is_hold(step, GATE_HOLD_SEC) && final(self).phase is Over,
            !online && !(old(ctx).external_fail < OFFLINE_GATE_FAILS && !old(self).mock_portal) && old(ctx).page_ok_pending ==>
                is_done(step, "failed"@, "上次登录认证页已受理但外网未确认；已暂停自动重登，等待网络恢复后继续"@, false, GATE_HOLD_SEC)
                && final(self).phase is Over,
            !online && !(old(ctx).external_fail < OFFLINE_GATE_FAILS && !old(self).mock_portal) && !old(ctx).page_ok_pending ==>
                step is DetectMedium && final(self).phase is Medium,
    {
        if online {
            ctx.external_fail = 0;
            ctx.login_fail = 0;
            ctx.page_ok_pending = false;
            ctx.first_connect_done = true;
            return self.connected();
        }
        if ctx.external_fail < OFFLINE_GATE_FAILS && !self.mock_portal {
            self.phase = CheckPhase::Over;
            return CheckStep::Done { status: None, quit: false, wait_secs: GATE_HOLD_SEC };
        }
        if ctx.page_ok_pending {
            self.phase = CheckPhase::Over;
            return CheckStep::Done {
                status: Some(status("failed", owned("上次登录认证页已受理但外网未确认；已暂停自动重登，等待网络恢复后继续"))),
                quit: false,
                wait_secs: GATE_HOLD_SEC,
            };
        }
        self.phase = CheckPhase::Medium;
        CheckStep::DetectMedium
    }

    /// The medium is known: order the portals by it. A manual login takes
    /// the first candidate without probing; otherwise the candidates are
    /// probed in order.
    pub fn on_medium(&mut self, medium: Medium, wireless: &String, wired: &String) -> (step: CheckStep)
        requires
            old(self).inv(),
            old(self).phase is Medium,
        ensures
            final(self).inv(),
            old(self).same_settings(*final(self)),
            waits_at_least_10(step),
            final(self).detect_only == old(self).detect_only,
            final(self).candidates@.len() == 2,
            medium is Wired ==> final(self).candidates@[0]@ == wired@ && final(self).candidates@[1]@ == wireless@,
            !(medium is Wired) ==> final(self).candidates@[0]@ == wireless@ && final(self).candidates@[1]@ == wired@,
            old(self).force_login ==> step is ReadCredentials && final(self).phase is Credentials
                && final(self).portal@ == final(self).candidates@[0]@,
            !old(self).force_login ==> (step matches CheckStep::ProbePortal(u) && u@ == final(self).candidates@[0]@)
                && final(self).phase == CheckPhase::Portal(0),
            !old(self).force_login ==> final(self).portal == old(self).portal,
            final(self).force_login == old(self).force_login,
            final(self).gate_passed() == old(self).gate_passed(),
    {
        self.candidates = portal_candidates(medium, wireless, wired);
        if self.force_login {
            self.portal = self.candidates[0].clone();
            self.phase = CheckPhase::Credentials;
            CheckStep::ReadCredentials
        } else {
            self.phase = CheckPhase::Portal(0);
            CheckStep::ProbePortal(self.candidates[0].clone())
        }
    }

    /// The portal asked about answered or not: take it, try the next
    /// candidate, or give up as network-down.
    pub fn on_portal(&mut self, reachable: bool) -> (step: CheckStep)
        requires
            old(self).inv(),
            old(self).phase is Portal,
        ensures
            final(self).inv(),
            old(self).same_settings(*final(self)),
            waits_at_least_10(step),
            final(self).detect_only == old(self).detect_only,
            !reachable ==> final(self).portal == old(self).portal,
            final(self).candidates == old(self).candidates,
            ({
                let i = old(self).phase->0;
                let c = old(self).candidates@;
                if reachable {
                    step is ReadCredentials && final(self).phase is Credentials && final(self).portal@ == c[i as int]@
                } else if i + 1 < c.len() {
                    (step matches CheckStep::ProbePortal(u) && u@ == c[i + 1]@) && final(self).phase == CheckPhase::Portal((i + 1) as usize)
                } else {
                    is_done(step, "network-down"@, "未检测到校园网认证页（已尝试 "@ + c[0]@ + " / "@ + c[1]@ + "，请确认已连接校园网无线/有线）"@,
                        false, at_least_10(old(self).interval_offline_sec)) && final(self).phase is Over
                }
            }),
    {
        let i = match self.phase {
            CheckPhase::Portal(i) => i,
            _ => 0,
        };
        if reachable {
            self.portal = self.candidates[i].clone();
            self.phase = CheckPhase::Credentials;
            CheckStep::ReadCredentials
        } else if i + 1 < self.candidates.len() {
            self.phase = CheckPhase::Portal(i + 1);
            CheckStep::ProbePortal(self.candidates[i + 1].clone())
        } else {
            let mut t = owned("未检测到校园网认证页（已尝试 ");
            push_str(&mut t, self.candidates[0].as_str());
            push_str(&mut t, " / ");
            push_str(&mut t, self.candidates[1].as_str());
            push_str(&mut t, "，请确认已连接校园网无线/有线）");
            let w = self.offline_wait();
            self.phase = CheckPhase::Over;
            CheckStep::Done { status: Some(status("network-down", t)), quit: false, wait_secs: w }
        }
    }

    /// The clock and the secrets are in: without a valid SMS code or the
    /// secrets, stop; otherwise log in. With automatic re-login turned off
    /// after the first connection of this run, the session only detects
    /// (it never fills the form), unless the user asked.
    pub fn on_credentials(&mut self, ctx: &SchedCtx, sms_valid: bool, account: Option<(String, String)>, sms_code: Option<String>) -> (step: CheckStep)
        requires
            old(self).inv(),
            old(self).phase is Credentials,
        ensures
            final(self).inv(),
            old(self).same_settings(*final(self)),
            waits_at_least_10(step),
            final(self).portal == old(self).portal,
            final(self).candidates == old(self).candidates,
            !sms_valid ==> is_done(step, "needs-sms"@, "动态密码缺失或已过期"@, false, 60) && final(self).phase is Over,
            sms_valid && account is None ==> is_done(step, "unconfigured"@, "账号配置读取失败"@, false, 60) && final(self).phase is Over,
            sms_valid && account is Some && sms_code is None ==> is_done(step, "needs-sms"@, "动态密码缺失或已过期"@, false, 60) && final(self).phase is Over,
            sms_valid && account is Some && sms_code is Some ==> {
                let detect = !old(self).force_login && !old(self).auto_relogin && ctx.first_connect_done;
                &&& step matches CheckStep::RunLogin { portal, account: a, password, sms_code: code, visibility, detect_only, announce: st }
                    && portal@ == old(self).portal@
                    && a@ == (account->0).0@ && password@ == (account->0).1@ && code@ == sms_code->0@
                    && visibility == AuthWindowVisibility::from_config_spec(old(self).show_auth_window)
                    && detect_only == detect
                    && st.kind@ == "logging-in"@
                    && st.text@ == (if detect { "正在检测认证页状态"@ } else { "正在自动登录"@ })
                &&& final(self).phase is Login
                &&& final(self).detect_only == detect
            },
            step is RunLogin ==> old(self).gate_passed(),
    {
        if !sms_valid {
            self.phase = CheckPhase::Over;
            return CheckStep::Done { status: Some(status("needs-sms", owned("动态密码缺失或已过期"))), quit: false, wait_secs: 60 };
        }
        let (user, password) = match account {
            Some(pair) => pair,
            None => {
                self.phase = CheckPhase::Over;
                return CheckStep::Done { status: Some(status("unconfigured", owned("账号配置读取失败"))), quit: false, wait_secs: 60 };
            },
        };
        let code = match sms_code {
            Some(c) => c,
            None => {
                self.phase = CheckPhase::Over;
                return CheckStep::Done { status: Some(status("needs-sms", owned("动态密码缺失或已过期"))), quit: false, wait_secs: 60 };
            },
        };
        let detect_only = !self.force_login && !self.auto_relogin && ctx.first_connect_done;
        self.detect_only = detect_only;
        self.phase = CheckPhase::Login;
        let text = if detect_only { owned("正在检测认证页状态") } else { owned("正在自动登录") };
        CheckStep::RunLogin {
            portal: self.portal.clone(),
            account: user,
            password,
            sms_code: code,
            visibility: AuthWindowVisibility::from_config(self.show_auth_window),
            detect_only,
            announce: status("logging-in", text),
        }
    }

    /// The login session ended. An already-online page or an accepted login
    /// is confirmed by the external probe (the portal's word alone does not
    /// make the client "connected"); a login form in detection mode means
    /// the network is down; any other result counts one more failure and
    /// schedules a retry by the backoff (in detection mode it only reports).
    pub fn on_login(&mut self, ctx: &mut SchedCtx, result: Result<LoginOutcome, String>) -> (step: CheckStep)
        requires
            old(self).inv(),
            old(self).phase is Login,
            login_failed(result) && !old(self).detect_only ==> backoff_defined(
                old(ctx).login_fail.saturating_add(1),
                old(self).login_max_retries,
            ),
        ensures
            final(self).inv(),
            old(self).same_settings(*final(self)),
            waits_at_least_10(step),
            final(self).portal == old(self).portal,
            final(self).detect_only == old(self).detect_only,
            final(self).candidates == old(self).candidates,
            match result {
                Ok(o) => match o.kind {
                    LoginOutcomeKind::AlreadyOnline => {
                        &&& final(ctx).page_ok_pending == false
                        &&& final(ctx).login_fail == 0
                        &&& final(ctx).first_connect_done
                        &&& if old(self).mock_portal {
                            &&& final(ctx).external_fail == 0
                            &&& is_done(step, "connected"@, "已连接"@, old(self).quit_after_connect, at_least_10(old(self).interval_online_sec))
                            &&& final(self).phase is Over
                        } else {
                            &&& final(ctx).external_fail == old(ctx).external_fail
                            &&& step is ConfirmExternal
                            &&& final(self).phase == CheckPhase::Confirm { already_online: true }
                        }
                    },
                    LoginOutcomeKind::LoginFormPresent => {
                        &&& is_done(step, "network-down"@, "网络已断开（自动登录已关闭，仅保留检测）"@, false, at_least_10(old(self).interval_offline_sec))
                        &&& *final(ctx) == *old(ctx)
                        &&& final(self).phase is Over
                    },
                    LoginOutcomeKind::Success => if old(self).mock_portal {
                        &&& *final(ctx) == (SchedCtx { external_fail: 0, login_fail: 0, first_connect_done: true, page_ok_pending: false })
                        &&& is_done(step, "connected"@, "已连接"@, old(self).quit_after_connect, at_least_10(old(self).interval_online_sec))
                        &&& final(self).phase is Over
                    } else {
                        &&& *final(ctx) == *old(ctx)
                        &&& step is ConfirmExternal
                        &&& final(self).phase == CheckPhase::Confirm { already_online: false }
                    },
                    _ => if old(self).detect_only {
                        &&& is_done(step, "network-down"@, "网络未就绪（检测模式）："@ + outcome_message(o.kind), false, at_least_10(old(self).interval_offline_sec))
                        &&& *final(ctx) == *old(ctx)
                        &&& final(self).phase is Over
                    } else {
                        let n = old(ctx).login_fail.saturating_add(1);
                        &&& *final(ctx) == (SchedCtx { login_fail: n, page_ok_pending: false, ..*old(ctx) })
                        &&& is_done(step, "failed"@, outcome_message(o.kind) + "（动态密码保留，第 "@ + decimal(n as nat) + " 次失败，按退避重试）"@,
                            false, backoff(n, old(self).login_max_retries) as u64)
                        &&& final(self).phase is Over
                    },
                },
                Err(e) => if old(self).detect_only {
                    &&& is_done(step, "network-down"@, "网络未就绪（检测模式）："@ + e@, false, at_least_10(old(self).interval_offline_sec))
                    &&& *final(ctx) == *old(ctx)
                    &&& final(self).phase is Over
                } else {
                    let n = old(ctx).login_fail.saturating_add(1);
                    &&& *final(ctx) == (SchedCtx { login_fail: n, page_ok_pending: false, ..*old(ctx) })
                    &&& is_done(step, "failed"@, "登录会话异常："@ + e@ + "（第 "@ + decimal(n as nat) + " 次失败，按退避重试）"@,
                        false, backoff(n, old(self).login_max_retries) as u64)
                    &&& final(self).phase is Over
                },
            },
    {
        match result {
            Ok(o) => {
                match &o.kind {
                    LoginOutcomeKind::AlreadyOnline => {
                        ctx.page_ok_pending = false;
                        ctx.login_fail = 0;
                        ctx.first_connect_done = true;
                        if self.mock_portal {
                            ctx.external_fail = 0;
                            return self.connected();
                        }
                        self.phase = CheckPhase::Confirm { already_online: true };
                        return CheckStep::ConfirmExternal;
                    },
                    LoginOutcomeKind::LoginFormPresent => {
                        let w = self.offline_wait();
                        self.phase = CheckPhase::Over;
                        return CheckStep::Done {
                            status: Some(status("network-down", owned("网络已断开（自动登录已关闭，仅保留检测）"))),
                            quit: false,
                            wait_secs: w,
                        };
                    },
                    LoginOutcomeKind::Success => {
                        if self.mock_portal {
                            ctx.external_fail = 0;
                            ctx.login_fail = 0;
                            ctx.page_ok_pending = false;
                            ctx.first_connect_done = true;
                            return self.connected();
                        }
                        self.phase = CheckPhase::Confirm { already_online: false };
                        return CheckStep::ConfirmExternal;
                    },
                    _ => {},
                }
                let m = o.message();
                if self.detect_only {
                    let w = self.offline_wait();
                    self.phase = CheckPhase::Over;
                    return CheckStep::Done {
                        status: Some(status("network-down", concat2("网络未就绪（检测模式）：", m.as_str()))),
                        quit: false,
                        wait_secs: w,
                    };
                }
                ctx.page_ok_pending = false;
                ctx.login_fail = ctx.login_fail.saturating_add(1);
                let d = decimal_string(ctx.login_fail as u64);
                let mut t = concat3(m.as_str(), "（动态密码保留，第 ", d.as_str());
                push_str(&mut t, " 次失败，按退避重试）");
                let w = backoff_secs(ctx.login_fail, self.login_max_retries);
                proof {
                    lemma_backoff_at_least_30(ctx.login_fail, self.login_max_retries);
                }
                self.phase = CheckPhase::Over;
                CheckStep::Done { status: Some(status("failed", t)), quit: false, wait_secs: w }
            },
            Err(e) => {
                if self.detect_only {
                    let w = self.offline_wait();
                    self.phase = CheckPhase::Over;
                    return CheckStep::Done {
                        status: Some(status("network-down", concat2("网络未就绪（检测模式）：", e.as_str()))),
                        quit: false,
                        wait_secs: w,
                    };
                }
                ctx.page_ok_pending = false;
                ctx.login_fail = ctx.login_fail.saturating_add(1);
                let d = decimal_string(ctx.login_fail as u64);
                let mut t = concat3("登录会话异常：", e.as_str(), "（第 ");
                push_str(&mut t, d.as_str());
                push_str(&mut t, " 次失败，按退避重试）");
                let w = backoff_secs(ctx.login_fail, self.login_max_retries);
                proof {
                    lemma_backoff_at_least_30(ctx.login_fail, self.login_max_retries);
                }
                self.phase = CheckPhase::Over;
                CheckStep::Done { status: Some(status("failed", t)), quit: false, wait_secs: w }
            },
        }
    }

    /// The external confirmation after a login came back.
    pub fn on_confirm(&mut self, ctx: &mut SchedCtx, online: bool) -> (step: CheckStep)
        requires
            old(self).inv(),
            old(self).phase is Confirm,
        ensures
            final(self).inv(),
            old(self).same_settings(*final(self)),
            waits_at_least_10(step),
            final(self).portal == old(self).portal,
            final(self).detect_only == old(self).detect_only,
            final(self).candidates == old(self).candidates,
            final(self).phase is Over,
            ({
                let already = old(self).phase->already_online;
                if online && already {
                    &&& *final(ctx) == SchedCtx { external_fail: 0, ..*old(ctx) }
                    &&& is_done(step, "connected"@, "已连接"@, old(self).quit_after_connect, at_least_10(old(self).interval_online_sec))
                } else if already {
                    &&& *final(ctx) == *old(ctx)
                    &&& is_done(step, "connected"@, "已连接（认证页显示已登录）"@, old(self).quit_after_connect, at_least_10(old(self).interval_online_sec))
                } else if online {
                    &&& *final(ctx) == (SchedCtx { external_fail: 0, login_fail: 0, first_connect_done: true, page_ok_pending: false })
                    &&& is_done(step, "connected"@, "已连接"@, old(self).quit_after_connect, at_least_10(old(self).interval_online_sec))
                } else {
                    &&& *final(ctx) == (SchedCtx { login_fail: old(ctx).login_fail.saturating_add(1), page_ok_pending: true, ..*old(ctx) })
                    &&& is_done(step, "failed"@, "认证页已判定成功，但外网探测未通过；暂停自动重登，等待网络恢复后继续"@, false, GATE_HOLD_SEC)
                }
            }),
    {
        let already = match self.phase {
            CheckPhase::Confirm { already_online } => already_online,
            _ => false,
        };
        if already {
            if online {
                ctx.external_fail = 0;
                return self.connected();
            }
            let w = if self.interval_online_sec < 10 { 10 } else { self.interval_online_sec };
            self.phase = CheckPhase::Over;
            return CheckStep::Done {
                status: Some(status("connected", owned("已连接（认证页显示已登录）"))),
                quit: self.quit_after_connect,
                wait_secs: w,
            };
        }
        if online {
            ctx.external_fail = 0;
            ctx.login_fail = 0;
            ctx.page_ok_pending = false;
            ctx.first_connect_done = true;
            return self.connected();
        }
        ctx.page_ok_pending = true;
        ctx.login_fail = ctx.login_fail.saturating_add(1);
        self.phase = CheckPhase::Over;
        CheckStep::Done {
            status: Some(status("failed", owned("认证页已判定成功，但外网探测未通过；暂停自动重登，等待网络恢复后继续"))),
            quit: false,
            wait_secs: GATE_HOLD_SEC,
        }
    }

    fn offline_wait(&self) -> (w: u64)
        ensures
            w == at_least_10(self.interval_offline_sec),
    {
        if self.interval_offline_sec < 10 { 10 } else { self.interval_offline_sec }
    }
}


/// Law: a login session is only ever reached when the user asked for it,
/// or when no portal-accepted login was waiting for the internet and the
/// watch had seen the network down at least twice in a row (or the
/// stand-in portal is in use); a single failed probe never leads to a login.
pub proof fn law_login_needs_offline_streak(fc: FullCheck)
    requires
        fc.inv(),
        fc.phase is Login,
    ensures
        fc.force_login || (!fc.pending_at_start && (fc.external_fail_at_start >= OFFLINE_GATE_FAILS
            || fc.mock_portal)),
{
}

// ===================== probing several endpoints =====================

/// Endpoints besides the configured one that answer 204 when online (a
/// captive portal never does).
pub const FALLBACK_PROBE_URL_1: &'static str = "http://connect.rom.miui.com/generate_204";
pub const FALLBACK_PROBE_URL_2: &'static str = "http://cp.cloudflare.com/generate_204";

/// The endpoints of an external probe, in the order they are tried; the
/// first that answers online settles it.
pub fn probe_urls(primary: &str) -> (v: Vec<String>)
    ensures
        v@.len() == 3,
        v@[0]@ == primary@,
        v@[1]@ == FALLBACK_PROBE_URL_1@,
        v@[2]@ == FALLBACK_PROBE_URL_2@,
{
    let mut v: Vec<String> = Vec::new();
    v.push(owned(primary));
    v.push(owned(FALLBACK_PROBE_URL_1));
    v.push(owned(FALLBACK_PROBE_URL_2));
    v
}

/// The log line for one endpoint's verdict.
pub open spec fn probe_line(url: Seq<char>, online: bool, reason: Seq<char>) -> Seq<char> {
    if online {
        url + ": ok（"@ + reason + "）"@
    } else {
        url + ": "@ + reason
    }
}

/// The log line for one endpoint's verdict (see [`probe_line`]).
pub fn probe_reason(url: &str, online: bool, reason: &str) -> (s: String)
    ensures
        s@ == probe_line(url@, online, reason@),
{
    if online {
        let mut s = concat3(url, ": ok（", reason);
        push_str(&mut s, "）");
        s
    } else {
        concat3(url, ": ", reason)
    }
}

/// What a probe of the internet asks of its driver next.
#[derive(Debug)]
pub enum ProbeStep {
    /// Probe this endpoint and hand the verdict to [`ProbeRound::on_result`].
    Probe(String),
    /// The probe is over: online or not.
    Done(bool),
}

/// One probe of the internet over several endpoints: the first that
/// answers online settles it; when none does, it is offline. Every verdict
/// is kept as a log line.
#[derive(Debug)]
pub struct ProbeRound {
    /// The endpoints, in the order they are tried.
    pub urls: Vec<String>,
    /// The endpoint being probed.
    pub next: usize,
    /// One line per verdict so far.
    pub reasons: Vec<String>,
}

impl ProbeRound {
    /// Begins with the configured endpoint.
    pub fn start(primary: &str) -> (r: (ProbeRound, ProbeStep))
        ensures
            r.0.urls@.len() == 3,
            r.0.urls@[0]@ == primary@,
            r.0.urls@[1]@ == FALLBACK_PROBE_URL_1@,
            r.0.urls@[2]@ == FALLBACK_PROBE_URL_2@,
            r.0.next == 0,
            r.0.reasons@.len() == 0,
            r.1 matches ProbeStep::Probe(u) && u@ == primary@,
    {
        let urls = probe_urls(primary);
        let first = owned(urls[0].as_str());
        (ProbeRound { urls, next: 0, reasons: Vec::new() }, ProbeStep::Probe(first))
    }

    /// The endpoint being probed gave its verdict.
    pub fn on_result(&mut self, online: bool, reason: &str) -> (step: ProbeStep)
        requires
            old(self).next < old(self).urls@.len(),
        ensures
            final(self).urls == old(self).urls,
            final(self).next == old(self).next + 1,
            crate::auth::texts(final(self).reasons@) == crate::auth::texts(old(self).reasons@).push(
                probe_line(old(self).urls@[old(self).next as int]@, online, reason@),
            ),
            online ==> step matches ProbeStep::Done(true),
            !online && old(self).next + 1 < old(self).urls@.len() ==> (step matches ProbeStep::Probe(u)
                && u@ == old(self).urls@[old(self).next + 1]@),
            !online && old(self).next + 1 >= old(self).urls@.len() ==> step matches ProbeStep::Done(false),
    {
        let n = self.next;
        let len = self.urls.len();
        assert(n < len);
        let line = probe_reason(self.urls[n].as_str(), online, reason);
        let ghost before = self.reasons@;
        self.reasons.push(line);
        assert(crate::auth::texts(self.reasons@) =~= crate::auth::texts(before).push(
            probe_line(self.urls@[n as int]@, online, reason@),
        ));
        self.next = n + 1;
        if online {
            ProbeStep::Done(true)
        } else if self.next < self.urls.len() {
            ProbeStep::Probe(owned(self.urls[self.next].as_str()))
        } else {
            ProbeStep::Done(false)
        }
    }
}

/// What the confirmation after a login asks of its driver next.
#[derive(Debug)]
pub enum RestoreStep {
    /// Announce `announce` (kind `logging-in`), then probe the internet; after
    /// a failed probe the driver waits two seconds before going on.
    Probe { announce: String },
    /// Confirmed or not.
    Done(bool),
}

/// The confirmation that the internet came back after a login: up to three
/// probes, the first success confirming it.
#[derive(Debug)]
pub struct RestoreCheck {
    /// The attempt in progress, from 1 to 3.
    pub attempt: u64,
}

impl RestoreCheck {
    pub fn start() -> (r: (RestoreCheck, RestoreStep))
        ensures
            r.0.attempt == 1,
            r.1 matches RestoreStep::Probe { announce } && announce@ == "正在确认外网恢复（"@ + decimal(1)
                + "/3）"@,
    {
        (RestoreCheck { attempt: 1 }, RestoreStep::Probe { announce: confirm_status_text(1) })
    }

    /// The probe of the current attempt answered.
    pub fn on_probe(&mut self, online: bool) -> (step: RestoreStep)
        requires
            1 <= old(self).attempt <= 3,
        ensures
            online ==> (step matches RestoreStep::Done(true)) && final(self).attempt == old(self).attempt,
            !online && old(self).attempt < 3 ==> final(self).attempt == old(self).attempt + 1 && (
            step matches RestoreStep::Probe { announce } && announce@ == "正在确认外网恢复（"@ + decimal(
                final(self).attempt as nat,
            ) + "/3）"@),
            !online && old(self).attempt >= 3 ==> (step matches RestoreStep::Done(false))
                && final(self).attempt == old(self).attempt,
    {
        if online {
            RestoreStep::Done(true)
        } else if self.attempt < 3 {
            self.attempt = self.attempt + 1;
            RestoreStep::Probe { announce: confirm_status_text(self.attempt) }
        } else {
            RestoreStep::Done(false)
        }
    }
}

/// The status shown while confirming the internet after a login (attempt
/// `i` of 3).
pub fn confirm_status_text(i: u64) -> (s: String)
    ensures
        s@ == "正在确认外网恢复（"@ + decimal(i as nat) + "/3）"@,
{
    let d = decimal_string(i);
    concat3("正在确认外网恢复（", d.as_str(), "/3）")
}

// ===================== the scheduler loop =====================

/// A request to the scheduler.
#[derive(Debug, Clone, Copy, PartialEq, Eq)]
pub enum SchedMessage {
    /// Log in now (manual), bypassing the probes.
    LoginNow,
    /// Run a full check now.
    CheckNow,
}

#[verifier::external_type_specification]
#[verifier::external_body]
#[verifier::reject_recursive_types(T)]
pub struct ExSender<T>(std::sync::mpsc::Sender<T>);

/// `Sender::clone`, which the derived `Clone` of `Scheduler` calls: another
/// handle on the same channel. Nothing is stated of it; the channel is
/// opaque here.
pub assume_specification<T>[ <std::sync::mpsc::Sender<T> as Clone>::clone ](s: &std::sync::mpsc::Sender<T>) -> (r: std::sync::mpsc::Sender<T>);

/// The handle the tray and the commands hold to reach the scheduler.
#[derive(Clone)]
pub struct Scheduler {
    tx: std::sync::mpsc::Sender<SchedMessage>,
}

impl Scheduler {
    /// A handle that sends on `tx`.
    pub fn new(tx: std::sync::mpsc::Sender<SchedMessage>) -> (s: Self)
        ensures
            s.tx() == tx,
    {
        Scheduler { tx }
    }

    pub closed spec fn tx(&self) -> std::sync::mpsc::Sender<SchedMessage> {
        self.tx
    }

    /// The channel to the scheduler thread; the caller sends on it what
    /// `request_login` or `check_now` gives, and a closed channel (the
    /// thread has ended) is no error.
    pub fn sender(&self) -> (r: &std::sync::mpsc::Sender<SchedMessage>)
        ensures
            *r == self.tx(),
    {
        &self.tx
    }

    /// The message that asks for a manual login: exactly one `LoginNow`.
    pub fn request_login(&self) -> (m: SchedMessage)
        ensures
            m == SchedMessage::LoginNow,
    {
        SchedMessage::LoginNow
    }

    /// The message that asks for a full check now (after configuration
    /// changes or a status query): exactly one `CheckNow`. The check it
    /// wakes is not forced, so it does not bypass the offline threshold
    /// (see `SchedClock::on_message`).
    pub fn check_now(&self) -> (m: SchedMessage)
        ensures
            m == SchedMessage::CheckNow,
    {
        SchedMessage::CheckNow
    }
}

/// Seconds in milliseconds, saturating at the largest `u64`.
pub open spec fn secs_to_ms(s: u64) -> u64 {
    if s > u64::MAX / 1000 {
        u64::MAX
    } else {
        (s * 1000) as u64
    }
}

/// The scheduler loop's timers, in milliseconds of a monotonic clock.
#[derive(Debug, Clone, Copy, PartialEq, Eq)]
pub struct SchedClock {
    pub next_gate_ms: u64,
    pub next_full_ms: u64,
    /// The next full check is a manual login.
    pub force_login: bool,
    pub last_gate_online: Option<bool>,
}

impl SchedClock {
    /// At start the watch and a full check are both due at once.
    pub fn new(now: u64) -> (c: Self)
        ensures
            c.next_gate_ms == now,
            c.next_full_ms == now,
            !c.force_login,
            c.last_gate_online is None,
    {
        SchedClock { next_gate_ms: now, next_full_ms: now, force_login: false, last_gate_online: None }
    }

    pub fn gate_due(&self, now: u64) -> (b: bool)
        ensures
            b == (now >= self.next_gate_ms),
    {
        now >= self.next_gate_ms
    }

    /// A watch probe is starting: the next one is due one interval later.
    pub fn gate_started(&mut self)
        ensures
            final(self).next_gate_ms == old(self).next_gate_ms.saturating_add(GATE_INTERVAL_MS),
            final(self).next_full_ms == old(self).next_full_ms,
            final(self).force_login == old(self).force_login,
            final(self).last_gate_online == old(self).last_gate_online,
    {
        self.next_gate_ms = self.next_gate_ms.saturating_add(GATE_INTERVAL_MS);
    }

    /// Takes in a watch result at `now`; a wake-up makes the full check due.
    pub fn gate_result(&mut self, ctx: &mut SchedCtx, online: bool, now: u64) -> (g: GateOutcome)
        ensures
            final(self).last_gate_online == Some(online),
            final(self).next_gate_ms == old(self).next_gate_ms,
            final(self).force_login == old(self).force_login,
            final(self).next_full_ms == (if g.wake_full { now } else { old(self).next_full_ms }),
            final(ctx).login_fail == old(ctx).login_fail,
            final(ctx).first_connect_done == old(ctx).first_connect_done,
            online ==> final(ctx).external_fail == 0 && !final(ctx).page_ok_pending && g.wake_full == (
            old(self).last_gate_online != Some(true)),
            !online ==> final(ctx).external_fail == old(ctx).external_fail.saturating_add(1)
                && final(ctx).page_ok_pending == old(ctx).page_ok_pending && g.wake_full == (
            final(ctx).external_fail == OFFLINE_GATE_FAILS),
    {
        let mut last = self.last_gate_online;
        let g = gate_update(ctx, &mut last, online);
        self.last_gate_online = last;
        if g.wake_full {
            self.next_full_ms = now;
        }
        g
    }

    pub fn full_due(&self, now: u64) -> (b: bool)
        ensures
            b == (now >= self.next_full_ms),
    {
        now >= self.next_full_ms
    }

    /// A full check is starting: whether it is a manual login (the request
    /// is consumed).
    pub fn take_force(&mut self) -> (force: bool)
        ensures
            force == old(self).force_login,
            !final(self).force_login,
            final(self).next_gate_ms == old(self).next_gate_ms,
            final(self).next_full_ms == old(self).next_full_ms,
            final(self).last_gate_online == old(self).last_gate_online,
    {
        let f = self.force_login;
        self.force_login = false;
        f
    }

    /// A full check finished at `now` and asked to wait `wait_secs`.
    pub fn full_finished(&mut self, now: u64, wait_secs: u64)
        ensures
            final(self).next_full_ms == now.saturating_add(secs_to_ms(wait_secs)),
            final(self).next_gate_ms == old(self).next_gate_ms,
            final(self).force_login == old(self).force_login,
            final(self).last_gate_online == old(self).last_gate_online,
    {
        let ms = if wait_secs > u64::MAX / 1000 { u64::MAX } else { wait_secs * 1000 };
        self.next_full_ms = now.saturating_add(ms);
    }

    /// How long to wait for a message before the next timer is due; `None`
    /// when one is due already.
    pub fn wait_ms(&self, now: u64) -> (w: Option<u64>)
        ensures
            ({
                let next = if self.next_gate_ms < self.next_full_ms { self.next_gate_ms } else { self.next_full_ms };
                if now >= next { w is None } else { w == Some((next - now) as u64) }
            }),
    {
        let next = if self.next_gate_ms < self.next_full_ms { self.next_gate_ms } else { self.next_full_ms };
        if now >= next {
            None
        } else {
            Some(next - now)
        }
    }

    /// A message arrived at `now`: both make the full check due at once; a
    /// login request also makes it a manual login.
    pub fn on_message(&mut self, msg: SchedMessage, now: u64)
        ensures
            final(self).next_full_ms == now,
            final(self).force_login == (old(self).force_login || msg is LoginNow),
            final(self).next_gate_ms == old(self).next_gate_ms,
            final(self).last_gate_online == old(self).last_gate_online,
    {
        if let SchedMessage::LoginNow = msg {
            self.force_login = true;
        }
        self.next_full_ms = now;
    }
}

} // verus!
