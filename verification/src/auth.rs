//! Authentication sessions: outcomes, the authentication window's display
//! policy, and the decisions of one login session (when to inject the
//! script again, when to reload the page once, when to give up).

use vstd::prelude::*;
use crate::bridge::BeaconEvent;
use crate::text::{concat2, decimal, owned, push_decimal, starts_with, str_eq, str_starts_with};

verus! {

broadcast use vstd::string::group_string_axioms;

/// How a login session ended.
#[derive(Debug, Clone, PartialEq, Eq)]
pub enum LoginOutcomeKind {
    Success,
    /// No login form but a logout button: the session is already online.
    AlreadyOnline,
    /// Detection-only mode found the login form: a login is needed but not performed.
    LoginFormPresent,
    CredentialsFailed(String),
    SmsCodeFailed(String),
    PageError(String),
    Timeout,
    EvalNoResponse,
}

#[derive(Debug, Clone)]
pub struct LoginOutcome {
    pub kind: LoginOutcomeKind,
}

/// The user-facing text of an outcome.
pub open spec fn outcome_message(k: LoginOutcomeKind) -> Seq<char> {
    match k {
        LoginOutcomeKind::Success => "登录成功"@,
        LoginOutcomeKind::AlreadyOnline => "认证页显示已登录（检测到注销按钮）"@,
        LoginOutcomeKind::LoginFormPresent => "认证页需要登录（检测模式，未执行登录）"@,
        LoginOutcomeKind::CredentialsFailed(m) => "认证失败："@ + m@,
        LoginOutcomeKind::SmsCodeFailed(m) => "动态密码错误："@ + m@,
        LoginOutcomeKind::PageError(m) => "认证页异常："@ + m@,
        LoginOutcomeKind::Timeout => "登录超时"@,
        LoginOutcomeKind::EvalNoResponse => "认证页无响应（网络不可达或门户不可访问）"@,
    }
}

/// Outcomes worth one page reload: the page never showed its form, or the
/// round produced no result. Wrong credentials or codes are real results.
pub open spec fn outcome_needs_reload(k: LoginOutcomeKind) -> bool {
    match k {
        LoginOutcomeKind::PageError(m) => starts_with(m@, "timeout:"@),
        LoginOutcomeKind::Timeout => true,
        _ => false,
    }
}

impl LoginOutcome {
    pub fn is_ok(&self) -> (b: bool)
        ensures
            b == (self.kind is Success),
    {
        match self.kind {
            LoginOutcomeKind::Success => true,
            _ => false,
        }
    }

    pub fn message(&self) -> (m: String)
        ensures
            m@ == outcome_message(self.kind),
    {
        match &self.kind {
            LoginOutcomeKind::Success => owned("登录成功"),
            LoginOutcomeKind::AlreadyOnline => owned("认证页显示已登录（检测到注销按钮）"),
            LoginOutcomeKind::LoginFormPresent => owned("认证页需要登录（检测模式，未执行登录）"),
            LoginOutcomeKind::CredentialsFailed(msg) => concat2("认证失败：", msg.as_str()),
            LoginOutcomeKind::SmsCodeFailed(msg) => concat2("动态密码错误：", msg.as_str()),
            LoginOutcomeKind::PageError(msg) => concat2("认证页异常：", msg.as_str()),
            LoginOutcomeKind::Timeout => owned("登录超时"),
            LoginOutcomeKind::EvalNoResponse => owned("认证页无响应（网络不可达或门户不可访问）"),
        }
    }
}

/// Whether an outcome deserves one reload of the authentication page.
pub fn login_outcome_needs_reload(o: &LoginOutcome) -> (b: bool)
    ensures
        b == outcome_needs_reload(o.kind),
{
    match &o.kind {
        LoginOutcomeKind::PageError(msg) => str_starts_with(msg.as_str(), "timeout:"),
        LoginOutcomeKind::Timeout => true,
        _ => false,
    }
}

/// Display policy of the authentication window.
#[derive(Debug, Clone, Copy, PartialEq, Eq)]
pub enum AuthWindowVisibility {
    /// Shown on screen (resizable, focused), for debugging.
    Visible,
    /// Not shown, the production default.
    Hidden,
}

impl AuthWindowVisibility {
    pub open spec fn from_config_spec(show: bool) -> Self {
        if show {
            AuthWindowVisibility::Visible
        } else {
            AuthWindowVisibility::Hidden
        }
    }

    /// The policy for the settings switch "show authentication window".
    pub fn from_config(show: bool) -> (v: Self)
        ensures
            v == Self::from_config_spec(show),
    {
        if show {
            AuthWindowVisibility::Visible
        } else {
            AuthWindowVisibility::Hidden
        }
    }

    pub fn describe(self) -> (s: &'static str)
        ensures
            s@ == (match self {
                AuthWindowVisibility::Visible => "屏幕内显示（开发调试）"@,
                AuthWindowVisibility::Hidden => "完全隐藏（生产默认）"@,
            }),
    {
        match self {
            AuthWindowVisibility::Visible => "屏幕内显示（开发调试）",
            AuthWindowVisibility::Hidden => "完全隐藏（生产默认）",
        }
    }
}


// ===================== one login session =====================

/// How long to wait between two injections of the script (ms).
pub const EVAL_PERIOD_MS: u64 = 400;
/// How long the script may stay silent before the page counts as unresponsive (ms).
pub const EVAL_WINDOW_MS: u64 = 20000;
/// How long a started script may take to report a final result (ms).
pub const TERMINAL_WINDOW_MS: u64 = 30000;

/// The final outcome a page report stands for, if it is final.
pub open spec fn beacon_outcome(state: Seq<char>, msg: String) -> Option<LoginOutcomeKind> {
    if state == "ok"@ || state == "navigating"@ {
        Some(LoginOutcomeKind::Success)
    } else if state == "online"@ {
        Some(LoginOutcomeKind::AlreadyOnline)
    } else if state == "form-present"@ {
        Some(LoginOutcomeKind::LoginFormPresent)
    } else if state == "failed"@ {
        Some(LoginOutcomeKind::CredentialsFailed(msg))
    } else if state == "captcha-error"@ {
        Some(LoginOutcomeKind::SmsCodeFailed(msg))
    } else if state == "error"@ {
        Some(LoginOutcomeKind::PageError(msg))
    } else {
        None
    }
}

/// Classifies one page report of this session's run.
pub fn classify_beacon(state: &str, msg: &String) -> (r: Option<LoginOutcome>)
    ensures
        r matches Some(o) ==> beacon_outcome(state@, *msg) == Some(o.kind),
        r is None ==> beacon_outcome(state@, *msg) is None,
        (r matches Some(o) && o.kind == LoginOutcomeKind::Success) <==> (state@ == "ok"@ || state@
            == "navigating"@),
{
    if str_eq(state, "ok") || str_eq(state, "navigating") {
        Some(LoginOutcome { kind: LoginOutcomeKind::Success })
    } else if str_eq(state, "online") {
        Some(LoginOutcome { kind: LoginOutcomeKind::AlreadyOnline })
    } else if str_eq(state, "form-present") {
        Some(LoginOutcome { kind: LoginOutcomeKind::LoginFormPresent })
    } else if str_eq(state, "failed") {
        Some(LoginOutcome { kind: LoginOutcomeKind::CredentialsFailed(msg.clone()) })
    } else if str_eq(state, "captcha-error") {
        Some(LoginOutcome { kind: LoginOutcomeKind::SmsCodeFailed(msg.clone()) })
    } else if str_eq(state, "error") {
        Some(LoginOutcome { kind: LoginOutcomeKind::PageError(msg.clone()) })
    } else {
        None
    }
}

/// Law: a page report means a successful login exactly when its state is
/// "ok" or "navigating" (a whole-page navigation after submitting), whatever
/// its message; both are final.
pub proof fn law_success_reports(state: Seq<char>, msg: String)
    ensures
        beacon_outcome(state, msg) == Some(LoginOutcomeKind::Success) <==> (state == "ok"@ || state
            == "navigating"@),
        beacon_outcome("ok"@, msg) == beacon_outcome("navigating"@, msg),
{
}

/// What the session asks of its driver next.
#[derive(Debug)]
pub enum SessionStep {
    /// The session is over with this outcome (the window is then destroyed).
    Finish(LoginOutcome),
    /// Reload the authentication page and keep waiting.
    Reload,
    /// Inject the login script into the page now.
    Eval,
    /// Nothing to do yet.
    Wait,
}

/// The timing state of one login session; times are milliseconds on a
/// monotonic clock.
pub struct LoginSession {
    pub run_id: u64,
    /// The page has been reloaded once already.
    pub refreshed: bool,
    /// When the page script reported that it started, if it did.
    pub started_at: Option<u64>,
    /// After this time a silent page counts as unresponsive.
    pub eval_deadline: u64,
    /// The next injection is due at this time.
    pub next_eval_at: u64,
    /// How many reloads this session has asked for.
    pub reloads: Ghost<nat>,
}

impl LoginSession {
    /// The session has reloaded the page at most once, exactly when `refreshed`.
    pub open spec fn wf(&self) -> bool {
        &&& self.reloads@ <= 1
        &&& (self.reloads@ == 1 <==> self.refreshed)
    }

    pub fn new(run_id: u64, now: u64) -> (s: Self)
        ensures
            s.wf(),
            s.run_id == run_id,
            !s.refreshed,
            s.started_at is None,
            s.eval_deadline == now.saturating_add(EVAL_WINDOW_MS),
            s.next_eval_at == now,
            s.reloads@ == 0,
    {
        LoginSession {
            run_id,
            refreshed: false,
            started_at: None,
            eval_deadline: now.saturating_add(EVAL_WINDOW_MS),
            next_eval_at: now,
            reloads: Ghost(0),
        }
    }

    /// Takes in one page report received at `now`; returns the final outcome
    /// it stands for. Reports of other runs are ignored.
    pub fn on_beacon(&mut self, ev: &BeaconEvent, now: u64) -> (r: Option<LoginOutcome>)
        ensures
            ev.run != old(self).run_id ==> r is None && *final(self) == *old(self),
            ev.run == old(self).run_id ==> {
                &&& (r matches Some(o) ==> beacon_outcome(ev.state@, ev.msg) == Some(o.kind))
                &&& (r is None ==> beacon_outcome(ev.state@, ev.msg) is None)
                &&& final(self).started_at == (if ev.state@ == "started"@
                    && old(self).started_at is None {
                    Some(now)
                } else {
                    old(self).started_at
                })
                &&& final(self).run_id == old(self).run_id
                &&& final(self).refreshed == old(self).refreshed
                &&& final(self).eval_deadline == old(self).eval_deadline
                &&& final(self).next_eval_at == old(self).next_eval_at
                &&& final(self).reloads == old(self).reloads
            },
    {
        if ev.run != self.run_id {
            return None;
        }
        if str_eq(ev.state.as_str(), "started") {
            if self.started_at.is_none() {
                self.started_at = Some(now);
            }
            proof {
                assert(ev.state@ == "started"@);
                reveal_strlit("started");
                reveal_strlit("ok");
                reveal_strlit("navigating");
                reveal_strlit("online");
                reveal_strlit("form-present");
                reveal_strlit("failed");
                reveal_strlit("captcha-error");
                reveal_strlit("error");
                assert("started"@.len() == 7);
                assert("ok"@.len() == 2);
                assert("started"@ != "ok"@);
                assert("started"@ != "navigating"@);
                assert("started"@ != "online"@);
                assert("started"@ != "failed"@);
                assert("started"@ != "form-present"@);
                assert("started"@ != "captcha-error"@);
                assert("started"@ != "error"@);
                assert(beacon_outcome(ev.state@, ev.msg) is None);
            }
            return None;
        }
        classify_beacon(ev.state.as_str(), &ev.msg)
    }

    /// Reload once more and wait for the script from scratch.
    fn reload(&mut self, now: u64)
        requires
            old(self).wf(),
            !old(self).refreshed,
        ensures
            final(self).wf(),
            final(self).refreshed,
            final(self).reloads@ == old(self).reloads@ + 1,
            final(self).started_at is None,
            final(self).eval_deadline == now.saturating_add(EVAL_WINDOW_MS),
            final(self).next_eval_at == now,
            final(self).run_id == old(self).run_id,
    {
        self.refreshed = true;
        self.reloads = Ghost(self.reloads@ + 1);
        self.started_at = None;
        self.eval_deadline = now.saturating_add(EVAL_WINDOW_MS);
        self.next_eval_at = now;
    }

    /// A final outcome arrived at `now`: reload the page once when the
    /// outcome deserves it, otherwise finish with it.
    pub fn on_outcome(&mut self, o: LoginOutcome, now: u64) -> (step: SessionStep)
        requires
            old(self).wf(),
        ensures
            final(self).wf(),
            !old(self).refreshed && outcome_needs_reload(o.kind) ==> {
                &&& step is Reload
                &&& final(self).refreshed
                &&& final(self).reloads@ == old(self).reloads@ + 1
                &&& final(self).started_at is None
                &&& final(self).eval_deadline == now.saturating_add(EVAL_WINDOW_MS)
                &&& final(self).next_eval_at == now
                &&& final(self).run_id == old(self).run_id
            },
            !(!old(self).refreshed && outcome_needs_reload(o.kind)) ==> {
                &&& step matches SessionStep::Finish(f) && f.kind == o.kind
                &&& *final(self) == *old(self)
            },
    {
        if !self.refreshed && login_outcome_needs_reload(&o) {
            self.reload(now);
            SessionStep::Reload
        } else {
            SessionStep::Finish(o)
        }
    }

    /// The clock reached `now` with no final report: time out, reload once,
    /// inject the script again, or wait.
    pub fn on_tick(&mut self, now: u64) -> (step: SessionStep)
        requires
            old(self).wf(),
        ensures
            final(self).wf(),
            final(self).run_id == old(self).run_id,
            match old(self).started_at {
                Some(t0) => if now.saturating_sub(t0) > TERMINAL_WINDOW_MS {
                    if !old(self).refreshed {
                        &&& step is Reload
                        &&& final(self).refreshed
                        &&& final(self).reloads@ == old(self).reloads@ + 1
                        &&& final(self).started_at is None
                        &&& final(self).eval_deadline == now.saturating_add(EVAL_WINDOW_MS)
                        &&& final(self).next_eval_at == now
                    } else {
                        &&& step matches SessionStep::Finish(f) && f.kind is Timeout
                        &&& *final(self) == *old(self)
                    }
                } else {
                    step is Wait && *final(self) == *old(self)
                },
                None => if now > old(self).eval_deadline {
                    if !old(self).refreshed {
                        &&& step is Reload
                        &&& final(self).refreshed
                        &&& final(self).reloads@ == old(self).reloads@ + 1
                        &&& final(self).started_at is None
                        &&& final(self).eval_deadline == now.saturating_add(EVAL_WINDOW_MS)
                        &&& final(self).next_eval_at == now
                    } else {
                        &&& step matches SessionStep::Finish(f) && f.kind is EvalNoResponse
                        &&& *final(self) == *old(self)
                    }
                } else if now >= old(self).next_eval_at {
                    &&& step is Eval
                    &&& final(self).next_eval_at == now.saturating_add(EVAL_PERIOD_MS)
                    &&& final(self).refreshed == old(self).refreshed
                    &&& final(self).reloads == old(self).reloads
                    &&& final(self).started_at == old(self).started_at
                    &&& final(self).eval_deadline == old(self).eval_deadline
                } else {
                    step is Wait && *final(self) == *old(self)
                },
            },
    {
        match self.started_at {
            Some(t0) => {
                if now.saturating_sub(t0) > TERMINAL_WINDOW_MS {
                    if !self.refreshed {
                        self.reload(now);
                        SessionStep::Reload
                    } else {
                        SessionStep::Finish(LoginOutcome { kind: LoginOutcomeKind::Timeout })
                    }
                } else {
                    SessionStep::Wait
                }
            },
            None => {
                if now > self.eval_deadline {
                    if !self.refreshed {
                        self.reload(now);
                        SessionStep::Reload
                    } else {
                        SessionStep::Finish(
                            LoginOutcome { kind: LoginOutcomeKind::EvalNoResponse },
                        )
                    }
                } else if now >= self.next_eval_at {
                    self.next_eval_at = now.saturating_add(EVAL_PERIOD_MS);
                    SessionStep::Eval
                } else {
                    SessionStep::Wait
                }
            },
        }
    }
}


// ===================== window labels =====================

/// The prefix of every authentication window's label.
pub const AUTH_LABEL_PREFIX: &'static str = "auth-";

/// The label of the authentication window of run `run_id`.
pub fn window_label(run_id: u64) -> (l: String)
    ensures
        l@ == "auth-"@ + decimal(run_id as nat),
{
    let mut l = owned("auth-");
    push_decimal(&mut l, run_id);
    l
}

/// The labels among `labels` that begin with `prefix`, in order.
pub open spec fn labels_with_prefix(labels: Seq<Seq<char>>, prefix: Seq<char>) -> Seq<Seq<char>>
    decreases labels.len(),
{
    if labels.len() == 0 {
        Seq::empty()
    } else {
        let rest = labels_with_prefix(labels.drop_last(), prefix);
        if starts_with(labels.last(), prefix) {
            rest.push(labels.last())
        } else {
            rest
        }
    }
}

/// The texts of `v`.
pub open spec fn texts(v: Seq<String>) -> Seq<Seq<char>> {
    v.map_values(|s: String| s@)
}

/// The windows to close before a new session: those whose label begins
/// with `prefix` (left over from a session that failed).
pub fn stale_windows(labels: &Vec<String>, prefix: &str) -> (r: Vec<String>)
    ensures
        texts(r@) == labels_with_prefix(texts(labels@), prefix@),
{
    let mut r: Vec<String> = Vec::new();
    let mut i: usize = 0;
    while i < labels.len()
        invariant
            i <= labels.len(),
            texts(r@) == labels_with_prefix(texts(labels@.subrange(0, i as int)), prefix@),
        decreases labels.len() - i,
    {
        let l = labels[i].as_str();
        assert(texts(labels@.subrange(0, i + 1)).drop_last() == texts(labels@.subrange(0, i as int)));
        assert(texts(labels@.subrange(0, i + 1)).last() == labels@[i as int]@);
        if str_starts_with(l, prefix) {
            let ghost before = r@;
            r.push(owned(l));
            assert(texts(r@) == texts(before).push(labels@[i as int]@));
        }
        i += 1;
    }
    assert(labels@.subrange(0, labels@.len() as int) == labels@);
    r
}

} // verus!
