//! The proof-of-concept run: scenarios against the stand-in portal, one
//! authentication window each, the script injected until it reports, and a
//! tally at the end. This module holds its table and its timing rules; the
//! windows, the server and the clock are the caller's.

use vstd::prelude::*;
use crate::bridge::BeaconEvent;
use crate::text::{
    chars_of, concat2, decimal, owned, parse_unsigned, parse_unsigned_exec, push_decimal,
    push_str, str_eq,
};

verus! {

broadcast use vstd::string::group_string_axioms;

/// Milliseconds between two injections while the script is silent.
pub const POC_EVAL_PERIOD_MS: u64 = 400;
/// How long injections are tried before the page counts as unresponsive.
pub const POC_EVAL_WINDOW_MS: u64 = 30000;
/// How long a started script may take to report a final state.
pub const POC_TERMINAL_WINDOW_MS: u64 = 25000;

/// One scenario: the page to open, the SMS code to type, and the final
/// state the script is expected to report.
#[derive(Debug, Clone, PartialEq, Eq)]
pub struct Scenario {
    pub name: String,
    pub path: String,
    pub sms_code: String,
    pub expected: String,
}

pub open spec fn scenario_is(s: Scenario, name: Seq<char>, path: Seq<char>, sms: Seq<char>, expected: Seq<char>) -> bool {
    s.name@ == name && s.path@ == path && s.sms_code@ == sms && s.expected@ == expected
}

pub open spec fn wireless_ok(s: Scenario) -> bool {
    scenario_is(s, "无线-成功"@, "/wireless.html?result=success"@, "123456"@, "ok"@)
}

pub open spec fn wireless_fail(s: Scenario) -> bool {
    scenario_is(s, "无线-认证失败"@, "/wireless.html?result=fail"@, "123456"@, "failed"@)
}

pub open spec fn wireless_bad_code(s: Scenario) -> bool {
    scenario_is(s, "无线-动态密码错误"@, "/wireless.html?result=success&badcode=1"@, "000000"@, "captcha-error"@)
}

pub open spec fn wired_ok(s: Scenario) -> bool {
    scenario_is(s, "有线-成功"@, "/wired.html?result=success"@, "123456"@, "ok"@)
}

/// A scenario as text: name, path, SMS code, expected result.
pub open spec fn scenario_view(s: Scenario) -> (Seq<char>, Seq<char>, Seq<char>, Seq<char>) {
    (s.name@, s.path@, s.sms_code@, s.expected@)
}

/// The scenarios of each mode, as text; nothing for an unknown mode.
pub open spec fn scenario_table(mode: Seq<char>) -> Option<Seq<(Seq<char>, Seq<char>, Seq<char>, Seq<char>)>> {
    let ok = ("无线-成功"@, "/wireless.html?result=success"@, "123456"@, "ok"@);
    let fail = ("无线-认证失败"@, "/wireless.html?result=fail"@, "123456"@, "failed"@);
    let bad = ("无线-动态密码错误"@, "/wireless.html?result=success&badcode=1"@, "000000"@, "captcha-error"@);
    let wired = ("有线-成功"@, "/wired.html?result=success"@, "123456"@, "ok"@);
    if mode == "success"@ {
        Some(seq![ok])
    } else if mode == "fail"@ {
        Some(seq![fail])
    } else if mode == "captcha"@ {
        Some(seq![bad])
    } else if mode == "wired"@ {
        Some(seq![wired])
    } else if mode == "all"@ {
        Some(seq![ok, fail, bad, wired])
    } else {
        None
    }
}

fn scenario(name: &str, path: &str, sms: &str, expected: &str) -> (s: Scenario)
    ensures
        scenario_is(s, name@, path@, sms@, expected@),
{
    Scenario { name: owned(name), path: owned(path), sms_code: owned(sms), expected: owned(expected) }
}

/// The scenarios of a mode: `success`, `fail`, `captcha`, `wired`, or
/// `all` four in that order; another mode is an error.
pub fn scenarios(mode: &str) -> (r: Result<Vec<Scenario>, String>)
    ensures
        mode@ == "success"@ ==> (r matches Ok(v) && v@.len() == 1 && wireless_ok(v@[0])),
        mode@ == "fail"@ ==> (r matches Ok(v) && v@.len() == 1 && wireless_fail(v@[0])),
        mode@ == "captcha"@ ==> (r matches Ok(v) && v@.len() == 1 && wireless_bad_code(v@[0])),
        mode@ == "wired"@ ==> (r matches Ok(v) && v@.len() == 1 && wired_ok(v@[0])),
        mode@ == "all"@ ==> (r matches Ok(v) && v@.len() == 4 && wireless_ok(v@[0]) && wireless_fail(v@[1])
            && wireless_bad_code(v@[2]) && wired_ok(v@[3])),
        !(mode@ == "success"@ || mode@ == "fail"@ || mode@ == "captcha"@ || mode@ == "wired"@
            || mode@ == "all"@) ==> (r matches Err(e) && e@ == "未知的 YULINK_POC_MODE: "@ + mode@),
        match scenario_table(mode@) {
            Some(t) => r matches Ok(v) && v@.len() == t.len() && forall|i: int|
                0 <= i < t.len() ==> #[trigger] scenario_view(v@[i]) == t[i],
            None => r matches Err(e) && e@ == "未知的 YULINK_POC_MODE: "@ + mode@,
        },
{
    proof {
        reveal_strlit("success");
        reveal_strlit("fail");
        reveal_strlit("captcha");
        reveal_strlit("wired");
        reveal_strlit("all");
        assert("success"@.len() == 7 && "fail"@.len() == 4 && "captcha"@.len() == 7);
        assert("wired"@.len() == 5 && "all"@.len() == 3);
        assert("success"@[0] != "captcha"@[0]);
    }
    if str_eq(mode, "success") {
        Ok(vec![scenario("无线-成功", "/wireless.html?result=success", "123456", "ok")])
    } else if str_eq(mode, "fail") {
        Ok(vec![scenario("无线-认证失败", "/wireless.html?result=fail", "123456", "failed")])
    } else if str_eq(mode, "captcha") {
        Ok(vec![scenario("无线-动态密码错误", "/wireless.html?result=success&badcode=1", "000000", "captcha-error")])
    } else if str_eq(mode, "wired") {
        Ok(vec![scenario("有线-成功", "/wired.html?result=success", "123456", "ok")])
    } else if str_eq(mode, "all") {
        Ok(vec![
            scenario("无线-成功", "/wireless.html?result=success", "123456", "ok"),
            scenario("无线-认证失败", "/wireless.html?result=fail", "123456", "failed"),
            scenario("无线-动态密码错误", "/wireless.html?result=success&badcode=1", "000000", "captcha-error"),
            scenario("有线-成功", "/wired.html?result=success", "123456", "ok"),
        ])
    } else {
        Err(concat2("未知的 YULINK_POC_MODE: ", mode))
    }
}

/// How many rounds to run: the setting read as a `usize`, else one.
pub fn poc_repeat(value: Option<&str>) -> (n: usize)
    ensures
        n == match value {
            Some(v) => match parse_unsigned(v@, usize::MAX as int) {
                Some(k) => k,
                None => 1,
            },
            None => 1,
        },
{
    match value {
        Some(v) => {
            let c = chars_of(v);
            assert(c@.subrange(0, c@.len() as int) == c@);
            let max = usize::MAX as u64;
            assert(max as int == usize::MAX as int);
            match parse_unsigned_exec(&c, 0, c.len(), max) {
                Some(k) => {
                    assert(k as int <= usize::MAX as int);
                    let n = k as usize;
                    assert(n as int == k as int);
                    n
                },
                None => 1,
            }
        },
        None => 1,
    }
}

fn copy_scenario(s: &Scenario) -> (c: Scenario)
    ensures
        scenario_view(c) == scenario_view(*s),
{
    Scenario {
        name: owned(s.name.as_str()),
        path: owned(s.path.as_str()),
        sms_code: owned(s.sms_code.as_str()),
        expected: owned(s.expected.as_str()),
    }
}

/// The runs of a proof-of-concept: `repeat` rounds of the mode's
/// scenarios, in order, numbered 1, 2, ...; the same error as
/// [`scenarios`] for an unknown mode. `repeat` is bounded so that the plan
/// fits in memory addresses.
pub fn poc_plan(mode: &str, repeat: usize) -> (r: Result<Vec<(u64, Scenario)>, String>)
    requires
        repeat as int * 4 <= usize::MAX,
    ensures
        match scenario_table(mode@) {
            None => r matches Err(e) && e@ == "未知的 YULINK_POC_MODE: "@ + mode@,
            Some(t) => r matches Ok(p) && p@.len() == repeat * t.len() && forall|j: int|
                0 <= j < p@.len() ==> #[trigger] p@[j].0 == j + 1 && scenario_view(p@[j].1) == t[j
                % t.len() as int],
        },
{
    let table = match scenarios(mode) {
        Ok(v) => v,
        Err(e) => {
            return Err(e);
        },
    };
    let ghost t = scenario_table(mode@).unwrap();
    let k = table.len();
    assert(1 <= k <= 4);
    let mut plan: Vec<(u64, Scenario)> = Vec::new();
    let mut round: usize = 0;
    while round < repeat
        invariant
            k == table@.len() == t.len(),
            1 <= k <= 4,
            repeat as int * 4 <= usize::MAX,
            round <= repeat,
            forall|i: int| 0 <= i < t.len() ==> #[trigger] scenario_view(table@[i]) == t[i],
            plan@.len() == round * k,
            forall|j: int|
                0 <= j < plan@.len() ==> #[trigger] plan@[j].0 == j + 1 && scenario_view(plan@[j].1)
                    == t[j % k as int],
        decreases repeat - round,
    {
        let mut i: usize = 0;
        assert(round * k + k <= repeat * k) by (nonlinear_arith)
            requires
                round < repeat,
        ;
        assert(repeat * k <= repeat * 4) by (nonlinear_arith)
            requires
                k <= 4,
        ;
        while i < k
            invariant
                k == table@.len() == t.len(),
                1 <= k <= 4,
                round < repeat,
                round * k + k <= repeat * k <= repeat * 4 <= usize::MAX,
                i <= k,
                forall|i: int| 0 <= i < t.len() ==> #[trigger] scenario_view(table@[i]) == t[i],
                plan@.len() == round * k + i,
                forall|j: int|
                    0 <= j < plan@.len() ==> #[trigger] plan@[j].0 == j + 1 && scenario_view(
                        plan@[j].1,
                    ) == t[j % k as int],
            decreases k - i,
        {
            let j = plan.len();
            proof {
                vstd::arithmetic::div_mod::lemma_fundamental_div_mod_converse(
                    j as int,
                    k as int,
                    round as int,
                    i as int,
                );
            }
            let id = j as u64 + 1;
            plan.push((id, copy_scenario(&table[i])));
            i += 1;
        }
        assert(plan@.len() == (round + 1) * k) by (nonlinear_arith)
            requires
                plan@.len() == round * k + k,
        ;
        round += 1;
    }
    Ok(plan)
}

/// A run failed: it gave an error or another result than expected.
pub open spec fn run_failed(planned: (u64, Scenario), result: Result<String, String>) -> bool {
    match result {
        Ok(actual) => actual@ != planned.1.expected@,
        Err(_) => true,
    }
}

/// How many of the first `n` runs failed.
pub open spec fn failures(plan: Seq<(u64, Scenario)>, results: Seq<Result<String, String>>, n: int) -> nat
    decreases n,
{
    if n <= 0 {
        0
    } else {
        failures(plan, results, n - 1) + if run_failed(plan[n - 1], results[n - 1]) {
            1nat
        } else {
            0nat
        }
    }
}

/// The number of failed runs, `results[j]` being what run `j` of `plan`
/// gave; zero exactly when every run gave its expected result.
pub fn poc_failures(plan: &Vec<(u64, Scenario)>, results: &Vec<Result<String, String>>) -> (n: u32)
    requires
        plan@.len() == results@.len(),
        results@.len() <= u32::MAX,
    ensures
        n == failures(plan@, results@, results@.len() as int),
        n == 0 <==> forall|j: int| 0 <= j < results@.len() ==> !run_failed(plan@[j], #[trigger] results@[j]),
{
    let mut n: u32 = 0;
    let mut j: usize = 0;
    while j < results.len()
        invariant
            plan@.len() == results@.len() <= u32::MAX,
            j <= results@.len(),
            n == failures(plan@, results@, j as int),
            n <= j,
            n == 0 <==> forall|i: int| 0 <= i < j ==> !run_failed(plan@[i], #[trigger] results@[i]),
        decreases results@.len() - j,
    {
        let failed = match &results[j] {
            Ok(actual) => !str_eq(actual.as_str(), plan[j].1.expected.as_str()),
            Err(_) => true,
        };
        assert(failed == run_failed(plan@[j as int], results@[j as int]));
        if failed {
            n = n + 1;
        }
        j += 1;
    }
    n
}

/// The tally: success when no scenario failed.
pub fn poc_summary(failed: u32) -> (r: Result<(), String>)
    ensures
        failed == 0 ==> r is Ok,
        failed > 0 ==> (r matches Err(e) && e@ == decimal(failed as nat) + " 个场景未通过"@),
{
    if failed == 0 {
        Ok(())
    } else {
        let mut e = String::new();
        push_decimal(&mut e, failed as u64);
        push_str(&mut e, " 个场景未通过");
        Err(e)
    }
}

/// The final result a report of the run stands for: a page that navigates
/// away counts as `ok`; `ok`, `failed`, `captcha-error` and `error` are
/// final as they are.
pub open spec fn poc_result(state: Seq<char>) -> Option<Seq<char>> {
    if state == "navigating"@ {
        Some("ok"@)
    } else if state == "ok"@ || state == "failed"@ || state == "captcha-error"@ || state == "error"@ {
        Some(state)
    } else {
        None
    }
}

/// What the run asks of its driver next.
#[derive(Debug)]
pub enum PocStep {
    /// The scenario is over with this result (the window is destroyed).
    Finish(String),
    /// Inject the script now.
    Eval,
    /// Nothing to do yet.
    Wait,
}

/// The timing state of one scenario; times are milliseconds on a
/// monotonic clock.
#[derive(Debug)]
pub struct PocRun {
    pub run_id: u64,
    /// When the script reported that it started, if it did.
    pub started_at: Option<u64>,
    /// After this time a silent page counts as unresponsive.
    pub eval_deadline: u64,
    /// The next injection is due at this time.
    pub next_eval_at: u64,
}

impl PocRun {
    pub fn new(run_id: u64, now: u64) -> (r: Self)
        ensures
            r.run_id == run_id,
            r.started_at is None,
            r.eval_deadline == now.saturating_add(POC_EVAL_WINDOW_MS),
            r.next_eval_at == now,
    {
        PocRun {
            run_id,
            started_at: None,
            eval_deadline: now.saturating_add(POC_EVAL_WINDOW_MS),
            next_eval_at: now,
        }
    }

    /// Takes one report received at `now`; returns the final result it
    /// stands for. Reports of other runs are ignored.
    pub fn on_beacon(&mut self, ev: &BeaconEvent, now: u64) -> (r: Option<String>)
        ensures
            ev.run != old(self).run_id ==> r is None && *final(self) == *old(self),
            ev.run == old(self).run_id ==> {
                &&& (r matches Some(s) ==> poc_result(ev.state@) == Some(s@))
                &&& (r is None ==> poc_result(ev.state@) is None)
                &&& final(self).started_at == (if ev.state@ == "started"@ && old(self).started_at is None {
                    Some(now)
                } else {
                    old(self).started_at
                })
                &&& final(self).run_id == old(self).run_id
                &&& final(self).eval_deadline == old(self).eval_deadline
                &&& final(self).next_eval_at == old(self).next_eval_at
            },
    {
        if ev.run != self.run_id {
            return None;
        }
        let state = ev.state.as_str();
        if str_eq(state, "started") {
            if self.started_at.is_none() {
                self.started_at = Some(now);
            }
            proof {
                reveal_strlit("started");
                reveal_strlit("navigating");
                reveal_strlit("ok");
                reveal_strlit("failed");
                reveal_strlit("captcha-error");
                reveal_strlit("error");
                assert("started"@.len() == 7 && "navigating"@.len() == 10 && "ok"@.len() == 2);
                assert("failed"@.len() == 6 && "captcha-error"@.len() == 13 && "error"@.len() == 5);
                assert("started"@ != "navigating"@);
                assert("started"@ != "ok"@);
                assert("started"@ != "failed"@);
                assert("started"@ != "captcha-error"@);
                assert("started"@ != "error"@);
            }
            return None;
        }
        if str_eq(state, "navigating") {
            return Some(owned("ok"));
        }
        if str_eq(state, "ok") || str_eq(state, "failed") || str_eq(state, "captcha-error") || str_eq(
            state,
            "error",
        ) {
            return Some(owned(state));
        }
        None
    }

    /// The clock reached `now` with no final report: time out, inject the
    /// script again, or wait.
    pub fn on_tick(&mut self, now: u64) -> (step: PocStep)
        ensures
            final(self).run_id == old(self).run_id,
            final(self).started_at == old(self).started_at,
            final(self).eval_deadline == old(self).eval_deadline,
            match old(self).started_at {
                Some(t0) => if now.saturating_sub(t0) > POC_TERMINAL_WINDOW_MS {
                    step matches PocStep::Finish(s) && s@ == "timeout(rust)"@ && *final(self) == *old(self)
                } else {
                    step is Wait && *final(self) == *old(self)
                },
                None => if now > old(self).eval_deadline {
                    step matches PocStep::Finish(s) && s@ == "eval-no-response"@ && *final(self) == *old(self)
                } else if now >= old(self).next_eval_at {
                    step is Eval && final(self).next_eval_at == now.saturating_add(POC_EVAL_PERIOD_MS)
                } else {
                    step is Wait && *final(self) == *old(self)
                },
            },
    {
        match self.started_at {
            Some(t0) => {
                if now.saturating_sub(t0) > POC_TERMINAL_WINDOW_MS {
                    PocStep::Finish(owned("timeout(rust)"))
                } else {
                    PocStep::Wait
                }
            },
            None => {
                if now > self.eval_deadline {
                    PocStep::Finish(owned("eval-no-response"))
                } else if now >= self.next_eval_at {
                    self.next_eval_at = now.saturating_add(POC_EVAL_PERIOD_MS);
                    PocStep::Eval
                } else {
                    PocStep::Wait
                }
            },
        }
    }
}

} // verus!
