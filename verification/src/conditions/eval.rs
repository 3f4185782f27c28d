//! Evaluator for condition expressions.

use vstd::prelude::*;
use crate::conditions::expr::{CmpOp, Expr, ExprV};
use crate::run::{RunState, terminal};

verus! {

/// Provides upstream job state for condition evaluation.
///
/// The "within" variants take a look-back window in seconds (Autosys
/// `, HH.MM`); the non-windowed variants ask about the most recent run.
///
/// Each accessor answers what a spec function of the trait says. The
/// look-back spec functions default to ignoring the window (the same answer
/// as the last run gives); an implementor with nothing better answers the
/// look-back accessors from its own `last_run_state` with
/// [`success_of_last`] and its siblings, one line each.
pub trait UpstreamState {
    /// State of the last run of a job, as the implementor knows it; an
    /// implementor with verified accessors defines it.
    open spec fn latest_state(&self, job_name: Seq<char>) -> Option<RunState> {
        None
    }

    /// Exit code of the last run of a job, as the implementor knows it; an
    /// implementor with verified accessors defines it.
    open spec fn latest_exit_code(&self, job_name: Seq<char>) -> Option<i32> {
        None
    }

    /// Whether a job is running, as the implementor knows it; an implementor
    /// with verified accessors defines it.
    open spec fn running_now(&self, job_name: Seq<char>) -> bool {
        false
    }

    /// Whether a run in the window succeeded. Default: whether the last run
    /// succeeded, ignoring the window.
    open spec fn success_in(&self, job_name: Seq<char>, within: u64) -> Option<bool> {
        state_is(self.latest_state(job_name), RunState::Success)
    }

    /// Whether a run in the window failed. Default: whether the last run
    /// failed, ignoring the window.
    open spec fn failure_in(&self, job_name: Seq<char>, within: u64) -> Option<bool> {
        state_is(self.latest_state(job_name), RunState::Failed)
    }

    /// Whether a run in the window is terminal. Default: whether the last run
    /// is terminal, ignoring the window.
    open spec fn done_in(&self, job_name: Seq<char>, within: u64) -> Option<bool> {
        done_state(self.latest_state(job_name))
    }

    /// Runs in the window. Default: one when the job has a last run.
    open spec fn runs_in(&self, job_name: Seq<char>, within: u64) -> Option<u32> {
        last_count(self.latest_state(job_name), None)
    }

    /// Successful runs in the window. Default: one when the last run
    /// succeeded, else zero.
    open spec fn successes_in(&self, job_name: Seq<char>, within: u64) -> Option<u32> {
        last_count(self.latest_state(job_name), Some(RunState::Success))
    }

    /// Failed runs in the window. Default: one when the last run failed,
    /// else zero.
    open spec fn failures_in(&self, job_name: Seq<char>, within: u64) -> Option<u32> {
        last_count(self.latest_state(job_name), Some(RunState::Failed))
    }

    /// Returns the last run state for a job, or None if no runs exist.
    fn last_run_state(&self, job_name: &str) -> (r: Option<RunState>)
        ensures
            r == self.latest_state(job_name@),
    ;

    /// Returns the last run's exit code, or None if unavailable.
    fn last_exit_code(&self, job_name: &str) -> (r: Option<i32>)
        ensures
            r == self.latest_exit_code(job_name@),
    ;

    /// Returns true if the job is currently running.
    fn is_running(&self, job_name: &str) -> (r: bool)
        ensures
            r == self.running_now(job_name@),
    ;

    /// Returns `Some(true)` if at least one run in the look-back window succeeded.
    fn success_within(&self, job_name: &str, within: u64) -> (r: Option<bool>)
        ensures
            r == self.success_in(job_name@, within),
    ;

    /// Returns `Some(true)` if at least one run in the look-back window failed.
    fn failure_within(&self, job_name: &str, within: u64) -> (r: Option<bool>)
        ensures
            r == self.failure_in(job_name@, within),
    ;

    /// Returns `Some(true)` if at least one run in the look-back window is terminal.
    fn done_within(&self, job_name: &str, within: u64) -> (r: Option<bool>)
        ensures
            r == self.done_in(job_name@, within),
    ;

    /// Count of all runs (any terminal state + running) within window. None = unknown job.
    fn count_runs_within(&self, job_name: &str, within: u64) -> (r: Option<u32>)
        ensures
            r == self.runs_in(job_name@, within),
    ;

    /// Count of successful runs within window.
    fn count_successes_within(&self, job_name: &str, within: u64) -> (r: Option<u32>)
        ensures
            r == self.successes_in(job_name@, within),
    ;

    /// Count of failed runs within window.
    fn count_failures_within(&self, job_name: &str, within: u64) -> (r: Option<u32>)
        ensures
            r == self.failures_in(job_name@, within),
    ;
}

/// Whether the last run is terminal, if there is one.
pub open spec fn done_state(st: Option<RunState>) -> Option<bool> {
    match st {
        Some(s) => Some(terminal(s)),
        None => None,
    }
}

/// The count the last run alone gives: one if it is in state `s` (any state
/// when `s` is `None`), else zero; unknown without a last run.
pub open spec fn last_count(st: Option<RunState>, s: Option<RunState>) -> Option<u32> {
    match st {
        Some(x) => Some(if s is None || s == Some(x) { 1u32 } else { 0u32 }),
        None => None,
    }
}

/// Look-back success answered from the last run's state `st`, ignoring the
/// window: an implementor passes it its own `last_run_state`.
pub fn success_of_last(st: Option<RunState>) -> (r: Option<bool>)
    ensures
        r == state_is(st, RunState::Success),
{
    match st {
        Some(s) => Some(s == RunState::Success),
        None => None,
    }
}

/// Look-back failure answered from the last run's state, ignoring the window.
pub fn failure_of_last(st: Option<RunState>) -> (r: Option<bool>)
    ensures
        r == state_is(st, RunState::Failed),
{
    match st {
        Some(s) => Some(s == RunState::Failed),
        None => None,
    }
}

/// Look-back completion answered from the last run's state, ignoring the
/// window.
pub fn done_of_last(st: Option<RunState>) -> (r: Option<bool>)
    ensures
        r == done_state(st),
{
    match st {
        Some(s) => Some(s.is_terminal()),
        None => None,
    }
}

/// Run count answered from the last run's state, ignoring the window.
pub fn runs_of_last(st: Option<RunState>) -> (r: Option<u32>)
    ensures
        r == last_count(st, None),
{
    match st {
        Some(_) => Some(1),
        None => None,
    }
}

/// Success count answered from the last run's state, ignoring the window.
pub fn successes_of_last(st: Option<RunState>) -> (r: Option<u32>)
    ensures
        r == last_count(st, Some(RunState::Success)),
{
    match st {
        Some(s) => Some(if s == RunState::Success { 1 } else { 0 }),
        None => None,
    }
}

/// Failure count answered from the last run's state, ignoring the window.
pub fn failures_of_last(st: Option<RunState>) -> (r: Option<u32>)
    ensures
        r == last_count(st, Some(RunState::Failed)),
{
    match st {
        Some(s) => Some(if s == RunState::Failed { 1 } else { 0 }),
        None => None,
    }
}

/// Answers for one look-back window of one job.
#[derive(Debug, Clone, Copy, PartialEq, Eq, Structural)]
pub struct WindowFacts {
    /// The window, in seconds.
    pub within: u64,
    /// Some run in the window succeeded.
    pub success: Option<bool>,
    /// Some run in the window failed.
    pub failure: Option<bool>,
    /// Some run in the window is terminal.
    pub done: Option<bool>,
    /// Runs in the window.
    pub runs: Option<u32>,
    /// Successful runs in the window.
    pub successes: Option<u32>,
    /// Failed runs in the window.
    pub failures: Option<u32>,
}

/// What is known of one upstream job.
#[derive(Debug, Clone)]
pub struct JobFacts {
    /// Job name.
    pub name: String,
    /// State of the last run, if any.
    pub last_state: Option<RunState>,
    /// Exit code of the last run, if known.
    pub last_exit_code: Option<i32>,
    /// Whether the job is running now.
    pub running: bool,
    /// Answers per look-back window.
    pub windows: Vec<WindowFacts>,
}

/// Upstream state as plain data: the facts of each known job. A job that is
/// not listed has no history; a window that is not listed is unknown.
#[derive(Debug, Clone)]
pub struct UpstreamFacts {
    /// Known jobs; the first entry with a name is the one used.
    pub jobs: Vec<JobFacts>,
}

/// The facts of the first job named `name`.
#[verifier::opaque]
pub open spec fn job_of(f: UpstreamFacts, name: Seq<char>) -> Option<JobFacts> {
    if exists|i: int| 0 <= i < f.jobs@.len() && f.jobs@[i].name@ == name {
        Some(
            f.jobs@[choose|i: int|
                0 <= i < f.jobs@.len() && f.jobs@[i].name@ == name && forall|k: int|
                    0 <= k < i ==> f.jobs@[k].name@ != name],
        )
    } else {
        None
    }
}

/// The answers of the first window entry for `within`.
#[verifier::opaque]
pub open spec fn window_of_job(j: JobFacts, within: u64) -> Option<WindowFacts> {
    if exists|i: int| 0 <= i < j.windows@.len() && j.windows@[i].within == within {
        Some(
            j.windows@[choose|i: int|
                0 <= i < j.windows@.len() && j.windows@[i].within == within && forall|k: int|
                    0 <= k < i ==> j.windows@[k].within != within],
        )
    } else {
        None
    }
}

/// The window answers for a job and window, if both are listed.
pub open spec fn window_facts(f: UpstreamFacts, name: Seq<char>, within: u64) -> Option<WindowFacts> {
    match job_of(f, name) {
        Some(j) => window_of_job(j, within),
        None => None,
    }
}

/// State of the last run of a job.
pub open spec fn last_state_of(f: UpstreamFacts, name: Seq<char>) -> Option<RunState> {
    match job_of(f, name) {
        Some(j) => j.last_state,
        None => None,
    }
}

/// Exit code of the last run of a job.
pub open spec fn exit_code_of(f: UpstreamFacts, name: Seq<char>) -> Option<i32> {
    match job_of(f, name) {
        Some(j) => j.last_exit_code,
        None => None,
    }
}

/// Whether a job is running.
pub open spec fn running_of(f: UpstreamFacts, name: Seq<char>) -> bool {
    match job_of(f, name) {
        Some(j) => j.running,
        None => false,
    }
}

/// The comparison `actual op expected`.
pub open spec fn op_holds(op: CmpOp, actual: int, expected: int) -> bool {
    match op {
        CmpOp::Eq => actual == expected,
        CmpOp::Ne => actual != expected,
        CmpOp::Lt => actual < expected,
        CmpOp::Le => actual <= expected,
        CmpOp::Gt => actual > expected,
        CmpOp::Ge => actual >= expected,
    }
}

/// Window used by the counting predicates when no look-back is given.
pub open spec fn count_window(lb: Option<u64>) -> u64 {
    match lb {
        Some(d) => d,
        None => (u64::MAX / 2) as u64,
    }
}

/// Compares a count (read as `i32`, as the evaluator does) against `n`.
pub open spec fn count_holds(k: Option<u32>, op: CmpOp, n: i32) -> Option<bool> {
    match k {
        Some(k) => Some(op_holds(op, (k as i32) as int, n as int)),
        None => None,
    }
}

/// Whether the last run is in state `s`, if there is a last run.
pub open spec fn state_is(st: Option<RunState>, s: RunState) -> Option<bool> {
    match st {
        Some(x) => Some(x == s),
        None => None,
    }
}

/// Value of an expression against upstream facts.
pub open spec fn eval(e: ExprV, f: UpstreamFacts) -> Option<bool>
    decreases e,
{
    match e {
        ExprV::Success(j, lb) => match lb {
            Some(d) => match window_facts(f, j, d) {
                Some(w) => w.success,
                None => None,
            },
            None => state_is(last_state_of(f, j), RunState::Success),
        },
        ExprV::Failure(j, lb) => match lb {
            Some(d) => match window_facts(f, j, d) {
                Some(w) => w.failure,
                None => None,
            },
            None => state_is(last_state_of(f, j), RunState::Failed),
        },
        ExprV::Done(j, lb) => match lb {
            Some(d) => match window_facts(f, j, d) {
                Some(w) => w.done,
                None => None,
            },
            None => match last_state_of(f, j) {
                Some(s) => Some(terminal(s)),
                None => None,
            },
        },
        ExprV::Running(j) => Some(running_of(f, j)),
        ExprV::NotRunning(j) => Some(!running_of(f, j)),
        ExprV::ExitCode(j, op, n) => match exit_code_of(f, j) {
            Some(code) => Some(op_holds(op, code as int, n as int)),
            None => None,
        },
        ExprV::NumRun(j, op, n, lb) => count_holds(
            match window_facts(f, j, count_window(lb)) {
                Some(w) => w.runs,
                None => None,
            },
            op,
            n,
        ),
        ExprV::NumSuc(j, op, n, lb) => count_holds(
            match window_facts(f, j, count_window(lb)) {
                Some(w) => w.successes,
                None => None,
            },
            op,
            n,
        ),
        ExprV::NumFail(j, op, n, lb) => count_holds(
            match window_facts(f, j, count_window(lb)) {
                Some(w) => w.failures,
                None => None,
            },
            op,
            n,
        ),
        ExprV::Value(_) => None,
        ExprV::And(a, b) => match (eval(*a, f), eval(*b, f)) {
            (Some(x), Some(y)) => Some(x && y),
            _ => None,
        },
        ExprV::Or(a, b) => match (eval(*a, f), eval(*b, f)) {
            (Some(x), Some(y)) => Some(x || y),
            _ => None,
        },
        ExprV::Not(a) => match eval(*a, f) {
            Some(x) => Some(!x),
            None => None,
        },
    }
}

/// Each comparison operator compares the actual value with the expected one
/// as its symbol says: no value is strictly below or above itself, `<` is the
/// negation of `>=`, `>` of `<=`, `!=` of `=`, and `<=` is `<` or `=`.
pub proof fn lemma_comparisons(actual: int, expected: int)
    ensures
        op_holds(CmpOp::Eq, actual, expected) <==> actual == expected,
        op_holds(CmpOp::Ne, actual, expected) <==> actual != expected,
        op_holds(CmpOp::Lt, actual, expected) <==> actual < expected,
        op_holds(CmpOp::Le, actual, expected) <==> actual <= expected,
        op_holds(CmpOp::Gt, actual, expected) <==> actual > expected,
        op_holds(CmpOp::Ge, actual, expected) <==> actual >= expected,
        !op_holds(CmpOp::Lt, actual, actual) && !op_holds(CmpOp::Gt, actual, actual),
        op_holds(CmpOp::Le, actual, actual) && op_holds(CmpOp::Ge, actual, actual),
        op_holds(CmpOp::Lt, actual, expected) <==> !op_holds(CmpOp::Ge, actual, expected),
        op_holds(CmpOp::Gt, actual, expected) <==> !op_holds(CmpOp::Le, actual, expected),
        op_holds(CmpOp::Ne, actual, expected) <==> !op_holds(CmpOp::Eq, actual, expected),
        op_holds(CmpOp::Le, actual, expected) <==> (op_holds(CmpOp::Lt, actual, expected)
            || op_holds(CmpOp::Eq, actual, expected)),
        op_holds(CmpOp::Lt, actual, expected) <==> op_holds(CmpOp::Gt, expected, actual),
{
}

/// Applies a comparison operator.
pub fn apply_op(op: &CmpOp, actual: i32, expected: i32) -> (r: bool)
    ensures
        r == op_holds(*op, actual as int, expected as int),
{
    match op {
        CmpOp::Eq => actual == expected,
        CmpOp::Ne => actual != expected,
        CmpOp::Lt => actual < expected,
        CmpOp::Le => actual <= expected,
        CmpOp::Gt => actual > expected,
        CmpOp::Ge => actual >= expected,
    }
}

fn window_of(lb: &Option<u64>) -> (w: u64)
    ensures
        w == count_window(*lb),
{
    match lb {
        Some(d) => *d,
        None => u64::MAX / 2,
    }
}

fn count_check(k: Option<u32>, op: &CmpOp, n: i32) -> (r: Option<bool>)
    ensures
        r == count_holds(k, *op, n),
{
    match k {
        Some(k) => Some(apply_op(op, k as i32, n)),
        None => None,
    }
}

/// Value of an expression against a context: each leaf is what the
/// context's accessors say (the counting predicates without a look-back ask
/// the widest window); `and`, `or` and `not` give a value only when their
/// operands have one.
pub open spec fn eval_ctx<C: UpstreamState + ?Sized>(e: ExprV, ctx: &C) -> Option<bool>
    decreases e,
{
    match e {
        ExprV::Success(j, lb) => match lb {
            Some(d) => ctx.success_in(j, d),
            None => state_is(ctx.latest_state(j), RunState::Success),
        },
        ExprV::Failure(j, lb) => match lb {
            Some(d) => ctx.failure_in(j, d),
            None => state_is(ctx.latest_state(j), RunState::Failed),
        },
        ExprV::Done(j, lb) => match lb {
            Some(d) => ctx.done_in(j, d),
            None => done_state(ctx.latest_state(j)),
        },
        ExprV::Running(j) => Some(ctx.running_now(j)),
        ExprV::NotRunning(j) => Some(!ctx.running_now(j)),
        ExprV::ExitCode(j, op, n) => match ctx.latest_exit_code(j) {
            Some(code) => Some(op_holds(op, code as int, n as int)),
            None => None,
        },
        ExprV::NumRun(j, op, n, lb) => count_holds(ctx.runs_in(j, count_window(lb)), op, n),
        ExprV::NumSuc(j, op, n, lb) => count_holds(ctx.successes_in(j, count_window(lb)), op, n),
        ExprV::NumFail(j, op, n, lb) => count_holds(ctx.failures_in(j, count_window(lb)), op, n),
        ExprV::Value(_) => None,
        ExprV::And(a, b) => match (eval_ctx(*a, ctx), eval_ctx(*b, ctx)) {
            (Some(x), Some(y)) => Some(x && y),
            _ => None,
        },
        ExprV::Or(a, b) => match (eval_ctx(*a, ctx), eval_ctx(*b, ctx)) {
            (Some(x), Some(y)) => Some(x || y),
            _ => None,
        },
        ExprV::Not(a) => match eval_ctx(*a, ctx) {
            Some(x) => Some(!x),
            None => None,
        },
    }
}

/// A context whose look-back answers come from the last run alone (what
/// `success_of_last`, `failure_of_last` and `done_of_last` give) evaluates
/// `success`, `failure` and `done` with a look-back as without one.
pub proof fn lemma_window_ignored<C: UpstreamState + ?Sized>(ctx: &C, j: Seq<char>, d: u64)
    ensures
        ctx.success_in(j, d) == state_is(ctx.latest_state(j), RunState::Success) ==> eval_ctx(
            ExprV::Success(j, Some(d)),
            ctx,
        ) == eval_ctx(ExprV::Success(j, None), ctx),
        ctx.failure_in(j, d) == state_is(ctx.latest_state(j), RunState::Failed) ==> eval_ctx(
            ExprV::Failure(j, Some(d)),
            ctx,
        ) == eval_ctx(ExprV::Failure(j, None), ctx),
        ctx.done_in(j, d) == done_state(ctx.latest_state(j)) ==> eval_ctx(ExprV::Done(j, Some(d)), ctx)
            == eval_ctx(ExprV::Done(j, None), ctx),
{
}

/// For every context, `and`, `or` and `not` are computed from their
/// operands' values: known only when every operand is known, with no
/// short-circuit (so `true or unknown` is unknown).
pub proof fn lemma_connectives<C: UpstreamState + ?Sized>(a: ExprV, b: ExprV, ctx: &C)
    ensures
        eval_ctx(ExprV::And(Box::new(a), Box::new(b)), ctx) == (match (eval_ctx(a, ctx), eval_ctx(b, ctx)) {
            (Some(x), Some(y)) => Some(x && y),
            _ => None,
        }),
        eval_ctx(ExprV::Or(Box::new(a), Box::new(b)), ctx) == (match (eval_ctx(a, ctx), eval_ctx(b, ctx)) {
            (Some(x), Some(y)) => Some(x || y),
            _ => None,
        }),
        eval_ctx(ExprV::Not(Box::new(a)), ctx) == (match eval_ctx(a, ctx) {
            Some(x) => Some(!x),
            None => None,
        }),
{
}

/// Evaluate an expression against upstream state.
///
/// Returns `Some(true)` / `Some(false)` if all referenced jobs are known,
/// `None` if any referenced job has no history (unknown state).
pub fn evaluate<C: UpstreamState + ?Sized>(expr: &Expr, ctx: &C) -> (r: Option<bool>)
    ensures
        r == eval_ctx(expr@, ctx),
    decreases expr,
{
    match expr {
        Expr::Success(j, lb) => match lb {
            Some(d) => ctx.success_within(j.as_str(), *d),
            None => match ctx.last_run_state(j.as_str()) {
                Some(s) => Some(s == RunState::Success),
                None => None,
            },
        },
        Expr::Failure(j, lb) => match lb {
            Some(d) => ctx.failure_within(j.as_str(), *d),
            None => match ctx.last_run_state(j.as_str()) {
                Some(s) => Some(s == RunState::Failed),
                None => None,
            },
        },
        Expr::Done(j, lb) => match lb {
            Some(d) => ctx.done_within(j.as_str(), *d),
            None => match ctx.last_run_state(j.as_str()) {
                Some(s) => Some(s.is_terminal()),
                None => None,
            },
        },
        Expr::Running(j) => Some(ctx.is_running(j.as_str())),
        Expr::NotRunning(j) => Some(!ctx.is_running(j.as_str())),
        Expr::ExitCode(j, op, expected) => match ctx.last_exit_code(j.as_str()) {
            Some(code) => Some(apply_op(op, code, *expected)),
            None => None,
        },
        Expr::NumRun(j, op, expected, lb) => {
            let window = window_of(lb);
            count_check(ctx.count_runs_within(j.as_str(), window), op, *expected)
        },
        Expr::NumSuc(j, op, expected, lb) => {
            let window = window_of(lb);
            count_check(ctx.count_successes_within(j.as_str(), window), op, *expected)
        },
        Expr::NumFail(j, op, expected, lb) => {
            let window = window_of(lb);
            count_check(ctx.count_failures_within(j.as_str(), window), op, *expected)
        },
        Expr::Value(_) => None,
        Expr::And(a, b) => {
            let lhs = evaluate(a, ctx);
            match lhs {
                Some(x) => {
                    let rhs = evaluate(b, ctx);
                    match rhs {
                        Some(y) => Some(x && y),
                        None => None,
                    }
                },
                None => None,
            }
        },
        Expr::Or(a, b) => {
            let lhs = evaluate(a, ctx);
            match lhs {
                Some(x) => {
                    let rhs = evaluate(b, ctx);
                    match rhs {
                        Some(y) => Some(x || y),
                        None => None,
                    }
                },
                None => None,
            }
        },
        Expr::Not(e) => match evaluate(e, ctx) {
            Some(x) => Some(!x),
            None => None,
        },
    }
}

/// `not` inverts a known answer and keeps an unknown one unknown.
pub proof fn lemma_not_inverts(e: ExprV, ctx: UpstreamFacts)
    ensures
        eval(ExprV::Not(Box::new(e)), ctx) == (match eval(e, ctx) {
            Some(x) => Some(!x),
            None => None,
        }),
{
}

/// De Morgan: `not (a and b)` has the value of `not a or not b`.
pub proof fn lemma_de_morgan(a: ExprV, b: ExprV, ctx: UpstreamFacts)
    ensures
        eval(ExprV::Not(Box::new(ExprV::And(Box::new(a), Box::new(b)))), ctx) == eval(
            ExprV::Or(Box::new(ExprV::Not(Box::new(a))), Box::new(ExprV::Not(Box::new(b)))),
            ctx,
        ),
{
    let na = ExprV::Not(Box::new(a));
    let nb = ExprV::Not(Box::new(b));
    let ab = ExprV::And(Box::new(a), Box::new(b));
    assert(eval(na, ctx) == (match eval(a, ctx) {
        Some(x) => Some(!x),
        None => None,
    }));
    assert(eval(nb, ctx) == (match eval(b, ctx) {
        Some(x) => Some(!x),
        None => None,
    }));
    assert(eval(ab, ctx) == (match (eval(a, ctx), eval(b, ctx)) {
        (Some(x), Some(y)) => Some(x && y),
        _ => None,
    }));
}

/// A conjunction is unknown as soon as either side is unknown.
pub proof fn lemma_and_unknown(a: ExprV, b: ExprV, ctx: UpstreamFacts)
    ensures
        (eval(a, ctx) is None || eval(b, ctx) is None) ==> eval(
            ExprV::And(Box::new(a), Box::new(b)),
            ctx,
        ) is None,
{
}

/// Global-variable lookups are never decided yet.
pub proof fn lemma_value_unknown(name: Seq<char>, ctx: UpstreamFacts)
    ensures
        eval(ExprV::Value(name), ctx) is None,
{
}

/// `jobs[i]` is the first job named `name`.
proof fn lemma_job_at(f: UpstreamFacts, name: Seq<char>, i: int)
    requires
        0 <= i < f.jobs@.len(),
        f.jobs@[i].name@ == name,
        forall|k: int| 0 <= k < i ==> f.jobs@[k].name@ != name,
    ensures
        job_of(f, name) == Some(f.jobs@[i]),
{
    reveal(job_of);
    let w = choose|w: int|
        0 <= w < f.jobs@.len() && f.jobs@[w].name@ == name && forall|k: int|
            0 <= k < w ==> f.jobs@[k].name@ != name;
    assert(0 <= i < f.jobs@.len() && f.jobs@[i].name@ == name && forall|k: int|
        0 <= k < i ==> f.jobs@[k].name@ != name);
    if w < i {
        assert(f.jobs@[w].name@ != name);
    }
    if w > i {
        assert(f.jobs@[i].name@ != name);
    }
}

/// `windows[i]` is the first window entry for `within`.
proof fn lemma_window_at(j: JobFacts, within: u64, i: int)
    requires
        0 <= i < j.windows@.len(),
        j.windows@[i].within == within,
        forall|k: int| 0 <= k < i ==> j.windows@[k].within != within,
    ensures
        window_of_job(j, within) == Some(j.windows@[i]),
{
    reveal(window_of_job);
    let w = choose|w: int|
        0 <= w < j.windows@.len() && j.windows@[w].within == within && forall|k: int|
            0 <= k < w ==> j.windows@[k].within != within;
    assert(0 <= i < j.windows@.len() && j.windows@[i].within == within && forall|k: int|
        0 <= k < i ==> j.windows@[k].within != within);
    if w < i {
        assert(j.windows@[w].within != within);
    }
    if w > i {
        assert(j.windows@[i].within != within);
    }
}

impl UpstreamFacts {
    /// The facts of the first job named `name`.
    pub fn job(&self, name: &str) -> (r: Option<&JobFacts>)
        ensures
            match job_of(*self, name@) {
                Some(j) => r is Some && *r->0 == j,
                None => r is None,
            },
    {
        let mut i: usize = 0;
        while i < self.jobs.len()
            invariant
                i <= self.jobs@.len(),
                forall|k: int| 0 <= k < i ==> self.jobs@[k].name@ != name@,
            decreases self.jobs.len() - i,
        {
            if crate::text::str_eq_lit(self.jobs[i].name.as_str(), name) {
                proof {
                    lemma_job_at(*self, name@, i as int);
                }
                return Some(&self.jobs[i]);
            }
            i = i + 1;
        }
        proof {
            reveal(job_of);
        }
        None
    }

    /// The answers for a job and window, if both are listed.
    pub fn window(&self, name: &str, within: u64) -> (r: Option<WindowFacts>)
        ensures
            r == window_facts(*self, name@, within),
    {
        match self.job(name) {
            Some(j) => {
                let mut i: usize = 0;
                while i < j.windows.len()
                    invariant
                        i <= j.windows@.len(),
                        job_of(*self, name@) == Some(*j),
                        forall|k: int| 0 <= k < i ==> j.windows@[k].within != within,
                    decreases j.windows.len() - i,
                {
                    if j.windows[i].within == within {
                        proof {
                            lemma_window_at(*j, within, i as int);
                        }
                        return Some(j.windows[i]);
                    }
                    i = i + 1;
                }
                proof {
                    reveal(window_of_job);
                }
                None
            },
            None => None,
        }
    }
}

impl UpstreamState for UpstreamFacts {
    open spec fn latest_state(&self, job_name: Seq<char>) -> Option<RunState> {
        last_state_of(*self, job_name)
    }

    open spec fn latest_exit_code(&self, job_name: Seq<char>) -> Option<i32> {
        exit_code_of(*self, job_name)
    }

    open spec fn running_now(&self, job_name: Seq<char>) -> bool {
        running_of(*self, job_name)
    }

    open spec fn success_in(&self, job_name: Seq<char>, within: u64) -> Option<bool> {
        match window_facts(*self, job_name, within) {
            Some(w) => w.success,
            None => None,
        }
    }

    open spec fn failure_in(&self, job_name: Seq<char>, within: u64) -> Option<bool> {
        match window_facts(*self, job_name, within) {
            Some(w) => w.failure,
            None => None,
        }
    }

    open spec fn done_in(&self, job_name: Seq<char>, within: u64) -> Option<bool> {
        match window_facts(*self, job_name, within) {
            Some(w) => w.done,
            None => None,
        }
    }

    open spec fn runs_in(&self, job_name: Seq<char>, within: u64) -> Option<u32> {
        match window_facts(*self, job_name, within) {
            Some(w) => w.runs,
            None => None,
        }
    }

    open spec fn successes_in(&self, job_name: Seq<char>, within: u64) -> Option<u32> {
        match window_facts(*self, job_name, within) {
            Some(w) => w.successes,
            None => None,
        }
    }

    open spec fn failures_in(&self, job_name: Seq<char>, within: u64) -> Option<u32> {
        match window_facts(*self, job_name, within) {
            Some(w) => w.failures,
            None => None,
        }
    }

    fn last_run_state(&self, job_name: &str) -> (r: Option<RunState>)
        ensures
            r == last_state_of(*self, job_name@),
    {
        match self.job(job_name) {
            Some(j) => j.last_state,
            None => None,
        }
    }

    fn last_exit_code(&self, job_name: &str) -> (r: Option<i32>)
        ensures
            r == exit_code_of(*self, job_name@),
    {
        match self.job(job_name) {
            Some(j) => j.last_exit_code,
            None => None,
        }
    }

    fn is_running(&self, job_name: &str) -> (r: bool)
        ensures
            r == running_of(*self, job_name@),
    {
        match self.job(job_name) {
            Some(j) => j.running,
            None => false,
        }
    }

    fn success_within(&self, job_name: &str, within: u64) -> (r: Option<bool>)
        ensures
            r == (match window_facts(*self, job_name@, within) {
                Some(w) => w.success,
                None => None,
            }),
    {
        match self.window(job_name, within) {
            Some(w) => w.success,
            None => None,
        }
    }

    fn failure_within(&self, job_name: &str, within: u64) -> (r: Option<bool>)
        ensures
            r == (match window_facts(*self, job_name@, within) {
                Some(w) => w.failure,
                None => None,
            }),
    {
        match self.window(job_name, within) {
            Some(w) => w.failure,
            None => None,
        }
    }

    fn done_within(&self, job_name: &str, within: u64) -> (r: Option<bool>)
        ensures
            r == (match window_facts(*self, job_name@, within) {
                Some(w) => w.done,
                None => None,
            }),
    {
        match self.window(job_name, within) {
            Some(w) => w.done,
            None => None,
        }
    }

    fn count_runs_within(&self, job_name: &str, within: u64) -> (r: Option<u32>)
        ensures
            r == (match window_facts(*self, job_name@, within) {
                Some(w) => w.runs,
                None => None,
            }),
    {
        match self.window(job_name, within) {
            Some(w) => w.runs,
            None => None,
        }
    }

    fn count_successes_within(&self, job_name: &str, within: u64) -> (r: Option<u32>)
        ensures
            r == (match window_facts(*self, job_name@, within) {
                Some(w) => w.successes,
                None => None,
            }),
    {
        match self.window(job_name, within) {
            Some(w) => w.successes,
            None => None,
        }
    }

    fn count_failures_within(&self, job_name: &str, within: u64) -> (r: Option<u32>)
        ensures
            r == (match window_facts(*self, job_name@, within) {
                Some(w) => w.failures,
                None => None,
            }),
    {
        match self.window(job_name, within) {
            Some(w) => w.failures,
            None => None,
        }
    }
}

/// Upstream state given as data is evaluated as its accessors answer.
proof fn lemma_facts_eval(e: ExprV, f: UpstreamFacts)
    ensures
        eval_ctx(e, &f) == eval(e, f),
    decreases e,
{
    match e {
        ExprV::And(a, b) | ExprV::Or(a, b) => {
            lemma_facts_eval(*a, f);
            lemma_facts_eval(*b, f);
        },
        ExprV::Not(a) => {
            lemma_facts_eval(*a, f);
        },
        _ => {},
    }
}

/// Evaluate an expression against upstream state given as data.
///
/// Returns `Some(true)` / `Some(false)` if all referenced jobs are known,
/// `None` if any referenced job has no history (unknown state).
pub fn evaluate_facts(expr: &Expr, facts: &UpstreamFacts) -> (r: Option<bool>)
    ensures
        r == eval(expr@, *facts),
{
    proof {
        lemma_facts_eval(expr@, *facts);
    }
    evaluate(expr, facts)
}

} // verus!
