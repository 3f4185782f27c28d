use rsched::conditions::eval::{
    done_of_last, evaluate, evaluate_facts, failure_of_last, success_of_last, JobFacts,
    UpstreamFacts, UpstreamState, WindowFacts,
};
use rsched::conditions::expr::{lookback_checked, parse_lookback, CmpOp, Expr};
use rsched::conditions::parse::{parse, parse_checked, ParseError};
use rsched::run::RunState;

struct FakeCtx {
    state: Option<RunState>,
    exit_code: Option<i32>,
    running: bool,
    suc_count: u32,
    fail_count: u32,
}

impl FakeCtx {
    fn new(state: Option<RunState>, exit_code: Option<i32>, running: bool) -> Self {
        Self { state, exit_code, running, suc_count: 0, fail_count: 0 }
    }
}

impl UpstreamState for FakeCtx {
    fn last_run_state(&self, _job_name: &str) -> Option<RunState> {
        self.state
    }
    fn last_exit_code(&self, _job_name: &str) -> Option<i32> {
        self.exit_code
    }
    fn is_running(&self, _job_name: &str) -> bool {
        self.running
    }
    fn success_within(&self, job_name: &str, _within: u64) -> Option<bool> {
        success_of_last(self.last_run_state(job_name))
    }
    fn failure_within(&self, job_name: &str, _within: u64) -> Option<bool> {
        failure_of_last(self.last_run_state(job_name))
    }
    fn done_within(&self, job_name: &str, _within: u64) -> Option<bool> {
        done_of_last(self.last_run_state(job_name))
    }
    fn count_successes_within(&self, _job_name: &str, _within: u64) -> Option<u32> {
        Some(self.suc_count)
    }
    fn count_failures_within(&self, _job_name: &str, _within: u64) -> Option<u32> {
        Some(self.fail_count)
    }
    fn count_runs_within(&self, _job_name: &str, _within: u64) -> Option<u32> {
        Some(self.suc_count + self.fail_count)
    }
}

fn ctx(state: RunState, code: i32) -> FakeCtx {
    FakeCtx::new(Some(state), Some(code), state == RunState::Running)
}

#[test]
fn success_true() {
    let e = parse("success(j)").unwrap();
    assert_eq!(evaluate(&e, &ctx(RunState::Success, 0)), Some(true));
}

#[test]
fn success_false_when_failed() {
    let e = parse("success(j)").unwrap();
    assert_eq!(evaluate(&e, &ctx(RunState::Failed, 1)), Some(false));
}

#[test]
fn failure_true() {
    let e = parse("failure(j)").unwrap();
    assert_eq!(evaluate(&e, &ctx(RunState::Failed, 1)), Some(true));
}

#[test]
fn done_when_success() {
    let e = parse("done(j)").unwrap();
    assert_eq!(evaluate(&e, &ctx(RunState::Success, 0)), Some(true));
}

#[test]
fn done_false_when_running() {
    let e = parse("done(j)").unwrap();
    assert_eq!(evaluate(&e, &ctx(RunState::Running, 0)), Some(false));
}

#[test]
fn running_true() {
    let e = parse("running(j)").unwrap();
    let c = FakeCtx::new(Some(RunState::Running), None, true);
    assert_eq!(evaluate(&e, &c), Some(true));
}

#[test]
fn notrunning_true_when_success() {
    let e = parse("notrunning(j)").unwrap();
    assert_eq!(evaluate(&e, &ctx(RunState::Success, 0)), Some(true));
}

#[test]
fn exitcode_eq() {
    let e = parse("exitcode(j) = 0").unwrap();
    assert_eq!(evaluate(&e, &ctx(RunState::Success, 0)), Some(true));
    assert_eq!(evaluate(&e, &ctx(RunState::Failed, 1)), Some(false));
}

#[test]
fn exitcode_all_ops() {
    let c = ctx(RunState::Failed, 5);
    assert_eq!(evaluate(&parse("exitcode(j) != 4").unwrap(), &c), Some(true));
    assert_eq!(evaluate(&parse("exitcode(j) > 4").unwrap(), &c), Some(true));
    assert_eq!(evaluate(&parse("exitcode(j) >= 5").unwrap(), &c), Some(true));
    assert_eq!(evaluate(&parse("exitcode(j) < 6").unwrap(), &c), Some(true));
    assert_eq!(evaluate(&parse("exitcode(j) <= 5").unwrap(), &c), Some(true));
}

#[test]
fn lookback_success_falls_back_to_last_state() {
    let e = parse("success(j, 01.00)").unwrap();
    assert_eq!(evaluate(&e, &ctx(RunState::Success, 0)), Some(true));
    assert_eq!(evaluate(&e, &ctx(RunState::Failed, 1)), Some(false));
}

#[test]
fn numsuc_compares_against_count() {
    let mut c = FakeCtx::new(Some(RunState::Success), Some(0), false);
    c.suc_count = 3;
    c.fail_count = 1;
    assert_eq!(evaluate(&parse("numsuc(j, 24.00) >= 3").unwrap(), &c), Some(true));
    assert_eq!(evaluate(&parse("numsuc(j, 24.00) > 3").unwrap(), &c), Some(false));
    assert_eq!(evaluate(&parse("numfail(j, 24.00) = 1").unwrap(), &c), Some(true));
    assert_eq!(evaluate(&parse("numrun(j, 24.00) = 4").unwrap(), &c), Some(true));
}

#[test]
fn and_both_true() {
    let e = parse("success(j) and done(j)").unwrap();
    assert_eq!(evaluate(&e, &ctx(RunState::Success, 0)), Some(true));
}

#[test]
fn or_one_true() {
    let e = parse("failure(j) or success(j)").unwrap();
    assert_eq!(evaluate(&e, &ctx(RunState::Success, 0)), Some(true));
}

#[test]
fn not_inverts() {
    let e = parse("not success(j)").unwrap();
    assert_eq!(evaluate(&e, &ctx(RunState::Success, 0)), Some(false));
    assert_eq!(evaluate(&e, &ctx(RunState::Failed, 1)), Some(true));
}

#[test]
fn unknown_job_returns_none() {
    let e = parse("success(j)").unwrap();
    let c = FakeCtx::new(None, None, false);
    assert_eq!(evaluate(&e, &c), None);
}

#[test]
fn value_returns_none() {
    let e = parse("value(global.x)").unwrap();
    let c = FakeCtx::new(None, None, false);
    assert_eq!(evaluate(&e, &c), None);
}

#[test]
fn de_morgan_on_concrete_state() {
    let c = ctx(RunState::Failed, 1);
    let lhs = evaluate(&Expr::Not(Box::new(parse("success(a) and done(b)").unwrap())), &c);
    let rhs = evaluate(&parse("not success(a) or not done(b)").unwrap(), &c);
    assert_eq!(lhs, rhs);
    assert_eq!(lhs, Some(true));
}

#[test]
fn unknown_operand_makes_and_unknown() {
    let c = FakeCtx::new(None, None, false);
    assert_eq!(evaluate(&parse("running(a) and success(b)").unwrap(), &c), None);
}

#[test]
fn lookback_parse() {
    assert_eq!(parse_lookback("00.30"), Some(30 * 60));
    assert_eq!(parse_lookback("01.30"), Some(5400));
    assert_eq!(parse_lookback("24.00"), Some(86400));
    assert_eq!(parse_lookback("0.5"), Some(300));
    assert!(parse_lookback("1:30").is_none());
    assert!(parse_lookback("01.60").is_none());
    assert!(parse_lookback("xx.yy").is_none());
}

#[test]
fn display_with_lookback() {
    let e = Expr::Success("jobA".into(), Some(5400));
    assert_eq!(e.to_text(), "success(jobA, 01.30)");
}

#[test]
fn display_without_lookback() {
    let e = Expr::Success("jobA".into(), None);
    assert_eq!(e.to_text(), "success(jobA)");
}

#[test]
fn display_of_every_form() {
    let e = Expr::And(
        Box::new(Expr::NumFail("j".into(), CmpOp::Lt, -2, Some(1800))),
        Box::new(Expr::Or(
            Box::new(Expr::ExitCode("k".into(), CmpOp::Ge, 3)),
            Box::new(Expr::Not(Box::new(Expr::Value("g.x".into())))),
        )),
    );
    assert_eq!(e.to_text(), "(numfail(j, 00.30) < -2 and (exitcode(k) >= 3 or not(value(g.x))))");
}

#[test]
fn simple_success() {
    let e = parse("success(jobA)").unwrap();
    assert_eq!(e, Expr::Success("jobA".into(), None));
}

#[test]
fn short_alias_s() {
    let e = parse("s(jobA)").unwrap();
    assert_eq!(e, Expr::Success("jobA".into(), None));
}

#[test]
fn failure_alias() {
    assert_eq!(parse("f(x)").unwrap(), Expr::Failure("x".into(), None));
    assert_eq!(parse("failure(x)").unwrap(), Expr::Failure("x".into(), None));
}

#[test]
fn done_alias() {
    assert_eq!(parse("d(x)").unwrap(), Expr::Done("x".into(), None));
    assert_eq!(parse("done(x)").unwrap(), Expr::Done("x".into(), None));
}

#[test]
fn running_alias() {
    assert_eq!(parse("r(x)").unwrap(), Expr::Running("x".into()));
    assert_eq!(parse("running(x)").unwrap(), Expr::Running("x".into()));
}

#[test]
fn notrunning_alias() {
    assert_eq!(parse("n(x)").unwrap(), Expr::NotRunning("x".into()));
    assert_eq!(parse("notrunning(x)").unwrap(), Expr::NotRunning("x".into()));
}

#[test]
fn exitcode_ops() {
    assert_eq!(parse("exitcode(j) = 0").unwrap(), Expr::ExitCode("j".into(), CmpOp::Eq, 0));
    assert_eq!(parse("exitcode(j) != 1").unwrap(), Expr::ExitCode("j".into(), CmpOp::Ne, 1));
    assert_eq!(parse("exitcode(j) >= 2").unwrap(), Expr::ExitCode("j".into(), CmpOp::Ge, 2));
}

#[test]
fn lookback_success() {
    let e = parse("success(jobA, 01.30)").unwrap();
    assert_eq!(e, Expr::Success("jobA".into(), Some(5400)));
}

#[test]
fn lookback_failure_short() {
    let e = parse("failure(j, 00.05)").unwrap();
    assert_eq!(e, Expr::Failure("j".into(), Some(300)));
}

#[test]
fn lookback_done_long() {
    let e = parse("done(j, 24.00)").unwrap();
    assert_eq!(e, Expr::Done("j".into(), Some(86400)));
}

#[test]
fn lookback_with_spaces() {
    let e = parse("success(jobA ,  01.30 )").unwrap();
    assert_eq!(e, Expr::Success("jobA".into(), Some(5400)));
}

#[test]
fn lookback_invalid_minutes() {
    let err = parse("success(j, 01.60)").unwrap_err();
    assert!(matches!(err, ParseError::BadLookback { .. }));
}

#[test]
fn lookback_rejected_on_running() {
    let err = parse("running(j, 01.30)").unwrap_err();
    assert!(matches!(err, ParseError::Unexpected { .. }));
}

#[test]
fn lookback_rejected_on_exitcode() {
    let err = parse("exitcode(j, 01.30) = 0").unwrap_err();
    assert!(matches!(err, ParseError::Unexpected { .. }));
}

#[test]
fn numrun_basic() {
    let e = parse("numrun(j) >= 3").unwrap();
    assert_eq!(e, Expr::NumRun("j".into(), CmpOp::Ge, 3, None));
}

#[test]
fn numsuc_with_lookback() {
    let e = parse("numsuc(j, 02.00) >= 1").unwrap();
    assert_eq!(e, Expr::NumSuc("j".into(), CmpOp::Ge, 1, Some(7200)));
}

#[test]
fn numfail_with_lookback() {
    let e = parse("numfail(j, 00.30) < 2").unwrap();
    assert_eq!(e, Expr::NumFail("j".into(), CmpOp::Lt, 2, Some(1800)));
}

#[test]
fn and_expr() {
    let e = parse("success(a) and failure(b)").unwrap();
    assert_eq!(
        e,
        Expr::And(
            Box::new(Expr::Success("a".into(), None)),
            Box::new(Expr::Failure("b".into(), None))
        )
    );
}

#[test]
fn or_expr() {
    let e = parse("done(a) or running(b)").unwrap();
    assert_eq!(
        e,
        Expr::Or(Box::new(Expr::Done("a".into(), None)), Box::new(Expr::Running("b".into())))
    );
}

#[test]
fn not_expr() {
    let e = parse("not success(a)").unwrap();
    assert_eq!(e, Expr::Not(Box::new(Expr::Success("a".into(), None))));
}

#[test]
fn nested_parens() {
    let e = parse("success(a) and (failure(b) or done(c))").unwrap();
    assert_eq!(
        e,
        Expr::And(
            Box::new(Expr::Success("a".into(), None)),
            Box::new(Expr::Or(
                Box::new(Expr::Failure("b".into(), None)),
                Box::new(Expr::Done("c".into(), None))
            ))
        )
    );
}

#[test]
fn complex_autosys_style() {
    let e = parse(
        "success(jobA, 02.00) and (failure(jobB) or done(jobC, 00.30)) and notrunning(jobD)",
    )
    .unwrap();
    assert!(matches!(e, Expr::And(_, _)));
}

#[test]
fn case_insensitive_keywords() {
    let e = parse("success(a) AND success(b)").unwrap();
    assert!(matches!(e, Expr::And(_, _)));
    let e = parse("success(a) OR success(b)").unwrap();
    assert!(matches!(e, Expr::Or(_, _)));
}

#[test]
fn value_expr() {
    let e = parse("value(global.x)").unwrap();
    assert_eq!(e, Expr::Value("global.x".into()));
}

#[test]
fn unknown_func_error() {
    let err = parse("foo(x)").unwrap_err();
    assert!(matches!(err, ParseError::UnknownFunction { .. }));
}

#[test]
fn display_roundtrip() {
    let inputs = [
        "success(jobA)",
        "failure(jobB)",
        "exitcode(j) = 0",
        "notrunning(x)",
        "success(jobA, 01.30)",
        "done(j, 00.05)",
        "numrun(j) >= 3",
        "numsuc(j, 02.00) >= 1",
        "numfail(j, 00.30) < 2",
    ];
    for s in inputs {
        let e = parse(s).unwrap();
        let displayed = e.to_text();
        let reparsed = parse(&displayed).unwrap();
        assert_eq!(e, reparsed, "roundtrip failed for: {s}");
    }
}

#[test]
fn parse_error_positions_and_messages() {
    assert_eq!(
        parse("success(j) extra").unwrap_err(),
        ParseError::Unexpected { pos: 11, msg: "trailing input: 'extra'".into() }
    );
    assert_eq!(
        parse("exitcode(j)").unwrap_err(),
        ParseError::Unexpected {
            pos: 11,
            msg: "expected comparison operator after exitcode(...)".into()
        }
    );
    assert_eq!(
        parse("success(j, 1.75)").unwrap_err(),
        ParseError::BadLookback { pos: 11, raw: "1.75".into() }
    );
    assert_eq!(parse("Foo(x)").unwrap_err(), ParseError::UnknownFunction { name: "Foo".into() });
    assert_eq!(
        parse("numrun(j) > 99999999999").unwrap_err(),
        ParseError::Unexpected { pos: 23, msg: "integer overflow".into() }
    );
    assert_eq!(
        parse("x").unwrap_err(),
        ParseError::Unexpected { pos: 1, msg: "unexpected identifier 'x' without call syntax".into() }
    );
    assert_eq!(
        parse("success(j").unwrap_err(),
        ParseError::Unexpected { pos: 9, msg: "expected ')'".into() }
    );
}

#[test]
fn trailing_non_ascii_input_is_reported_whole() {
    assert_eq!(
        parse("success(j) é").unwrap_err(),
        ParseError::Unexpected { pos: 11, msg: "trailing input: 'é'".into() }
    );
}

#[test]
fn negative_exit_code_and_uppercase_function() {
    assert_eq!(
        parse("EXITCODE(j) < -1").unwrap(),
        Expr::ExitCode("j".into(), CmpOp::Lt, -1)
    );
}

fn facts() -> UpstreamFacts {
    UpstreamFacts {
        jobs: vec![
            JobFacts {
                name: "a".into(),
                last_state: Some(RunState::Success),
                last_exit_code: Some(0),
                running: false,
                windows: vec![WindowFacts {
                    within: 3600,
                    success: Some(false),
                    failure: Some(true),
                    done: Some(true),
                    runs: Some(2),
                    successes: Some(0),
                    failures: Some(2),
                }],
            },
            JobFacts {
                name: "b".into(),
                last_state: Some(RunState::Running),
                last_exit_code: None,
                running: true,
                windows: vec![],
            },
        ],
    }
}

#[test]
fn evaluate_against_facts() {
    let f = facts();
    let check = |s: &str| evaluate_facts(&parse(s).unwrap(), &f);
    assert_eq!(check("success(a)"), Some(true));
    assert_eq!(check("success(a, 01.00)"), Some(false));
    assert_eq!(check("failure(a, 01.00) and running(b)"), Some(true));
    assert_eq!(check("numfail(a, 01.00) = 2"), Some(true));
    assert_eq!(check("numrun(a) > 0"), None);
    assert_eq!(check("exitcode(b) = 0"), None);
    assert_eq!(check("done(b)"), Some(false));
    assert_eq!(check("notrunning(c)"), Some(true));
    assert_eq!(check("success(c)"), None);
    let negated_and = Expr::Not(Box::new(parse("success(a) and done(b)").unwrap()));
    assert_eq!(evaluate_facts(&negated_and, &f), check("not success(a) or not done(b)"));
    assert!(matches!(parse("not (success(a))"), Err(ParseError::UnknownFunction { .. })));
    assert_eq!(evaluate(&parse("success(a)").unwrap(), &f), Some(true));
}

#[test]
fn lookback_answered_from_last_run_by_default() {
    let c = ctx(RunState::Success, 0);
    let with = evaluate(&parse("success(j, 01.00)").unwrap(), &c);
    let without = evaluate(&parse("success(j)").unwrap(), &c);
    assert_eq!(with, Some(true));
    assert_eq!(with, without);
    assert_eq!(evaluate(&parse("failure(j, 01.00) or done(j, 02.30)").unwrap(), &c), Some(true));
}

#[test]
fn checked_parse_reports_lookback_overflow() {
    assert_eq!(lookback_checked("99999999999999999.00"), Err(()));
    assert_eq!(lookback_checked("01.30"), Ok(Some(5400)));
    assert_eq!(lookback_checked("01.60"), Ok(None));
    assert_eq!(lookback_checked("5124095576030431.00"), Ok(Some(5124095576030431 * 3600)));
    assert_eq!(lookback_checked("5124095576030432.00"), Err(()));
    assert_eq!(
        parse_checked("success(j, 99999999999999999.00)"),
        Err(ParseError::BadLookback { pos: 11, raw: "99999999999999999.00".to_string() })
    );
    assert_eq!(
        parse_checked("success(j, 01.60)"),
        Err(ParseError::BadLookback { pos: 11, raw: "01.60".to_string() })
    );
    assert_eq!(parse_checked("success(j, 01.30)"), parse("success(j, 01.30)"));
}

#[test]
fn connectives_do_not_short_circuit() {
    let f = facts();
    let check = |s: &str| evaluate(&parse(s).unwrap(), &f);
    assert_eq!(check("success(a) or success(c)"), None);
    assert_eq!(check("success(a, 01.00) or success(c, 01.00)"), None);
    assert_eq!(check("failure(a, 01.00) and running(b)"), Some(true));
    assert_eq!(check("not failure(a, 01.00)"), Some(false));
}
