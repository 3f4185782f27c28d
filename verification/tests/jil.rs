use rsched::jil::attrs::apply_attr_to_spec;
use rsched::jil::error::JilError;
use rsched::jil::parse::parse;
use rsched::jil::spec::{JilJobType, JobSpec};
use rsched::jil::JilBlock;
use rsched::policy::AlertEvent;
use rsched::trigger::Trigger;

const SAMPLE_JIL: &str = r#"
insert_job: nightly_etl   job_type: c
command: /opt/etl/run.sh
machine: prod-etl-01
owner: etl@example.com
date_conditions: y
days_of_week: mo,tu,we,th,fr
start_times: "02:00"
description: "Nightly extract"
std_out_file: /var/log/etl.out
std_err_file: /var/log/etl.err
alarm_if_fail: y
n_retrys: 3
term_run_time: 60
condition: success(upstream_job) and notrunning(other_job)

/* ----------------- nightly_etl_box ----------------- */

insert_job: nightly_etl_box   job_type: box
description: "Box for nightly pipeline"

/* ----------------- update / delete ----------------- */

update_job: nightly_etl
alarm_if_fail: n

delete_job: old_job
"#;

#[test]
fn parse_sample_jil_no_error() {
    let blocks = parse(SAMPLE_JIL).unwrap();
    assert_eq!(blocks.len(), 4);
}

#[test]
fn insert_job_fields() {
    let blocks = parse(SAMPLE_JIL).unwrap();
    match &blocks[0] {
        JilBlock::Insert(spec) => {
            assert_eq!(spec.name, "nightly_etl");
            assert_eq!(spec.job_type, JilJobType::Command);
            assert_eq!(spec.command.as_deref(), Some("/opt/etl/run.sh"));
            assert_eq!(spec.machine.as_deref(), Some("prod-etl-01"));
            assert_eq!(spec.owner.as_deref(), Some("etl@example.com"));
            assert_eq!(spec.days_of_week.as_deref(), Some("mo,tu,we,th,fr"));
            assert_eq!(spec.start_times.as_deref(), Some("02:00"));
            assert_eq!(spec.description.as_deref(), Some("Nightly extract"));
            assert_eq!(spec.std_out_file.as_deref(), Some("/var/log/etl.out"));
            assert_eq!(spec.std_err_file.as_deref(), Some("/var/log/etl.err"));
            assert!(spec.alarm_if_fail);
            assert_eq!(spec.n_retrys, 3);
            assert_eq!(spec.term_run_time, Some(60));
            assert!(spec.condition.as_deref().unwrap().contains("upstream_job"));
            assert_eq!(
                spec.warnings,
                vec!["attribute \"date_conditions\" is not yet mapped; value \"y\" ignored".to_string()]
            );
        }
        _ => panic!("expected Insert"),
    }
}

#[test]
fn box_job_parsed() {
    let blocks = parse(SAMPLE_JIL).unwrap();
    match &blocks[1] {
        JilBlock::Insert(spec) => {
            assert_eq!(spec.name, "nightly_etl_box");
            assert_eq!(spec.job_type, JilJobType::Box);
        }
        _ => panic!("expected Insert for box"),
    }
}

#[test]
fn update_job_parsed() {
    let blocks = parse(SAMPLE_JIL).unwrap();
    match &blocks[2] {
        JilBlock::Update(name, partial) => {
            assert_eq!(name, "nightly_etl");
            assert_eq!(partial.alarm_if_fail, Some(false));
        }
        _ => panic!("expected Update"),
    }
}

#[test]
fn delete_job_parsed() {
    let blocks = parse(SAMPLE_JIL).unwrap();
    match &blocks[3] {
        JilBlock::Delete(name) => assert_eq!(name, "old_job"),
        _ => panic!("expected Delete"),
    }
}

#[test]
fn two_inserts_no_separator() {
    let jil = "\ninsert_job: job_a   job_type: c\ncommand: /bin/a\ninsert_job: job_b   job_type: c\ncommand: /bin/b\n";
    let blocks = parse(jil).unwrap();
    assert_eq!(blocks.len(), 2);
}

#[test]
fn comments_ignored() {
    let jil = "/* this is a comment */\ninsert_job: x   job_type: c\ncommand: /bin/x\n";
    let blocks = parse(jil).unwrap();
    assert_eq!(blocks.len(), 1);
}

#[test]
fn unknown_attribute_produces_warning() {
    let jil = "insert_job: x   job_type: c\ncommand: /bin/x\nsome_future_attr: value\n";
    let blocks = parse(jil).unwrap();
    match &blocks[0] {
        JilBlock::Insert(spec) => {
            assert!(!spec.warnings.is_empty());
            assert_eq!(spec.warnings[0], "unknown attribute \"some_future_attr\" ignored");
        }
        _ => panic!("expected Insert"),
    }
}

#[test]
fn bad_verb_errors() {
    let jil = "foo_job: x\n";
    let err = parse(jil).unwrap_err();
    assert!(matches!(err, JilError::UnknownVerb(_, _)));
    assert_eq!(err, JilError::UnknownVerb("foo_job".into(), 1));
}

#[test]
fn unterminated_comment_errors() {
    let jil = "/* not closed\ninsert_job: x   job_type: c\n";
    let err = parse(jil).unwrap_err();
    assert_eq!(err, JilError::UnterminatedComment);
}

#[test]
fn file_watcher_job_type() {
    let jil = "insert_job: fw_job   job_type: fw\ncommand: /watch/path\n";
    let blocks = parse(jil).unwrap();
    match &blocks[0] {
        JilBlock::Insert(spec) => {
            assert_eq!(spec.job_type, JilJobType::FileWatcher);
        }
        _ => panic!(),
    }
}

#[test]
fn bad_values_are_errors() {
    let err = parse("insert_job: x job_type: c\nn_retrys: three\n").unwrap_err();
    assert_eq!(
        err,
        JilError::BadValue {
            attr: "n_retrys".into(),
            detail: "\"three\" is not a non-negative integer".into()
        }
    );
    let err = parse("insert_job: x job_type: zz\n").unwrap_err();
    assert_eq!(err, JilError::UnknownJobType("zz".into(), "x".into()));
    let err = parse("insert_job: x\nalarm_if_fail: maybe\n").unwrap_err();
    assert_eq!(
        err,
        JilError::BadValue { attr: "alarm_if_fail".into(), detail: "\"maybe\" is not y/n".into() }
    );
}

#[test]
fn quoted_values_and_inline_pairs() {
    let jil = "insert_job: q job_type:box owner:me\ndescription: \"say \\\"hi\\\"\"\nmax_exit_success: +3\ncondition_code: -2\n";
    let blocks = parse(jil).unwrap();
    match &blocks[0] {
        JilBlock::Insert(spec) => {
            assert_eq!(spec.job_type, JilJobType::Box);
            assert_eq!(spec.owner.as_deref(), Some("me"));
            assert_eq!(spec.description.as_deref(), Some("say \"hi\""));
            assert_eq!(spec.max_exit_success, Some(3));
            assert_eq!(spec.condition_code, Some(-2));
        }
        _ => panic!(),
    }
}

#[test]
fn update_ignores_bad_values() {
    let blocks = parse("update_job: u\nn_retrys: x\njob_type: c\nauto_hold: yes\n").unwrap();
    match &blocks[0] {
        JilBlock::Update(name, p) => {
            assert_eq!(name, "u");
            assert_eq!(p.n_retrys, None);
            assert_eq!(p.auto_hold, Some(true));
            assert_eq!(p.warnings, vec!["unknown attribute \"job_type\" ignored".to_string()]);
        }
        _ => panic!(),
    }
}

fn first_spec(jil: &str) -> JobSpec {
    match parse(jil).unwrap().into_iter().next().unwrap() {
        JilBlock::Insert(spec) => spec,
        _ => panic!(),
    }
}

#[test]
fn cron_from_days_and_times() {
    let spec = first_spec("insert_job: sched_job   job_type: c\ncommand: /bin/x\ndays_of_week: mo,fr\nstart_times: \"03:30\"\n");
    let out = spec.clone().into_job().unwrap();
    match &out.job.trigger {
        Trigger::Cron { expr, .. } => {
            assert!(expr.contains("30"), "expr={expr}");
            assert!(expr.contains('3'), "expr={expr}");
            assert_eq!(expr, "30 3 * * 1,5");
        }
        other => panic!("expected cron, got {other:?}"),
    }
}

#[test]
fn timeout_translated_to_secs() {
    let spec = first_spec("insert_job: t   job_type: c\ncommand: /x\nterm_run_time: 2\n");
    let out = spec.clone().into_job().unwrap();
    assert_eq!(out.job.timeout_secs, 120);
}

#[test]
fn n_retrys_maps_to_max_attempts() {
    let spec = first_spec("insert_job: r   job_type: c\ncommand: /x\nn_retrys: 3\n");
    let out = spec.clone().into_job().unwrap();
    assert_eq!(out.job.retry.max_attempts, 4);
}

#[test]
fn alarm_if_fail_sets_alert_config() {
    let spec = first_spec("insert_job: a   job_type: c\ncommand: /x\nalarm_if_fail: y\n");
    let out = spec.clone().into_job().unwrap();
    assert!(out.job.alerts.events.contains(&AlertEvent::OnFailure));
}

#[test]
fn condition_emits_warning() {
    let spec = first_spec("insert_job: c   job_type: c\ncommand: /x\ncondition: success(dep1)\n");
    let out = spec.clone().into_job().unwrap();
    assert!(out.warnings.iter().any(|w| w.contains("M19")));
}

#[test]
fn translation_details() {
    let mut spec = first_spec(
        "insert_job: d job_type: c\ncommand: /x\ndays_of_week: all\nstart_times: 4:05, 6:00\nmust_start_times: 02:00, bogus\nfail_codes: 3, x, 4\nresources: db(2)\n",
    );
    assert!(spec.warnings.is_empty());
    assert_eq!(spec.resources, Some("db(2)".to_string()));
    spec.resources = Some("db(2), cpu, bad(0), (3)".into());
    let out = spec.into_job().unwrap();
    match &out.job.trigger {
        Trigger::Cron { expr, timezone } => {
            assert_eq!(expr, "5 4 * * *");
            assert!(timezone.is_none());
        }
        _ => panic!(),
    }
    assert_eq!(out.job.exit_policy.fail_codes, vec![3, 4]);
    assert_eq!(out.job.must_start_times.len(), 1);
    assert_eq!(out.job.must_start_times[0].secs, 7200);
    let claims: Vec<(String, u32)> =
        out.job.resource_claims.iter().map(|c| (c.resource_name.clone(), c.units)).collect();
    assert_eq!(claims, vec![("db".to_string(), 2), ("cpu".to_string(), 1)]);
    assert_eq!(
        out.warnings,
        vec![
            "must_start_times: failed to parse time \" bogus\"".to_string(),
            "resources: bad units in \"bad(0)\"".to_string(),
            "resources: empty name in \"(3)\"".to_string(),
        ]
    );
}

#[test]
fn manual_trigger_and_box_placeholder() {
    let spec = first_spec("insert_job: b job_type: box\nbox_terminator: y\n");
    let out = spec.into_job().unwrap();
    assert_eq!(out.job.cmd, "__box__");
    assert_eq!(out.job.trigger, Trigger::Manual);
    assert_eq!(out.warnings[0], "no schedule found; defaulting to Manual trigger");
    assert_eq!(out.warnings.len(), 2);
}

#[test]
fn file_watcher_trigger_and_missing_command() {
    let spec = first_spec("insert_job: w job_type: fw\ncommand: /in\nmachine: box7\n");
    let out = spec.into_job().unwrap();
    assert_eq!(out.job.trigger, Trigger::File { path: "/in".into(), event: "create".into() });
    assert_eq!(out.job.target, rsched::target::Target::Tag { tag: "box7".into() });
    let spec = first_spec("insert_job: nocmd job_type: c\n");
    assert!(spec.into_job().is_err());
}

#[test]
fn invalid_exit_policy_reverts() {
    let spec = first_spec("insert_job: e job_type: c\ncommand: /x\nfail_codes: 7\ncondition_code: 7\n");
    let out = spec.into_job().unwrap();
    assert_eq!(out.job.exit_policy.fail_codes, Vec::<i32>::new());
    assert_eq!(out.job.exit_policy.condition_code, None);
    assert!(out.warnings.contains(&"exit-code policy invalid; reverting to defaults".to_string()));
}

#[test]
fn jil_error_messages() {
    assert_eq!(JilError::UnterminatedComment.message(), "unterminated block comment");
    assert_eq!(
        JilError::UnknownVerb("frob_job".into(), 12).message(),
        "unknown verb \"frob_job\" at line 12"
    );
    assert_eq!(
        JilError::MissingAttribute("nightly".into(), "command").message(),
        "insert_job \"nightly\" is missing required attribute \"command\""
    );
    assert_eq!(
        JilError::UnknownJobType("ZZ".into(), "j1".into()).message(),
        "unknown job_type \"ZZ\" in job \"j1\""
    );
    let attr = "n_retrys".to_string();
    assert_eq!(
        JilError::BadValue { attr: attr.clone(), detail: "not a number: x".into() }.message(),
        format!("bad value for {:?}: not a number: x", attr)
    );
}

#[test]
fn resources_attribute_is_kept() {
    let mut spec = JobSpec::empty("x", JilJobType::Command);
    assert_eq!(rsched::jil::attrs::apply_attr_to_spec(&mut spec, "resources", "resA(3),resB"), Ok(()));
    assert_eq!(spec.resources, Some("resA(3),resB".to_string()));
    assert!(spec.warnings.is_empty());
    let blocks = parse("insert_job: r1 job_type: c\ncommand: /bin/true\nresources: resA(3),resB\n").unwrap();
    match &blocks[0] {
        JilBlock::Insert(s) => {
            let out = s.clone().into_job().unwrap();
            assert_eq!(out.job.resource_claims.len(), 2);
            assert_eq!(out.job.resource_claims[0].resource_name, "resA");
            assert_eq!(out.job.resource_claims[0].units, 3);
            assert_eq!(out.job.resource_claims[1].units, 1);
        }
        other => panic!("expected insert, got {other:?}"),
    }
}

#[test]
fn attributes_stop_at_blank_line() {
    let blocks = parse("insert_job: a   job_type: c\ncommand: /x\n\nowner: bob\n").unwrap();
    assert_eq!(blocks.len(), 1);
    match &blocks[0] {
        JilBlock::Insert(s) => {
            assert_eq!(s.command, Some("/x".to_string()));
            assert_eq!(s.owner, None);
        }
        other => panic!("expected insert, got {other:?}"),
    }
}

#[test]
fn attribute_errors_leave_the_spec_unchanged() {
    let mut spec = JobSpec::empty("j", JilJobType::Command);
    spec.n_retrys = 2;
    let before = spec.clone();
    let err = apply_attr_to_spec(&mut spec, "n_retrys", "abc").unwrap_err();
    assert!(matches!(err, JilError::BadValue { ref attr, .. } if attr == "n_retrys"));
    assert_eq!(spec, before);
    let err = apply_attr_to_spec(&mut spec, "job_type", "zz").unwrap_err();
    assert!(matches!(err, JilError::UnknownJobType(..)));
    assert_eq!(spec, before);
    assert!(apply_attr_to_spec(&mut spec, "alarm_if_fail", "maybe").is_err());
    assert_eq!(spec, before);
}

#[test]
fn unmapped_attribute_adds_one_warning() {
    let mut spec = JobSpec::empty("j", JilJobType::Command);
    assert_eq!(apply_attr_to_spec(&mut spec, "date_conditions", "1"), Ok(()));
    assert_eq!(spec.warnings.len(), 1);
    assert!(spec.warnings[0].contains("\"date_conditions\""));
    assert_eq!(apply_attr_to_spec(&mut spec, "frobnicate", "x"), Ok(()));
    assert_eq!(spec.warnings.len(), 2);
    assert_eq!(spec.warnings[1], "unknown attribute \"frobnicate\" ignored");
    let mut expected = JobSpec::empty("j", JilJobType::Command);
    expected.warnings = spec.warnings.clone();
    assert_eq!(spec, expected);
}
