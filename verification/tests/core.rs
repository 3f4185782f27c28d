use rsched::auth::Role;
use rsched::boxes::JobBox;
use rsched::calendar::{Calendar, CalendarRule};
use rsched::error::CoreError;
use rsched::ids::{BoxId, CalendarId, JobId, ResourceId};
use rsched::job::{validate_name, JobBuilder};
use rsched::policy::{BackoffKind, ExitCodePolicy, RetryPolicy, RunOutcome};
use rsched::resource::{Resource, ResourceClaim};
use rsched::run::RunState;
use rsched::target::{Target, TargetKind};
use rsched::time::{Date, TimeOfDay, Timestamp};
use rsched::trigger::{Trigger, TriggerKind};

fn make_box(name: &str) -> JobBox {
    JobBox {
        id: BoxId::new(),
        name: name.into(),
        parent: None,
        paused: false,
        box_success_expr: None,
        box_failure_expr: None,
        box_terminator: false,
        job_terminator: false,
        auto_hold: false,
    }
}

#[test]
fn box_validate_ok() {
    assert!(make_box("my-box").validate().is_ok());
}

#[test]
fn box_validate_bad_name() {
    assert!(make_box("bad box!").validate().is_err());
    assert!(make_box("").validate().is_err());
}

#[test]
fn defaults_disabled() {
    let b = make_box("x");
    assert!(!b.box_terminator);
    assert!(!b.job_terminator);
    assert!(!b.auto_hold);
    assert!(b.box_success_expr.is_none());
    assert!(b.box_failure_expr.is_none());
}

#[test]
fn box_name_error_messages() {
    assert_eq!(
        make_box("   ").validate(),
        Err(CoreError::InvalidName("   ".into(), "len 1..=200"))
    );
    assert_eq!(
        make_box("a b").validate(),
        Err(CoreError::InvalidName("a b".into(), "only [A-Za-z0-9_.-] allowed"))
    );
    assert!(make_box(&"x".repeat(200)).validate().is_ok());
    assert!(make_box(&"x".repeat(201)).validate().is_err());
}

#[test]
fn exp_backoff_caps() {
    let b = BackoffKind::Exponential { base_secs: 2, max_secs: 60 };
    assert_eq!(b.delay_for(1), 2);
    assert_eq!(b.delay_for(2), 4);
    assert_eq!(b.delay_for(3), 8);
    assert_eq!(b.delay_for(10), 60);
}

#[test]
fn none_backoff_zero() {
    assert_eq!(BackoffKind::NoBackoff.delay_for(5), 0);
}

#[test]
fn exp_backoff_saturates_and_attempt_zero() {
    let b = BackoffKind::Exponential { base_secs: u64::MAX / 2, max_secs: u64::MAX };
    assert_eq!(b.delay_for(200), u64::MAX);
    assert_eq!(b.delay_for(0), u64::MAX / 2);
    let c = BackoffKind::Exponential { base_secs: 1, max_secs: u64::MAX };
    assert_eq!(c.delay_for(31), 1 << 30);
    assert_eq!(c.delay_for(4000), 1 << 30);
}

#[test]
fn fixed_backoff_constant() {
    for attempt in [1u32, 2, 50, 99] {
        assert_eq!(BackoffKind::Fixed { delay_secs: 17 }.delay_for(attempt), 17);
    }
}

#[test]
fn exp_backoff_never_exceeds_max() {
    for attempt in 1u32..200 {
        for base in [1u64, 7, 99] {
            for max_s in [1u64, 60, 3599] {
                let b = BackoffKind::Exponential { base_secs: base, max_secs: max_s };
                assert!(b.delay_for(attempt) <= max_s);
            }
        }
    }
}

#[test]
fn retry_zero_max_invalid() {
    let r = RetryPolicy { max_attempts: 0, backoff: BackoffKind::NoBackoff };
    assert!(r.validate().is_err());
}

#[test]
fn retry_bounds() {
    let ok = RetryPolicy { max_attempts: 100, backoff: BackoffKind::NoBackoff };
    assert!(ok.validate().is_ok());
    let over = RetryPolicy { max_attempts: 101, backoff: BackoffKind::NoBackoff };
    assert_eq!(over.validate(), Err(CoreError::InvalidRetry("max_attempts cannot exceed 100")));
    let zero = RetryPolicy { max_attempts: 0, backoff: BackoffKind::NoBackoff };
    assert_eq!(zero.validate(), Err(CoreError::InvalidRetry("max_attempts must be >= 1")));
}

#[test]
fn exit_policy_default_zero_is_success() {
    let p = ExitCodePolicy::default();
    assert_eq!(p.evaluate(0), RunOutcome::Success);
    assert_eq!(p.evaluate(1), RunOutcome::Failure);
    assert_eq!(p.evaluate(-1), RunOutcome::Failure);
}

#[test]
fn exit_policy_max_exit_success_window() {
    let p = ExitCodePolicy { max_exit_success: 2, ..Default::default() };
    assert_eq!(p.evaluate(0), RunOutcome::Success);
    assert_eq!(p.evaluate(2), RunOutcome::Success);
    assert_eq!(p.evaluate(3), RunOutcome::Failure);
}

#[test]
fn exit_policy_fail_codes_override() {
    let p = ExitCodePolicy { max_exit_success: 5, fail_codes: vec![2, 3], ..Default::default() };
    assert_eq!(p.evaluate(1), RunOutcome::Success);
    assert_eq!(p.evaluate(2), RunOutcome::Failure);
    assert_eq!(p.evaluate(3), RunOutcome::Failure);
    assert_eq!(p.evaluate(4), RunOutcome::Success);
}

#[test]
fn exit_policy_condition_code_wins() {
    let p = ExitCodePolicy { max_exit_success: 0, fail_codes: vec![], condition_code: Some(7) };
    assert_eq!(p.evaluate(7), RunOutcome::Conditional);
    assert_eq!(p.evaluate(0), RunOutcome::Success);
    assert_eq!(p.evaluate(1), RunOutcome::Failure);
}

#[test]
fn exit_policy_condition_and_fail_collision_rejected() {
    let p = ExitCodePolicy { max_exit_success: 0, fail_codes: vec![7], condition_code: Some(7) };
    assert!(p.validate().is_err());
    assert_eq!(
        p.validate(),
        Err(CoreError::InvalidRetry("condition_code cannot also appear in fail_codes"))
    );
}

#[test]
fn exit_policy_negative_max_rejected() {
    let p = ExitCodePolicy { max_exit_success: -1, ..Default::default() };
    assert!(p.validate().is_err());
}

#[test]
fn claim_zero_units_rejected() {
    let c = ResourceClaim { resource_name: "db".into(), units: 0 };
    assert!(c.validate().is_err());
}

#[test]
fn claim_empty_name_rejected() {
    let c = ResourceClaim { resource_name: "".into(), units: 1 };
    assert!(c.validate().is_err());
}

fn make_resource(name: &str, capacity: u32) -> Resource {
    Resource { id: ResourceId::new(), name: name.into(), capacity, description: None, created_at: Timestamp { secs: 0, nanos: 0 } }
}

#[test]
fn resource_validate_ok() {
    assert!(make_resource("db.connections", 10).validate().is_ok());
}

#[test]
fn resource_validate_bad_name() {
    assert!(make_resource("", 1).validate().is_err());
    assert!(make_resource("bad name!", 1).validate().is_err());
}

#[test]
fn terminal_states() {
    assert!(RunState::Success.is_terminal());
    assert!(RunState::Failed.is_terminal());
    assert!(!RunState::Queued.is_terminal());
    assert!(!RunState::Running.is_terminal());
    assert!(RunState::Killed.is_terminal());
    assert!(RunState::Skipped.is_terminal());
    assert!(RunState::Lost.is_terminal());
}

#[test]
fn role_roundtrip() {
    for r in [Role::Admin, Role::Operator, Role::Viewer] {
        assert_eq!(Role::parse(r.as_str()), Some(r));
    }
    assert_eq!(Role::parse("root"), None);
    assert_eq!(Role::parse("Admin"), None);
}

#[test]
fn role_capability_matrix() {
    assert!(Role::Admin.can_write());
    assert!(Role::Admin.can_admin());
    assert!(Role::Operator.can_write());
    assert!(!Role::Operator.can_admin());
    assert!(!Role::Viewer.can_write());
    assert!(!Role::Viewer.can_admin());
}

#[test]
fn roundtrip_string() {
    let id = JobId::new();
    let s = id.to_text();
    let parsed: JobId = s.parse().unwrap();
    assert_eq!(id, parsed);
    assert_eq!(s.len(), 26);
}

#[test]
fn distinct_ids_are_unequal() {
    assert_ne!(JobId::new(), JobId::new());
}

#[test]
fn id_text_of_known_value() {
    let id = JobId(0x41414141414141414141414141414141);
    assert_eq!(id.to_text(), "21850M2GA1850M2GA1850M2GA1");
    assert!(JobId::parse_text("too-short").is_err());
}

#[test]
fn target_kind_tag() {
    let t = Target::Tag { tag: "etl".into() };
    assert_eq!(t.kind(), TargetKind::Tag);
    assert_eq!(Target::Any.kind(), TargetKind::Any);
}

fn cron_trigger() -> Trigger {
    Trigger::Cron { expr: "*/5 * * * *".into(), timezone: None }
}

#[test]
fn cron_kind_roundtrip() {
    let t = Trigger::Cron { expr: "*/5 * * * *".into(), timezone: Some("UTC".into()) };
    assert_eq!(t.kind(), TriggerKind::Cron);
    assert!(t.validate().is_ok());
}

#[test]
fn empty_cron_rejected() {
    let t = Trigger::Cron { expr: "".into(), timezone: None };
    assert!(matches!(t.validate(), Err(CoreError::InvalidCron(_, _))));
}

#[test]
fn zero_interval_rejected() {
    let t = Trigger::Interval { every: 0, start_at: None };
    assert!(t.validate().is_err());
}

#[test]
fn webhook_short_secret_rejected() {
    let t = Trigger::Webhook { slug: "abcdefgh".into(), secret: "short".into() };
    assert!(t.validate().is_err());
}

#[test]
fn unknown_tz_rejected() {
    let t = Trigger::Cron { expr: "* * * * *".into(), timezone: Some("Mars/Olympus".into()) };
    assert!(matches!(t.validate(), Err(CoreError::UnknownTimezone(_))));
}

#[test]
fn file_trigger_events() {
    let ok = Trigger::File { path: "/tmp/x".into(), event: "modify".into() };
    assert!(ok.validate().is_ok());
    let bad = Trigger::File { path: "/tmp/x".into(), event: "rename".into() };
    assert_eq!(bad.validate(), Err(CoreError::InvalidCalendar("unknown file event")));
    let nopath = Trigger::File { path: "".into(), event: "any".into() };
    assert_eq!(nopath.validate(), Err(CoreError::InvalidCalendar("file trigger needs path")));
}

#[test]
fn build_ok() {
    let j = JobBuilder::new("my-job", "echo hi", cron_trigger()).timeout(60).build().unwrap();
    assert_eq!(j.name, "my-job");
    assert_eq!(j.timeout_secs, 60);
}

#[test]
fn empty_cmd_rejected() {
    let r = JobBuilder::new("ok", "", cron_trigger()).build();
    assert!(r.is_err());
}

#[test]
fn bad_name_rejected() {
    let r = JobBuilder::new("bad name!", "echo", cron_trigger()).build();
    assert!(r.is_err());
}

#[test]
fn sla_gt_timeout_rejected() {
    let mut j = JobBuilder::new("x", "echo", cron_trigger()).build().unwrap();
    j.timeout_secs = 10;
    j.sla_secs = 20;
    assert!(j.validate().is_err());
}

#[test]
fn same_include_and_exclude_calendar_rejected() {
    let mut j = JobBuilder::new("x", "echo", cron_trigger()).build().unwrap();
    let c = CalendarId::new();
    j.calendar_id = Some(c);
    j.exclude_calendar_id = Some(c);
    assert_eq!(
        j.validate(),
        Err(CoreError::InvalidCalendar("calendar_id and exclude_calendar_id must differ"))
    );
}

#[test]
fn validate_name_rules() {
    assert!(validate_name("a.b-c_d9").is_ok());
    assert_eq!(validate_name(""), Err(CoreError::InvalidName("".into(), "len must be 1..=200")));
    assert_eq!(
        validate_name("né"),
        Err(CoreError::InvalidName("né".into(), "only [A-Za-z0-9_.-] allowed"))
    );
}

fn ts(days: i64, h: i64, mi: i64) -> Timestamp {
    Timestamp { secs: days * 86400 + h * 3600 + mi * 60, nanos: 0 }
}

fn day(y: i32, m: u32, d: u32) -> i64 {
    Date::from_ymd(y, m, d).unwrap().days
}

#[test]
fn weekday_allows() {
    let c = Calendar {
        id: CalendarId::new(),
        name: "weekdays".into(),
        rules: vec![CalendarRule::Weekdays { days: vec![1, 2, 3, 4, 5] }],
    };
    assert!(c.allows(&ts(day(2026, 5, 18), 12, 0)));
    assert!(!c.allows(&ts(day(2026, 5, 23), 12, 0)));
}

#[test]
fn blackout_blocks() {
    let c = Calendar {
        id: CalendarId::new(),
        name: "no-may-25".into(),
        rules: vec![CalendarRule::Blackout { dates: vec![Date::from_ymd(2026, 5, 25).unwrap()] }],
    };
    assert!(!c.allows(&ts(day(2026, 5, 25), 10, 0)));
    assert!(c.allows(&ts(day(2026, 5, 26), 10, 0)));
}

#[test]
fn time_window_works() {
    let c = Calendar {
        id: CalendarId::new(),
        name: "biz-hours".into(),
        rules: vec![CalendarRule::TimeWindow {
            start: TimeOfDay::from_hms(9, 0, 0).unwrap(),
            end: TimeOfDay::from_hms(17, 0, 0).unwrap(),
        }],
    };
    let d = day(2026, 5, 18);
    assert!(!c.allows(&ts(d, 8, 59)));
    assert!(c.allows(&ts(d, 9, 0)));
    assert!(c.allows(&ts(d, 16, 59)));
    assert!(!c.allows(&ts(d, 17, 0)));
}

#[test]
fn rules_anded() {
    let c = Calendar {
        id: CalendarId::new(),
        name: "weekday-biz".into(),
        rules: vec![
            CalendarRule::Weekdays { days: vec![1, 2, 3, 4, 5] },
            CalendarRule::TimeWindow {
                start: TimeOfDay::from_hms(9, 0, 0).unwrap(),
                end: TimeOfDay::from_hms(17, 0, 0).unwrap(),
            },
        ],
    };
    assert!(c.allows(&ts(day(2026, 5, 18), 10, 0)));
    assert!(!c.allows(&ts(day(2026, 5, 18), 20, 0)));
    assert!(!c.allows(&ts(day(2026, 5, 23), 10, 0)));
}

#[test]
fn invalid_weekday() {
    let c = Calendar {
        id: CalendarId::new(),
        name: "x".into(),
        rules: vec![CalendarRule::Weekdays { days: vec![0, 9] }],
    };
    assert!(c.validate().is_err());
}

#[test]
fn calendar_validate_messages() {
    let c = Calendar { id: CalendarId::new(), name: " ".into(), rules: vec![] };
    assert_eq!(c.validate(), Err(CoreError::InvalidName(" ".into(), "name empty")));
    let w = Calendar {
        id: CalendarId::new(),
        name: "w".into(),
        rules: vec![CalendarRule::TimeWindow {
            start: TimeOfDay::from_hms(9, 0, 0).unwrap(),
            end: TimeOfDay::from_hms(9, 0, 0).unwrap(),
        }],
    };
    assert_eq!(w.validate(), Err(CoreError::InvalidCalendar("time window start>=end")));
}

#[test]
fn dates_and_weekdays_before_the_epoch() {
    assert_eq!(day(1970, 1, 1), 0);
    assert_eq!(day(1969, 12, 31), -1);
    let t = Timestamp { secs: -1, nanos: 0 };
    assert_eq!(t.date().days, -1);
    assert_eq!(t.weekday(), 3);
    assert_eq!(ts(0, 0, 0).weekday(), 4);
    assert!(Date::from_ymd(2026, 2, 30).is_none());
    assert!(TimeOfDay::from_hms(24, 0, 0).is_none());
}

#[test]
fn ulid_text_is_crockford_base32() {
    assert_eq!(JobId(0).to_text(), "00000000000000000000000000");
    assert_eq!(JobId(31).to_text(), "0000000000000000000000000Z");
    assert_eq!(JobId(u128::MAX).to_text(), "7ZZZZZZZZZZZZZZZZZZZZZZZZZ");
    let id = JobId::parse_text("01arz3ndektsv4rrffq69g5fav").unwrap();
    assert_eq!(id.to_text(), "01ARZ3NDEKTSV4RRFFQ69G5FAV");
    assert!(JobId::parse_text("01ARZ3NDEKTSV4RRFFQ69G5FAI").is_err());
    assert!(JobId::parse_text("01ARZ3NDEKTSV4RRFFQ69G5FA").is_err());
}
