use rsched::access::{
    api_key_audit_detail, bearer_token, check_new_user, cleared_session_cookie, context_for,
    login_check, parse_cookie, random_token, session_cookie, session_expiry, user_audit_detail,
    AccessError, AuthCtx, AuthUser, RequireAdmin, RequireWrite,
};
use rsched::alert::{
    deliveries, email_body, email_subject, slack_text, AlertPayload, Delivery, SmtpConfig, SmtpEnv,
};
use rsched::api::{
    default_log_limit, first_fire_time, new_job, replaced_job, ApiError, JobRequest, StoreFailure,
};
use rsched::auth::Role;
use rsched::cli::{
    auth_header, autorep_lists_all, autorep_state_label, classify_event, event_call, first_running,
    is_job_id,
    list_state_label, no_running_run_message, no_runs_message, refusal_message, request_for,
    spec_format, ApiCall, Cli, Cmd, GlobalCmd, HttpMethod, SendEvent, SpecFormat,
};
use rsched::error::CoreError;
use rsched::ids::{JobId, RunId, UserId};
use rsched::policy::{AlertChannel, AlertConfig, AlertEvent, BackoffKind, MisfirePolicy, RetryPolicy, Shell};
use rsched::run::RunState;
use rsched::target::Target;
use rsched::time::Timestamp;
use rsched::trigger::Trigger;
use std::collections::HashMap;

// ---- access -------------------------------------------------------------

fn ctx(role: Role) -> AuthCtx {
    AuthCtx { user_id: UserId::new(), role }
}

#[test]
fn extractors_enforce_roles() {
    let admin = ctx(Role::Admin);
    let op = ctx(Role::Operator);
    let viewer = ctx(Role::Viewer);
    assert_eq!(AuthUser::from_ctx(Some(viewer)), Ok(AuthUser(viewer)));
    assert_eq!(AuthUser::from_ctx(None), Err(AccessError::Unauthorized));
    assert_eq!(RequireWrite::from_ctx(Some(op)), Ok(RequireWrite(op)));
    assert_eq!(RequireWrite::from_ctx(Some(viewer)), Err(AccessError::Forbidden));
    assert_eq!(RequireWrite::from_ctx(None), Err(AccessError::Unauthorized));
    assert_eq!(RequireAdmin::from_ctx(Some(admin)), Ok(RequireAdmin(admin)));
    assert_eq!(RequireAdmin::from_ctx(Some(op)), Err(AccessError::Forbidden));
    assert_eq!(RequireAdmin::from_ctx(None), Err(AccessError::Unauthorized));
    assert_eq!(AccessError::Unauthorized.status(), 401);
    assert_eq!(AccessError::Forbidden.status(), 403);
    assert_eq!(AccessError::Forbidden.message(), "forbidden");
}

#[test]
fn cookie_header_parsing() {
    assert_eq!(parse_cookie("a=1; rsched_session=tok; b=2", "rsched_session"), Some("tok".to_string()));
    assert_eq!(parse_cookie("rsched_session=x=y", "rsched_session"), Some("x=y".to_string()));
    assert_eq!(parse_cookie("  rsched_session = v", "rsched_session"), None);
    assert_eq!(parse_cookie("other=1", "rsched_session"), None);
    assert_eq!(parse_cookie("", "rsched_session"), None);
    assert_eq!(parse_cookie("a=1;a=2", "a"), Some("1".to_string()));
}

#[test]
fn bearer_header_parsing() {
    assert_eq!(bearer_token("Bearer abc"), Some("abc".to_string()));
    assert_eq!(bearer_token("bearer abc"), None);
    assert_eq!(bearer_token("Basic abc"), None);
    assert_eq!(bearer_token("Bearer "), Some(String::new()));
}

#[test]
fn session_cookies() {
    assert_eq!(session_cookie("tok"), "rsched_session=tok; Path=/; HttpOnly; SameSite=Lax; Max-Age=43200");
    assert_eq!(cleared_session_cookie(), "rsched_session=; Path=/; HttpOnly; SameSite=Lax; Max-Age=0");
    let t = session_expiry(Timestamp { secs: 1_000, nanos: 5 });
    assert_eq!(t, Timestamp { secs: 44_200, nanos: 5 });
}

#[test]
fn user_creation_checks() {
    assert_eq!(check_new_user("operator", "longenough"), Ok(Role::Operator));
    assert_eq!(check_new_user("root", "longenough"), Err("bad role: root".to_string()));
    assert_eq!(check_new_user("viewer", "short"), Err("password must be at least 8 characters".to_string()));
}

#[test]
fn login_and_context_rules() {
    assert!(login_check(true, false, true).is_ok());
    assert_eq!(login_check(false, false, true), Err(AccessError::Unauthorized));
    assert_eq!(login_check(true, true, true), Err(AccessError::Unauthorized));
    assert_eq!(login_check(true, false, false), Err(AccessError::Unauthorized));
    let u = UserId::new();
    assert_eq!(context_for(u, Role::Viewer, false), Some(AuthCtx { user_id: u, role: Role::Viewer }));
    assert_eq!(context_for(u, Role::Viewer, true), None);
}

#[test]
fn audit_details_are_quoted_json() {
    assert_eq!(api_key_audit_detail("ci \"bot\""), r#"{"name":"ci 'bot'"}"#);
    assert_eq!(user_audit_detail("ann", Role::Admin), r#"{"username":"ann","role":"admin"}"#);
}

#[test]
fn random_tokens_have_encoded_length() {
    let t = random_token(32);
    assert_eq!(t.len(), 43);
    assert!(t.chars().all(|c| c.is_ascii_alphanumeric() || c == '-' || c == '_'));
    assert_ne!(random_token(16), random_token(16));
    assert_eq!(random_token(0), "");
}

// ---- cli ----------------------------------------------------------------

#[test]
fn sendevent_verbs() {
    assert_eq!(classify_event("startjob"), SendEvent::Start);
    assert_eq!(classify_event("FORCE_STARTJOB"), SendEvent::Start);
    assert_eq!(classify_event("Kill"), SendEvent::Kill);
    assert_eq!(classify_event("off_ice"), SendEvent::Hold);
    assert_eq!(classify_event("ON_ICE"), SendEvent::Release);
    assert_eq!(classify_event("change_status=success"), SendEvent::ChangeStatus("SUCCESS".into()));
    assert_eq!(classify_event("SET_GLOBAL"), SendEvent::SetGlobal);
    assert_eq!(classify_event("send_signal=9"), SendEvent::SendSignal);
    assert_eq!(classify_event("bogus"), SendEvent::Unknown("BOGUS".into()));
}

#[test]
fn sendevent_refusals() {
    assert_eq!(refusal_message(&SendEvent::Start), None);
    assert_eq!(
        refusal_message(&SendEvent::Unknown("BOGUS".into())),
        Some("unknown event \"BOGUS\"; supported: STARTJOB, KILLJOB, ON_HOLD, OFF_HOLD, CHANGE_STATUS=<state>, SET_GLOBAL".to_string())
    );
    assert_eq!(
        refusal_message(&SendEvent::SetGlobal),
        Some("use `rusty-sched cli global set NAME VALUE` instead of `sendevent SET_GLOBAL`".to_string())
    );
    assert!(refusal_message(&SendEvent::SendSignal).unwrap().starts_with("SEND_SIGNAL is not yet supported"));
    assert_eq!(no_running_run_message("j"), "no running run found for job j");
    assert_eq!(no_runs_message("j"), "no runs found for job j");
}

#[test]
fn cli_decisions() {
    assert_eq!(first_running(&vec![RunState::Success, RunState::Running, RunState::Running]), Some(1));
    assert_eq!(first_running(&vec![RunState::Failed]), None);
    assert_eq!(spec_format("job.json"), SpecFormat::Json);
    assert_eq!(spec_format("job.yaml"), SpecFormat::Yaml);
    assert_eq!(spec_format("json"), SpecFormat::Yaml);
    assert!(autorep_lists_all(&None, false));
    assert!(autorep_lists_all(&Some("j".into()), true));
    assert!(!autorep_lists_all(&Some("j".into()), false));
    assert_eq!(list_state_label(true), "paused");
    assert_eq!(autorep_state_label(true), "ON_HOLD");
    assert_eq!(autorep_state_label(false), "active");
    let cli = Cli { url: "http://x:1".into(), cmd: Cmd::Global { cmd: GlobalCmd::SetValue { name: "n".into(), value: "v".into() } } };
    assert_eq!(cli.url, "http://x:1");
}

#[test]
fn api_requests() {
    let (m, u) = request_for("http://h:1", &ApiCall::ListJobs);
    assert_eq!((m, u.as_str()), (HttpMethod::Get, "http://h:1/api/v1/jobs"));
    let (m, u) = request_for("http://h:1", &ApiCall::Trigger("J".into()));
    assert_eq!((m, u.as_str()), (HttpMethod::Post, "http://h:1/api/v1/jobs/J/trigger"));
    let (m, u) = request_for("b", &ApiCall::GetJobByName("etl".into()));
    assert_eq!((m, u.as_str()), (HttpMethod::Get, "b/api/v1/jobs/by-name/etl"));
    let (m, u) = request_for("b", &ApiCall::DeleteGlobal("g".into()));
    assert_eq!((m, u.as_str()), (HttpMethod::Delete, "b/api/v1/globals/g"));
    let (m, u) = request_for("b", &ApiCall::UpdateJob("J".into()));
    assert_eq!((m, u.as_str()), (HttpMethod::Put, "b/api/v1/jobs/J"));
    assert_eq!(auth_header(Some("  tok ")), Some("Bearer tok".to_string()));
    assert_eq!(auth_header(Some("   ")), None);
    assert_eq!(auth_header(None), None);
    assert!(is_job_id(&JobId::new().to_text()));
    assert!(!is_job_id("nightly-etl"));
}

// ---- alert --------------------------------------------------------------

fn payload(message: Option<&str>) -> AlertPayload {
    AlertPayload {
        event: AlertEvent::OnFailure,
        job_id: JobId::new(),
        job_name: "etl".into(),
        run_id: RunId::new(),
        state: RunState::Failed,
        exit_code: Some(-2),
        attempt: 3,
        started_at: Some(Timestamp { secs: 0, nanos: 0 }),
        finished_at: None,
        host: "box1".into(),
        message: message.map(|m| m.to_string()),
    }
}

#[test]
fn slack_message_text() {
    assert_eq!(slack_text(&payload(None)), ":rotating_light: *OnFailure* — job `etl` (attempt 3) state `Failed`");
    assert_eq!(
        slack_text(&payload(Some("SLA exceeded 30m"))),
        ":rotating_light: *OnFailure* — job `etl` (attempt 3) state `Failed` — SLA exceeded 30m"
    );
}

#[test]
fn email_texts() {
    let p = payload(Some("hi"));
    assert_eq!(email_subject(&p), "[rusty-sched] OnFailure — etl (attempt 3)");
    let body = email_body(&p);
    let expected = format!(
        "Job:        etl\nJob id:     {}\nRun id:     {}\nEvent:      OnFailure\nState:      Failed\nAttempt:    3\nExit code:  -2\nStarted:    1970-01-01T00:00:00+00:00\nFinished:   -\nHost:       box1\n\nhi\n",
        p.job_id.to_text(),
        p.run_id.to_text()
    );
    assert_eq!(body, expected);
}

#[test]
fn deliveries_by_channel() {
    let chans = vec![
        AlertChannel::Slack { webhook_url: "https://hooks/x".into() },
        AlertChannel::Email { to: vec!["a@b.c".into()] },
        AlertChannel::Webhook { url: "https://w".into(), secret: None },
    ];
    assert_eq!(
        deliveries(&chans),
        vec![
            Delivery::Slack("https://hooks/x".into()),
            Delivery::Unsupported("email (M6.1)"),
            Delivery::Webhook("https://w".into()),
        ]
    );
}

fn smtp_env(starttls: Option<&str>, port: Option<&str>) -> SmtpEnv {
    SmtpEnv {
        host: Some("smtp.example.com".into()),
        user: Some("u".into()),
        pass: Some("p".into()),
        from: Some("x@example.com".into()),
        starttls: starttls.map(|s| s.to_string()),
        port: port.map(|s| s.to_string()),
    }
}

#[test]
fn smtp_config_from_values() {
    let c = SmtpConfig::from_values(smtp_env(None, None)).unwrap();
    assert_eq!((c.port, c.implicit_tls), (465, true));
    let c = SmtpConfig::from_values(smtp_env(Some("1"), None)).unwrap();
    assert_eq!((c.port, c.implicit_tls), (587, false));
    let c = SmtpConfig::from_values(smtp_env(None, Some("2525"))).unwrap();
    assert_eq!(c.port, 2525);
    let c = SmtpConfig::from_values(smtp_env(None, Some("99999"))).unwrap();
    assert_eq!(c.port, 465);
    let mut missing = smtp_env(None, None);
    missing.pass = None;
    assert!(SmtpConfig::from_values(missing).is_none());
}

// ---- api ----------------------------------------------------------------

fn request(trigger: Trigger) -> JobRequest {
    JobRequest {
        name: "nightly".into(),
        trigger,
        cmd: "echo hi".into(),
        args: vec![],
        env: HashMap::new(),
        cwd: None,
        shell: Shell::Auto,
        target: None,
        timeout_secs: 0,
        sla_secs: 0,
        retry: None,
        misfire: MisfirePolicy::FireOnce,
        alerts: AlertConfig { events: vec![], channels: vec![] },
    }
}

#[test]
fn first_fire_times() {
    let now = Timestamp { secs: 100, nanos: 7 };
    let later = Timestamp { secs: 500, nanos: 0 };
    assert_eq!(first_fire_time(&Trigger::Interval { every: 60, start_at: None }, now, None), Some(Timestamp { secs: 160, nanos: 7 }));
    assert_eq!(first_fire_time(&Trigger::Interval { every: 60, start_at: Some(later) }, now, None), Some(later));
    assert_eq!(first_fire_time(&Trigger::OneShot { at: later }, now, None), Some(later));
    assert_eq!(first_fire_time(&Trigger::Cron { expr: "* * * * *".into(), timezone: None }, now, Some(later)), Some(later));
    assert_eq!(first_fire_time(&Trigger::Manual, now, Some(later)), None);
    assert_eq!(default_log_limit(), 500);
}

#[test]
fn created_and_replaced_jobs() {
    let now = Timestamp { secs: 100, nanos: 0 };
    let id = JobId::new();
    let job = new_job(request(Trigger::Interval { every: 60, start_at: None }), id, now, None).unwrap();
    assert_eq!(job.id, id);
    assert_eq!(job.retry.max_attempts, 1);
    assert_eq!(job.target, Target::Any);
    assert_eq!(job.next_fire_at, Some(Timestamp { secs: 160, nanos: 0 }));
    assert!(!job.paused);

    let mut bad = request(Trigger::Manual);
    bad.name = "bad name".into();
    assert!(matches!(new_job(bad, id, now, None), Err(CoreError::InvalidName(_, _))));

    let mut existing = job.clone();
    existing.paused = true;
    let mut upd = request(Trigger::OneShot { at: Timestamp { secs: 900, nanos: 0 } });
    upd.cmd = "echo bye".into();
    let later = Timestamp { secs: 200, nanos: 0 };
    let replaced = replaced_job(existing, upd, later, None).unwrap();
    assert_eq!(replaced.id, id);
    assert!(replaced.paused);
    assert_eq!(replaced.cmd, "echo bye");
    assert_eq!(replaced.created_at, now);
    assert_eq!(replaced.updated_at, later);
    assert_eq!(replaced.next_fire_at, Some(Timestamp { secs: 900, nanos: 0 }));
}

// ---- error messages --------------------------------------------------------

#[test]
fn core_error_messages() {
    let name = "bad name\t".to_string();
    assert_eq!(
        CoreError::InvalidName(name.clone(), "only [A-Za-z0-9_.-] allowed").message(),
        format!("invalid name {:?}: only [A-Za-z0-9_.-] allowed", name)
    );
    assert_eq!(
        CoreError::InvalidCron(String::new(), "empty expression".into()).message(),
        "invalid cron expression \"\": empty expression"
    );
    assert_eq!(
        CoreError::UnknownTimezone("Mars/Base".into()).message(),
        "unknown timezone \"Mars/Base\""
    );
    assert_eq!(
        CoreError::InvalidRetry("max_attempts must be >= 1").message(),
        "invalid retry policy: max_attempts must be >= 1"
    );
    assert_eq!(
        CoreError::InvalidCalendar("file trigger needs path").message(),
        "invalid calendar rule: file trigger needs path"
    );
}

#[test]
fn api_error_responses() {
    assert_eq!(ApiError::Validation("bad job id".into()).response(), (400, "bad job id".to_string()));
    assert_eq!(ApiError::NotFound("job x".into()).response(), (404, "job x".to_string()));
    assert_eq!(ApiError::Unauthorized.response(), (401, "unauthorized".to_string()));
    assert_eq!(ApiError::Forbidden.response(), (403, "forbidden".to_string()));
    assert_eq!(
        ApiError::Store(StoreFailure::NotFound("no such job".into())).response(),
        (404, "no such job".to_string())
    );
    assert_eq!(
        ApiError::Store(StoreFailure::Other("database is locked".into())).response(),
        (500, "store: database is locked".to_string())
    );
    assert_eq!(
        ApiError::from(CoreError::UnknownTimezone("X".into())).response(),
        (400, "unknown timezone \"X\"".to_string())
    );
    assert_eq!(
        ApiError::Scheduler("tick failed".into()).response(),
        (500, "tick failed".to_string())
    );
    assert_eq!(
        ApiError::Core(CoreError::InvalidRetry("r")).message(),
        "core: invalid retry policy: r"
    );
    assert_eq!(ApiError::Validation("v".into()).message(), "validation: v");
}

#[test]
fn sendevent_routes_to_one_job_call() {
    let base = "http://h";
    let route = |event: &str| {
        event_call(&classify_event(event), "J1").map(|c| {
            let (m, url) = request_for(base, &c);
            (m, url)
        })
    };
    for e in ["STARTJOB", "start", "Force_StartJob"] {
        assert_eq!(route(e), Some((HttpMethod::Post, "http://h/api/v1/jobs/J1/trigger".to_string())));
    }
    for e in ["ON_HOLD", "hold"] {
        assert_eq!(route(e), Some((HttpMethod::Post, "http://h/api/v1/jobs/J1/pause".to_string())));
    }
    for e in ["OFF_HOLD", "unhold"] {
        assert_eq!(route(e), Some((HttpMethod::Post, "http://h/api/v1/jobs/J1/resume".to_string())));
    }
    assert_eq!(route("KILLJOB"), None);
    assert_eq!(route("CHANGE_STATUS=SUCCESS"), None);
    assert_eq!(route("bogus"), None);
    assert!(refusal_message(&classify_event("bogus")).is_some());
}

#[test]
fn update_after_create_keeps_identity() {
    let t0 = Timestamp { secs: 100, nanos: 0 };
    let t1 = Timestamp { secs: 300, nanos: 5 };
    let id = JobId::new();
    let mut create = request(Trigger::Manual);
    create.retry = Some(RetryPolicy { max_attempts: 3, backoff: BackoffKind::Fixed { delay_secs: 10 } });
    let created = new_job(create, id, t0, None).unwrap();
    let updated = replaced_job(created.clone(), request(Trigger::Manual), t1, None).unwrap();
    assert_eq!(updated.id, id);
    assert_eq!(updated.created_at, t0);
    assert_eq!(updated.updated_at, t1);
    assert!(!updated.paused);
    assert_eq!(updated.box_id, None);
    assert_eq!(updated.retry, created.retry);
    assert_eq!(updated.target, Target::Any);
    let mut upd = request(Trigger::Manual);
    upd.retry = Some(RetryPolicy { max_attempts: 1, backoff: BackoffKind::NoBackoff });
    let again = replaced_job(updated, upd, t1, None).unwrap();
    assert_eq!(again.retry.max_attempts, 1);
}
