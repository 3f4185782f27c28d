//! Job definitions as the REST API creates and replaces them: which
//! fields a request sets, which an update keeps, and when the saved job
//! first fires.

use crate::error::{core_error_text, CoreError};
use crate::text::{append_str, string_of_str};
use crate::ids::JobId;
use crate::job::{job_error, Job};
use crate::policy::{AlertConfig, BackoffKind, ExitCodePolicy, MisfirePolicy, RetryPolicy, Shell};
use crate::target::Target;
use crate::time::Timestamp;
use crate::trigger::Trigger;
use std::collections::HashMap;
use vstd::prelude::*;

verus! {

/// Number of log rows returned when a request names no limit.
pub fn default_log_limit() -> (r: i64)
    ensures
        r == 500,
{
    500
}

/// Body of a job create or update request: the fields a client sets.
#[derive(Debug, Clone, PartialEq, Eq)]
pub struct JobRequest {
    /// Unique name.
    pub name: String,
    /// What triggers the job.
    pub trigger: Trigger,
    /// Command to run.
    pub cmd: String,
    /// Arguments (empty when not given).
    pub args: Vec<String>,
    /// Environment (empty when not given).
    pub env: HashMap<String, String>,
    /// Working directory.
    pub cwd: Option<String>,
    /// Shell wrapper (`Auto` when not given).
    pub shell: Shell,
    /// Where to run; a new job runs anywhere when not given, an updated one
    /// keeps its target.
    pub target: Option<Target>,
    /// Hard timeout in seconds (0 = none).
    pub timeout_secs: u64,
    /// Soft SLA in seconds (0 = none).
    pub sla_secs: u64,
    /// Retry policy; a new job runs once when not given, an updated one
    /// keeps its policy.
    pub retry: Option<RetryPolicy>,
    /// Misfire policy.
    pub misfire: MisfirePolicy,
    /// Alert config.
    pub alerts: AlertConfig,
}

/// The instant `secs` seconds after `t`.
pub open spec fn later_by(t: Timestamp, secs: u64) -> Timestamp {
    Timestamp { secs: (t.secs + secs) as i64, nanos: t.nanos }
}

/// When a job saved at `now` first fires: for a cron trigger, the
/// schedule's next time after `now` (`cron_next`, which the scheduler
/// computes); for an interval, its start time or one period after `now`;
/// for a one-shot, its time; other triggers have no fire time.
pub open spec fn first_fire(t: Trigger, now: Timestamp, cron_next: Option<Timestamp>) -> Option<Timestamp> {
    match t {
        Trigger::Cron { .. } => cron_next,
        Trigger::Interval { every, start_at } => match start_at {
            Some(s) => Some(s),
            None => Some(later_by(now, every)),
        },
        Trigger::OneShot { at } => Some(at),
        _ => None,
    }
}

/// One period after `now` stays an instant `chrono` represents, whenever
/// the first fire time is computed from it.
pub open spec fn fire_time_fits(t: Trigger, now: Timestamp) -> bool {
    match t {
        Trigger::Interval { every, start_at: None } => -8_000_000_000_000 <= now.secs && now.secs
            + every <= 8_000_000_000_000,
        _ => true,
    }
}

/// `first_fire`, computed.
pub fn first_fire_time(t: &Trigger, now: Timestamp, cron_next: Option<Timestamp>) -> (r: Option<Timestamp>)
    requires
        fire_time_fits(*t, now),
    ensures
        r == first_fire(*t, now, cron_next),
{
    match t {
        Trigger::Cron { .. } => cron_next,
        Trigger::Interval { every, start_at } => match start_at {
            Some(s) => Some(*s),
            None => {
                let e = *every as i64;
                Some(Timestamp { secs: now.secs + e, nanos: now.nanos })
            },
        },
        Trigger::OneShot { at } => Some(*at),
        _ => None,
    }
}

/// `j` is the job a create request describes: the request's fields, a
/// single attempt without backoff when no retry policy is given, any target
/// when none is given, defaults for the rest, created and updated `now`.
pub open spec fn created_job(j: Job, req: JobRequest, id: JobId, now: Timestamp, next: Option<Timestamp>) -> bool {
    &&& j.id == id
    &&& j.name == req.name
    &&& j.box_id is None
    &&& j.trigger == req.trigger
    &&& j.cmd == req.cmd
    &&& j.args == req.args
    &&& j.env == req.env
    &&& j.cwd == req.cwd
    &&& j.shell == req.shell
    &&& j.target == match req.target {
        Some(t) => t,
        None => Target::Any,
    }
    &&& j.retry == match req.retry {
        Some(r) => r,
        None => RetryPolicy { max_attempts: 1, backoff: BackoffKind::NoBackoff },
    }
    &&& j.timeout_secs == req.timeout_secs
    &&& j.sla_secs == req.sla_secs
    &&& j.calendar_id is None
    &&& j.exclude_calendar_id is None
    &&& j.must_start_times@.len() == 0
    &&& j.must_complete_times@.len() == 0
    &&& j.exit_policy.max_exit_success == 0
    &&& j.exit_policy.fail_codes@.len() == 0
    &&& j.exit_policy.condition_code is None
    &&& j.resource_claims@.len() == 0
    &&& j.misfire == req.misfire
    &&& j.dependencies@.len() == 0
    &&& !j.paused
    &&& j.alerts == req.alerts
    &&& j.created_at == now
    &&& j.updated_at == now
    &&& j.next_fire_at == next
}

/// The job a create request describes, validated.
pub fn new_job(req: JobRequest, id: JobId, now: Timestamp, cron_next: Option<Timestamp>) -> (r: Result<Job, CoreError>)
    requires
        fire_time_fits(req.trigger, now),
    ensures
        match r {
            Ok(j) => created_job(j, req, id, now, first_fire(req.trigger, now, cron_next)) && job_error(j) is None,
            Err(e) => forall|j: Job| #[trigger]
                created_job(j, req, id, now, first_fire(req.trigger, now, cron_next)) ==> job_error(j) == Some(e@),
        },
{
    let next_fire_at = first_fire_time(&req.trigger, now, cron_next);
    let retry = match req.retry {
        Some(r) => r,
        None => RetryPolicy { max_attempts: 1, backoff: BackoffKind::NoBackoff },
    };
    let target = match req.target {
        Some(t) => t,
        None => Target::Any,
    };
    let job = Job {
        id,
        name: req.name,
        box_id: None,
        trigger: req.trigger,
        cmd: req.cmd,
        args: req.args,
        env: req.env,
        cwd: req.cwd,
        shell: req.shell,
        target,
        retry,
        timeout_secs: req.timeout_secs,
        sla_secs: req.sla_secs,
        calendar_id: None,
        exclude_calendar_id: None,
        must_start_times: Vec::new(),
        must_complete_times: Vec::new(),
        exit_policy: ExitCodePolicy::default(),
        resource_claims: Vec::new(),
        misfire: req.misfire,
        dependencies: Vec::new(),
        paused: false,
        alerts: req.alerts,
        created_at: now,
        updated_at: now,
        next_fire_at,
    };
    match job.validate() {
        Ok(()) => Ok(job),
        Err(e) => Err(e),
    }
}

/// `j` is `existing` replaced by an update request at `now`: the request's
/// fields, the existing retry policy and target where the request gives
/// none, and everything else (id, box, calendars, must-times, exit-code
/// policy, resource claims, dependencies, paused flag, creation time) kept.
pub open spec fn updated_job(j: Job, existing: Job, req: JobRequest, now: Timestamp, next: Option<Timestamp>) -> bool {
    &&& j.id == existing.id
    &&& j.name == req.name
    &&& j.box_id == existing.box_id
    &&& j.trigger == req.trigger
    &&& j.cmd == req.cmd
    &&& j.args == req.args
    &&& j.env == req.env
    &&& j.cwd == req.cwd
    &&& j.shell == req.shell
    &&& j.target == match req.target {
        Some(t) => t,
        None => existing.target,
    }
    &&& j.retry == match req.retry {
        Some(r) => r,
        None => existing.retry,
    }
    &&& j.timeout_secs == req.timeout_secs
    &&& j.sla_secs == req.sla_secs
    &&& j.calendar_id == existing.calendar_id
    &&& j.exclude_calendar_id == existing.exclude_calendar_id
    &&& j.must_start_times == existing.must_start_times
    &&& j.must_complete_times == existing.must_complete_times
    &&& j.exit_policy == existing.exit_policy
    &&& j.resource_claims == existing.resource_claims
    &&& j.misfire == req.misfire
    &&& j.dependencies == existing.dependencies
    &&& j.paused == existing.paused
    &&& j.alerts == req.alerts
    &&& j.created_at == existing.created_at
    &&& j.updated_at == now
    &&& j.next_fire_at == next
}

/// The job an update request turns `existing` into, validated.
pub fn replaced_job(existing: Job, req: JobRequest, now: Timestamp, cron_next: Option<Timestamp>) -> (r: Result<Job, CoreError>)
    requires
        fire_time_fits(req.trigger, now),
    ensures
        match r {
            Ok(j) => updated_job(j, existing, req, now, first_fire(req.trigger, now, cron_next))
                && job_error(j) is None,
            Err(e) => forall|j: Job| #[trigger]
                updated_job(j, existing, req, now, first_fire(req.trigger, now, cron_next))
                    ==> job_error(j) == Some(e@),
        },
{
    let next_fire_at = first_fire_time(&req.trigger, now, cron_next);
    let retry = match req.retry {
        Some(r) => r,
        None => existing.retry,
    };
    let target = match req.target {
        Some(t) => t,
        None => existing.target,
    };
    let job = Job {
        id: existing.id,
        name: req.name,
        box_id: existing.box_id,
        trigger: req.trigger,
        cmd: req.cmd,
        args: req.args,
        env: req.env,
        cwd: req.cwd,
        shell: req.shell,
        target,
        retry,
        timeout_secs: req.timeout_secs,
        sla_secs: req.sla_secs,
        calendar_id: existing.calendar_id,
        exclude_calendar_id: existing.exclude_calendar_id,
        must_start_times: existing.must_start_times,
        must_complete_times: existing.must_complete_times,
        exit_policy: existing.exit_policy,
        resource_claims: existing.resource_claims,
        misfire: req.misfire,
        dependencies: existing.dependencies,
        paused: existing.paused,
        alerts: req.alerts,
        created_at: existing.created_at,
        updated_at: now,
        next_fire_at,
    };
    match job.validate() {
        Ok(()) => Ok(job),
        Err(e) => Err(e),
    }
}

/// A job created and then updated keeps the id and creation time it was
/// created with, stays unpaused and outside any box, carries the update's time
/// as its update time, and has the update's retry policy and target where the
/// update gives them, else those the creation settled on.
pub proof fn lemma_update_after_create(
    created: Job,
    updated: Job,
    create: JobRequest,
    update: JobRequest,
    id: JobId,
    t0: Timestamp,
    t1: Timestamp,
    n0: Option<Timestamp>,
    n1: Option<Timestamp>,
)
    requires
        created_job(created, create, id, t0, n0),
        updated_job(updated, created, update, t1, n1),
    ensures
        updated.id == id,
        updated.created_at == t0,
        updated.updated_at == t1,
        !updated.paused,
        updated.box_id is None,
        updated.retry == match update.retry {
            Some(r) => r,
            None => match create.retry {
                Some(r) => r,
                None => RetryPolicy { max_attempts: 1, backoff: BackoffKind::NoBackoff },
            },
        },
        updated.target == match update.target {
            Some(t) => t,
            None => match create.target {
                Some(t) => t,
                None => Target::Any,
            },
        },
{
}

/// How the store failed, as an API error sees it.
#[derive(Debug, Clone, PartialEq, Eq)]
pub enum StoreFailure {
    /// The requested row does not exist; the store's message.
    NotFound(String),
    /// Any other failure; the store error's own text.
    Other(String),
}

/// Error returned from API handlers.
#[derive(Debug, PartialEq, Eq)]
pub enum ApiError {
    /// Validation failure.
    Validation(String),
    /// Resource not found.
    NotFound(String),
    /// Unauthorized (no credentials or invalid).
    Unauthorized,
    /// Authenticated but lacks required role.
    Forbidden,
    /// Backend storage failure.
    Store(StoreFailure),
    /// Domain validation.
    Core(CoreError),
    /// Scheduler failure; the scheduler error's own text.
    Scheduler(String),
}

/// The text of an API error, as it is displayed.
pub open spec fn api_error_text(e: &ApiError) -> Seq<char> {
    match e {
        ApiError::Validation(m) => "validation: "@ + m@,
        ApiError::NotFound(m) => "not found: "@ + m@,
        ApiError::Unauthorized => "unauthorized"@,
        ApiError::Forbidden => "forbidden"@,
        ApiError::Store(f) => "store: "@ + match f {
            StoreFailure::NotFound(m) => m@,
            StoreFailure::Other(m) => m@,
        },
        ApiError::Core(c) => "core: "@ + core_error_text(c@),
        ApiError::Scheduler(m) => "scheduler: "@ + m@,
    }
}

/// HTTP status and `error` message of the response an API error becomes:
/// bad input is 400, a missing row 404, missing or refused credentials 401
/// and 403, and backend failures 500 with the full error text.
pub open spec fn api_response(e: &ApiError) -> (u16, Seq<char>) {
    match e {
        ApiError::Validation(m) => (400, m@),
        ApiError::NotFound(m) => (404, m@),
        ApiError::Unauthorized => (401, "unauthorized"@),
        ApiError::Forbidden => (403, "forbidden"@),
        ApiError::Store(StoreFailure::NotFound(m)) => (404, m@),
        ApiError::Store(StoreFailure::Other(_)) => (500, api_error_text(e)),
        ApiError::Core(c) => (400, core_error_text(c@)),
        ApiError::Scheduler(m) => (500, m@),
    }
}

/// `lead` then `text`.
fn joined(lead: &str, text: &str) -> (r: String)
    ensures
        r@ == lead@ + text@,
{
    let mut s = string_of_str(lead);
    append_str(&mut s, text);
    s
}

impl ApiError {
    /// The error's text.
    pub fn message(&self) -> (r: String)
        ensures
            r@ == api_error_text(self),
    {
        match self {
            ApiError::Validation(m) => joined("validation: ", m.as_str()),
            ApiError::NotFound(m) => joined("not found: ", m.as_str()),
            ApiError::Unauthorized => string_of_str("unauthorized"),
            ApiError::Forbidden => string_of_str("forbidden"),
            ApiError::Store(StoreFailure::NotFound(m)) => joined("store: ", m.as_str()),
            ApiError::Store(StoreFailure::Other(m)) => joined("store: ", m.as_str()),
            ApiError::Core(c) => {
                let t = c.message();
                joined("core: ", t.as_str())
            },
            ApiError::Scheduler(m) => joined("scheduler: ", m.as_str()),
        }
    }

    /// HTTP status and `error` message of the response.
    pub fn response(&self) -> (r: (u16, String))
        ensures
            r.0 == api_response(self).0,
            r.1@ == api_response(self).1,
    {
        match self {
            ApiError::Validation(m) => (400, m.clone()),
            ApiError::NotFound(m) => (404, m.clone()),
            ApiError::Unauthorized => (401, string_of_str("unauthorized")),
            ApiError::Forbidden => (403, string_of_str("forbidden")),
            ApiError::Store(StoreFailure::NotFound(m)) => (404, m.clone()),
            ApiError::Store(StoreFailure::Other(_)) => (500, self.message()),
            ApiError::Core(c) => (400, c.message()),
            ApiError::Scheduler(m) => (500, m.clone()),
        }
    }
}

impl From<CoreError> for ApiError {
    fn from(e: CoreError) -> (r: Self)
        ensures
            r == ApiError::Core(e),
    {
        ApiError::Core(e)
    }
}

impl vstd::std_specs::convert::FromSpecImpl<CoreError> for ApiError {
    open spec fn obeys_from_spec() -> bool {
        true
    }

    open spec fn from_spec(v: CoreError) -> ApiError {
        ApiError::Core(v)
    }
}

} // verus!
