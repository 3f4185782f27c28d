//! Job: the unit a user schedules.

use vstd::prelude::*;
use std::collections::HashMap;
use crate::calendar::Calendar;
use crate::error::{CoreError, CoreErrorV, checked};
use crate::ids::{BoxId, CalendarId, JobId};
use crate::policy::{
    AlertConfig, BackoffKind, ExitCodePolicy, MisfirePolicy, RetryPolicy, Shell, exit_policy_error,
    retry_error,
};
use crate::resource::{ResourceClaim, claim_error};
use crate::target::Target;
use crate::text::{all_name_chars, blank, byte_len, is_blank, name_chars_ok};
use crate::time::{TimeOfDay, Timestamp, now};
use crate::trigger::{Trigger, trigger_error};

verus! {

/// How upstream dependencies combine.
#[derive(Debug, Clone, Copy, PartialEq, Eq, Structural)]
pub enum DepCondition {
    /// All upstream jobs must succeed.
    AllSucceed,
    /// Any upstream job must succeed.
    AnySucceed,
    /// Any upstream job must finish (success or failure).
    AnyFinish,
}

impl Default for DepCondition {
    fn default() -> (r: Self)
        ensures
            r == DepCondition::AllSucceed,
    {
        DepCondition::AllSucceed
    }
}

/// Reference to an upstream job in a dependency edge.
#[derive(Debug, Clone, Copy, PartialEq, Eq, Structural)]
pub struct DepEdge {
    /// Upstream job id.
    pub upstream: JobId,
    /// Combination logic.
    pub condition: DepCondition,
}

/// A scheduled job.
#[derive(Debug, Clone, PartialEq, Eq)]
pub struct Job {
    /// Identifier.
    pub id: JobId,
    /// Unique name (used in CLI, alerts, deps).
    pub name: String,
    /// Optional box membership.
    pub box_id: Option<BoxId>,
    /// What triggers this job.
    pub trigger: Trigger,
    /// Command to run.
    pub cmd: String,
    /// Optional argv (otherwise cmd parsed by shell).
    pub args: Vec<String>,
    /// Env vars.
    pub env: HashMap<String, String>,
    /// Working directory.
    pub cwd: Option<String>,
    /// Shell wrapper.
    pub shell: Shell,
    /// Where to run.
    pub target: Target,
    /// Retry policy.
    pub retry: RetryPolicy,
    /// Hard timeout in seconds (0 = none).
    pub timeout_secs: u64,
    /// Soft SLA in seconds (0 = none).
    pub sla_secs: u64,
    /// Optional include-calendar (job allowed only when this allows).
    pub calendar_id: Option<CalendarId>,
    /// Optional exclude-calendar (job blocked when this allows). Autosys `exclude_calendar`.
    pub exclude_calendar_id: Option<CalendarId>,
    /// Must-start-by times of day (UTC). Used for `OnLateStart` alerts. Autosys `must_start_times`.
    pub must_start_times: Vec<TimeOfDay>,
    /// Must-complete-by times of day (UTC). Used for `OnSlaMiss`. Autosys `must_complete_times`.
    pub must_complete_times: Vec<TimeOfDay>,
    /// Exit-code policy (Autosys `max_exit_success`, `fail_codes`, `condition_code`).
    pub exit_policy: ExitCodePolicy,
    /// Virtual resource claims (Autosys `resources` attribute).
    pub resource_claims: Vec<ResourceClaim>,
    /// Misfire policy.
    pub misfire: MisfirePolicy,
    /// Upstream deps (besides Dep trigger, used for ordering inside boxes).
    pub dependencies: Vec<DepEdge>,
    /// Whether job is paused.
    pub paused: bool,
    /// Alert config.
    pub alerts: AlertConfig,
    /// Created timestamp.
    pub created_at: Timestamp,
    /// Last edited timestamp.
    pub updated_at: Timestamp,
    /// Next computed fire time (None for non-time triggers).
    pub next_fire_at: Option<Timestamp>,
}

/// The error a job name raises, if any: 1 to 200 bytes of `[A-Za-z0-9_.-]`.
pub open spec fn name_error(name: Seq<char>) -> Option<CoreErrorV> {
    if name.len() == 0 || byte_len(name) > 200 {
        Some(CoreErrorV::InvalidName(name, "len must be 1..=200"@))
    } else if !all_name_chars(name) {
        Some(CoreErrorV::InvalidName(name, "only [A-Za-z0-9_.-] allowed"@))
    } else {
        None
    }
}

/// Validate a job name.
pub fn validate_name(name: &str) -> (r: Result<(), CoreError>)
    ensures
        checked(r, name_error(name@)),
{
    if name.is_empty() || name.len() > 200 {
        return Err(CoreError::InvalidName(crate::text::string_of_str(name), "len must be 1..=200"));
    }
    if !name_chars_ok(name) {
        return Err(
            CoreError::InvalidName(crate::text::string_of_str(name), "only [A-Za-z0-9_.-] allowed"),
        );
    }
    Ok(())
}

/// The error of the first invalid claim, if any.
pub open spec fn claims_error(claims: Seq<ResourceClaim>) -> Option<CoreErrorV>
    decreases claims.len(),
{
    if claims.len() == 0 {
        None
    } else if claim_error(claims[0].resource_name@, claims[0].units) is Some {
        claim_error(claims[0].resource_name@, claims[0].units)
    } else {
        claims_error(claims.drop_first())
    }
}

/// The error a job raises on validation, if any, checked in this order: name,
/// command, trigger, retry policy, exit-code policy, resource claims, SLA
/// against timeout, include- against exclude-calendar.
pub open spec fn job_error(j: Job) -> Option<CoreErrorV> {
    if name_error(j.name@) is Some {
        name_error(j.name@)
    } else if blank(j.cmd@) {
        Some(CoreErrorV::InvalidName(j.cmd@, "cmd cannot be empty"@))
    } else if trigger_error(j.trigger) is Some {
        trigger_error(j.trigger)
    } else if retry_error(j.retry.max_attempts) is Some {
        retry_error(j.retry.max_attempts)
    } else if exit_policy_error(
        j.exit_policy.max_exit_success,
        j.exit_policy.fail_codes@,
        j.exit_policy.condition_code,
    ) is Some {
        exit_policy_error(
            j.exit_policy.max_exit_success,
            j.exit_policy.fail_codes@,
            j.exit_policy.condition_code,
        )
    } else if claims_error(j.resource_claims@) is Some {
        claims_error(j.resource_claims@)
    } else if j.timeout_secs != 0 && j.sla_secs != 0 && j.sla_secs > j.timeout_secs {
        Some(CoreErrorV::InvalidRetry("sla_secs > timeout_secs"@))
    } else if j.calendar_id is Some && j.exclude_calendar_id is Some && j.calendar_id
        == j.exclude_calendar_id {
        Some(CoreErrorV::InvalidCalendar("calendar_id and exclude_calendar_id must differ"@))
    } else {
        None
    }
}

/// The SLA must fit within the timeout only when a timeout is set: a job
/// without a timeout, or whose SLA is within it, is judged exactly as if it
/// had no SLA; a job with a timeout shorter than its SLA is refused.
pub proof fn lemma_sla_only_checked_against_a_timeout(j: Job)
    ensures
        j.timeout_secs == 0 || j.sla_secs <= j.timeout_secs ==> job_error(j) == job_error(
            Job { sla_secs: 0, ..j },
        ),
        0 < j.timeout_secs < j.sla_secs ==> job_error(j) is Some,
{
}

impl Job {
    /// Validate all fields.
    pub fn validate(&self) -> (r: Result<(), CoreError>)
        ensures
            checked(r, job_error(*self)),
    {
        validate_name(self.name.as_str())?;
        if is_blank(self.cmd.as_str()) {
            return Err(CoreError::InvalidName(self.cmd.clone(), "cmd cannot be empty"));
        }
        self.trigger.validate()?;
        self.retry.validate()?;
        self.exit_policy.validate()?;
        let mut i: usize = 0;
        assert(self.resource_claims@.subrange(0, self.resource_claims@.len() as int)
            =~= self.resource_claims@);
        while i < self.resource_claims.len()
            invariant
                i <= self.resource_claims.len(),
                name_error(self.name@) is None,
                !blank(self.cmd@),
                trigger_error(self.trigger) is None,
                retry_error(self.retry.max_attempts) is None,
                exit_policy_error(
                    self.exit_policy.max_exit_success,
                    self.exit_policy.fail_codes@,
                    self.exit_policy.condition_code,
                ) is None,
                claims_error(self.resource_claims@) == claims_error(
                    self.resource_claims@.subrange(i as int, self.resource_claims@.len() as int),
                ),
            decreases self.resource_claims.len() - i,
        {
            let ghost rest = self.resource_claims@.subrange(
                i as int,
                self.resource_claims@.len() as int,
            );
            assert(rest[0] == self.resource_claims@[i as int]);
            assert(rest.drop_first() =~= self.resource_claims@.subrange(
                i + 1,
                self.resource_claims@.len() as int,
            ));
            self.resource_claims[i].validate()?;
            i = i + 1;
        }
        assert(self.resource_claims@.subrange(i as int, self.resource_claims@.len() as int).len()
            == 0);
        if self.timeout_secs != 0 && self.sla_secs != 0 && self.sla_secs > self.timeout_secs {
            return Err(CoreError::InvalidRetry("sla_secs > timeout_secs"));
        }
        if let (Some(inc), Some(exc)) = (&self.calendar_id, &self.exclude_calendar_id) {
            if inc.0 == exc.0 {
                return Err(CoreError::InvalidCalendar("calendar_id and exclude_calendar_id must differ"));
            }
        }
        Ok(())
    }
}

/// Builder for ergonomic construction in tests and JIL translation.
pub struct JobBuilder {
    job: Job,
}

impl JobBuilder {
    /// What is being built.
    pub closed spec fn job(&self) -> Job {
        self.job
    }

    /// New job with required fields. Other fields default: no box, no args,
    /// no env, no cwd, default shell, any target, one attempt without
    /// backoff, no timeout or SLA, no calendars, no must-times, default
    /// exit-code policy, no claims, fire-once misfire, no deps, not paused,
    /// no alerts, created and updated now, no next fire.
    pub fn new(name: &str, cmd: &str, trigger: Trigger) -> (b: Self)
        ensures
            b.job().name@ == name@,
            b.job().cmd@ == cmd@,
            b.job().trigger == trigger,
            b.job().box_id is None,
            b.job().args@.len() == 0,
            b.job().env@.len() == 0,
            b.job().cwd is None,
            b.job().shell == Shell::Auto,
            b.job().target == Target::Any,
            b.job().retry == (RetryPolicy { max_attempts: 1, backoff: BackoffKind::NoBackoff }),
            b.job().timeout_secs == 0,
            b.job().sla_secs == 0,
            b.job().calendar_id is None,
            b.job().exclude_calendar_id is None,
            b.job().must_start_times@.len() == 0,
            b.job().must_complete_times@.len() == 0,
            b.job().exit_policy.max_exit_success == 0,
            b.job().exit_policy.fail_codes@.len() == 0,
            b.job().exit_policy.condition_code is None,
            b.job().resource_claims@.len() == 0,
            b.job().misfire == MisfirePolicy::FireOnce,
            b.job().dependencies@.len() == 0,
            !b.job().paused,
            b.job().alerts.events@.len() == 0,
            b.job().alerts.channels@.len() == 0,
            b.job().created_at == b.job().updated_at,
            b.job().created_at.wf(),
            b.job().next_fire_at is None,
    {
        let t = now();
        JobBuilder {
            job: Job {
                id: JobId::new(),
                name: crate::text::string_of_str(name),
                box_id: None,
                trigger,
                cmd: crate::text::string_of_str(cmd),
                args: Vec::new(),
                env: HashMap::new(),
                cwd: None,
                shell: Shell::Auto,
                target: Target::Any,
                retry: RetryPolicy { max_attempts: 1, backoff: BackoffKind::NoBackoff },
                timeout_secs: 0,
                sla_secs: 0,
                calendar_id: None,
                exclude_calendar_id: None,
                must_start_times: Vec::new(),
                must_complete_times: Vec::new(),
                exit_policy: ExitCodePolicy::default(),
                resource_claims: Vec::new(),
                misfire: MisfirePolicy::FireOnce,
                dependencies: Vec::new(),
                paused: false,
                alerts: AlertConfig::default(),
                created_at: t,
                updated_at: t,
                next_fire_at: None,
            },
        }
    }

    /// Set target.
    pub fn target(self, t: Target) -> (b: Self)
        ensures
            b.job() == (Job { target: t, ..self.job() }),
    {
        let mut s = self;
        s.job.target = t;
        s
    }

    /// Set timeout in seconds.
    pub fn timeout(self, secs: u64) -> (b: Self)
        ensures
            b.job() == (Job { timeout_secs: secs, ..self.job() }),
    {
        let mut s = self;
        s.job.timeout_secs = secs;
        s
    }

    /// Set retry policy.
    pub fn retry(self, r: RetryPolicy) -> (b: Self)
        ensures
            b.job() == (Job { retry: r, ..self.job() }),
    {
        let mut s = self;
        s.job.retry = r;
        s
    }

    /// Set box.
    pub fn in_box(self, id: BoxId) -> (b: Self)
        ensures
            b.job() == (Job { box_id: Some(id), ..self.job() }),
    {
        let mut s = self;
        s.job.box_id = Some(id);
        s
    }

    /// Build, validating.
    pub fn build(self) -> (r: Result<Job, CoreError>)
        ensures
            job_error(self.job()) is None ==> r is Ok && r->Ok_0 == self.job(),
            job_error(self.job()) is Some ==> r is Err && r->Err_0@ == job_error(self.job())->0,
    {
        self.job.validate()?;
        Ok(self.job)
    }
}

} // verus!
