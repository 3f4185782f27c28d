//! Retry, alert, misfire, shell and exit-code policies.

use vstd::prelude::*;
use vstd::arithmetic::power2::{pow2, lemma2_to64};
use vstd::bits::lemma_u64_shl_is_mul;
use crate::error::{CoreError, CoreErrorV, checked};

verus! {

/// What to do when scheduled fires were missed (server down or paused).
#[derive(Debug, Clone, Copy, PartialEq, Eq, Structural)]
pub enum MisfirePolicy {
    /// Skip all missed fires.
    Skip,
    /// Fire exactly once on resume (default).
    FireOnce,
    /// Fire every missed schedule (rarely what you want).
    FireAllMissed,
}

impl Default for MisfirePolicy {
    fn default() -> (r: Self)
        ensures
            r == MisfirePolicy::FireOnce,
    {
        MisfirePolicy::FireOnce
    }
}

/// Backoff strategy for retries.
#[derive(Debug, Clone, Copy, PartialEq, Eq, Structural)]
pub enum BackoffKind {
    /// No retry (named `None` in serialized forms).
    NoBackoff,
    /// Fixed delay between attempts.
    Fixed {
        /// Delay seconds.
        delay_secs: u64,
    },
    /// Exponential: delay = base * 2^(attempt-1), capped at max.
    Exponential {
        /// Base seconds.
        base_secs: u64,
        /// Cap seconds.
        max_secs: u64,
    },
}

impl Default for BackoffKind {
    fn default() -> (r: Self)
        ensures
            r == BackoffKind::NoBackoff,
    {
        BackoffKind::NoBackoff
    }
}

/// The doubling exponent used for attempt `attempt`: `attempt - 1`, at least
/// 0 and at most 30.
pub open spec fn backoff_exponent(attempt: u32) -> nat {
    if attempt == 0 {
        0
    } else if attempt - 1 > 30 {
        30
    } else {
        (attempt - 1) as nat
    }
}

/// `base * 2^exp` saturated at `u64::MAX`, then capped at `max`.
pub open spec fn exp_delay(base: u64, max: u64, attempt: u32) -> u64 {
    let raw = base * pow2(backoff_exponent(attempt));
    let sat = if raw > u64::MAX {
        u64::MAX as int
    } else {
        raw
    };
    (if sat > max {
        max as int
    } else {
        sat
    }) as u64
}

/// Delay in seconds before attempt `attempt` (1-based).
pub open spec fn delay_secs(b: BackoffKind, attempt: u32) -> u64 {
    match b {
        BackoffKind::NoBackoff => 0,
        BackoffKind::Fixed { delay_secs } => delay_secs,
        BackoffKind::Exponential { base_secs, max_secs } => exp_delay(base_secs, max_secs, attempt),
    }
}

impl BackoffKind {
    /// Compute the delay, in seconds, before attempt `attempt` (1-based).
    pub fn delay_for(&self, attempt: u32) -> (r: u64)
        ensures
            r == delay_secs(*self, attempt),
    {
        match self {
            BackoffKind::NoBackoff => 0,
            BackoffKind::Fixed { delay_secs } => *delay_secs,
            BackoffKind::Exponential { base_secs, max_secs } => {
                let sub: u32 = if attempt == 0 {
                    0
                } else {
                    attempt - 1
                };
                let exp: u64 = if sub > 30 {
                    30
                } else {
                    sub as u64
                };
                proof {
                    lemma2_to64();
                    if exp < 30 {
                        vstd::arithmetic::power2::lemma_pow2_strictly_increases(exp as nat, 30);
                    }
                    lemma_u64_shl_is_mul(1, exp);
                }
                let factor: u64 = 1u64 << exp;
                let raw: u64 = match base_secs.checked_mul(factor) {
                    Some(v) => v,
                    None => u64::MAX,
                };
                if raw > *max_secs {
                    *max_secs
                } else {
                    raw
                }
            },
        }
    }
}

/// An exponential backoff never waits longer than its cap.
pub proof fn lemma_exponential_delay_capped(base_secs: u64, max_secs: u64, attempt: u32)
    ensures
        delay_secs(BackoffKind::Exponential { base_secs, max_secs }, attempt) <= max_secs,
{
}

/// A fixed backoff waits the same time before every attempt.
pub proof fn lemma_fixed_delay_constant(delay: u64, attempt: u32)
    ensures
        delay_secs(BackoffKind::Fixed { delay_secs: delay }, attempt) == delay,
{
}

/// Retry policy.
#[derive(Debug, Clone, Copy, PartialEq, Eq, Structural)]
pub struct RetryPolicy {
    /// Max attempts including the first. 1 means no retry.
    pub max_attempts: u32,
    /// Backoff between attempts.
    pub backoff: BackoffKind,
}

impl Default for RetryPolicy {
    fn default() -> (r: Self)
        ensures
            r.max_attempts == 0,
            r.backoff == BackoffKind::NoBackoff,
    {
        RetryPolicy { max_attempts: 0, backoff: BackoffKind::NoBackoff }
    }
}

/// The error a retry policy with `max_attempts` attempts raises, if any:
/// between 1 and 100 attempts are accepted.
pub open spec fn retry_error(max_attempts: u32) -> Option<CoreErrorV> {
    if max_attempts == 0 {
        Some(CoreErrorV::InvalidRetry("max_attempts must be >= 1"@))
    } else if max_attempts > 100 {
        Some(CoreErrorV::InvalidRetry("max_attempts cannot exceed 100"@))
    } else {
        None
    }
}

impl RetryPolicy {
    /// Validate: between 1 and 100 attempts.
    pub fn validate(&self) -> (r: Result<(), CoreError>)
        ensures
            checked(r, retry_error(self.max_attempts)),
    {
        if self.max_attempts == 0 {
            return Err(CoreError::InvalidRetry("max_attempts must be >= 1"));
        }
        if self.max_attempts > 100 {
            return Err(CoreError::InvalidRetry("max_attempts cannot exceed 100"));
        }
        Ok(())
    }
}

/// Shell to wrap the command in.
#[derive(Debug, Clone, Copy, PartialEq, Eq, Structural)]
pub enum Shell {
    /// Pick per OS: `cmd /C` on Windows, `/bin/sh -c` on unix.
    Auto,
    /// Windows cmd.exe.
    Cmd,
    /// Windows powershell.
    Powershell,
    /// Posix sh.
    Sh,
    /// Bash.
    Bash,
    /// No shell — direct exec (named `None` in serialized forms).
    NoShell,
    /// Cronicle-compatible plugin: direct exec, a JSON request on stdin and
    /// JSON event lines on stdout.
    Plugin,
}

impl Default for Shell {
    fn default() -> (r: Self)
        ensures
            r == Shell::Auto,
    {
        Shell::Auto
    }
}

/// Events that fire alerts.
#[derive(Debug, Clone, Copy, PartialEq, Eq, Hash, Structural)]
pub enum AlertEvent {
    /// Run failed.
    OnFailure,
    /// Run succeeded.
    OnSuccess,
    /// Run exceeded SLA seconds.
    OnSlaMiss,
    /// Run did not start by its expected time.
    OnLateStart,
    /// Run state lost (agent gone).
    OnLost,
}

/// Where to deliver alerts.
#[derive(Debug, Clone, PartialEq, Eq)]
pub enum AlertChannel {
    /// Email.
    Email {
        /// Recipient addresses.
        to: Vec<String>,
    },
    /// Slack incoming webhook URL.
    Slack {
        /// Webhook URL.
        webhook_url: String,
    },
    /// Generic webhook (POST JSON).
    Webhook {
        /// URL.
        url: String,
        /// Optional HMAC secret.
        secret: Option<String>,
    },
}

/// Alert config attached to a job or box.
#[derive(Debug, Clone, PartialEq, Eq)]
pub struct AlertConfig {
    /// Subscribed events.
    pub events: Vec<AlertEvent>,
    /// Delivery channels.
    pub channels: Vec<AlertChannel>,
}

impl Default for AlertConfig {
    fn default() -> (r: Self)
        ensures
            r.events@ == Seq::<AlertEvent>::empty(),
            r.channels@ == Seq::<AlertChannel>::empty(),
    {
        AlertConfig { events: Vec::new(), channels: Vec::new() }
    }
}

/// Outcome derived from an exit code via [`ExitCodePolicy`].
///
/// Distinct from [`crate::run::RunState`] which also covers `Killed`/`Lost`/`Skipped`:
/// outcomes only model what an exit code says about a finished run.
#[derive(Debug, Clone, Copy, PartialEq, Eq, Structural)]
pub enum RunOutcome {
    /// Run is considered successful.
    Success,
    /// Run is considered a failure.
    Failure,
    /// Run finished with the conditional-success code (Autosys `condition_code`).
    Conditional,
}

/// Maps a process exit code to a [`RunOutcome`].
///
/// Defaults: exit 0 is the only success; everything else is a failure.
/// Matches Autosys-style `max_exit_success`, `fail_codes`, `condition_code`.
#[derive(Debug, Clone, PartialEq, Eq)]
pub struct ExitCodePolicy {
    /// Inclusive upper bound for `Success`. Exits in `0..=max_exit_success` succeed
    /// unless overridden by `fail_codes` or `condition_code`. Default 0.
    pub max_exit_success: i32,
    /// Exit codes that always map to `Failure` (overrides `max_exit_success`).
    pub fail_codes: Vec<i32>,
    /// Exit code mapped to `Conditional` (overrides everything else).
    pub condition_code: Option<i32>,
}

impl Default for ExitCodePolicy {
    fn default() -> (r: Self)
        ensures
            r.max_exit_success == 0,
            r.fail_codes@ == Seq::<i32>::empty(),
            r.condition_code is None,
    {
        ExitCodePolicy { max_exit_success: 0, fail_codes: Vec::new(), condition_code: None }
    }
}

/// The outcome an exit code maps to.
/// Precedence: `condition_code` > `fail_codes` > `0..=max_exit_success`.
pub open spec fn outcome_of(
    max_exit_success: i32,
    fail_codes: Seq<i32>,
    condition_code: Option<i32>,
    exit: i32,
) -> RunOutcome {
    if condition_code == Some(exit) {
        RunOutcome::Conditional
    } else if fail_codes.contains(exit) {
        RunOutcome::Failure
    } else if 0 <= exit <= max_exit_success {
        RunOutcome::Success
    } else {
        RunOutcome::Failure
    }
}

/// The error an ill-formed exit-code policy raises, if any.
pub open spec fn exit_policy_error(
    max_exit_success: i32,
    fail_codes: Seq<i32>,
    condition_code: Option<i32>,
) -> Option<CoreErrorV> {
    if max_exit_success < 0 {
        Some(CoreErrorV::InvalidRetry("max_exit_success must be >= 0"@))
    } else if condition_code is Some && fail_codes.contains(condition_code->0) {
        Some(CoreErrorV::InvalidRetry("condition_code cannot also appear in fail_codes"@))
    } else {
        None
    }
}

fn contains_code(v: &Vec<i32>, x: i32) -> (r: bool)
    ensures
        r == v@.contains(x),
{
    let mut i: usize = 0;
    while i < v.len()
        invariant
            i <= v.len(),
            forall|j: int| 0 <= j < i ==> v@[j] != x,
        decreases v.len() - i,
    {
        if v[i] == x {
            return true;
        }
        i = i + 1;
    }
    false
}

impl ExitCodePolicy {
    /// Resolve an exit code into an outcome.
    pub fn evaluate(&self, exit: i32) -> (r: RunOutcome)
        ensures
            r == outcome_of(self.max_exit_success, self.fail_codes@, self.condition_code, exit),
    {
        if self.condition_code == Some(exit) {
            return RunOutcome::Conditional;
        }
        if contains_code(&self.fail_codes, exit) {
            return RunOutcome::Failure;
        }
        if exit >= 0 && exit <= self.max_exit_success {
            return RunOutcome::Success;
        }
        RunOutcome::Failure
    }

    /// Validate.
    pub fn validate(&self) -> (r: Result<(), CoreError>)
        ensures
            checked(
                r,
                exit_policy_error(self.max_exit_success, self.fail_codes@, self.condition_code),
            ),
    {
        if self.max_exit_success < 0 {
            return Err(CoreError::InvalidRetry("max_exit_success must be >= 0"));
        }
        if let Some(cc) = self.condition_code {
            if contains_code(&self.fail_codes, cc) {
                return Err(CoreError::InvalidRetry("condition_code cannot also appear in fail_codes"));
            }
        }
        Ok(())
    }
}

/// In a valid policy the conditional code is never reported as a failure:
/// its exit always maps to `Conditional`.
pub proof fn lemma_condition_code_wins(
    max_exit_success: i32,
    fail_codes: Seq<i32>,
    code: i32,
)
    ensures
        outcome_of(max_exit_success, fail_codes, Some(code), code) == RunOutcome::Conditional,
{
}

/// Listed failure codes fail, unless they are the conditional code.
pub proof fn lemma_fail_codes_fail(
    max_exit_success: i32,
    fail_codes: Seq<i32>,
    condition_code: Option<i32>,
    exit: i32,
)
    requires
        fail_codes.contains(exit),
        condition_code != Some(exit),
    ensures
        outcome_of(max_exit_success, fail_codes, condition_code, exit) == RunOutcome::Failure,
{
}

/// Negative exit codes never succeed.
pub proof fn lemma_negative_exit_never_succeeds(
    max_exit_success: i32,
    fail_codes: Seq<i32>,
    condition_code: Option<i32>,
    exit: i32,
)
    requires
        exit < 0,
    ensures
        outcome_of(max_exit_success, fail_codes, condition_code, exit) != RunOutcome::Success,
{
}

} // verus!
