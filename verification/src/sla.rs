//! SLA evaluation for running jobs.

use vstd::prelude::*;
use crate::policy::AlertEvent;
use crate::time::{TimeOfDay, Timestamp, later, on_day_of, whole_secs_between};

verus! {

/// Result of evaluating a running run against its SLA and timeout.
#[derive(Debug, Clone, Copy, PartialEq, Eq, Structural)]
pub enum SlaBreach {
    /// All good (named `None` in the alert vocabulary).
    NoBreach,
    /// Run has exceeded its soft SLA but is still under hard timeout.
    SlaMiss,
    /// Run has not yet started by its scheduled time.
    LateStart,
}

/// The alert event a breach raises.
pub open spec fn breach_event(b: SlaBreach) -> Option<AlertEvent> {
    match b {
        SlaBreach::NoBreach => None,
        SlaBreach::SlaMiss => Some(AlertEvent::OnSlaMiss),
        SlaBreach::LateStart => Some(AlertEvent::OnLateStart),
    }
}

impl SlaBreach {
    /// Convert to an alert event (or `None` for no breach).
    pub fn to_event(self) -> (r: Option<AlertEvent>)
        ensures
            r == breach_event(self),
    {
        match self {
            SlaBreach::NoBreach => None,
            SlaBreach::SlaMiss => Some(AlertEvent::OnSlaMiss),
            SlaBreach::LateStart => Some(AlertEvent::OnLateStart),
        }
    }
}

/// SLA state of a run: a started run misses its SLA once more than `sla_secs`
/// whole seconds have passed since it started (`sla_secs == 0` disables the
/// check); a run not yet started is late once more than `grace` whole
/// seconds have passed since it was scheduled.
pub open spec fn sla_state(
    now: Timestamp,
    scheduled_for: Timestamp,
    started_at: Option<Timestamp>,
    sla_secs: u64,
    grace: u64,
) -> SlaBreach {
    match started_at {
        Some(started) => if sla_secs == 0 {
            SlaBreach::NoBreach
        } else if whole_secs_between(now, started) > sla_secs {
            SlaBreach::SlaMiss
        } else {
            SlaBreach::NoBreach
        },
        None => if whole_secs_between(now, scheduled_for) > grace {
            SlaBreach::LateStart
        } else {
            SlaBreach::NoBreach
        },
    }
}

/// Compute the SLA state of a run.
///
/// `started_at`: when the run actually started (None = not yet started).
/// `scheduled_for`: when the run was scheduled (used for late-start).
/// `sla_secs`: soft SLA; 0 disables.
/// `late_start_grace_secs`: how long after `scheduled_for` we tolerate before
/// firing a late-start alert.
pub fn evaluate_sla(
    now: Timestamp,
    scheduled_for: Timestamp,
    started_at: Option<Timestamp>,
    sla_secs: u64,
    late_start_grace_secs: u64,
) -> (r: SlaBreach)
    requires
        now.wf(),
        scheduled_for.wf(),
        started_at is Some ==> started_at->0.wf(),
    ensures
        r == sla_state(now, scheduled_for, started_at, sla_secs, late_start_grace_secs),
{
    if let Some(started) = started_at {
        if sla_secs == 0 {
            return SlaBreach::NoBreach;
        }
        let elapsed = now.secs_since(&started);
        if elapsed > sla_secs {
            return SlaBreach::SlaMiss;
        }
        SlaBreach::NoBreach
    } else {
        let waited = now.secs_since(&scheduled_for);
        if waited > late_start_grace_secs {
            SlaBreach::LateStart
        } else {
            SlaBreach::NoBreach
        }
    }
}

/// `now` has passed every must-start time of today.
pub open spec fn past_all(now: Timestamp, times: Seq<TimeOfDay>) -> bool {
    forall|i: int| 0 <= i < times.len() ==> later(now, on_day_of(now, #[trigger] times[i]))
}

/// Some must-complete time of today fell after `started` and `now` has passed it.
pub open spec fn missed_deadline(now: Timestamp, started: Timestamp, times: Seq<TimeOfDay>) -> bool {
    exists|i: int|
        0 <= i < times.len() && later(on_day_of(now, #[trigger] times[i]), started) && later(
            now,
            on_day_of(now, times[i]),
        )
}

/// State of a run against Autosys-style must-start / must-complete times of
/// today (the day of `now`).
pub open spec fn must_times_state(
    now: Timestamp,
    started_at: Option<Timestamp>,
    must_start: Seq<TimeOfDay>,
    must_complete: Seq<TimeOfDay>,
) -> SlaBreach {
    if started_at is None && must_start.len() > 0 {
        if past_all(now, must_start) {
            SlaBreach::LateStart
        } else {
            SlaBreach::NoBreach
        }
    } else if started_at is Some && missed_deadline(now, started_at->0, must_complete) {
        SlaBreach::SlaMiss
    } else {
        SlaBreach::NoBreach
    }
}

/// Evaluate a run against Autosys-style `must_start_times` /
/// `must_complete_times` lists. Both lists are wall-clock UTC times of day;
/// today's date is taken from `now`.
///
/// - If `started_at` is None and `now` has passed every `must_start_times`
///   entry for today: [`SlaBreach::LateStart`].
/// - If `started_at` is Some and `now` has passed any `must_complete_times`
///   entry that fell after the run started: [`SlaBreach::SlaMiss`].
/// - Otherwise [`SlaBreach::NoBreach`].
pub fn evaluate_must_times(
    now: Timestamp,
    started_at: Option<Timestamp>,
    must_start_times: &[TimeOfDay],
    must_complete_times: &[TimeOfDay],
) -> (r: SlaBreach)
    requires
        i64::MIN + 86400 < now.secs < i64::MAX - 86400,
        forall|i: int| 0 <= i < must_start_times@.len() ==> (#[trigger] must_start_times@[i]).wf(),
        forall|i: int|
            0 <= i < must_complete_times@.len() ==> (#[trigger] must_complete_times@[i]).wf(),
    ensures
        r == must_times_state(now, started_at, must_start_times@, must_complete_times@),
{
    if started_at.is_none() && must_start_times.len() > 0 {
        let mut i: usize = 0;
        while i < must_start_times.len()
            invariant
                i <= must_start_times@.len(),
                started_at is None,
                must_start_times@.len() > 0,
                i64::MIN + 86400 < now.secs < i64::MAX - 86400,
                forall|k: int|
                    0 <= k < must_start_times@.len() ==> (#[trigger] must_start_times@[k]).wf(),
                forall|k: int|
                    0 <= k < i ==> later(now, on_day_of(now, #[trigger] must_start_times@[k])),
            decreases must_start_times.len() - i,
        {
            let t = must_start_times[i];
            let at = now.at_time_of_day(&t);
            if !now.is_after(&at) {
                return SlaBreach::NoBreach;
            }
            i = i + 1;
        }
        return SlaBreach::LateStart;
    }
    if let Some(started) = started_at {
        let mut i: usize = 0;
        while i < must_complete_times.len()
            invariant
                i <= must_complete_times@.len(),
                started_at == Some(started),
                !(started_at is None && must_start_times@.len() > 0),
                i64::MIN + 86400 < now.secs < i64::MAX - 86400,
                forall|k: int|
                    0 <= k < must_complete_times@.len() ==> (#[trigger] must_complete_times@[k]).wf(),
                forall|k: int|
                    0 <= k < i ==> !(later(on_day_of(now, #[trigger] must_complete_times@[k]), started)
                        && later(now, on_day_of(now, must_complete_times@[k]))),
            decreases must_complete_times.len() - i,
        {
            let t = must_complete_times[i];
            let deadline = now.at_time_of_day(&t);
            if deadline.is_after(&started) && now.is_after(&deadline) {
                assert(later(on_day_of(now, must_complete_times@[i as int]), started));
                return SlaBreach::SlaMiss;
            }
            i = i + 1;
        }
    }
    SlaBreach::NoBreach
}

/// A zero SLA disables the SLA check for a started run.
pub proof fn lemma_zero_sla_disables(
    now: Timestamp,
    scheduled_for: Timestamp,
    started: Timestamp,
    grace: u64,
)
    ensures
        sla_state(now, scheduled_for, Some(started), 0, grace) == SlaBreach::NoBreach,
{
}

/// A run that has started is never late to start, and one that has not
/// started never misses its SLA.
pub proof fn lemma_breach_matches_start(
    now: Timestamp,
    scheduled_for: Timestamp,
    started_at: Option<Timestamp>,
    sla_secs: u64,
    grace: u64,
    must_start: Seq<TimeOfDay>,
    must_complete: Seq<TimeOfDay>,
)
    ensures
        started_at is Some ==> sla_state(now, scheduled_for, started_at, sla_secs, grace)
            != SlaBreach::LateStart,
        started_at is None ==> sla_state(now, scheduled_for, started_at, sla_secs, grace)
            != SlaBreach::SlaMiss,
        started_at is Some ==> must_times_state(now, started_at, must_start, must_complete)
            != SlaBreach::LateStart,
        started_at is None ==> must_times_state(now, started_at, must_start, must_complete)
            != SlaBreach::SlaMiss,
{
}

/// Empty must-time lists never raise a breach.
pub proof fn lemma_empty_must_times_never_fire(now: Timestamp, started_at: Option<Timestamp>)
    ensures
        must_times_state(now, started_at, Seq::empty(), Seq::empty()) == SlaBreach::NoBreach,
{
}

} // verus!
