//! Translate a [`JobSpec`] into a [`Job`].

use vstd::prelude::*;
use crate::error::{CoreError, CoreErrorV};
use crate::jil::fields::{
    build_cron_expr, claims_of, claims_view, codes_of, cron_expr, parse_codes,
    parse_resource_claims, parse_times_csv, split_on, times_of,
};
use crate::jil::model::{debug_quoted, debug_text};
use crate::jil::spec::{JilJobType, JobSpec, JobSpecV, opt_text, texts};
use crate::job::{Job, JobBuilder, job_error, name_error, claims_error};
use crate::policy::{
    AlertConfig, AlertEvent, BackoffKind, ExitCodePolicy, MisfirePolicy, RetryPolicy, Shell,
    exit_policy_error, retry_error,
};
use crate::target::Target;
use crate::text::{blank, is_unicode_ws, string_of_str, trim, trim_end, trim_start};
use crate::time::TimeOfDay;
use crate::trigger::{Trigger, trigger_error};

verus! {

/// Result of translating a [`JobSpec`] into a [`Job`].
pub struct ParseOutput {
    /// The constructed job.
    pub job: Job,
    /// Warnings to display to the user.
    pub warnings: Vec<String>,
}

/// The retry policy for `n` retries: `n + 1` attempts, a fixed 60 s delay
/// when there are retries.
pub open spec fn retry_for(n: u32) -> RetryPolicy {
    RetryPolicy {
        max_attempts: (n + 1) as u32,
        backoff: if n > 0 {
            BackoffKind::Fixed { delay_secs: 60 }
        } else {
            BackoffKind::NoBackoff
        },
    }
}

/// Build the retry policy for `n_retrys` retries.
pub fn build_retry(n_retrys: u32) -> (r: RetryPolicy)
    requires
        n_retrys < u32::MAX,
    ensures
        r == retry_for(n_retrys),
{
    RetryPolicy {
        max_attempts: n_retrys + 1,
        backoff: if n_retrys > 0 {
            BackoffKind::Fixed { delay_secs: 60 }
        } else {
            BackoffKind::NoBackoff
        },
    }
}

/// The exit-code policy the attributes describe, before validation.
pub open spec fn exit_candidate(s: JobSpecV) -> (i32, Seq<i32>, Option<i32>) {
    (
        match s.max_exit_success {
            Some(m) => m,
            None => 0,
        },
        match s.fail_codes {
            Some(csv) => codes_of(split_on(csv, ',')),
            None => Seq::empty(),
        },
        s.condition_code,
    )
}

/// The candidate is not a valid policy, so defaults are used.
pub open spec fn exit_reverts(s: JobSpecV) -> bool {
    let c = exit_candidate(s);
    exit_policy_error(c.0, c.1, c.2) is Some
}

/// The exit-code policy of a translated job.
pub open spec fn exit_policy_for(s: JobSpecV) -> (i32, Seq<i32>, Option<i32>) {
    if exit_reverts(s) {
        (0, Seq::empty(), None)
    } else {
        exit_candidate(s)
    }
}

/// The warning for an exit-code policy that reverted to defaults.
pub open spec fn exit_warnings(s: JobSpecV) -> Seq<Seq<char>> {
    if exit_reverts(s) {
        seq!["exit-code policy invalid; reverting to defaults"@]
    } else {
        Seq::empty()
    }
}

proof fn lemma_texts_push(v: Seq<String>, s: String)
    ensures
        texts(v.push(s)) == texts(v).push(s@),
{
    assert(texts(v.push(s)) =~= texts(v).push(s@));
}

/// The exit-code policy from `max_exit_success`, `fail_codes` and
/// `condition_code`; an invalid combination reverts to defaults with a warning.
pub fn build_exit_policy(spec: &JobSpec, warnings: &mut Vec<String>) -> (p: ExitCodePolicy)
    ensures
        (p.max_exit_success, p.fail_codes@, p.condition_code) == exit_policy_for(spec@),
        texts(final(warnings)@) == texts(old(warnings)@) + exit_warnings(spec@),
{
    let mut p = ExitCodePolicy::default();
    if let Some(max) = spec.max_exit_success {
        p.max_exit_success = max;
    }
    if let Some(csv) = &spec.fail_codes {
        let codes = parse_codes(csv.as_str());
        p.fail_codes = codes;
    }
    if let Some(cc) = spec.condition_code {
        p.condition_code = Some(cc);
    }
    assert((p.max_exit_success, p.fail_codes@, p.condition_code) == exit_candidate(spec@));
    if p.validate().is_err() {
        let w = string_of_str("exit-code policy invalid; reverting to defaults");
        proof {
            lemma_texts_push(warnings@, w);
        }
        warnings.push(w);
        return ExitCodePolicy::default();
    }
    assert(texts(warnings@) + Seq::<Seq<char>>::empty() =~= texts(warnings@));
    p
}

/// The cron expression of a spec with both a day list and start times.
pub open spec fn cron_of(s: JobSpecV) -> Option<Seq<char>> {
    match (s.days_of_week, s.start_times) {
        (Some(d), Some(t)) => cron_expr(d, t),
        _ => None,
    }
}

/// The spec yields no cron schedule and is no file watcher with a command.
pub open spec fn manual_trigger(s: JobSpecV) -> bool {
    cron_of(s) is None && !(s.job_type == JilJobType::FileWatcher && s.command is Some)
}

/// The trigger a translated job gets: a cron schedule from days and first
/// start time, else a file watch on the command for file watchers, else
/// manual.
pub open spec fn trigger_for(s: JobSpecV, t: Trigger) -> bool {
    match cron_of(s) {
        Some(e) => t matches Trigger::Cron { expr, timezone } && expr@ == e && timezone is None,
        None => if s.job_type == JilJobType::FileWatcher && s.command is Some {
            t matches Trigger::File { path, event } && path@ == s.command->0 && event@ == "create"@
        } else {
            t == Trigger::Manual
        },
    }
}

/// The warning for a job that gets no schedule.
pub open spec fn trigger_warnings(s: JobSpecV) -> Seq<Seq<char>> {
    if manual_trigger(s) {
        seq!["no schedule found; defaulting to Manual trigger"@]
    } else {
        Seq::empty()
    }
}

/// A cron trigger from `days_of_week` and the first `start_times` entry, if
/// both are present and the time reads as `HH:MM`.
pub fn try_build_cron(spec: &JobSpec) -> (r: Option<Trigger>)
    ensures
        match cron_of(spec@) {
            Some(e) => r matches Some(Trigger::Cron { expr, timezone }) && expr@ == e
                && timezone is None,
            None => r is None,
        },
{
    let days = match &spec.days_of_week {
        Some(d) => d,
        None => return None,
    };
    let times = match &spec.start_times {
        Some(t) => t,
        None => return None,
    };
    match build_cron_expr(days.as_str(), times.as_str()) {
        Some(expr) => Some(Trigger::Cron { expr, timezone: None }),
        None => None,
    }
}

/// The trigger of a translated job; a job without schedule gets a warning.
pub fn build_trigger(spec: &JobSpec, warnings: &mut Vec<String>) -> (t: Trigger)
    ensures
        trigger_for(spec@, t),
        texts(final(warnings)@) == texts(old(warnings)@) + trigger_warnings(spec@),
{
    if let Some(cron) = try_build_cron(spec) {
        assert(texts(warnings@) + Seq::<Seq<char>>::empty() =~= texts(warnings@));
        return cron;
    }
    if spec.job_type == JilJobType::FileWatcher {
        if let Some(cmd) = &spec.command {
            assert(texts(warnings@) + Seq::<Seq<char>>::empty() =~= texts(warnings@));
            return Trigger::File { path: cmd.clone(), event: string_of_str("create") };
        }
    }
    let w = string_of_str("no schedule found; defaulting to Manual trigger");
    proof {
        lemma_texts_push(warnings@, w);
    }
    warnings.push(w);
    Trigger::Manual
}

/// The command a translated job runs: box jobs get a placeholder.
pub open spec fn effective_cmd(s: JobSpecV) -> Seq<char> {
    if s.job_type == JilJobType::Box {
        "__box__"@
    } else {
        match s.command {
            Some(c) => c,
            None => Seq::empty(),
        }
    }
}

/// The target of a translated job: the machine as a tag, or any agent.
pub open spec fn target_for(s: JobSpecV, t: Target) -> bool {
    if s.machine is Some && s.machine->0.len() > 0 {
        t matches Target::Tag { tag } && tag@ == s.machine->0
    } else {
        t == Target::Any
    }
}

/// A box-only attribute is set.
pub open spec fn has_box_attrs(s: JobSpecV) -> bool {
    s.box_success is Some || s.box_failure is Some || s.box_terminator == Some(true)
        || s.job_terminator == Some(true) || s.auto_hold == Some(true)
}

/// Warnings for attributes kept only as raw text.
pub open spec fn raw_warnings_condition(s: JobSpecV) -> Seq<Seq<char>> {
    match s.condition {
        Some(c) => seq![
            "condition "@ + debug_text(c) + " is stored as raw string; M19 will resolve dependencies"@,
        ],
        None => Seq::empty(),
    }
}

/// Warning for an exclude-calendar kept by name.
pub open spec fn exclude_warnings(s: JobSpecV) -> Seq<Seq<char>> {
    match s.exclude_calendar {
        Some(n) => seq![
            "exclude_calendar "@ + debug_text(n)
                + " kept as name; apply step must resolve to CalendarId"@,
        ],
        None => Seq::empty(),
    }
}

/// Warning for box-only attributes.
pub open spec fn box_warnings(s: JobSpecV) -> Seq<Seq<char>> {
    if has_box_attrs(s) {
        if s.job_type == JilJobType::Box {
            seq![
                "box_success/box_failure/box_terminator/job_terminator/auto_hold attrs are stored on the JobSpec; apply step must propagate to the Box record"@,
            ]
        } else {
            seq![
                "box-only attrs (box_success/box_failure/box_terminator/auto_hold) ignored on non-box job"@,
            ]
        }
    } else {
        Seq::empty()
    }
}

/// All warnings of a translation, in order.
pub open spec fn translate_warnings(s: JobSpecV) -> Seq<Seq<char>> {
    s.warnings + trigger_warnings(s) + raw_warnings_condition(s) + exit_warnings(s) + times_of(
        s.must_start_times,
        "must_start_times"@,
    ).1 + times_of(s.must_complete_times, "must_complete_times"@).1 + exclude_warnings(s)
        + box_warnings(s) + claims_of(s.resources).1
}

/// The error translation raises, if any: a bad name, an empty command, or
/// too many retries.
pub open spec fn translate_error(s: JobSpecV) -> Option<CoreErrorV> {
    if name_error(s.name) is Some {
        name_error(s.name)
    } else if blank(effective_cmd(s)) {
        Some(CoreErrorV::InvalidName(effective_cmd(s), "cmd cannot be empty"@))
    } else {
        retry_error((s.n_retrys + 1) as u32)
    }
}

/// The job a translation builds from `s`.
pub open spec fn translated_job(s: JobSpecV, j: Job) -> bool {
    &&& j.name@ == s.name
    &&& j.cmd@ == effective_cmd(s)
    &&& trigger_for(s, j.trigger)
    &&& target_for(s, j.target)
    &&& j.retry == retry_for(s.n_retrys)
    &&& j.timeout_secs == (match s.term_run_time {
        Some(m) => m,
        None => 0,
    }) * 60
    &&& j.alerts.events@ == (if s.alarm_if_fail {
        seq![AlertEvent::OnFailure]
    } else {
        Seq::empty()
    })
    &&& j.alerts.channels@.len() == 0
    &&& (j.exit_policy.max_exit_success, j.exit_policy.fail_codes@, j.exit_policy.condition_code)
        == exit_policy_for(s)
    &&& j.must_start_times@ == times_of(s.must_start_times, "must_start_times"@).0
    &&& j.must_complete_times@ == times_of(s.must_complete_times, "must_complete_times"@).0
    &&& claims_view(j.resource_claims@) == claims_of(s.resources).0
    &&& j.box_id is None
    &&& j.args@.len() == 0
    &&& j.env@.len() == 0
    &&& j.cwd is None
    &&& j.shell == Shell::Auto
    &&& j.sla_secs == 0
    &&& j.calendar_id is None
    &&& j.exclude_calendar_id is None
    &&& j.misfire == MisfirePolicy::FireOnce
    &&& j.dependencies@.len() == 0
    &&& !j.paused
    &&& j.next_fire_at is None
}

/// Text with a non-whitespace character is not blank.
proof fn lemma_not_blank(s: Seq<char>, i: int)
    requires
        0 <= i < s.len(),
        !is_unicode_ws(s[i]),
    ensures
        !blank(s),
{
    crate::jil::model::lemma_trim_start(s);
    let t = trim_start(s);
    let k = s.len() - t.len();
    assert(k <= i);
    assert(t[i - k] == s[i]);
    lemma_trim_end_keeps(t, i - k);
}

proof fn lemma_trim_end_keeps(t: Seq<char>, j: int)
    requires
        0 <= j < t.len(),
        !is_unicode_ws(t[j]),
    ensures
        trim_end(t).len() > j,
    decreases t.len(),
{
    if t.len() > 0 && is_unicode_ws(t.last()) {
        assert(t.drop_last()[j] == t[j]);
        lemma_trim_end_keeps(t.drop_last(), j);
    }
}

impl JobSpec {
    /// Translate this spec into a [`Job`].
    ///
    /// The `condition` field (raw Autosys dependency string) is stored only in
    /// the spec; a warning is emitted when a condition is present.
    pub fn into_job(self) -> (r: Result<ParseOutput, CoreError>)
        requires
            self.n_retrys < u32::MAX,
            self.term_run_time is Some ==> self.term_run_time->0 * 60 <= u64::MAX,
        ensures
            match translate_error(self@) {
                Some(e) => r is Err && r->Err_0@ == e,
                None => r is Ok && translated_job(self@, r->Ok_0.job) && texts(
                    r->Ok_0.warnings@,
                ) == translate_warnings(self@),
            },
    {
        let mut warnings = self.warnings.clone();
        assert(warnings@ == self.warnings@);
        let trigger = build_trigger(&self, &mut warnings);
        let effective_cmd: String = if self.job_type == JilJobType::Box {
            string_of_str("__box__")
        } else {
            match &self.command {
                Some(c) => c.clone(),
                None => String::new(),
            }
        };
        let target = match &self.machine {
            Some(m) => {
                if !m.as_str().is_empty() {
                    Target::Tag { tag: m.clone() }
                } else {
                    Target::Any
                }
            },
            None => Target::Any,
        };
        let retry = build_retry(self.n_retrys);
        let minutes: u64 = match self.term_run_time {
            Some(m) => m,
            None => 0,
        };
        let timeout_secs = minutes * 60;
        let alerts = if self.alarm_if_fail {
            let mut events: Vec<AlertEvent> = Vec::new();
            events.push(AlertEvent::OnFailure);
            assert(events@ =~= seq![AlertEvent::OnFailure]);
            AlertConfig { events, channels: Vec::new() }
        } else {
            AlertConfig::default()
        };
        if let Some(cond) = &self.condition {
            let mut w = string_of_str("condition ");
            let d = debug_quoted(cond.as_str());
            w.append(d.as_str());
            w.append(" is stored as raw string; M19 will resolve dependencies");
            proof {
                lemma_texts_push(warnings@, w);
            }
            warnings.push(w);
        }
        let ghost w1 = texts(warnings@);
        assert(w1 == texts(self.warnings@) + trigger_warnings(self@) + raw_warnings_condition(
            self@,
        ));
        let exit_policy = build_exit_policy(&self, &mut warnings);
        let must_start_times = parse_times_csv(&self.must_start_times, &mut warnings, "must_start_times");
        let must_complete_times = parse_times_csv(
            &self.must_complete_times,
            &mut warnings,
            "must_complete_times",
        );
        if let Some(name) = &self.exclude_calendar {
            let mut w = string_of_str("exclude_calendar ");
            let d = debug_quoted(name.as_str());
            w.append(d.as_str());
            w.append(" kept as name; apply step must resolve to CalendarId");
            proof {
                lemma_texts_push(warnings@, w);
            }
            warnings.push(w);
        }
        let box_attrs = self.box_success.is_some() || self.box_failure.is_some()
            || self.box_terminator == Some(true) || self.job_terminator == Some(true)
            || self.auto_hold == Some(true);
        if box_attrs {
            let w = if self.job_type == JilJobType::Box {
                string_of_str(
                    "box_success/box_failure/box_terminator/job_terminator/auto_hold attrs are stored on the JobSpec; apply step must propagate to the Box record",
                )
            } else {
                string_of_str(
                    "box-only attrs (box_success/box_failure/box_terminator/auto_hold) ignored on non-box job",
                )
            };
            proof {
                lemma_texts_push(warnings@, w);
            }
            warnings.push(w);
        }
        let builder = JobBuilder::new(self.name.as_str(), effective_cmd.as_str(), trigger).target(
            target,
        ).retry(retry).timeout(timeout_secs);
        let resource_claims = parse_resource_claims(&self.resources, &mut warnings);
        proof {
            let j = builder.job();
            if !blank(j.cmd@) {
                match cron_of(self@) {
                    Some(e) => {
                        lemma_cron_not_blank(self@);
                    },
                    None => {},
                }
                if j.cmd@.len() == 0 {
                    assert(blank(j.cmd@));
                }
            }
            assert(exit_policy_error(0, Seq::empty(), None) is None);
            assert(claims_error(Seq::<crate::resource::ResourceClaim>::empty()) is None);
            assert(j.resource_claims@ =~= Seq::<crate::resource::ResourceClaim>::empty());
            assert(j.exit_policy.fail_codes@ =~= Seq::<i32>::empty());
        }
        let built = builder.build();
        let mut j = match built {
            Ok(j) => j,
            Err(e) => {
                return Err(e);
            },
        };
        j.alerts = alerts;
        j.exit_policy = exit_policy;
        j.must_start_times = must_start_times;
        j.must_complete_times = must_complete_times;
        j.resource_claims = resource_claims;
        assert(texts(warnings@) =~= translate_warnings(self@));
        Ok(ParseOutput { job: j, warnings })
    }
}

/// A cron expression is never blank: it starts with a digit.
proof fn lemma_cron_not_blank(s: JobSpecV)
    requires
        cron_of(s) is Some,
    ensures
        !blank(cron_of(s)->0),
{
    let e = cron_of(s)->0;
    let (h, m) = crate::jil::fields::hour_minute(
        crate::jil::fields::first_start(s.start_times->0),
    )->0;
    crate::conditions::expr::lemma_dec_digits(m);
    assert(e[0] == crate::conditions::expr::dec(m)[0]);
    lemma_not_blank(e, 0);
}

} // verus!
