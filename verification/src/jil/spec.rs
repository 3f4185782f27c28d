//! `JobSpec` and `PartialJobSpec`: attribute bags from a JIL block.

use vstd::prelude::*;
use crate::text::string_of_str;

verus! {

/// Job type as expressed in JIL.
#[derive(Debug, Clone, Copy, PartialEq, Eq, Structural)]
pub enum JilJobType {
    /// Command job (`c`).
    Command,
    /// Box job (`box`).
    Box,
    /// File-watcher job (`fw`).
    FileWatcher,
}

/// Full set of attributes from an `insert_job` block.
#[derive(Debug, Clone, PartialEq)]
pub struct JobSpec {
    /// Job name.
    pub name: String,
    /// Job type.
    pub job_type: JilJobType,
    /// Shell command to run (command jobs).
    pub command: Option<String>,
    /// Target machine name.
    pub machine: Option<String>,
    /// Job owner (email or user).
    pub owner: Option<String>,
    /// Day-of-week constraint ("mo,tu,we,th,fr" etc.).
    pub days_of_week: Option<String>,
    /// Start times ("02:00,04:00" etc.).
    pub start_times: Option<String>,
    /// Raw Autosys condition expression.
    pub condition: Option<String>,
    /// Alert on failure (`y`/`n`).
    pub alarm_if_fail: bool,
    /// Number of *retries* (total attempts = n + 1).
    pub n_retrys: u32,
    /// Hard timeout in minutes.
    pub term_run_time: Option<u64>,
    /// Human description.
    pub description: Option<String>,
    /// Stdout file path.
    pub std_out_file: Option<String>,
    /// Stderr file path.
    pub std_err_file: Option<String>,
    /// Box that contains this job.
    pub box_name: Option<String>,
    /// Calendar to *exclude* (job blocked when this calendar allows).
    pub exclude_calendar: Option<String>,
    /// "HH:MM,HH:MM,..." times the job must start by.
    pub must_start_times: Option<String>,
    /// "HH:MM,HH:MM,..." times the job must complete by.
    pub must_complete_times: Option<String>,
    /// "100,101,..." exit codes that are always Failure.
    pub fail_codes: Option<String>,
    /// Maximum exit code considered Success (default 0).
    pub max_exit_success: Option<i32>,
    /// Exit code mapped to Conditional outcome.
    pub condition_code: Option<i32>,
    /// (Box only) condition expression for box success.
    pub box_success: Option<String>,
    /// (Box only) condition expression for box failure.
    pub box_failure: Option<String>,
    /// (Box only) terminate children on box failure.
    pub box_terminator: Option<bool>,
    /// (Box only) propagate kill to children when box fails.
    pub job_terminator: Option<bool>,
    /// (Box only) auto-hold children when box transitions to Running.
    pub auto_hold: Option<bool>,
    /// Resource claims in raw Autosys form: `"resA(3),resB(1)"` or `"resA"` (=1 unit).
    pub resources: Option<String>,
    /// Warnings collected during parse (unknown attributes etc.).
    pub warnings: Vec<String>,
}

/// Partial attribute set from an `update_job` block.
/// All fields are `Option`; only the ones present in the JIL are `Some`.
#[derive(Debug, Clone, PartialEq)]
pub struct PartialJobSpec {
    /// Shell command.
    pub command: Option<String>,
    /// Target machine.
    pub machine: Option<String>,
    /// Owner.
    pub owner: Option<String>,
    /// Days of week.
    pub days_of_week: Option<String>,
    /// Start times.
    pub start_times: Option<String>,
    /// Raw condition.
    pub condition: Option<String>,
    /// Alarm on failure.
    pub alarm_if_fail: Option<bool>,
    /// Retry count.
    pub n_retrys: Option<u32>,
    /// Hard timeout in minutes.
    pub term_run_time: Option<u64>,
    /// Description.
    pub description: Option<String>,
    /// Stdout path.
    pub std_out_file: Option<String>,
    /// Stderr path.
    pub std_err_file: Option<String>,
    /// Box membership.
    pub box_name: Option<String>,
    /// Exclude-calendar.
    pub exclude_calendar: Option<String>,
    /// Must-start times.
    pub must_start_times: Option<String>,
    /// Must-complete times.
    pub must_complete_times: Option<String>,
    /// Fail codes CSV.
    pub fail_codes: Option<String>,
    /// Max exit success.
    pub max_exit_success: Option<i32>,
    /// Condition code.
    pub condition_code: Option<i32>,
    /// Box success expr.
    pub box_success: Option<String>,
    /// Box failure expr.
    pub box_failure: Option<String>,
    /// Box terminator.
    pub box_terminator: Option<bool>,
    /// Job terminator.
    pub job_terminator: Option<bool>,
    /// Auto hold.
    pub auto_hold: Option<bool>,
    /// Resource claims.
    pub resources: Option<String>,
    /// Warnings.
    pub warnings: Vec<String>,
}

/// Model of a [`JobSpec`]: texts as character sequences.
pub struct JobSpecV {
    pub name: Seq<char>,
    pub job_type: JilJobType,
    pub command: Option<Seq<char>>,
    pub machine: Option<Seq<char>>,
    pub owner: Option<Seq<char>>,
    pub days_of_week: Option<Seq<char>>,
    pub start_times: Option<Seq<char>>,
    pub condition: Option<Seq<char>>,
    pub alarm_if_fail: bool,
    pub n_retrys: u32,
    pub term_run_time: Option<u64>,
    pub description: Option<Seq<char>>,
    pub std_out_file: Option<Seq<char>>,
    pub std_err_file: Option<Seq<char>>,
    pub box_name: Option<Seq<char>>,
    pub exclude_calendar: Option<Seq<char>>,
    pub must_start_times: Option<Seq<char>>,
    pub must_complete_times: Option<Seq<char>>,
    pub fail_codes: Option<Seq<char>>,
    pub max_exit_success: Option<i32>,
    pub condition_code: Option<i32>,
    pub box_success: Option<Seq<char>>,
    pub box_failure: Option<Seq<char>>,
    pub box_terminator: Option<bool>,
    pub job_terminator: Option<bool>,
    pub auto_hold: Option<bool>,
    pub resources: Option<Seq<char>>,
    pub warnings: Seq<Seq<char>>,
}

/// Model of a [`PartialJobSpec`].
pub struct PartialJobSpecV {
    pub command: Option<Seq<char>>,
    pub machine: Option<Seq<char>>,
    pub owner: Option<Seq<char>>,
    pub days_of_week: Option<Seq<char>>,
    pub start_times: Option<Seq<char>>,
    pub condition: Option<Seq<char>>,
    pub alarm_if_fail: Option<bool>,
    pub n_retrys: Option<u32>,
    pub term_run_time: Option<u64>,
    pub description: Option<Seq<char>>,
    pub std_out_file: Option<Seq<char>>,
    pub std_err_file: Option<Seq<char>>,
    pub box_name: Option<Seq<char>>,
    pub exclude_calendar: Option<Seq<char>>,
    pub must_start_times: Option<Seq<char>>,
    pub must_complete_times: Option<Seq<char>>,
    pub fail_codes: Option<Seq<char>>,
    pub max_exit_success: Option<i32>,
    pub condition_code: Option<i32>,
    pub box_success: Option<Seq<char>>,
    pub box_failure: Option<Seq<char>>,
    pub box_terminator: Option<bool>,
    pub job_terminator: Option<bool>,
    pub auto_hold: Option<bool>,
    pub resources: Option<Seq<char>>,
    pub warnings: Seq<Seq<char>>,
}

/// An optional text by its characters.
pub open spec fn opt_text(o: Option<String>) -> Option<Seq<char>> {
    match o {
        Some(s) => Some(s@),
        None => None,
    }
}

/// Texts by their characters.
pub open spec fn texts(v: Seq<String>) -> Seq<Seq<char>> {
    v.map_values(|s: String| s@)
}

impl View for JobSpec {
    type V = JobSpecV;

    open spec fn view(&self) -> JobSpecV {
        JobSpecV {
            name: self.name@,
            job_type: self.job_type,
            command: opt_text(self.command),
            machine: opt_text(self.machine),
            owner: opt_text(self.owner),
            days_of_week: opt_text(self.days_of_week),
            start_times: opt_text(self.start_times),
            condition: opt_text(self.condition),
            alarm_if_fail: self.alarm_if_fail,
            n_retrys: self.n_retrys,
            term_run_time: self.term_run_time,
            description: opt_text(self.description),
            std_out_file: opt_text(self.std_out_file),
            std_err_file: opt_text(self.std_err_file),
            box_name: opt_text(self.box_name),
            exclude_calendar: opt_text(self.exclude_calendar),
            must_start_times: opt_text(self.must_start_times),
            must_complete_times: opt_text(self.must_complete_times),
            fail_codes: opt_text(self.fail_codes),
            max_exit_success: self.max_exit_success,
            condition_code: self.condition_code,
            box_success: opt_text(self.box_success),
            box_failure: opt_text(self.box_failure),
            box_terminator: self.box_terminator,
            job_terminator: self.job_terminator,
            auto_hold: self.auto_hold,
            resources: opt_text(self.resources),
            warnings: texts(self.warnings@),
        }
    }
}

impl View for PartialJobSpec {
    type V = PartialJobSpecV;

    open spec fn view(&self) -> PartialJobSpecV {
        PartialJobSpecV {
            command: opt_text(self.command),
            machine: opt_text(self.machine),
            owner: opt_text(self.owner),
            days_of_week: opt_text(self.days_of_week),
            start_times: opt_text(self.start_times),
            condition: opt_text(self.condition),
            alarm_if_fail: self.alarm_if_fail,
            n_retrys: self.n_retrys,
            term_run_time: self.term_run_time,
            description: opt_text(self.description),
            std_out_file: opt_text(self.std_out_file),
            std_err_file: opt_text(self.std_err_file),
            box_name: opt_text(self.box_name),
            exclude_calendar: opt_text(self.exclude_calendar),
            must_start_times: opt_text(self.must_start_times),
            must_complete_times: opt_text(self.must_complete_times),
            fail_codes: opt_text(self.fail_codes),
            max_exit_success: self.max_exit_success,
            condition_code: self.condition_code,
            box_success: opt_text(self.box_success),
            box_failure: opt_text(self.box_failure),
            box_terminator: self.box_terminator,
            job_terminator: self.job_terminator,
            auto_hold: self.auto_hold,
            resources: opt_text(self.resources),
            warnings: texts(self.warnings@),
        }
    }
}

/// The spec of a job named `name` of type `job_type` with no other attribute set.
pub open spec fn empty_spec(name: Seq<char>, job_type: JilJobType) -> JobSpecV {
    JobSpecV {
        name,
        job_type,
        command: None,
        machine: None,
        owner: None,
        days_of_week: None,
        start_times: None,
        condition: None,
        alarm_if_fail: false,
        n_retrys: 0,
        term_run_time: None,
        description: None,
        std_out_file: None,
        std_err_file: None,
        box_name: None,
        exclude_calendar: None,
        must_start_times: None,
        must_complete_times: None,
        fail_codes: None,
        max_exit_success: None,
        condition_code: None,
        box_success: None,
        box_failure: None,
        box_terminator: None,
        job_terminator: None,
        auto_hold: None,
        resources: None,
        warnings: Seq::empty(),
    }
}

/// The partial spec with no attribute set.
pub open spec fn empty_partial() -> PartialJobSpecV {
    PartialJobSpecV {
        command: None,
        machine: None,
        owner: None,
        days_of_week: None,
        start_times: None,
        condition: None,
        alarm_if_fail: None,
        n_retrys: None,
        term_run_time: None,
        description: None,
        std_out_file: None,
        std_err_file: None,
        box_name: None,
        exclude_calendar: None,
        must_start_times: None,
        must_complete_times: None,
        fail_codes: None,
        max_exit_success: None,
        condition_code: None,
        box_success: None,
        box_failure: None,
        box_terminator: None,
        job_terminator: None,
        auto_hold: None,
        resources: None,
        warnings: Seq::empty(),
    }
}

impl JobSpec {
    /// A spec for a job with all optional attributes unset.
    pub fn empty(name: &str, job_type: JilJobType) -> (s: Self)
        ensures
            s@ == empty_spec(name@, job_type),
    {
        let s = JobSpec {
            name: string_of_str(name),
            job_type,
            command: None,
            machine: None,
            owner: None,
            days_of_week: None,
            start_times: None,
            condition: None,
            alarm_if_fail: false,
            n_retrys: 0,
            term_run_time: None,
            description: None,
            std_out_file: None,
            std_err_file: None,
            box_name: None,
            exclude_calendar: None,
            must_start_times: None,
            must_complete_times: None,
            fail_codes: None,
            max_exit_success: None,
            condition_code: None,
            box_success: None,
            box_failure: None,
            box_terminator: None,
            job_terminator: None,
            auto_hold: None,
            resources: None,
            warnings: Vec::new(),
        };
        assert(texts(s.warnings@) =~= Seq::<Seq<char>>::empty());
        s
    }
}

impl PartialJobSpec {
    /// The partial spec with no attribute set.
    pub fn new() -> (s: Self)
        ensures
            s@ == empty_partial(),
    {
        let s = PartialJobSpec {
            command: None,
            machine: None,
            owner: None,
            days_of_week: None,
            start_times: None,
            condition: None,
            alarm_if_fail: None,
            n_retrys: None,
            term_run_time: None,
            description: None,
            std_out_file: None,
            std_err_file: None,
            box_name: None,
            exclude_calendar: None,
            must_start_times: None,
            must_complete_times: None,
            fail_codes: None,
            max_exit_success: None,
            condition_code: None,
            box_success: None,
            box_failure: None,
            box_terminator: None,
            job_terminator: None,
            auto_hold: None,
            resources: None,
            warnings: Vec::new(),
        };
        assert(texts(s.warnings@) =~= Seq::<Seq<char>>::empty());
        s
    }
}

impl Default for PartialJobSpec {
    fn default() -> (s: Self)
        ensures
            s@ == empty_partial(),
    {
        PartialJobSpec::new()
    }
}

} // verus!
