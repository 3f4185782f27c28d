//! Run states.

use crate::ids::{AgentId, JobId, RunId};
use crate::time::{now, Timestamp};
use vstd::prelude::*;

verus! {

/// State machine for a run.
#[derive(Debug, Clone, Copy, PartialEq, Eq, Hash, Structural)]
pub enum RunState {
    /// Created, awaiting dispatch.
    Queued,
    /// Sent to agent, running.
    Running,
    /// Exited 0.
    Success,
    /// Exited non-zero or killed.
    Failed,
    /// Manually killed.
    Killed,
    /// Calendar/dep skipped without running.
    Skipped,
    /// Agent disappeared mid-run.
    Lost,
}

/// States a run never leaves.
pub open spec fn terminal(s: RunState) -> bool {
    !(s is Queued || s is Running)
}

impl RunState {
    /// True if this is a terminal state (won't change).
    pub fn is_terminal(self) -> (r: bool)
        ensures
            r == terminal(self),
    {
        match self {
            RunState::Success | RunState::Failed | RunState::Killed | RunState::Skipped
            | RunState::Lost => true,
            RunState::Queued | RunState::Running => false,
        }
    }
}

/// A single attempt to run a job.
#[derive(Debug, Clone, PartialEq, Eq)]
pub struct Run {
    /// Identifier.
    pub id: RunId,
    /// Job this is an attempt of.
    pub job_id: JobId,
    /// Agent that ran it (None until dispatched).
    pub agent_id: Option<AgentId>,
    /// Current state.
    pub state: RunState,
    /// Attempt number (1-based).
    pub attempt: u32,
    /// When it was queued.
    pub queued_at: Timestamp,
    /// When the agent started executing.
    pub started_at: Option<Timestamp>,
    /// When the run finished.
    pub finished_at: Option<Timestamp>,
    /// Exit code, if any.
    pub exit_code: Option<i32>,
    /// For dep-triggered runs, the upstream run IDs that satisfied it.
    pub parent_run_ids: Vec<RunId>,
    /// Whether log was truncated for size.
    pub log_truncated: bool,
    /// Bytes of log captured.
    pub log_bytes: u64,
    /// Peak resident set size (bytes) reported at exit. Unix only.
    pub peak_rss_bytes: Option<u64>,
    /// User-mode CPU time at exit, in microseconds. Unix only.
    pub cpu_user_micros: Option<u64>,
    /// Kernel-mode CPU time at exit, in microseconds. Unix only.
    pub cpu_sys_micros: Option<u64>,
}

/// A run that has just been queued with the given parent runs: nothing
/// about its execution is known yet.
pub open spec fn queued_with_parents(r: Run, job_id: JobId, attempt: u32, parents: Seq<RunId>) -> bool {
    &&& r.job_id == job_id
    &&& r.attempt == attempt
    &&& r.state == RunState::Queued
    &&& r.agent_id is None
    &&& r.queued_at.wf()
    &&& r.started_at is None
    &&& r.finished_at is None
    &&& r.exit_code is None
    &&& r.parent_run_ids@ == parents
    &&& !r.log_truncated
    &&& r.log_bytes == 0
    &&& r.peak_rss_bytes is None
    &&& r.cpu_user_micros is None
    &&& r.cpu_sys_micros is None
}

/// A run that has just been queued, with no parent runs.
pub open spec fn queued_run(r: Run, job_id: JobId, attempt: u32) -> bool {
    queued_with_parents(r, job_id, attempt, Seq::empty())
}

impl Run {
    /// Make a new queued run, with a fresh id, queued now.
    pub fn new(job_id: JobId, attempt: u32) -> (r: Self)
        ensures
            queued_run(r, job_id, attempt),
    {
        Run {
            id: RunId::new(),
            job_id,
            agent_id: None,
            state: RunState::Queued,
            attempt,
            queued_at: now(),
            started_at: None,
            finished_at: None,
            exit_code: None,
            parent_run_ids: Vec::new(),
            log_truncated: false,
            log_bytes: 0,
            peak_rss_bytes: None,
            cpu_user_micros: None,
            cpu_sys_micros: None,
        }
    }
}

} // verus!
