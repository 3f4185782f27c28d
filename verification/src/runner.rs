//! What the dispatch loop decides while a run executes: which log chunks
//! are stored, which state a finished run ends in, and how a retry is set up.

use crate::ids::RunId;
use crate::job::Job;
use crate::policy::{outcome_of, ExitCodePolicy, RunOutcome};
use crate::run::{queued_with_parents, Run, RunState};
use vstd::prelude::*;

verus! {

/// Most log bytes stored per run: 100 MiB.
pub const LOG_CAP: u64 = 104857600;

/// Log bookkeeping of one run: bytes seen so far, the sequence number the
/// next stored chunk gets, and whether chunks have started being dropped.
#[derive(Debug, Clone, Copy, PartialEq, Eq, Structural)]
pub struct LogCapture {
    /// Bytes seen, stored or not.
    pub bytes: u64,
    /// Sequence number of the next stored chunk.
    pub seq: i64,
    /// Some chunk has been dropped for the cap.
    pub truncated: bool,
}

/// A chunk is stored when nothing was dropped before it and the log,
/// with it, stays within the cap.
pub open spec fn stores(c: LogCapture, len: u64) -> bool {
    !c.truncated && c.bytes + len <= LOG_CAP
}

/// State after a chunk of `len` bytes.
pub open spec fn after_chunk(c: LogCapture, len: u64) -> LogCapture {
    LogCapture {
        bytes: (c.bytes + len) as u64,
        seq: if stores(c, len) {
            (c.seq + 1) as i64
        } else {
            c.seq
        },
        truncated: !stores(c, len),
    }
}

impl LogCapture {
    /// Nothing seen yet.
    pub fn new() -> (r: Self)
        ensures
            r == (LogCapture { bytes: 0, seq: 0, truncated: false }),
    {
        LogCapture { bytes: 0, seq: 0, truncated: false }
    }

    /// Accounts for a chunk of `len` bytes; returns the sequence number to
    /// store it under, or `None` when it is dropped.
    pub fn on_chunk(&mut self, len: u64) -> (r: Option<i64>)
        requires
            old(self).bytes + len <= u64::MAX,
            old(self).seq < i64::MAX,
        ensures
            r == (if stores(*old(self), len) {
                Some(old(self).seq)
            } else {
                None
            }),
            *final(self) == after_chunk(*old(self), len),
    {
        let stored = !self.truncated && self.bytes + len <= LOG_CAP;
        let r = if stored {
            let s = self.seq;
            self.seq = self.seq + 1;
            Some(s)
        } else {
            self.truncated = true;
            None
        };
        self.bytes = self.bytes + len;
        r
    }
}

/// Bytes stored out of chunks of lengths `lens` fed to `c` in order.
pub open spec fn stored_bytes(c: LogCapture, lens: Seq<u64>) -> int
    decreases lens.len(),
{
    if lens.len() == 0 {
        0
    } else {
        (if stores(c, lens[0]) {
            lens[0] as int
        } else {
            0
        }) + stored_bytes(after_chunk(c, lens[0]), lens.drop_first())
    }
}

/// Total of `lens` fits in `u64` from `c.bytes` on.
pub open spec fn fits(c: LogCapture, lens: Seq<u64>) -> bool
    decreases lens.len(),
{
    lens.len() == 0 || (c.bytes + lens[0] <= u64::MAX && fits(after_chunk(c, lens[0]), lens.drop_first()))
}

/// The log cap: starting from a capture that has stored `c.bytes` bytes
/// within the cap, the chunks stored afterwards never take the log past
/// `LOG_CAP`.
pub proof fn lemma_log_cap(c: LogCapture, lens: Seq<u64>)
    requires
        !c.truncated ==> c.bytes <= LOG_CAP,
        fits(c, lens),
    ensures
        !c.truncated ==> c.bytes + stored_bytes(c, lens) <= LOG_CAP,
        c.truncated ==> stored_bytes(c, lens) == 0,
    decreases lens.len(),
{
    if lens.len() > 0 {
        lemma_log_cap(after_chunk(c, lens[0]), lens.drop_first());
    }
}

/// Once a chunk is dropped, every later chunk is dropped too.
pub proof fn lemma_truncation_sticks(c: LogCapture, len: u64)
    requires
        c.truncated,
    ensures
        !stores(c, len),
        after_chunk(c, len).truncated,
        after_chunk(c, len).seq == c.seq,
{
}

/// How a dispatched run came to an end.
#[derive(Debug, Clone, Copy, PartialEq, Eq, Structural)]
pub enum Completion {
    /// The process ended on its own or at its timeout.
    Exited {
        /// Killed at the job's timeout.
        timed_out: bool,
        /// Exit code (None if killed by a signal).
        exit_code: Option<i32>,
    },
    /// Killed on request.
    Killed,
    /// The task awaiting the process disappeared.
    Lost,
}

/// State a run ends in: a timeout or a missing exit code fails it, an exit
/// code is judged by the job's exit-code policy (conditional counts as
/// success), a requested kill leaves it killed, a lost task leaves it lost.
pub open spec fn finished_state(c: Completion, p: ExitCodePolicy) -> RunState {
    match c {
        Completion::Exited { timed_out, exit_code } => if timed_out {
            RunState::Failed
        } else {
            match exit_code {
                Some(code) => match outcome_of(
                    p.max_exit_success,
                    p.fail_codes@,
                    p.condition_code,
                    code,
                ) {
                    RunOutcome::Success | RunOutcome::Conditional => RunState::Success,
                    RunOutcome::Failure => RunState::Failed,
                },
                None => RunState::Failed,
            }
        },
        Completion::Killed => RunState::Killed,
        Completion::Lost => RunState::Lost,
    }
}

/// The state a finished run is recorded in.
pub fn final_state(c: Completion, policy: &ExitCodePolicy) -> (r: RunState)
    ensures
        r == finished_state(c, *policy),
{
    match c {
        Completion::Exited { timed_out, exit_code } => {
            if timed_out {
                RunState::Failed
            } else {
                match exit_code {
                    Some(code) => match policy.evaluate(code) {
                        RunOutcome::Success | RunOutcome::Conditional => RunState::Success,
                        RunOutcome::Failure => RunState::Failed,
                    },
                    None => RunState::Failed,
                }
            }
        },
        Completion::Killed => RunState::Killed,
        Completion::Lost => RunState::Lost,
    }
}

/// A finished run never ends up queued or running.
pub proof fn lemma_finished_is_terminal(c: Completion, p: ExitCodePolicy)
    ensures
        crate::run::terminal(finished_state(c, p)),
{
}

/// The next attempt of a job after run `prev`: queued, numbered
/// `next_attempt`, with `prev` as its only parent; it is dispatched after
/// `delay` seconds, the job's backoff for that attempt.
pub fn retry_run(job: &Job, prev: RunId, next_attempt: u32) -> (r: (u64, Run))
    ensures
        r.0 == crate::policy::delay_secs(job.retry.backoff, next_attempt),
        queued_with_parents(r.1, job.id, next_attempt, seq![prev]),
{
    let delay = job.retry.backoff.delay_for(next_attempt);
    let mut run = Run::new(job.id, next_attempt);
    let mut parents: Vec<RunId> = Vec::new();
    parents.push(prev);
    run.parent_run_ids = parents;
    (delay, run)
}

} // verus!
