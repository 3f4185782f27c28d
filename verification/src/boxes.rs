//! Job boxes: Autosys-style grouping.

use vstd::prelude::*;
use crate::error::{CoreError, checked};
use crate::ids::BoxId;
use crate::resource::{display_name_error, validate_display_name};

verus! {

/// Aggregate state of a box.
#[derive(Debug, Clone, Copy, PartialEq, Eq, Structural)]
pub enum BoxState {
    /// All children succeeded.
    Success,
    /// Any child running.
    Running,
    /// Any child failed.
    Failed,
    /// All children pending / queued.
    Pending,
    /// Box paused.
    Paused,
}

/// Box = unit of grouped jobs.
#[derive(Debug, Clone, PartialEq, Eq)]
pub struct JobBox {
    /// Identifier.
    pub id: BoxId,
    /// Display name (unique).
    pub name: String,
    /// Optional parent box for nesting.
    pub parent: Option<BoxId>,
    /// Whether box (and all children) is paused.
    pub paused: bool,
    /// Optional condition expression evaluated against children: when true the box succeeds.
    /// If unset, default rule is "all children succeed". Autosys `box_success`.
    pub box_success_expr: Option<String>,
    /// Optional condition expression: when true the box fails. Autosys `box_failure`.
    pub box_failure_expr: Option<String>,
    /// If true, kill all running children when the box transitions to Failed. Autosys `box_terminator`.
    pub box_terminator: bool,
    /// If true, kill children when the *containing* box fails. Autosys `job_terminator`.
    pub job_terminator: bool,
    /// If true, children are auto-held when the box transitions to Running and released as it advances.
    /// Autosys `auto_hold`.
    pub auto_hold: bool,
}

impl JobBox {
    /// Validate: the name is not blank, at most 200 bytes, only `[A-Za-z0-9_.-]`.
    pub fn validate(&self) -> (r: Result<(), CoreError>)
        ensures
            checked(r, display_name_error(self.name@)),
    {
        validate_display_name(&self.name)
    }
}

} // verus!
