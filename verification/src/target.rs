//! Where a job should run.

use vstd::prelude::*;
use crate::ids::AgentId;

verus! {

/// Target discriminant.
#[derive(Debug, Clone, Copy, PartialEq, Eq, Structural)]
pub enum TargetKind {
    /// Specific agent id.
    Specific,
    /// Any agent whose tag set contains the listed tag.
    Tag,
    /// Any healthy agent.
    Any,
}

/// Tagged target spec.
#[derive(Debug, Clone, PartialEq, Eq)]
pub enum Target {
    /// Run on a specific agent.
    Specific {
        /// Agent id.
        agent_id: AgentId,
    },
    /// Run on any agent matching tag.
    Tag {
        /// Tag string.
        tag: String,
    },
    /// Run on any healthy agent.
    Any,
}

/// The discriminant of a target.
pub open spec fn target_kind(t: Target) -> TargetKind {
    match t {
        Target::Specific { .. } => TargetKind::Specific,
        Target::Tag { .. } => TargetKind::Tag,
        Target::Any => TargetKind::Any,
    }
}

impl Target {
    /// Return the discriminant kind.
    pub fn kind(&self) -> (k: TargetKind)
        ensures
            k == target_kind(*self),
    {
        match self {
            Target::Specific { .. } => TargetKind::Specific,
            Target::Tag { .. } => TargetKind::Tag,
            Target::Any => TargetKind::Any,
        }
    }
}

} // verus!
