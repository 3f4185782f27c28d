//! Virtual resources: named counters with fixed capacity.
//!
//! Jobs declare `ResourceClaim { resource_name, units }`. Before dispatch
//! the scheduler attempts to acquire every claim atomically; if any claim
//! exceeds remaining capacity the job is left queued. On run finish the
//! scheduler releases the holds.
//!
//! Resources are referenced by **name** in job resource claims so JIL and
//! the REST API are name-friendly; the store resolves names to ids.

use vstd::prelude::*;
use crate::error::{CoreError, CoreErrorV, checked};
use crate::ids::ResourceId;
use crate::text::{all_name_chars, blank, byte_len, is_blank, name_chars_ok, string_of_str};
use crate::time::Timestamp;

verus! {

/// A named virtual resource.
#[derive(Debug, Clone, PartialEq, Eq)]
pub struct Resource {
    /// Identifier.
    pub id: ResourceId,
    /// Display name (unique).
    pub name: String,
    /// Maximum units that can be held at once.
    pub capacity: u32,
    /// Optional human description.
    pub description: Option<String>,
    /// Created timestamp.
    pub created_at: Timestamp,
}

/// The error a display name raises, if any: not blank, at most 200 bytes,
/// only `[A-Za-z0-9_.-]`.
pub open spec fn display_name_error(name: Seq<char>) -> Option<CoreErrorV> {
    if blank(name) || byte_len(name) > 200 {
        Some(CoreErrorV::InvalidName(name, "len 1..=200"@))
    } else if !all_name_chars(name) {
        Some(CoreErrorV::InvalidName(name, "only [A-Za-z0-9_.-] allowed"@))
    } else {
        None
    }
}

/// Checks a display name as resources and boxes do.
pub fn validate_display_name(name: &String) -> (r: Result<(), CoreError>)
    ensures
        checked(r, display_name_error(name@)),
{
    if is_blank(name.as_str()) || name.as_str().len() > 200 {
        return Err(CoreError::InvalidName(name.clone(), "len 1..=200"));
    }
    if !name_chars_ok(name.as_str()) {
        return Err(CoreError::InvalidName(name.clone(), "only [A-Za-z0-9_.-] allowed"));
    }
    Ok(())
}

impl Resource {
    /// Validate.
    pub fn validate(&self) -> (r: Result<(), CoreError>)
        ensures
            checked(r, display_name_error(self.name@)),
    {
        validate_display_name(&self.name)
    }
}

/// A job's declared claim on a resource. Resolved by name at acquire time.
#[derive(Debug, Clone, PartialEq, Eq)]
pub struct ResourceClaim {
    /// Resource name (looked up in `resources.name`).
    pub resource_name: String,
    /// Units required to start (must be > 0).
    pub units: u32,
}

/// The error a claim raises, if any.
pub open spec fn claim_error(resource_name: Seq<char>, units: u32) -> Option<CoreErrorV> {
    if blank(resource_name) {
        Some(CoreErrorV::InvalidName(resource_name, "resource_name required"@))
    } else if units == 0 {
        Some(CoreErrorV::InvalidRetry("resource units must be > 0"@))
    } else {
        None
    }
}

impl ResourceClaim {
    /// Validate.
    pub fn validate(&self) -> (r: Result<(), CoreError>)
        ensures
            checked(r, claim_error(self.resource_name@, self.units)),
    {
        if is_blank(self.resource_name.as_str()) {
            return Err(CoreError::InvalidName(self.resource_name.clone(), "resource_name required"));
        }
        if self.units == 0 {
            return Err(CoreError::InvalidRetry("resource units must be > 0"));
        }
        Ok(())
    }
}

} // verus!
