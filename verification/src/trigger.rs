//! Trigger types: what causes a job to run.

use vstd::prelude::*;
use crate::error::{CoreError, CoreErrorV, checked};
use crate::ids::JobId;
use crate::text::{blank, byte_len, is_blank, str_eq_lit, string_of_str};
use crate::time::Timestamp;

verus! {

/// Kind of trigger (used for fast filtering before deserializing).
#[derive(Debug, Clone, Copy, PartialEq, Eq, Structural)]
pub enum TriggerKind {
    /// Cron expression.
    Cron,
    /// Fixed interval between fires.
    Interval,
    /// Single fire at a wall-clock timestamp.
    OneShot,
    /// Fires when an upstream dependency completes.
    Dep,
    /// Fires on filesystem event.
    File,
    /// Fires when an HTTP webhook is POSTed.
    Webhook,
    /// Only triggered manually via API/CLI/UI.
    Manual,
}

/// Full trigger payload.
#[derive(Debug, Clone, PartialEq, Eq)]
pub enum Trigger {
    /// Cron expression in 5- or 6-field form, with an IANA timezone name
    /// (UTC if absent).
    Cron {
        /// The cron expression.
        expr: String,
        /// IANA timezone name; UTC if absent.
        timezone: Option<String>,
    },
    /// Fixed interval.
    Interval {
        /// Period between fires, in seconds.
        every: u64,
        /// Optional first-fire time (else: now + every).
        start_at: Option<Timestamp>,
    },
    /// One-shot at a specific time.
    OneShot {
        /// When to fire.
        at: Timestamp,
    },
    /// Fires when upstream deps satisfied (resolved by scheduler).
    Dep {
        /// Upstream job IDs.
        on: Vec<JobId>,
    },
    /// Filesystem watcher.
    File {
        /// Path to watch.
        path: String,
        /// Event mask: "create"|"modify"|"delete"|"any".
        event: String,
    },
    /// HTTP webhook receiver.
    Webhook {
        /// Random opaque path segment.
        slug: String,
        /// HMAC secret (sent as `X-Sig` header).
        secret: String,
    },
    /// Manual-only trigger.
    Manual,
}

/// Whether `chrono_tz` knows the timezone `name`. It looks the exact name
/// up in its table of IANA zones.
pub uninterp spec fn tz_name_known(name: Seq<char>) -> bool;

/// `name.parse::<chrono_tz::Tz>().is_ok()`: the result depends on the name alone.
#[verifier::external_body]
fn timezone_known(name: &str) -> (r: bool)
    ensures
        r == tz_name_known(name@),
{
    name.parse::<chrono_tz::Tz>().is_ok()
}

/// The discriminant of a trigger.
pub open spec fn trigger_kind(t: Trigger) -> TriggerKind {
    match t {
        Trigger::Cron { .. } => TriggerKind::Cron,
        Trigger::Interval { .. } => TriggerKind::Interval,
        Trigger::OneShot { .. } => TriggerKind::OneShot,
        Trigger::Dep { .. } => TriggerKind::Dep,
        Trigger::File { .. } => TriggerKind::File,
        Trigger::Webhook { .. } => TriggerKind::Webhook,
        Trigger::Manual => TriggerKind::Manual,
    }
}

/// File events a file trigger may watch.
pub open spec fn file_event_known(e: Seq<char>) -> bool {
    e == "create"@ || e == "modify"@ || e == "delete"@ || e == "any"@
}

/// The error an ill-shaped trigger raises, if any.
pub open spec fn trigger_error(t: Trigger) -> Option<CoreErrorV> {
    match t {
        Trigger::Cron { expr, timezone } => if blank(expr@) {
            Some(CoreErrorV::InvalidCron(expr@, "empty expression"@))
        } else if timezone is Some && !tz_name_known(timezone->0@) {
            Some(CoreErrorV::UnknownTimezone(timezone->0@))
        } else {
            None
        },
        Trigger::Interval { every, .. } => if every == 0 {
            Some(CoreErrorV::InvalidRetry("interval cannot be zero"@))
        } else {
            None
        },
        Trigger::File { path, event } => if path@.len() == 0 {
            Some(CoreErrorV::InvalidCalendar("file trigger needs path"@))
        } else if !file_event_known(event@) {
            Some(CoreErrorV::InvalidCalendar("unknown file event"@))
        } else {
            None
        },
        Trigger::Webhook { slug, secret } => if byte_len(slug@) < 8 || byte_len(secret@) < 16 {
            Some(CoreErrorV::InvalidCalendar("webhook slug<8 or secret<16 chars"@))
        } else {
            None
        },
        _ => None,
    }
}

impl Trigger {
    /// Return the discriminant kind.
    pub fn kind(&self) -> (k: TriggerKind)
        ensures
            k == trigger_kind(*self),
    {
        match self {
            Trigger::Cron { .. } => TriggerKind::Cron,
            Trigger::Interval { .. } => TriggerKind::Interval,
            Trigger::OneShot { .. } => TriggerKind::OneShot,
            Trigger::Dep { .. } => TriggerKind::Dep,
            Trigger::File { .. } => TriggerKind::File,
            Trigger::Webhook { .. } => TriggerKind::Webhook,
            Trigger::Manual => TriggerKind::Manual,
        }
    }

    /// Validate the shape of the trigger.
    pub fn validate(&self) -> (r: Result<(), CoreError>)
        ensures
            checked(r, trigger_error(*self)),
    {
        match self {
            Trigger::Cron { expr, timezone } => {
                if is_blank(expr.as_str()) {
                    return Err(CoreError::InvalidCron(expr.clone(), string_of_str("empty expression")));
                }
                if let Some(tz) = timezone {
                    if !timezone_known(tz.as_str()) {
                        return Err(CoreError::UnknownTimezone(tz.clone()));
                    }
                }
                Ok(())
            },
            Trigger::Interval { every, .. } => {
                if *every == 0 {
                    return Err(CoreError::InvalidRetry("interval cannot be zero"));
                }
                Ok(())
            },
            Trigger::File { path, event } => {
                if path.as_str().is_empty() {
                    return Err(CoreError::InvalidCalendar("file trigger needs path"));
                }
                let e = event.as_str();
                if !(str_eq_lit(e, "create") || str_eq_lit(e, "modify") || str_eq_lit(e, "delete")
                    || str_eq_lit(e, "any")) {
                    return Err(CoreError::InvalidCalendar("unknown file event"));
                }
                Ok(())
            },
            Trigger::Webhook { slug, secret } => {
                if slug.as_str().len() < 8 || secret.as_str().len() < 16 {
                    return Err(CoreError::InvalidCalendar("webhook slug<8 or secret<16 chars"));
                }
                Ok(())
            },
            _ => Ok(()),
        }
    }
}

} // verus!
