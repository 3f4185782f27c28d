//! Errors raised by domain value construction and validation.

use crate::jil::model::{debug_quoted, debug_text};
use crate::text::{append_str, string_of_str};
use vstd::prelude::*;

verus! {

/// Errors for invalid domain values.
#[derive(Debug, PartialEq, Eq)]
pub enum CoreError {
    /// A name violated the allowed character set / length rules.
    InvalidName(String, &'static str),
    /// A cron expression failed to parse.
    InvalidCron(String, String),
    /// A timezone string was not recognized.
    UnknownTimezone(String),
    /// A retry policy had nonsensical values.
    InvalidRetry(&'static str),
    /// A calendar rule was malformed.
    InvalidCalendar(&'static str),
}

/// Model of a [`CoreError`]: its variant and texts.
pub enum CoreErrorV {
    /// A name violated the allowed character set / length rules.
    InvalidName(Seq<char>, Seq<char>),
    /// A cron expression failed to parse.
    InvalidCron(Seq<char>, Seq<char>),
    /// A timezone string was not recognized.
    UnknownTimezone(Seq<char>),
    /// A retry policy had nonsensical values.
    InvalidRetry(Seq<char>),
    /// A calendar rule was malformed.
    InvalidCalendar(Seq<char>),
}

impl View for CoreError {
    type V = CoreErrorV;

    open spec fn view(&self) -> CoreErrorV {
        match self {
            CoreError::InvalidName(n, m) => CoreErrorV::InvalidName(n@, m@),
            CoreError::InvalidCron(e, m) => CoreErrorV::InvalidCron(e@, m@),
            CoreError::UnknownTimezone(t) => CoreErrorV::UnknownTimezone(t@),
            CoreError::InvalidRetry(m) => CoreErrorV::InvalidRetry(m@),
            CoreError::InvalidCalendar(m) => CoreErrorV::InvalidCalendar(m@),
        }
    }
}

/// `r` is `Ok` exactly when `e` is `None`, and otherwise the error `e` names.
pub open spec fn checked(r: Result<(), CoreError>, e: Option<CoreErrorV>) -> bool {
    match e {
        None => r is Ok,
        Some(ev) => r is Err && r->Err_0@ == ev,
    }
}

/// The message of each error, as it is displayed.
pub open spec fn core_error_text(e: CoreErrorV) -> Seq<char> {
    match e {
        CoreErrorV::InvalidName(n, m) => "invalid name "@ + debug_text(n) + ": "@ + m,
        CoreErrorV::InvalidCron(x, m) => "invalid cron expression "@ + debug_text(x) + ": "@ + m,
        CoreErrorV::UnknownTimezone(t) => "unknown timezone "@ + debug_text(t),
        CoreErrorV::InvalidRetry(m) => "invalid retry policy: "@ + m,
        CoreErrorV::InvalidCalendar(m) => "invalid calendar rule: "@ + m,
    }
}

/// `lead`, the quoted `text`, then `tail`.
fn quoted_between(lead: &str, text: &str, tail: &str) -> (r: String)
    ensures
        r@ == lead@ + debug_text(text@) + tail@,
{
    let mut s = string_of_str(lead);
    let q = debug_quoted(text);
    append_str(&mut s, q.as_str());
    append_str(&mut s, tail);
    s
}

impl CoreError {
    /// The error's message.
    pub fn message(&self) -> (r: String)
        ensures
            r@ == core_error_text(self@),
    {
        match self {
            CoreError::InvalidName(n, m) => {
                let mut s = quoted_between("invalid name ", n.as_str(), ": ");
                append_str(&mut s, m);
                s
            },
            CoreError::InvalidCron(x, m) => {
                let mut s = quoted_between("invalid cron expression ", x.as_str(), ": ");
                append_str(&mut s, m.as_str());
                s
            },
            CoreError::UnknownTimezone(t) => {
                proof {
                    reveal_strlit("");
                }
                quoted_between("unknown timezone ", t.as_str(), "")
            },
            CoreError::InvalidRetry(m) => {
                let mut s = string_of_str("invalid retry policy: ");
                append_str(&mut s, m);
                s
            },
            CoreError::InvalidCalendar(m) => {
                let mut s = string_of_str("invalid calendar rule: ");
                append_str(&mut s, m);
                s
            },
        }
    }
}

} // verus!
