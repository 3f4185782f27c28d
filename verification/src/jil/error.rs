//! JIL parse errors.

use crate::conditions::expr::{dec, push_dec};
use crate::jil::model::{debug_quoted, debug_text};
use crate::text::{append_str, string_of_str};
use vstd::prelude::*;

verus! {

/// Error returned by [`crate::jil::parse::parse`].
#[derive(Debug, PartialEq)]
pub enum JilError {
    /// Input ended inside a block comment.
    UnterminatedComment,
    /// A verb token was present but unknown (the verb and its line number).
    UnknownVerb(String, usize),
    /// A required attribute is missing from an `insert_job` block.
    MissingAttribute(String, &'static str),
    /// `insert_job` has an unknown `job_type` (the type and the job name).
    UnknownJobType(String, String),
    /// An attribute value failed to parse (e.g. non-numeric n_retrys).
    BadValue {
        /// Attribute name.
        attr: String,
        /// Human-readable detail.
        detail: String,
    },
}

/// Model of a [`JilError`].
pub enum JilErrorV {
    UnterminatedComment,
    UnknownVerb(Seq<char>, int),
    MissingAttribute(Seq<char>, Seq<char>),
    UnknownJobType(Seq<char>, Seq<char>),
    BadValue { attr: Seq<char>, detail: Seq<char> },
}

impl View for JilError {
    type V = JilErrorV;

    open spec fn view(&self) -> JilErrorV {
        match self {
            JilError::UnterminatedComment => JilErrorV::UnterminatedComment,
            JilError::UnknownVerb(v, l) => JilErrorV::UnknownVerb(v@, *l as int),
            JilError::MissingAttribute(n, a) => JilErrorV::MissingAttribute(n@, a@),
            JilError::UnknownJobType(t, n) => JilErrorV::UnknownJobType(t@, n@),
            JilError::BadValue { attr, detail } => JilErrorV::BadValue {
                attr: attr@,
                detail: detail@,
            },
        }
    }
}

/// The message of each error, as it is displayed.
pub open spec fn jil_error_text(e: JilErrorV) -> Seq<char> {
    match e {
        JilErrorV::UnterminatedComment => "unterminated block comment"@,
        JilErrorV::UnknownVerb(v, line) => "unknown verb "@ + debug_text(v) + " at line "@ + dec(
            line as nat,
        ),
        JilErrorV::MissingAttribute(n, a) => "insert_job "@ + debug_text(n)
            + " is missing required attribute "@ + debug_text(a),
        JilErrorV::UnknownJobType(t, n) => "unknown job_type "@ + debug_text(t) + " in job "@
            + debug_text(n),
        JilErrorV::BadValue { attr, detail } => "bad value for "@ + debug_text(attr) + ": "@
            + detail,
    }
}

/// Appends the quoted form of `text`.
fn push_quoted(s: &mut String, text: &str)
    ensures
        final(s)@ == old(s)@ + debug_text(text@),
{
    let q = debug_quoted(text);
    append_str(s, q.as_str());
}

impl JilError {
    /// The error's message.
    pub fn message(&self) -> (r: String)
        ensures
            r@ == jil_error_text(self@),
    {
        match self {
            JilError::UnterminatedComment => string_of_str("unterminated block comment"),
            JilError::UnknownVerb(v, line) => {
                let mut s = string_of_str("unknown verb ");
                push_quoted(&mut s, v.as_str());
                append_str(&mut s, " at line ");
                push_dec(&mut s, *line as u64);
                s
            },
            JilError::MissingAttribute(n, a) => {
                let mut s = string_of_str("insert_job ");
                push_quoted(&mut s, n.as_str());
                append_str(&mut s, " is missing required attribute ");
                push_quoted(&mut s, a);
                s
            },
            JilError::UnknownJobType(t, n) => {
                let mut s = string_of_str("unknown job_type ");
                push_quoted(&mut s, t.as_str());
                append_str(&mut s, " in job ");
                push_quoted(&mut s, n.as_str());
                s
            },
            JilError::BadValue { attr, detail } => {
                let mut s = string_of_str("bad value for ");
                push_quoted(&mut s, attr.as_str());
                append_str(&mut s, ": ");
                append_str(&mut s, detail.as_str());
                s
            },
        }
    }
}

} // verus!
