//! Command-line client: the commands it accepts and the decisions it makes
//! before talking to the API (Autosys `sendevent` verbs, spec file formats,
//! which run a verb applies to, and how job states are labelled).

use crate::jil::model::{debug_quoted, debug_text};
use crate::ids::{ulid_value, JobId};
use crate::run::RunState;
use crate::text::{
    append_str, chars_vec, ends_with, opt_chars, range_eq_lit, starts_with, string_of, string_of_str, trim,
    trim_bounds, upper_seq, upper_string, vec_eq_lit,
};
use vstd::prelude::*;

verus! {

/// Default REST API base URL.
pub const DEFAULT_URL: &'static str = "http://localhost:8080";

/// Top-level command line: the API base URL and a subcommand.
#[derive(Debug, Clone, PartialEq, Eq)]
pub struct Cli {
    /// REST API base URL.
    pub url: String,
    /// Subcommand.
    pub cmd: Cmd,
}

/// Subcommands.
#[derive(Debug, Clone, PartialEq, Eq)]
pub enum Cmd {
    /// List all jobs (id + name + paused flag).
    List,
    /// Create a job from a YAML or JSON spec file.
    Apply {
        /// Spec file path.
        file: String,
    },
    /// Replace a job's mutable fields from a YAML/JSON file.
    Update {
        /// Job NAME or ULID.
        target: String,
        /// New spec file.
        file: String,
    },
    /// Show a job's full definition (JSON).
    Show {
        /// Job NAME or ULID.
        target: String,
    },
    /// Delete a job by NAME or ULID.
    Delete {
        /// Job NAME or ULID.
        target: String,
    },
    /// Trigger a job manually (Autosys-equivalent: sendevent STARTJOB).
    Trigger {
        /// Job NAME or ULID.
        target: String,
    },
    /// Pause a job (Autosys-equivalent: ON_HOLD).
    Pause {
        /// Job NAME or ULID.
        target: String,
    },
    /// Resume a paused job (Autosys-equivalent: OFF_HOLD).
    Resume {
        /// Job NAME or ULID.
        target: String,
    },
    /// List recent runs for a job (Autosys-equivalent: autorep -j NAME).
    Runs {
        /// Job NAME or ULID.
        target: String,
    },
    /// Autosys-style verb: sendevent NAME EVENT.
    Sendevent {
        /// Job NAME or ULID.
        target: String,
        /// Event name: STARTJOB / KILLJOB / ON_HOLD / OFF_HOLD / ...
        event: String,
    },
    /// Parse an Autosys JIL file and apply each block to the cluster.
    Jil {
        /// Path to the JIL file.
        file: String,
    },
    /// Autosys-compat `autorep`: `-J <name>` prints a job and its recent
    /// runs; `-A` lists all jobs.
    Autorep {
        /// Job to inspect.
        job: Option<String>,
        /// List all jobs.
        all: bool,
    },
    /// Manage Autosys-style global variables.
    Global {
        /// `list` / `set` / `delete` subcommand.
        cmd: GlobalCmd,
    },
}

/// Subcommands for `global`.
#[derive(Debug, Clone, PartialEq, Eq)]
pub enum GlobalCmd {
    /// List every global as `name=value`.
    List,
    /// Set a global value (creates or overwrites); the `set` subcommand.
    SetValue {
        /// Global variable name.
        name: String,
        /// Value to store (string).
        value: String,
    },
    /// Delete a global.
    Delete {
        /// Global variable name.
        name: String,
    },
}

/// What a `sendevent` verb asks for.
#[derive(Debug, Clone, PartialEq, Eq)]
pub enum SendEvent {
    /// Start the job now (`STARTJOB`, `START`, `FORCE_STARTJOB`).
    Start,
    /// Kill its running run (`KILLJOB`, `KILL`).
    Kill,
    /// Pause the job (`ON_HOLD`, `HOLD`, `OFF_ICE`).
    Hold,
    /// Resume the job (`OFF_HOLD`, `UNHOLD`, `ON_ICE`).
    Release,
    /// Set the state of its latest run (`CHANGE_STATUS=<state>`), with
    /// the state text as upper-cased.
    ChangeStatus(String),
    /// `SET_GLOBAL`, which has its own command.
    SetGlobal,
    /// `SEND_SIGNAL`, which is not supported.
    SendSignal,
    /// Anything else, upper-cased.
    Unknown(String),
}

/// Model of a [`SendEvent`].
pub enum SendEventV {
    Start,
    Kill,
    Hold,
    Release,
    ChangeStatus(Seq<char>),
    SetGlobal,
    SendSignal,
    Unknown(Seq<char>),
}

impl View for SendEvent {
    type V = SendEventV;

    open spec fn view(&self) -> SendEventV {
        match self {
            SendEvent::Start => SendEventV::Start,
            SendEvent::Kill => SendEventV::Kill,
            SendEvent::Hold => SendEventV::Hold,
            SendEvent::Release => SendEventV::Release,
            SendEvent::ChangeStatus(s) => SendEventV::ChangeStatus(s@),
            SendEvent::SetGlobal => SendEventV::SetGlobal,
            SendEvent::SendSignal => SendEventV::SendSignal,
            SendEvent::Unknown(s) => SendEventV::Unknown(s@),
        }
    }
}

/// The verb an event name asks for, matched on its ASCII upper-case form.
pub open spec fn event_of(event: Seq<char>) -> SendEventV {
    let u = upper_seq(event);
    if u == "STARTJOB"@ || u == "START"@ || u == "FORCE_STARTJOB"@ {
        SendEventV::Start
    } else if u == "KILLJOB"@ || u == "KILL"@ {
        SendEventV::Kill
    } else if u == "ON_HOLD"@ || u == "HOLD"@ || u == "OFF_ICE"@ {
        SendEventV::Hold
    } else if u == "OFF_HOLD"@ || u == "UNHOLD"@ || u == "ON_ICE"@ {
        SendEventV::Release
    } else if u == "SET_GLOBAL"@ {
        SendEventV::SetGlobal
    } else if starts_with(u, "CHANGE_STATUS="@) {
        SendEventV::ChangeStatus(u.subrange(14, u.len() as int))
    } else if u == "SEND_SIGNAL"@ || starts_with(u, "SEND_SIGNAL="@) {
        SendEventV::SendSignal
    } else {
        SendEventV::Unknown(u)
    }
}

/// Reads a `sendevent` verb.
pub fn classify_event(event: &str) -> (r: SendEvent)
    ensures
        r@ == event_of(event@),
{
    let up = upper_string(event);
    let v = chars_vec(up.as_str());
    let n = v.len();
    proof {
        reveal_strlit("CHANGE_STATUS=");
        reveal_strlit("SEND_SIGNAL=");
    }
    if vec_eq_lit(&v, "STARTJOB") || vec_eq_lit(&v, "START") || vec_eq_lit(&v, "FORCE_STARTJOB") {
        SendEvent::Start
    } else if vec_eq_lit(&v, "KILLJOB") || vec_eq_lit(&v, "KILL") {
        SendEvent::Kill
    } else if vec_eq_lit(&v, "ON_HOLD") || vec_eq_lit(&v, "HOLD") || vec_eq_lit(&v, "OFF_ICE") {
        SendEvent::Hold
    } else if vec_eq_lit(&v, "OFF_HOLD") || vec_eq_lit(&v, "UNHOLD") || vec_eq_lit(&v, "ON_ICE") {
        SendEvent::Release
    } else if vec_eq_lit(&v, "SET_GLOBAL") {
        SendEvent::SetGlobal
    } else if n >= 14 && range_eq_lit(&v, 0, 14, "CHANGE_STATUS=") {
        SendEvent::ChangeStatus(string_of(&v, 14, n))
    } else if vec_eq_lit(&v, "SEND_SIGNAL") || (n >= 12 && range_eq_lit(&v, 0, 12, "SEND_SIGNAL=")) {
        SendEvent::SendSignal
    } else {
        proof {
            if n >= 14 {
                assert(v@.subrange(0, 14) != "CHANGE_STATUS="@);
            }
            if n >= 12 {
                assert(v@.subrange(0, 12) != "SEND_SIGNAL="@);
            }
        }
        SendEvent::Unknown(up)
    }
}

/// The message a `sendevent` verb is refused with, if it is refused
/// before any request is made.
pub open spec fn event_refusal(e: SendEventV) -> Option<Seq<char>> {
    match e {
        SendEventV::SetGlobal => Some(
            "use `rusty-sched cli global set NAME VALUE` instead of `sendevent SET_GLOBAL`"@,
        ),
        SendEventV::SendSignal => Some(
            "SEND_SIGNAL is not yet supported; only KILLJOB (SIGKILL) is available"@,
        ),
        SendEventV::Unknown(other) => Some(
            "unknown event "@ + debug_text(other)
                + "; supported: STARTJOB, KILLJOB, ON_HOLD, OFF_HOLD, CHANGE_STATUS=<state>, SET_GLOBAL"@,
        ),
        _ => None,
    }
}

/// The message a `sendevent` verb is refused with, if any.
pub fn refusal_message(e: &SendEvent) -> (r: Option<String>)
    ensures
        match r {
            Some(m) => event_refusal(e@) == Some(m@),
            None => event_refusal(e@) is None,
        },
{
    match e {
        SendEvent::SetGlobal => Some(
            string_of_str(
                "use `rusty-sched cli global set NAME VALUE` instead of `sendevent SET_GLOBAL`",
            ),
        ),
        SendEvent::SendSignal => Some(
            string_of_str("SEND_SIGNAL is not yet supported; only KILLJOB (SIGKILL) is available"),
        ),
        SendEvent::Unknown(other) => {
            let mut m = string_of_str("unknown event ");
            let q = debug_quoted(other.as_str());
            append_str(&mut m, q.as_str());
            append_str(
                &mut m,
                "; supported: STARTJOB, KILLJOB, ON_HOLD, OFF_HOLD, CHANGE_STATUS=<state>, SET_GLOBAL",
            );
            Some(m)
        },
        _ => None,
    }
}

/// Message when `KILLJOB` finds no running run of a job.
pub fn no_running_run_message(target: &str) -> (r: String)
    ensures
        r@ == "no running run found for job "@ + target@,
{
    let mut m = string_of_str("no running run found for job ");
    append_str(&mut m, target);
    m
}

/// Message when `CHANGE_STATUS` finds no run of a job.
pub fn no_runs_message(target: &str) -> (r: String)
    ensures
        r@ == "no runs found for job "@ + target@,
{
    let mut m = string_of_str("no runs found for job ");
    append_str(&mut m, target);
    m
}

/// Index of the first running run in a most-recent-first list, which
/// `KILLJOB` kills.
pub fn first_running(states: &Vec<RunState>) -> (r: Option<usize>)
    ensures
        match r {
            Some(i) => i < states@.len() && states@[i as int] == RunState::Running && forall|j: int|
                0 <= j < i ==> states@[j] != RunState::Running,
            None => forall|j: int| 0 <= j < states@.len() ==> states@[j] != RunState::Running,
        },
{
    let mut i: usize = 0;
    while i < states.len()
        invariant
            i <= states@.len(),
            forall|j: int| 0 <= j < i ==> states@[j] != RunState::Running,
        decreases states.len() - i,
    {
        if states[i] == RunState::Running {
            return Some(i);
        }
        i = i + 1;
    }
    None
}

/// Format of a job spec file.
#[derive(Debug, Clone, Copy, PartialEq, Eq, Structural)]
pub enum SpecFormat {
    /// A `.json` file.
    Json,
    /// Anything else is read as YAML.
    Yaml,
}

/// The format a spec file is read in: JSON for a path ending in `.json`,
/// YAML otherwise.
pub fn spec_format(path: &str) -> (r: SpecFormat)
    ensures
        r == (if ends_with(path@, ".json"@) {
            SpecFormat::Json
        } else {
            SpecFormat::Yaml
        }),
{
    let v = chars_vec(path);
    let n = v.len();
    proof {
        reveal_strlit(".json");
    }
    if n >= 5 && range_eq_lit(&v, n - 5, n, ".json") {
        SpecFormat::Json
    } else {
        SpecFormat::Yaml
    }
}

/// Whether `autorep` lists every job: with `-A`, or without `-J`.
pub fn autorep_lists_all(job: &Option<String>, all: bool) -> (r: bool)
    ensures
        r == (all || job is None),
{
    all || job.is_none()
}

/// State column of `list`.
pub fn list_state_label(paused: bool) -> (r: &'static str)
    ensures
        r@ == (if paused {
            "paused"@
        } else {
            "active"@
        }),
{
    if paused {
        "paused"
    } else {
        "active"
    }
}

/// State column of `autorep`.
pub fn autorep_state_label(paused: bool) -> (r: &'static str)
    ensures
        r@ == (if paused {
            "ON_HOLD"@
        } else {
            "active"@
        }),
{
    if paused {
        "ON_HOLD"
    } else {
        "active"
    }
}

/// HTTP method of an API call.
#[derive(Debug, Clone, Copy, PartialEq, Eq, Structural)]
pub enum HttpMethod {
    /// `GET`.
    Get,
    /// `POST`.
    Post,
    /// `PUT`.
    Put,
    /// `DELETE`.
    Delete,
}

/// A REST call the client makes; ids and names are as given.
#[derive(Debug, Clone, PartialEq, Eq)]
pub enum ApiCall {
    /// List all jobs.
    ListJobs,
    /// Create a job.
    CreateJob,
    /// Replace a job.
    UpdateJob(String),
    /// Fetch a job by id.
    GetJob(String),
    /// Fetch a job by name.
    GetJobByName(String),
    /// Delete a job.
    DeleteJob(String),
    /// Trigger a job now.
    Trigger(String),
    /// Pause a job.
    Pause(String),
    /// Resume a job.
    Resume(String),
    /// Kill a live run.
    KillRun(String),
    /// Recent runs of a job.
    RunsFor(String),
    /// Set a global variable.
    SetGlobal,
    /// List global variables.
    ListGlobals,
    /// Change a run's state.
    ChangeRunState(String),
    /// Delete a global variable.
    DeleteGlobal(String),
}

/// Method and path (after the base URL) of each call.
pub open spec fn call_route(c: ApiCall) -> (HttpMethod, Seq<char>) {
    match c {
        ApiCall::ListJobs => (HttpMethod::Get, "/api/v1/jobs"@),
        ApiCall::CreateJob => (HttpMethod::Post, "/api/v1/jobs"@),
        ApiCall::UpdateJob(id) => (HttpMethod::Put, "/api/v1/jobs/"@ + id@),
        ApiCall::GetJob(id) => (HttpMethod::Get, "/api/v1/jobs/"@ + id@),
        ApiCall::GetJobByName(n) => (HttpMethod::Get, "/api/v1/jobs/by-name/"@ + n@),
        ApiCall::DeleteJob(id) => (HttpMethod::Delete, "/api/v1/jobs/"@ + id@),
        ApiCall::Trigger(id) => (HttpMethod::Post, "/api/v1/jobs/"@ + id@ + "/trigger"@),
        ApiCall::Pause(id) => (HttpMethod::Post, "/api/v1/jobs/"@ + id@ + "/pause"@),
        ApiCall::Resume(id) => (HttpMethod::Post, "/api/v1/jobs/"@ + id@ + "/resume"@),
        ApiCall::KillRun(id) => (HttpMethod::Delete, "/api/v1/runs/"@ + id@),
        ApiCall::RunsFor(id) => (HttpMethod::Get, "/api/v1/jobs/"@ + id@ + "/runs"@),
        ApiCall::SetGlobal => (HttpMethod::Post, "/api/v1/globals"@),
        ApiCall::ListGlobals => (HttpMethod::Get, "/api/v1/globals"@),
        ApiCall::ChangeRunState(id) => (HttpMethod::Post, "/api/v1/runs/"@ + id@ + "/state"@),
        ApiCall::DeleteGlobal(n) => (HttpMethod::Delete, "/api/v1/globals/"@ + n@),
    }
}

/// `lead` then `id` then `tail`.
fn path_with(lead: &str, id: &String, tail: &str) -> (r: String)
    ensures
        r@ == lead@ + id@ + tail@,
{
    let mut s = string_of_str(lead);
    append_str(&mut s, id.as_str());
    append_str(&mut s, tail);
    s
}

/// Method and full URL of a call against the API at `base`.
pub fn request_for(base: &str, call: &ApiCall) -> (r: (HttpMethod, String))
    ensures
        r.0 == call_route(*call).0,
        r.1@ == base@ + call_route(*call).1,
{
    let (m, path) = match call {
        ApiCall::ListJobs => (HttpMethod::Get, string_of_str("/api/v1/jobs")),
        ApiCall::CreateJob => (HttpMethod::Post, string_of_str("/api/v1/jobs")),
        ApiCall::UpdateJob(id) => (HttpMethod::Put, path_with("/api/v1/jobs/", id, "")),
        ApiCall::GetJob(id) => (HttpMethod::Get, path_with("/api/v1/jobs/", id, "")),
        ApiCall::GetJobByName(n) => (HttpMethod::Get, path_with("/api/v1/jobs/by-name/", n, "")),
        ApiCall::DeleteJob(id) => (HttpMethod::Delete, path_with("/api/v1/jobs/", id, "")),
        ApiCall::Trigger(id) => (HttpMethod::Post, path_with("/api/v1/jobs/", id, "/trigger")),
        ApiCall::Pause(id) => (HttpMethod::Post, path_with("/api/v1/jobs/", id, "/pause")),
        ApiCall::Resume(id) => (HttpMethod::Post, path_with("/api/v1/jobs/", id, "/resume")),
        ApiCall::KillRun(id) => (HttpMethod::Delete, path_with("/api/v1/runs/", id, "")),
        ApiCall::RunsFor(id) => (HttpMethod::Get, path_with("/api/v1/jobs/", id, "/runs")),
        ApiCall::SetGlobal => (HttpMethod::Post, string_of_str("/api/v1/globals")),
        ApiCall::ListGlobals => (HttpMethod::Get, string_of_str("/api/v1/globals")),
        ApiCall::ChangeRunState(id) => (HttpMethod::Post, path_with("/api/v1/runs/", id, "/state")),
        ApiCall::DeleteGlobal(n) => (HttpMethod::Delete, path_with("/api/v1/globals/", n, "")),
    };
    proof {
        reveal_strlit("");
    }
    let mut url = string_of_str(base);
    append_str(&mut url, path.as_str());
    (m, url)
}

/// Method and path of the one call a `sendevent` verb makes on the job `id`
/// its target resolved to: start triggers the job, hold pauses it, release
/// resumes it. The other verbs make no call on the job itself (kill and
/// status changes act on one of its runs; the rest are refused).
pub open spec fn event_route(e: SendEventV, id: Seq<char>) -> Option<(HttpMethod, Seq<char>)> {
    match e {
        SendEventV::Start => Some((HttpMethod::Post, "/api/v1/jobs/"@ + id + "/trigger"@)),
        SendEventV::Hold => Some((HttpMethod::Post, "/api/v1/jobs/"@ + id + "/pause"@)),
        SendEventV::Release => Some((HttpMethod::Post, "/api/v1/jobs/"@ + id + "/resume"@)),
        _ => None,
    }
}

/// The call a `sendevent` verb makes on the job `id`, if it makes one.
pub fn event_call(e: &SendEvent, id: &str) -> (r: Option<ApiCall>)
    ensures
        match r {
            Some(c) => event_route(e@, id@) == Some(call_route(c)),
            None => event_route(e@, id@) is None,
        },
{
    match e {
        SendEvent::Start => Some(ApiCall::Trigger(string_of_str(id))),
        SendEvent::Hold => Some(ApiCall::Pause(string_of_str(id))),
        SendEvent::Release => Some(ApiCall::Resume(string_of_str(id))),
        _ => None,
    }
}

/// How `sendevent` routes an event name (matched on its upper-case form) for
/// a target resolved to the job `id`: `STARTJOB`, `START` and
/// `FORCE_STARTJOB` make one `POST` to the job's `/trigger`; `ON_HOLD` and
/// `HOLD` one to its `/pause`; `OFF_HOLD` and `UNHOLD` one to its `/resume`.
/// `KILLJOB` is not refused and makes no call on the job itself; a name that
/// is no verb is refused before any call.
pub proof fn lemma_sendevent_routes(event: Seq<char>, id: Seq<char>)
    ensures
        ({
            let u = upper_seq(event);
            u == "STARTJOB"@ || u == "START"@ || u == "FORCE_STARTJOB"@
        }) ==> event_refusal(event_of(event)) is None && event_route(event_of(event), id) == Some(
            (HttpMethod::Post, "/api/v1/jobs/"@ + id + "/trigger"@),
        ),
        ({
            let u = upper_seq(event);
            u == "ON_HOLD"@ || u == "HOLD"@
        }) ==> event_refusal(event_of(event)) is None && event_route(event_of(event), id) == Some(
            (HttpMethod::Post, "/api/v1/jobs/"@ + id + "/pause"@),
        ),
        ({
            let u = upper_seq(event);
            u == "OFF_HOLD"@ || u == "UNHOLD"@
        }) ==> event_refusal(event_of(event)) is None && event_route(event_of(event), id) == Some(
            (HttpMethod::Post, "/api/v1/jobs/"@ + id + "/resume"@),
        ),
        upper_seq(event) == "KILLJOB"@ ==> event_refusal(event_of(event)) is None && event_route(
            event_of(event),
            id,
        ) is None,
        event_of(event) is Unknown ==> event_refusal(event_of(event)) is Some && event_route(
            event_of(event),
            id,
        ) is None,
{
    reveal_strlit("STARTJOB");
    reveal_strlit("START");
    reveal_strlit("FORCE_STARTJOB");
    reveal_strlit("KILLJOB");
    reveal_strlit("KILL");
    reveal_strlit("ON_HOLD");
    reveal_strlit("HOLD");
    reveal_strlit("OFF_ICE");
    reveal_strlit("OFF_HOLD");
    reveal_strlit("UNHOLD");
    reveal_strlit("ON_ICE");
    // Verbs of different groups differ in their first letter, except the
    // `O` verbs, which differ in their second or fifth.
    assert("ON_HOLD"@[0] != "KILLJOB"@[0]);
    assert("HOLD"@[0] != "KILL"@[0]);
    assert("OFF_HOLD"@[0] != "STARTJOB"@[0]);
    assert("OFF_HOLD"@[1] != "ON_HOLD"@[1]);
    assert("OFF_HOLD"@[4] != "OFF_ICE"@[4]);
    assert("UNHOLD"@[0] != "START"@[0]);
    assert("UNHOLD"@[0] != "FORCE_STARTJOB"@[0]);
}

/// The `Authorization` header sent for a token setting: `Bearer <token>`
/// with the token trimmed, unless it is blank or unset.
pub open spec fn auth_header_of(token: Option<Seq<char>>) -> Option<Seq<char>> {
    match token {
        Some(t) => if trim(t).len() == 0 {
            None
        } else {
            Some("Bearer "@ + trim(t))
        },
        None => None,
    }
}

/// The `Authorization` header for the `RSCHED_TOKEN` setting, if one is sent.
pub fn auth_header(token: Option<&str>) -> (r: Option<String>)
    ensures
        match r {
            Some(h) => auth_header_of(opt_chars(token)) == Some(h@),
            None => auth_header_of(opt_chars(token)) is None,
        },
{
    match token {
        None => None,
        Some(t) => {
            let v = chars_vec(t);
            let (a, b) = trim_bounds(&v, 0, v.len());
            assert(v@.subrange(0, v@.len() as int) =~= t@);
            if a == b {
                return None;
            }
            let trimmed = string_of(&v, a, b);
            let mut h = string_of_str("Bearer ");
            append_str(&mut h, trimmed.as_str());
            Some(h)
        },
    }
}

/// A `NAME_OR_ID` argument that reads as a ULID is used as the job id
/// directly; anything else is looked up by name.
pub fn is_job_id(name_or_id: &str) -> (r: bool)
    ensures
        r == (ulid_value(name_or_id@) is Some),
{
    JobId::parse_text(name_or_id).is_ok()
}

} // verus!
