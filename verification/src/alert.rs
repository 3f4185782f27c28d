//! Alert contents: the payload sent for a run, the texts each channel
//! delivers, which delivery each configured channel gets, and the SMTP
//! settings read from the environment.

use crate::conditions::expr::{dec, int_text, push_dec, push_int};
use crate::ids::{ulid_text, JobId, RunId};
use crate::policy::{AlertChannel, AlertEvent};
use crate::run::RunState;
use crate::text::{append_str, chars_vec, parse_unsigned, parse_unsigned_range, string_of_str};
use crate::time::Timestamp;
use vstd::prelude::*;

verus! {

/// Payload sent on every alert.
#[derive(Debug, Clone, PartialEq, Eq)]
pub struct AlertPayload {
    /// Event that triggered the alert.
    pub event: AlertEvent,
    /// Job id (ULID).
    pub job_id: JobId,
    /// Job name (human-friendly).
    pub job_name: String,
    /// Run id (ULID).
    pub run_id: RunId,
    /// Final or current run state.
    pub state: RunState,
    /// Exit code, if any.
    pub exit_code: Option<i32>,
    /// Attempt number.
    pub attempt: u32,
    /// When the run started.
    pub started_at: Option<Timestamp>,
    /// When the run finished (None if still running).
    pub finished_at: Option<Timestamp>,
    /// Human-readable host (server hostname or "scheduler").
    pub host: String,
    /// Optional free-form message (e.g. "SLA exceeded 30m").
    pub message: Option<String>,
}

/// `{:?}` of an alert event: its variant name.
pub open spec fn event_name(e: AlertEvent) -> Seq<char> {
    match e {
        AlertEvent::OnFailure => "OnFailure"@,
        AlertEvent::OnSuccess => "OnSuccess"@,
        AlertEvent::OnSlaMiss => "OnSlaMiss"@,
        AlertEvent::OnLateStart => "OnLateStart"@,
        AlertEvent::OnLost => "OnLost"@,
    }
}

/// `{:?}` of a run state: its variant name.
pub open spec fn state_name(s: RunState) -> Seq<char> {
    match s {
        RunState::Queued => "Queued"@,
        RunState::Running => "Running"@,
        RunState::Success => "Success"@,
        RunState::Failed => "Failed"@,
        RunState::Killed => "Killed"@,
        RunState::Skipped => "Skipped"@,
        RunState::Lost => "Lost"@,
    }
}

/// `{:?}` of an alert event.
pub fn event_label(e: AlertEvent) -> (r: &'static str)
    ensures
        r@ == event_name(e),
{
    match e {
        AlertEvent::OnFailure => "OnFailure",
        AlertEvent::OnSuccess => "OnSuccess",
        AlertEvent::OnSlaMiss => "OnSlaMiss",
        AlertEvent::OnLateStart => "OnLateStart",
        AlertEvent::OnLost => "OnLost",
    }
}

/// `{:?}` of a run state.
pub fn state_label(s: RunState) -> (r: &'static str)
    ensures
        r@ == state_name(s),
{
    match s {
        RunState::Queued => "Queued",
        RunState::Running => "Running",
        RunState::Success => "Success",
        RunState::Failed => "Failed",
        RunState::Killed => "Killed",
        RunState::Skipped => "Skipped",
        RunState::Lost => "Lost",
    }
}

/// The Slack message for a payload.
pub open spec fn slack_text_of(p: AlertPayload) -> Seq<char> {
    ":rotating_light: *"@ + event_name(p.event) + "* — job `"@ + p.job_name@ + "` (attempt "@
        + dec(p.attempt as nat) + ") state `"@ + state_name(p.state) + "`"@ + match p.message {
        Some(m) => " — "@ + m@,
        None => Seq::empty(),
    }
}

/// Text posted to a Slack incoming webhook.
pub fn slack_text(p: &AlertPayload) -> (r: String)
    ensures
        r@ == slack_text_of(*p),
{
    let mut s = string_of_str(":rotating_light: *");
    append_str(&mut s, event_label(p.event));
    append_str(&mut s, "* — job `");
    append_str(&mut s, p.job_name.as_str());
    append_str(&mut s, "` (attempt ");
    push_dec(&mut s, p.attempt as u64);
    append_str(&mut s, ") state `");
    append_str(&mut s, state_label(p.state));
    append_str(&mut s, "`");
    match &p.message {
        Some(m) => {
            append_str(&mut s, " — ");
            append_str(&mut s, m.as_str());
        },
        None => {},
    }
    s
}

/// Subject line of an alert email.
pub open spec fn email_subject_of(p: AlertPayload) -> Seq<char> {
    "[rusty-sched] "@ + event_name(p.event) + " — "@ + p.job_name@ + " (attempt "@ + dec(
        p.attempt as nat,
    ) + ")"@
}

/// Subject line of an alert email.
pub fn email_subject(p: &AlertPayload) -> (r: String)
    ensures
        r@ == email_subject_of(*p),
{
    let mut s = string_of_str("[rusty-sched] ");
    append_str(&mut s, event_label(p.event));
    append_str(&mut s, " — ");
    append_str(&mut s, p.job_name.as_str());
    append_str(&mut s, " (attempt ");
    push_dec(&mut s, p.attempt as u64);
    append_str(&mut s, ")");
    s
}

/// The text `DateTime::<Utc>::to_rfc3339` writes for an instant.
pub uninterp spec fn rfc3339_text(secs: i64, nanos: u32) -> Seq<char>;

/// Instants `chrono` represents: years -262143 to 262142 hold them with
/// room to spare.
pub open spec fn chrono_range(t: Timestamp) -> bool {
    t.wf() && -8_000_000_000_000 <= t.secs <= 8_000_000_000_000
}

/// `DateTime::<Utc>::from_timestamp` then `to_rfc3339`. Within
/// `chrono_range` the conversion succeeds and the text depends on the
/// instant alone.
#[verifier::external_body]
fn rfc3339(t: Timestamp) -> (r: String)
    requires
        chrono_range(t),
    ensures
        r@ == rfc3339_text(t.secs, t.nanos),
{
    match chrono::DateTime::<chrono::Utc>::from_timestamp(t.secs, t.nanos) {
        Some(d) => d.to_rfc3339(),
        None => String::new(),
    }
}

/// An optional instant as RFC 3339 text, `-` when absent.
pub open spec fn time_or_dash(t: Option<Timestamp>) -> Seq<char> {
    match t {
        Some(x) => rfc3339_text(x.secs, x.nanos),
        None => "-"@,
    }
}

/// An optional exit code as text, `-` when absent.
pub open spec fn code_or_dash(c: Option<i32>) -> Seq<char> {
    match c {
        Some(x) => int_text(x as int),
        None => "-"@,
    }
}

/// The times in a payload are ones `chrono` represents.
pub open spec fn payload_times_ok(p: AlertPayload) -> bool {
    (p.started_at matches Some(t) ==> chrono_range(t)) && (p.finished_at matches Some(t)
        ==> chrono_range(t))
}

/// Body of an alert email.
pub open spec fn email_body_of(p: AlertPayload) -> Seq<char> {
    "Job:        "@ + p.job_name@ + "\nJob id:     "@ + ulid_text(p.job_id.0) + "\nRun id:     "@
        + ulid_text(p.run_id.0) + "\nEvent:      "@ + event_name(p.event) + "\nState:      "@
        + state_name(p.state) + "\nAttempt:    "@ + dec(p.attempt as nat) + "\nExit code:  "@
        + code_or_dash(p.exit_code) + "\nStarted:    "@ + time_or_dash(p.started_at)
        + "\nFinished:   "@ + time_or_dash(p.finished_at) + "\nHost:       "@ + p.host@
        + "\n\n"@ + match p.message {
        Some(m) => m@,
        None => Seq::empty(),
    } + "\n"@
}

/// Appends an optional instant, `-` when absent.
fn append_time(s: &mut String, t: Option<Timestamp>)
    requires
        t matches Some(x) ==> chrono_range(x),
    ensures
        final(s)@ == old(s)@ + time_or_dash(t),
{
    match t {
        Some(x) => {
            let txt = rfc3339(x);
            append_str(s, txt.as_str());
        },
        None => append_str(s, "-"),
    }
}

/// Body of an alert email.
pub fn email_body(p: &AlertPayload) -> (r: String)
    requires
        payload_times_ok(*p),
    ensures
        r@ == email_body_of(*p),
{
    let mut s = string_of_str("Job:        ");
    append_str(&mut s, p.job_name.as_str());
    append_str(&mut s, "\nJob id:     ");
    append_str(&mut s, p.job_id.to_text().as_str());
    append_str(&mut s, "\nRun id:     ");
    append_str(&mut s, p.run_id.to_text().as_str());
    append_str(&mut s, "\nEvent:      ");
    append_str(&mut s, event_label(p.event));
    append_str(&mut s, "\nState:      ");
    append_str(&mut s, state_label(p.state));
    append_str(&mut s, "\nAttempt:    ");
    push_dec(&mut s, p.attempt as u64);
    append_str(&mut s, "\nExit code:  ");
    match p.exit_code {
        Some(c) => push_int(&mut s, c),
        None => append_str(&mut s, "-"),
    }
    append_str(&mut s, "\nStarted:    ");
    append_time(&mut s, p.started_at);
    append_str(&mut s, "\nFinished:   ");
    append_time(&mut s, p.finished_at);
    append_str(&mut s, "\nHost:       ");
    append_str(&mut s, p.host.as_str());
    append_str(&mut s, "\n\n");
    match &p.message {
        Some(m) => append_str(&mut s, m.as_str()),
        None => {},
    }
    append_str(&mut s, "\n");
    s
}

/// How one configured channel gets an alert.
#[derive(Debug, Clone, PartialEq, Eq)]
pub enum Delivery {
    /// Post the Slack text to this incoming-webhook URL.
    Slack(String),
    /// Post the payload as JSON to this URL.
    Webhook(String),
    /// Not delivered: the channel kind is not supported yet; the text says
    /// which.
    Unsupported(&'static str),
}

/// The delivery each channel gets, in order: Slack and webhook channels
/// post to their URL, email is not supported by this path yet.
pub fn deliveries(channels: &Vec<AlertChannel>) -> (r: Vec<Delivery>)
    ensures
        r@.len() == channels@.len(),
        forall|i: int|
            0 <= i < r@.len() ==> match (#[trigger] channels@[i]) {
                AlertChannel::Slack { webhook_url } => r@[i] matches Delivery::Slack(u) && u@
                    == webhook_url@,
                AlertChannel::Webhook { url, .. } => r@[i] matches Delivery::Webhook(u) && u@
                    == url@,
                AlertChannel::Email { .. } => r@[i] matches Delivery::Unsupported(m) && m@
                    == "email (M6.1)"@,
            },
{
    let mut r: Vec<Delivery> = Vec::new();
    let mut i: usize = 0;
    while i < channels.len()
        invariant
            i <= channels@.len(),
            r@.len() == i,
            forall|j: int|
                0 <= j < i ==> match (#[trigger] channels@[j]) {
                    AlertChannel::Slack { webhook_url } => r@[j] matches Delivery::Slack(u) && u@
                        == webhook_url@,
                    AlertChannel::Webhook { url, .. } => r@[j] matches Delivery::Webhook(u) && u@
                        == url@,
                    AlertChannel::Email { .. } => r@[j] matches Delivery::Unsupported(m) && m@
                        == "email (M6.1)"@,
                },
        decreases channels.len() - i,
    {
        let d = match &channels[i] {
            AlertChannel::Slack { webhook_url } => Delivery::Slack(webhook_url.clone()),
            AlertChannel::Webhook { url, .. } => Delivery::Webhook(url.clone()),
            AlertChannel::Email { .. } => Delivery::Unsupported("email (M6.1)"),
        };
        r.push(d);
        i = i + 1;
    }
    r
}

/// SMTP server config.
#[derive(Debug, Clone, PartialEq, Eq)]
pub struct SmtpConfig {
    /// Hostname (e.g. `smtp.gmail.com`).
    pub host: String,
    /// Port (465 for implicit TLS, 587 for STARTTLS).
    pub port: u16,
    /// Username.
    pub user: String,
    /// Password / app password.
    pub pass: String,
    /// RFC 5322 From header value, e.g. `"rusty-sched <bot@example.com>"`.
    pub from: String,
    /// Use implicit TLS (true=465, false=STARTTLS on 587).
    pub implicit_tls: bool,
}

/// Values of the SMTP environment variables, each when set.
#[derive(Debug, Clone, PartialEq, Eq)]
pub struct SmtpEnv {
    /// `RSCHED_SMTP_HOST`.
    pub host: Option<String>,
    /// `RSCHED_SMTP_USER`.
    pub user: Option<String>,
    /// `RSCHED_SMTP_PASS`.
    pub pass: Option<String>,
    /// `RSCHED_SMTP_FROM`.
    pub from: Option<String>,
    /// `RSCHED_SMTP_STARTTLS`.
    pub starttls: Option<String>,
    /// `RSCHED_SMTP_PORT`.
    pub port: Option<String>,
}

/// Port chosen: the setting when it parses as `u16`, otherwise 465 with
/// implicit TLS and 587 with STARTTLS.
pub open spec fn port_setting(raw: Option<String>, implicit_tls: bool) -> u16 {
    let default: u16 = if implicit_tls {
        465
    } else {
        587
    };
    match raw {
        Some(s) => match parse_unsigned(s@, 65535) {
            Some(n) => n as u16,
            None => default,
        },
        None => default,
    }
}

impl SmtpConfig {
    /// Config from the environment's values: host, user, password and
    /// sender are required; STARTTLS is chosen by setting
    /// `RSCHED_SMTP_STARTTLS` (to anything); the port defaults by TLS mode.
    pub fn from_values(env: SmtpEnv) -> (r: Option<SmtpConfig>)
        ensures
            match r {
                Some(c) => env.host == Some(c.host) && env.user == Some(c.user) && env.pass == Some(
                    c.pass,
                ) && env.from == Some(c.from) && c.implicit_tls == (env.starttls is None) && c.port
                    == port_setting(env.port, c.implicit_tls),
                None => env.host is None || env.user is None || env.pass is None || env.from is None,
            },
    {
        let host = match env.host {
            Some(h) => h,
            None => return None,
        };
        let user = match env.user {
            Some(u) => u,
            None => return None,
        };
        let pass = match env.pass {
            Some(p) => p,
            None => return None,
        };
        let from = match env.from {
            Some(f) => f,
            None => return None,
        };
        let implicit_tls = env.starttls.is_none();
        let default_port: u16 = if implicit_tls {
            465
        } else {
            587
        };
        let port = match &env.port {
            Some(s) => {
                let v = chars_vec(s.as_str());
                assert(v@.subrange(0, v@.len() as int) =~= v@);
                match parse_unsigned_range(&v, 0, v.len(), 65535) {
                    Some(n) => n as u16,
                    None => default_port,
                }
            },
            None => default_port,
        };
        Some(SmtpConfig { host, port, user, pass, from, implicit_tls })
    }
}

} // verus!
