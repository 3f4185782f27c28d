//! Job execution decisions: the program and arguments a job starts as, how
//! a plugin's stdout lines are classified, and which exit code a finished
//! run reports.

use crate::ids::{ulid_text, RunId};
use crate::jil::spec::texts;
use crate::job::Job;
use crate::policy::Shell;
use crate::text::{append_str, chars_vec, push_char, string_of, string_of_str, str_eq_lit, trim, trim_bounds};
use serde_json::Value;
use std::collections::HashMap;
use vstd::prelude::*;

verus! {

#[verifier::external_type_specification]
#[verifier::external_body]
pub struct ExIoError(std::io::Error);

/// Which stream a log chunk came from.
#[derive(Debug, Clone, Copy, PartialEq, Eq, Structural)]
pub enum Stream {
    /// Standard output.
    Stdout,
    /// Standard error.
    Stderr,
    /// A recognised plugin event line read from standard output.
    Plugin,
}

/// Errors from job execution.
#[derive(Debug)]
pub enum AgentError {
    /// IO failure spawning the process.
    Io(std::io::Error),
    /// Run was killed (timeout or external).
    Killed,
    /// Run dispatched twice with same id.
    DuplicateRun,
}

/// Local executor — runs jobs as child processes on this host.
#[derive(Debug, Default, Clone, Copy)]
pub struct LocalExecutor;

impl LocalExecutor {
    /// Construct.
    pub fn new() -> (r: Self)
        ensures
            r == LocalExecutor,
    {
        LocalExecutor
    }
}

/// The shell a job actually runs under: `Auto` becomes `cmd` on Windows and
/// `sh` elsewhere.
pub open spec fn resolved_shell(shell: Shell, on_windows: bool) -> Shell {
    match shell {
        Shell::Auto => if on_windows {
            Shell::Cmd
        } else {
            Shell::Sh
        },
        other => other,
    }
}

/// The command followed by each argument, separated by single spaces.
pub open spec fn shell_line(cmd: Seq<char>, args: Seq<Seq<char>>) -> Seq<char>
    decreases args.len(),
{
    if args.len() == 0 {
        cmd
    } else {
        shell_line(cmd, args.drop_last()) + seq![' '] + args.last()
    }
}

/// Program a job is started as.
pub open spec fn planned_program(shell: Shell, on_windows: bool, cmd: Seq<char>) -> Seq<char> {
    match resolved_shell(shell, on_windows) {
        Shell::Cmd => "cmd"@,
        Shell::Powershell => "powershell"@,
        Shell::Sh => "/bin/sh"@,
        Shell::Bash => "bash"@,
        _ => cmd,
    }
}

/// Arguments a job is started with.
pub open spec fn planned_args(
    shell: Shell,
    on_windows: bool,
    cmd: Seq<char>,
    args: Seq<Seq<char>>,
) -> Seq<Seq<char>> {
    match resolved_shell(shell, on_windows) {
        Shell::Cmd => seq!["/C"@, cmd] + args,
        Shell::Powershell => seq!["-NoProfile"@, "-Command"@, cmd] + args,
        Shell::Sh | Shell::Bash => seq!["-c"@, shell_line(cmd, args)],
        _ => args,
    }
}

/// How a job's process is started.
#[derive(Debug)]
pub struct CommandPlan {
    /// Program to execute.
    pub program: String,
    /// Its arguments, in order.
    pub args: Vec<String>,
    /// Working directory, when the job names one.
    pub cwd: Option<String>,
    /// Whether stdin is a pipe (a plugin reads its request there) rather
    /// than the null device.
    pub stdin_piped: bool,
}

/// `cmd` followed by ` arg` for each argument.
pub fn format_shell_line(cmd: &str, args: &Vec<String>) -> (r: String)
    ensures
        r@ == shell_line(cmd@, texts(args@)),
{
    let mut s = string_of_str(cmd);
    let mut i: usize = 0;
    while i < args.len()
        invariant
            i <= args.len(),
            s@ == shell_line(cmd@, texts(args@.subrange(0, i as int))),
        decreases args.len() - i,
    {
        push_char(&mut s, ' ');
        append_str(&mut s, args[i].as_str());
        proof {
            assert(texts(args@.subrange(0, i + 1)).drop_last() =~= texts(
                args@.subrange(0, i as int),
            ));
        }
        i = i + 1;
    }
    assert(args@.subrange(0, i as int) =~= args@);
    s
}

/// A copy of a list of strings.
fn copy_texts(v: &Vec<String>) -> (r: Vec<String>)
    ensures
        r@ == v@,
{
    let mut r: Vec<String> = Vec::new();
    let mut i: usize = 0;
    while i < v.len()
        invariant
            i <= v.len(),
            r@ == v@.subrange(0, i as int),
        decreases v.len() - i,
    {
        r.push(v[i].clone());
        assert(r@ =~= v@.subrange(0, i + 1));
        i = i + 1;
    }
    assert(v@.subrange(0, i as int) =~= v@);
    r
}

/// A string list holding `a` and then each of `rest`.
fn prepend_texts(a: Vec<String>, rest: &Vec<String>) -> (r: Vec<String>)
    ensures
        r@ == a@ + rest@,
{
    let mut r = a;
    let mut i: usize = 0;
    while i < rest.len()
        invariant
            i <= rest.len(),
            r@ == a@ + rest@.subrange(0, i as int),
        decreases rest.len() - i,
    {
        r.push(rest[i].clone());
        assert(r@ =~= a@ + rest@.subrange(0, i + 1));
        i = i + 1;
    }
    assert(rest@.subrange(0, i as int) =~= rest@);
    r
}

/// An owned copy of a literal.
fn owned(s: &str) -> (r: String)
    ensures
        r@ == s@,
{
    string_of_str(s)
}

/// The process a job starts as: which program, with which arguments, in
/// which directory, and whether stdin is piped. `on_windows` picks what
/// `Shell::Auto` means.
pub fn build_command(job: &Job, on_windows: bool) -> (r: CommandPlan)
    ensures
        r.program@ == planned_program(job.shell, on_windows, job.cmd@),
        texts(r.args@) == planned_args(job.shell, on_windows, job.cmd@, texts(job.args@)),
        r.cwd == job.cwd,
        r.stdin_piped == (job.shell == Shell::Plugin),
{
    let cmd = job.cmd.as_str();
    let (program, args) = match resolved(job.shell, on_windows) {
        Shell::Cmd => {
            let mut lead: Vec<String> = Vec::new();
            lead.push(owned("/C"));
            lead.push(owned(cmd));
            (owned("cmd"), prepend_texts(lead, &job.args))
        },
        Shell::Powershell => {
            let mut lead: Vec<String> = Vec::new();
            lead.push(owned("-NoProfile"));
            lead.push(owned("-Command"));
            lead.push(owned(cmd));
            (owned("powershell"), prepend_texts(lead, &job.args))
        },
        Shell::Sh => {
            let mut a: Vec<String> = Vec::new();
            a.push(owned("-c"));
            a.push(format_shell_line(cmd, &job.args));
            (owned("/bin/sh"), a)
        },
        Shell::Bash => {
            let mut a: Vec<String> = Vec::new();
            a.push(owned("-c"));
            a.push(format_shell_line(cmd, &job.args));
            (owned("bash"), a)
        },
        _ => (owned(cmd), copy_texts(&job.args)),
    };
    proof {
        assert(texts(args@) =~= planned_args(job.shell, on_windows, job.cmd@, texts(job.args@)));
    }
    let cwd = match &job.cwd {
        Some(c) => Some(c.clone()),
        None => None,
    };
    let stdin_piped = match job.shell {
        Shell::Plugin => true,
        _ => false,
    };
    CommandPlan { program, args, cwd, stdin_piped }
}

/// `resolved_shell`, computed.
fn resolved(shell: Shell, on_windows: bool) -> (r: Shell)
    ensures
        r == resolved_shell(shell, on_windows),
{
    match shell {
        Shell::Auto => if on_windows {
            Shell::Cmd
        } else {
            Shell::Sh
        },
        other => other,
    }
}

/// What a JSON value is, as far as plugin event lines are read.
#[derive(Debug, Clone, Copy, PartialEq, Eq, Structural)]
pub enum JsonScalar {
    /// `true` or `false`.
    Bool(bool),
    /// A number that fits in `i64`.
    Int(i64),
    /// Any other number.
    OtherNumber,
    /// Null, a string, an array or an object.
    Other,
}

/// A JSON document as the plugin reader sees it: the members of an object,
/// each value by its kind, or a document that is no object.
#[derive(Debug)]
pub enum JsonShape {
    /// An object's members, each key once.
    Object(Vec<(String, JsonScalar)>),
    /// Any document that is not an object.
    NotObject,
}

/// [`JsonShape`] with keys as character sequences.
pub enum JsonShapeV {
    /// An object's members.
    Object(Seq<(Seq<char>, JsonScalar)>),
    /// Any document that is not an object.
    NotObject,
}

/// Members with keys as character sequences.
pub open spec fn members_view(m: Seq<(String, JsonScalar)>) -> Seq<(Seq<char>, JsonScalar)> {
    m.map_values(|e: (String, JsonScalar)| (e.0@, e.1))
}

impl View for JsonShape {
    type V = JsonShapeV;

    open spec fn view(&self) -> JsonShapeV {
        match self {
            JsonShape::Object(m) => JsonShapeV::Object(members_view(m@)),
            JsonShape::NotObject => JsonShapeV::NotObject,
        }
    }
}

/// An optional shape by its view.
pub open spec fn shape_view(o: Option<JsonShape>) -> Option<JsonShapeV> {
    match o {
        Some(s) => Some(s@),
        None => None,
    }
}

/// What `serde_json` reads from `text`: `None` when `text` is no JSON
/// document, otherwise the document's shape.
pub uninterp spec fn json_shape(text: Seq<char>) -> Option<JsonShapeV>;

/// Parses `text` with `serde_json::from_str::<serde_json::Value>` and keeps,
/// for an object, each member's key and the kind of its value (numbers by
/// `as_i64`). The contract only names the result: JSON syntax is not
/// restated here.
#[verifier::external_body]
fn parse_json_shape(text: &str) -> (r: Option<JsonShape>)
    ensures
        shape_view(r) == json_shape(text@),
{
    match serde_json::from_str::<Value>(text) {
        Ok(Value::Object(m)) => Some(JsonShape::Object(m.iter().map(|(k, v)| (k.clone(), match v {
            Value::Bool(b) => JsonScalar::Bool(*b),
            Value::Number(n) => n.as_i64().map_or(JsonScalar::OtherNumber, JsonScalar::Int),
            _ => JsonScalar::Other,
        })).collect())),
        Ok(_) => Some(JsonShape::NotObject),
        Err(_) => None,
    }
}

impl JsonShape {
    /// Reads a JSON document; `None` when `text` is not valid JSON.
    pub fn parse(text: &str) -> (r: Option<JsonShape>)
        ensures
            shape_view(r) == json_shape(text@),
    {
        parse_json_shape(text)
    }
}

/// The value of the first member named `key`.
pub open spec fn member(m: Seq<(Seq<char>, JsonScalar)>, key: Seq<char>) -> Option<JsonScalar>
    decreases m.len(),
{
    if m.len() == 0 {
        None
    } else if m[0].0 == key {
        Some(m[0].1)
    } else {
        member(m.drop_first(), key)
    }
}

/// The object carries a plugin event key: `progress`, `perf`, `complete` or
/// `description`.
pub open spec fn plugin_event(m: Seq<(Seq<char>, JsonScalar)>) -> bool {
    member(m, "progress"@) is Some || member(m, "perf"@) is Some || member(m, "complete"@) is Some
        || member(m, "description"@) is Some
}

/// Looks up the member named `key`.
fn find_member(m: &Vec<(String, JsonScalar)>, key: &str) -> (r: Option<JsonScalar>)
    ensures
        r == member(members_view(m@), key@),
{
    let mut i: usize = 0;
    assert(members_view(m@).subrange(0, m@.len() as int) =~= members_view(m@));
    while i < m.len()
        invariant
            i <= m.len(),
            member(members_view(m@), key@) == member(members_view(m@).subrange(i as int, m@.len() as int), key@),
        decreases m.len() - i,
    {
        proof {
            assert(members_view(m@).subrange(i + 1, m@.len() as int) =~= members_view(m@).subrange(
                i as int,
                m@.len() as int,
            ).drop_first());
        }
        if str_eq_lit(m[i].0.as_str(), key) {
            return Some(m[i].1);
        }
        i = i + 1;
    }
    None
}

/// Returns true if the JSON value is an object carrying at least one
/// recognized plugin event key (`progress`, `perf`, `complete`, `description`).
pub fn is_plugin_event(v: &JsonShape) -> (r: bool)
    ensures
        r == (v@ matches JsonShapeV::Object(m) && plugin_event(m)),
{
    match v {
        JsonShape::Object(m) => find_member(m, "progress").is_some() || find_member(m, "perf").is_some()
            || find_member(m, "complete").is_some() || find_member(m, "description").is_some(),
        JsonShape::NotObject => false,
    }
}

/// What a plugin has reported so far about how its run ends.
#[derive(Debug, Clone, Copy, PartialEq, Eq, Structural)]
pub struct PluginProgress {
    /// A `complete` event has been seen.
    pub completed: bool,
    /// Exit code reported by the plugin.
    pub exit_code: Option<i32>,
}

impl PluginProgress {
    /// Nothing reported yet.
    pub fn new() -> (r: Self)
        ensures
            r == (PluginProgress { completed: false, exit_code: None }),
    {
        PluginProgress { completed: false, exit_code: None }
    }
}

/// A `complete` value that marks the run done: `true`, or a nonzero integer.
pub open spec fn completes(c: JsonScalar) -> bool {
    match c {
        JsonScalar::Bool(b) => b,
        JsonScalar::Int(n) => n != 0,
        _ => false,
    }
}

/// Progress after an event object: a completing `complete` marks the run
/// done and takes the exit code from an integer `code` (truncated to `i32`),
/// keeps it for a non-integer `code`, and defaults it to 0 without `code`.
pub open spec fn after_event(p: PluginProgress, m: Seq<(Seq<char>, JsonScalar)>) -> PluginProgress {
    match member(m, "complete"@) {
        Some(c) => if completes(c) {
            PluginProgress {
                completed: true,
                exit_code: match member(m, "code"@) {
                    Some(JsonScalar::Int(n)) => Some(n as i32),
                    Some(_) => p.exit_code,
                    None => if p.exit_code is None {
                        Some(0i32)
                    } else {
                        p.exit_code
                    },
                },
            }
        } else {
            p
        },
        None => p,
    }
}

/// The JSON document a plugin stdout line carries: its trimmed text when
/// that starts with `{` and parses.
pub open spec fn line_document(line: Seq<char>) -> Option<JsonShapeV> {
    let t = trim(line);
    if t.len() > 0 && t[0] == '{' {
        json_shape(t)
    } else {
        None
    }
}

/// Stream of a plugin stdout line and the progress after it: event objects
/// go to the plugin stream and may end the run, anything else is plain
/// stdout.
pub open spec fn plugin_line_effect(line: Seq<char>, p: PluginProgress) -> (Stream, PluginProgress) {
    match line_document(line) {
        Some(JsonShapeV::Object(m)) => if plugin_event(m) {
            (Stream::Plugin, after_event(p, m))
        } else {
            (Stream::Stdout, p)
        },
        _ => (Stream::Stdout, p),
    }
}

/// The members of a line that is a completing plugin event: an event
/// object whose `complete` marks the run done.
pub open spec fn completing_event(line: Seq<char>) -> Option<Seq<(Seq<char>, JsonScalar)>> {
    match line_document(line) {
        Some(JsonShapeV::Object(m)) => if plugin_event(m) && (match member(m, "complete"@) {
            Some(c) => completes(c),
            None => false,
        }) {
            Some(m)
        } else {
            None
        },
        _ => None,
    }
}

/// The integer `code` of a completing event line, truncated to `i32`.
pub open spec fn line_code(line: Seq<char>) -> Option<i32> {
    match completing_event(line) {
        Some(m) => match member(m, "code"@) {
            Some(JsonScalar::Int(n)) => Some(n as i32),
            _ => None,
        },
        None => None,
    }
}

/// A completing event line without `code`.
pub open spec fn codeless(line: Seq<char>) -> bool {
    match completing_event(line) {
        Some(m) => member(m, "code"@) is None,
        None => false,
    }
}

/// Progress after a plugin's stdout lines, read in order from nothing
/// reported.
pub open spec fn progress_over(lines: Seq<Seq<char>>) -> PluginProgress
    decreases lines.len(),
{
    if lines.len() == 0 {
        PluginProgress { completed: false, exit_code: None }
    } else {
        plugin_line_effect(lines.last(), progress_over(lines.drop_last())).1
    }
}

/// The integer code of the last completing event that has one.
pub open spec fn last_line_code(lines: Seq<Seq<char>>) -> Option<i32>
    decreases lines.len(),
{
    if lines.len() == 0 {
        None
    } else if line_code(lines.last()) is Some {
        line_code(lines.last())
    } else {
        last_line_code(lines.drop_last())
    }
}

/// The plugin protocol over a whole stdout stream: the run is complete
/// exactly when some line is a completing event; its exit code is the
/// integer code of the last completing event that has one, otherwise 0 when
/// some completing event had no code, otherwise none.
pub proof fn lemma_plugin_stream(lines: Seq<Seq<char>>)
    ensures
        progress_over(lines).completed == (exists|i: int|
            0 <= i < lines.len() && #[trigger] completing_event(lines[i]) is Some),
        progress_over(lines).exit_code == (match last_line_code(lines) {
            Some(c) => Some(c),
            None => if exists|i: int| 0 <= i < lines.len() && #[trigger] codeless(lines[i]) {
                Some(0i32)
            } else {
                None
            },
        }),
    decreases lines.len(),
{
    if lines.len() > 0 {
        let pre = lines.drop_last();
        let l = lines.last();
        lemma_plugin_stream(pre);
        assert forall|i: int| 0 <= i < pre.len() implies #[trigger] pre[i] == lines[i] by {}
        let n = (lines.len() - 1) as int;
        assert(lines[n] == l);
        if exists|i: int| 0 <= i < pre.len() && #[trigger] completing_event(pre[i]) is Some {
            let i = choose|i: int| 0 <= i < pre.len() && #[trigger] completing_event(pre[i]) is Some;
            assert(completing_event(lines[i]) is Some);
        }
        if exists|i: int| 0 <= i < pre.len() && #[trigger] codeless(pre[i]) {
            let i = choose|i: int| 0 <= i < pre.len() && #[trigger] codeless(pre[i]);
            assert(codeless(lines[i]));
        }
        if exists|i: int| 0 <= i < lines.len() && #[trigger] completing_event(lines[i]) is Some {
            let i = choose|i: int| 0 <= i < lines.len() && #[trigger] completing_event(lines[i]) is Some;
            if i < n {
                assert(completing_event(pre[i]) is Some);
            }
        }
        if exists|i: int| 0 <= i < lines.len() && #[trigger] codeless(lines[i]) {
            let i = choose|i: int| 0 <= i < lines.len() && #[trigger] codeless(lines[i]);
            if i < n {
                assert(codeless(pre[i]));
            }
        }
        let p = progress_over(pre);
        assert(progress_over(lines) == plugin_line_effect(l, p).1);
        match line_document(l) {
            Some(JsonShapeV::Object(m)) => {
                if plugin_event(m) {
                    assert(plugin_line_effect(l, p).1 == after_event(p, m));
                    match completing_event(l) {
                        Some(mm) => {
                            assert(mm == m);
                            let e_pre = exists|i: int| 0 <= i < pre.len() && #[trigger] codeless(pre[i]);
                            let e_all = exists|i: int| 0 <= i < lines.len() && #[trigger] codeless(lines[i]);
                            match member(m, "code"@) {
                                Some(JsonScalar::Int(k)) => {
                                    assert(line_code(l) == Some(k as i32));
                                    assert(last_line_code(lines) == Some(k as i32));
                                },
                                Some(_) => {
                                    assert(line_code(l) is None);
                                    assert(!codeless(l));
                                    assert(last_line_code(lines) == last_line_code(pre));
                                    assert(e_all == e_pre);
                                },
                                None => {
                                    assert(line_code(l) is None);
                                    assert(codeless(l));
                                    assert(codeless(lines[n]));
                                    assert(e_all);
                                    assert(last_line_code(lines) == last_line_code(pre));
                                },
                            }
                        },
                        None => {
                            assert(after_event(p, m) == p);
                            assert(line_code(l) is None);
                            assert(!codeless(l));
                            assert(last_line_code(lines) == last_line_code(pre));
                        },
                    }
                } else {
                    assert(completing_event(l) is None);
                    assert(last_line_code(lines) == last_line_code(pre));
                }
            },
            _ => {
                assert(completing_event(l) is None);
                assert(last_line_code(lines) == last_line_code(pre));
            },
        }
    }
}

/// Classifies one line of a plugin's stdout and records what it reports.
pub fn classify_plugin_line(line: &str, progress: &mut PluginProgress) -> (s: Stream)
    ensures
        (s, *final(progress)) == plugin_line_effect(line@, *old(progress)),
{
    let v = chars_vec(line);
    let (a, b) = trim_bounds(&v, 0, v.len());
    assert(v@.subrange(0, v@.len() as int) =~= v@);
    if a == b || v[a] != '{' {
        return Stream::Stdout;
    }
    let t = string_of(&v, a, b);
    let doc = parse_json_shape(t.as_str());
    match doc {
        Some(JsonShape::Object(m)) => {
            if !(find_member(&m, "progress").is_some() || find_member(&m, "perf").is_some()
                || find_member(&m, "complete").is_some() || find_member(&m, "description").is_some()) {
                return Stream::Stdout;
            }
            match find_member(&m, "complete") {
                Some(c) => {
                    let done = match c {
                        JsonScalar::Bool(b) => b,
                        JsonScalar::Int(n) => n != 0,
                        _ => false,
                    };
                    if done {
                        progress.completed = true;
                        match find_member(&m, "code") {
                            Some(JsonScalar::Int(n)) => {
                                progress.exit_code = Some(n as i32);
                            },
                            Some(_) => {},
                            None => {
                                if progress.exit_code.is_none() {
                                    progress.exit_code = Some(0);
                                }
                            },
                        }
                    }
                },
                None => {},
            }
            Stream::Plugin
        },
        _ => Stream::Stdout,
    }
}

/// Exit code a finished run reports. A plugin that sent a completing event
/// reports the code it gave; one that did not has failed, with its own
/// nonzero exit status or -1. Other jobs report their exit status.
pub open spec fn reported_exit_code(is_plugin: bool, p: PluginProgress, status: Option<i32>) -> Option<i32> {
    if !is_plugin {
        status
    } else if p.completed {
        p.exit_code
    } else {
        match status {
            Some(c) => if c != 0 {
                Some(c)
            } else {
                Some(-1i32)
            },
            None => Some(-1i32),
        }
    }
}

/// `reported_exit_code`, computed.
pub fn exit_code_of_run(is_plugin: bool, progress: &PluginProgress, status: Option<i32>) -> (r: Option<i32>)
    ensures
        r == reported_exit_code(is_plugin, *progress, status),
{
    if !is_plugin {
        status
    } else if progress.completed {
        progress.exit_code
    } else {
        match status {
            Some(c) => if c != 0 {
                Some(c)
            } else {
                Some(-1)
            },
            None => Some(-1),
        }
    }
}

/// How a run's process came to an end.
#[derive(Debug, Clone, Copy, PartialEq, Eq, Structural)]
pub enum ProcessEnd {
    /// The process exited; its exit status code, if it has one (none when a
    /// signal ended it).
    Exited(Option<i32>),
    /// A kill was requested and the process was stopped.
    KillRequested,
    /// The job's timeout elapsed and the process was stopped.
    TimedOut,
}

/// What a local run reports: a requested kill is an error, a timeout ends
/// the run without an exit code, an exit reports the code
/// `reported_exit_code` gives.
pub open spec fn local_result(end: ProcessEnd, is_plugin: bool, p: PluginProgress) -> Option<(Option<i32>, bool)> {
    match end {
        ProcessEnd::Exited(status) => Some((reported_exit_code(is_plugin, p, status), false)),
        ProcessEnd::KillRequested => None,
        ProcessEnd::TimedOut => Some((None, true)),
    }
}

/// Exit code and timeout flag of a local run, or `AgentError::Killed` when
/// it was killed on request.
pub fn local_run_result(end: ProcessEnd, is_plugin: bool, progress: &PluginProgress) -> (r: Result<(Option<i32>, bool), AgentError>)
    ensures
        match local_result(end, is_plugin, *progress) {
            Some(v) => r == Ok::<(Option<i32>, bool), AgentError>(v),
            None => r matches Err(AgentError::Killed),
        },
{
    match end {
        ProcessEnd::Exited(status) => Ok((exit_code_of_run(is_plugin, progress, status), false)),
        ProcessEnd::KillRequested => Err(AgentError::Killed),
        ProcessEnd::TimedOut => Ok((None, true)),
    }
}

/// What a remote agent reports for a dispatch: the exit code (-1 when
/// there is none: killed, timed out or ended by a signal) and whether the
/// timeout ended it.
pub open spec fn remote_result(end: ProcessEnd) -> (i32, bool) {
    match end {
        ProcessEnd::Exited(Some(c)) => (c, false),
        ProcessEnd::Exited(None) => (-1i32, false),
        ProcessEnd::KillRequested => (-1i32, false),
        ProcessEnd::TimedOut => (-1i32, true),
    }
}

/// `remote_result`, computed.
pub fn remote_run_result(end: ProcessEnd) -> (r: (i32, bool))
    ensures
        r == remote_result(end),
{
    match end {
        ProcessEnd::Exited(Some(c)) => (c, false),
        ProcessEnd::Exited(None) => (-1, false),
        ProcessEnd::KillRequested => (-1, false),
        ProcessEnd::TimedOut => (-1, true),
    }
}

/// How long a run may take before it is stopped: the job's timeout in
/// seconds, or no deadline at all when the timeout is 0.
pub fn deadline_secs(timeout_secs: u64) -> (r: Option<u64>)
    ensures
        r == (if timeout_secs > 0 {
            Some(timeout_secs)
        } else {
            None::<u64>
        }),
{
    if timeout_secs > 0 {
        Some(timeout_secs)
    } else {
        None
    }
}

/// What a remote agent reports back for one dispatch.
#[derive(Debug, Clone, PartialEq, Eq)]
pub struct RemoteReport {
    /// The dispatched run's id, echoed.
    pub run_id: String,
    /// Exit code, -1 when there is none.
    pub exit_code: i32,
    /// Whether the deadline stopped the run.
    pub timed_out: bool,
    /// Peak resident set size (not measured: 0).
    pub peak_rss_bytes: u64,
    /// User CPU time in milliseconds (not measured: 0).
    pub cpu_user_ms: u64,
    /// System CPU time in milliseconds (not measured: 0).
    pub cpu_sys_ms: u64,
}

/// Exit code and timeout flag of a dispatch: `None` when the process could
/// not be started, which reports -1 and no timeout.
pub open spec fn remote_outcome(end: Option<ProcessEnd>) -> (i32, bool) {
    match end {
        None => (-1i32, false),
        Some(e) => remote_result(e),
    }
}

/// The report for run `run_id` whose process ended as `end` (`None`: it
/// could not be started).
pub fn remote_report(run_id: String, end: Option<ProcessEnd>) -> (r: RemoteReport)
    ensures
        r.run_id == run_id,
        (r.exit_code, r.timed_out) == remote_outcome(end),
        r.peak_rss_bytes == 0 && r.cpu_user_ms == 0 && r.cpu_sys_ms == 0,
{
    let (exit_code, timed_out) = match end {
        None => (-1, false),
        Some(e) => remote_run_result(e),
    };
    RemoteReport { run_id, exit_code, timed_out, peak_rss_bytes: 0, cpu_user_ms: 0, cpu_sys_ms: 0 }
}

/// The process a remote agent starts for a dispatch: the command line
/// through `cmd /C` on Windows or `/bin/sh -c` elsewhere, in `cwd` unless
/// it is empty, with stdin closed.
pub fn dispatch_command(cmd: &str, args: &Vec<String>, cwd: &str, on_windows: bool) -> (r: CommandPlan)
    ensures
        r.program@ == (if on_windows {
            "cmd"@
        } else {
            "/bin/sh"@
        }),
        texts(r.args@) == seq![
            if on_windows {
                "/C"@
            } else {
                "-c"@
            },
            shell_line(cmd@, texts(args@)),
        ],
        match r.cwd {
            Some(c) => cwd@.len() > 0 && c@ == cwd@,
            None => cwd@.len() == 0,
        },
        !r.stdin_piped,
{
    let line = format_shell_line(cmd, args);
    let mut a: Vec<String> = Vec::new();
    a.push(owned(if on_windows {
        "/C"
    } else {
        "-c"
    }));
    a.push(line);
    proof {
        assert(texts(a@) =~= seq![
            if on_windows {
                "/C"@
            } else {
                "-c"@
            },
            shell_line(cmd@, texts(args@)),
        ]);
    }
    let dir = if cwd.is_empty() {
        None
    } else {
        Some(owned(cwd))
    };
    CommandPlan {
        program: owned(if on_windows {
            "cmd"
        } else {
            "/bin/sh"
        }),
        args: a,
        cwd: dir,
        stdin_piped: false,
    }
}

/// Lower-case hexadecimal digit of `v` (0 to 15).
pub open spec fn hex_digit(v: int) -> char {
    (if v < 10 {
        48 + v
    } else {
        87 + v
    }) as char
}

/// How `serde_json` writes one character inside a string: `"` and `\`
/// backslash-escaped, the control characters with a short escape as `\b`,
/// `\t`, `\n`, `\f`, `\r`, the other control characters as `\u00xx`,
/// everything else as itself.
pub open spec fn json_char_text(c: char) -> Seq<char> {
    let x = c as int;
    if c == '"' {
        seq!['\\', '"']
    } else if c == '\\' {
        seq!['\\', '\\']
    } else if x == 8 {
        seq!['\\', 'b']
    } else if x == 9 {
        seq!['\\', 't']
    } else if x == 10 {
        seq!['\\', 'n']
    } else if x == 12 {
        seq!['\\', 'f']
    } else if x == 13 {
        seq!['\\', 'r']
    } else if x < 32 {
        seq!['\\', 'u', '0', '0', hex_digit(x / 16), hex_digit(x % 16)]
    } else {
        seq![c]
    }
}

/// The escaped characters of `s`, in order.
pub open spec fn json_escaped(s: Seq<char>) -> Seq<char>
    decreases s.len(),
{
    if s.len() == 0 {
        Seq::empty()
    } else {
        json_escaped(s.drop_last()) + json_char_text(s.last())
    }
}

/// Text `serde_json` writes for a JSON string holding `s`: quoted, with
/// JSON escapes.
pub open spec fn json_string_text(s: Seq<char>) -> Seq<char> {
    seq!['"'] + json_escaped(s) + seq!['"']
}

/// Text `serde_json` writes for a JSON object whose members are the entries
/// of `env`, each value a JSON string (its map keeps members in key order,
/// so the text depends on the entries alone).
pub uninterp spec fn json_params_text(env: Map<String, String>) -> Seq<char>;

/// `serde_json::Value::String(s).to_string()`.
#[verifier::external_body]
fn json_string(s: &str) -> (r: String)
    ensures
        r@ == json_string_text(s@),
{
    Value::String(s.to_string()).to_string()
}

/// `serde_json::Value::Object` of the entries as strings, `to_string()`.
#[verifier::external_body]
fn json_params(env: &HashMap<String, String>) -> (r: String)
    ensures
        r@ == json_params_text(env@),
{
    Value::Object(env.iter().map(|(k, v)| (k.clone(), Value::String(v.clone()))).collect()).to_string()
}

/// The single line written to a plugin's stdin:
/// `{"id":"<run_id>","params":<env as an object>}` and a line feed.
pub open spec fn plugin_request_text(run_id: RunId, env: Map<String, String>) -> Seq<char> {
    "{\"id\":"@ + json_string_text(ulid_text(run_id.0)) + ",\"params\":"@ + json_params_text(env)
        + "}\n"@
}

/// Builds the JSON request line written to a plugin's stdin.
pub fn build_plugin_stdin(run_id: RunId, job: &Job) -> (r: String)
    ensures
        r@ == plugin_request_text(run_id, job.env@),
{
    let id = run_id.to_text();
    let mut s = string_of_str("{\"id\":");
    let q = json_string(id.as_str());
    append_str(&mut s, q.as_str());
    append_str(&mut s, ",\"params\":");
    let params = json_params(&job.env);
    append_str(&mut s, params.as_str());
    append_str(&mut s, "}\n");
    s
}

} // verus!
