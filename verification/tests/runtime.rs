use rsched::agent::{
    build_command, build_plugin_stdin, classify_plugin_line, dispatch_command, exit_code_of_run,
    format_shell_line, is_plugin_event, local_run_result, remote_run_result, AgentError, JsonShape,
    LocalExecutor, PluginProgress, ProcessEnd, Stream,
};
use rsched::agent::{deadline_secs, remote_report};
use rsched::dedup::{
    max_entries_from, window_secs_from, WebhookDedup, DEFAULT_MAX_ENTRIES, DEFAULT_WINDOW_SECS,
};
use rsched::ids::{JobId, RunId};
use rsched::job::{Job, JobBuilder};
use rsched::policy::{BackoffKind, ExitCodePolicy, RetryPolicy, Shell};
use rsched::raft::{Node, RaftNetworkFactory, RaftStateMachine, RsRaft, RsRaftReq, RsRaftResp};
use rsched::run::{Run, RunState};
use rsched::runner::{final_state, retry_run, Completion, LogCapture, LOG_CAP};
use rsched::trigger::Trigger;
use std::time::Duration;

fn cron_trigger() -> Trigger {
    Trigger::Cron { expr: "* * * * *".into(), timezone: None }
}

fn job(name: &str, cmd: &str) -> Job {
    JobBuilder::new(name, cmd, cron_trigger()).build().unwrap()
}

// ---- agent --------------------------------------------------------------

#[test]
fn local_executor_constructs() {
    let _exe = LocalExecutor::new();
}

#[test]
fn plugin_shell_builds_command_directly() {
    let mut job = job("p1", "/usr/bin/plugin");
    job.shell = Shell::Plugin;
    job.args = vec!["--flag".into()];
    let c = build_command(&job, false);
    assert_eq!(c.program, "/usr/bin/plugin");
    assert_eq!(c.args, vec!["--flag".to_string()]);
    assert!(c.stdin_piped);
}

#[test]
fn auto_shell_uses_sh_on_unix_and_cmd_on_windows() {
    let mut job = job("t1", "echo");
    job.args = vec!["hello".into(), "world".into()];
    let unix = build_command(&job, false);
    assert_eq!(unix.program, "/bin/sh");
    assert_eq!(unix.args, vec!["-c".to_string(), "echo hello world".to_string()]);
    assert!(!unix.stdin_piped);
    let win = build_command(&job, true);
    assert_eq!(win.program, "cmd");
    assert_eq!(win.args, vec!["/C".to_string(), "echo".into(), "hello".into(), "world".into()]);
}

#[test]
fn powershell_and_bash_commands() {
    let mut job = job("t2", "Get-Date");
    job.shell = Shell::Powershell;
    let c = build_command(&job, false);
    assert_eq!(c.program, "powershell");
    assert_eq!(c.args, vec!["-NoProfile".to_string(), "-Command".into(), "Get-Date".into()]);
    job.shell = Shell::Bash;
    job.cmd = "ls".into();
    job.args = vec!["-l".into()];
    job.cwd = Some("/tmp".into());
    let b = build_command(&job, false);
    assert_eq!(b.program, "bash");
    assert_eq!(b.args, vec!["-c".to_string(), "ls -l".into()]);
    assert_eq!(b.cwd, Some("/tmp".to_string()));
}

#[test]
fn shell_line_joins_with_spaces() {
    assert_eq!(format_shell_line("echo", &vec![]), "echo");
    assert_eq!(format_shell_line("echo", &vec!["a".into(), "b c".into()]), "echo a b c");
}

#[test]
fn is_plugin_event_recognizes_all_four_keys() {
    let progress = JsonShape::parse(r#"{"progress":0.5}"#).unwrap();
    let perf = JsonShape::parse(r#"{"perf":"db=1.2"}"#).unwrap();
    let complete = JsonShape::parse(r#"{"complete":1,"code":0}"#).unwrap();
    let desc = JsonShape::parse(r#"{"description":"hi"}"#).unwrap();
    assert!(is_plugin_event(&progress));
    assert!(is_plugin_event(&perf));
    assert!(is_plugin_event(&complete));
    assert!(is_plugin_event(&desc));

    let plain = JsonShape::parse(r#"{"foo":"bar"}"#).unwrap();
    assert!(!is_plugin_event(&plain));
}

#[test]
fn json_shape_rejects_invalid_text() {
    assert!(JsonShape::parse("not json").is_none());
    assert!(!is_plugin_event(&JsonShape::parse("[1, 2]").unwrap()));
}

#[test]
fn plugin_stdin_payload_has_id_and_params() {
    let mut job = job("p2", "/bin/true");
    job.shell = Shell::Plugin;
    job.env.insert("FOO".into(), "bar".into());
    let run_id = RunId::new();
    let s = build_plugin_stdin(run_id, &job);
    assert!(s.ends_with('\n'));
    let v: serde_json::Value = serde_json::from_str(s.trim()).unwrap();
    assert_eq!(v["id"], run_id.to_text());
    assert_eq!(v["params"]["FOO"], "bar");
    assert_eq!(s, format!("{{\"id\":\"{}\",\"params\":{{\"FOO\":\"bar\"}}}}\n", run_id.to_text()));
}

#[test]
fn plugin_lines_route_and_complete() {
    let mut p = PluginProgress::new();
    assert_eq!(classify_plugin_line("hello world", &mut p), Stream::Stdout);
    assert_eq!(classify_plugin_line(r#"{"foo":1}"#, &mut p), Stream::Stdout);
    assert_eq!(classify_plugin_line(r#"  {"progress":0.5,"description":"halfway"}"#, &mut p), Stream::Plugin);
    assert_eq!(p, PluginProgress { completed: false, exit_code: None });
    assert_eq!(classify_plugin_line(r#"{"complete":1,"code":3,"description":"done"}"#, &mut p), Stream::Plugin);
    assert_eq!(p, PluginProgress { completed: true, exit_code: Some(3) });
    assert_eq!(exit_code_of_run(true, &p, Some(0)), Some(3));
}

#[test]
fn plugin_complete_without_code_defaults_to_zero() {
    let mut p = PluginProgress::new();
    assert_eq!(classify_plugin_line(r#"{"complete":1,"description":"ok"}"#, &mut p), Stream::Plugin);
    assert_eq!(p.exit_code, Some(0));
    assert_eq!(exit_code_of_run(true, &p, Some(0)), Some(0));
}

#[test]
fn plugin_complete_false_or_zero_does_not_complete() {
    let mut p = PluginProgress::new();
    classify_plugin_line(r#"{"complete":false,"code":4}"#, &mut p);
    classify_plugin_line(r#"{"complete":0}"#, &mut p);
    assert!(!p.completed);
    classify_plugin_line(r#"{"complete":true,"code":"x"}"#, &mut p);
    assert_eq!(p, PluginProgress { completed: true, exit_code: None });
}

#[test]
fn plugin_without_complete_event_is_failure() {
    let mut p = PluginProgress::new();
    classify_plugin_line(r#"{"progress":0.5}"#, &mut p);
    assert_ne!(exit_code_of_run(true, &p, Some(0)), Some(0));
    assert_eq!(exit_code_of_run(true, &p, Some(0)), Some(-1));
    assert_eq!(exit_code_of_run(true, &p, Some(9)), Some(9));
    assert_eq!(exit_code_of_run(true, &p, None), Some(-1));
    assert_eq!(exit_code_of_run(false, &p, Some(7)), Some(7));
}

#[test]
fn local_results_by_ending() {
    let p = PluginProgress::new();
    assert_eq!(local_run_result(ProcessEnd::Exited(Some(7)), false, &p).unwrap(), (Some(7), false));
    assert_eq!(local_run_result(ProcessEnd::TimedOut, false, &p).unwrap(), (None, true));
    assert!(matches!(local_run_result(ProcessEnd::KillRequested, false, &p), Err(AgentError::Killed)));
}

#[test]
fn remote_results_and_command() {
    assert_eq!(remote_run_result(ProcessEnd::Exited(Some(2))), (2, false));
    assert_eq!(remote_run_result(ProcessEnd::Exited(None)), (-1, false));
    assert_eq!(remote_run_result(ProcessEnd::KillRequested), (-1, false));
    assert_eq!(remote_run_result(ProcessEnd::TimedOut), (-1, true));
    let c = dispatch_command("run.sh", &vec!["x".into()], "", false);
    assert_eq!(c.program, "/bin/sh");
    assert_eq!(c.args, vec!["-c".to_string(), "run.sh x".into()]);
    assert_eq!(c.cwd, None);
    let w = dispatch_command("run.bat", &vec![], "C:\\jobs", true);
    assert_eq!(w.program, "cmd");
    assert_eq!(w.args, vec!["/C".to_string(), "run.bat".into()]);
    assert_eq!(w.cwd, Some("C:\\jobs".to_string()));
}

// ---- runner -------------------------------------------------------------

#[test]
fn log_capture_stores_until_cap() {
    let mut c = LogCapture::new();
    assert_eq!(c.on_chunk(10), Some(0));
    assert_eq!(c.on_chunk(20), Some(1));
    assert_eq!(c.on_chunk(LOG_CAP - 30), Some(2));
    assert!(!c.truncated);
    assert_eq!(c.on_chunk(1), None);
    assert!(c.truncated);
    assert_eq!(c.on_chunk(0), None);
    assert_eq!(c.bytes, LOG_CAP + 1);
    assert_eq!(c.seq, 3);
}

#[test]
fn final_states_follow_exit_policy() {
    let p = ExitCodePolicy { max_exit_success: 0, fail_codes: vec![], condition_code: Some(3) };
    assert_eq!(final_state(Completion::Exited { timed_out: false, exit_code: Some(0) }, &p), RunState::Success);
    assert_eq!(final_state(Completion::Exited { timed_out: false, exit_code: Some(3) }, &p), RunState::Success);
    assert_eq!(final_state(Completion::Exited { timed_out: false, exit_code: Some(1) }, &p), RunState::Failed);
    assert_eq!(final_state(Completion::Exited { timed_out: false, exit_code: None }, &p), RunState::Failed);
    assert_eq!(final_state(Completion::Exited { timed_out: true, exit_code: Some(0) }, &p), RunState::Failed);
    assert_eq!(final_state(Completion::Killed, &p), RunState::Killed);
    assert_eq!(final_state(Completion::Lost, &p), RunState::Lost);
}

#[test]
fn retry_run_links_previous_attempt() {
    let job = JobBuilder::new("retry-test", "false", cron_trigger())
        .retry(RetryPolicy { max_attempts: 3, backoff: BackoffKind::Fixed { delay_secs: 7 } })
        .build()
        .unwrap();
    let prev = RunId::new();
    let (delay, run) = retry_run(&job, prev, 2);
    assert_eq!(delay, 7);
    assert_eq!(run.attempt, 2);
    assert_eq!(run.job_id, job.id);
    assert_eq!(run.state, RunState::Queued);
    assert_eq!(run.parent_run_ids, vec![prev]);
}

#[test]
fn new_run_is_queued() {
    let r = Run::new(JobId::new(), 1);
    assert_eq!(r.state, RunState::Queued);
    assert_eq!(r.attempt, 1);
    assert!(r.started_at.is_none());
}

// ---- webhook dedup ------------------------------------------------------

#[test]
fn first_insert_is_unique() {
    let mut c = WebhookDedup::new(Duration::from_secs(60).as_nanos(), 16);
    assert!(!c.check_and_insert("a".into()));
    assert_eq!(c.len(), 1);
}

#[test]
fn second_insert_within_window_is_duplicate() {
    let mut c = WebhookDedup::new(Duration::from_secs(60).as_nanos(), 16);
    assert!(!c.check_and_insert("a".into()));
    assert!(c.check_and_insert("a".into()));
}

#[test]
fn distinct_keys_are_independent() {
    let mut c = WebhookDedup::new(Duration::from_secs(60).as_nanos(), 16);
    assert!(!c.check_and_insert("a".into()));
    assert!(!c.check_and_insert("b".into()));
}

#[test]
fn prune_removes_expired() {
    let ms: u128 = 1_000_000;
    let mut c = WebhookDedup::new(Duration::from_millis(1).as_nanos(), 16);
    let _ = c.check_and_insert_at("a".into(), 0);
    c.prune_at(10 * ms);
    assert!(c.is_empty());
}

#[test]
fn evicts_when_full() {
    let ms: u128 = 1_000_000;
    let mut c = WebhookDedup::new(Duration::from_secs(60).as_nanos(), 2);
    let _ = c.check_and_insert_at("a".into(), 0);
    let _ = c.check_and_insert_at("b".into(), 2 * ms);
    let _ = c.check_and_insert_at("c".into(), 4 * ms);
    assert_eq!(c.len(), 2);
    // Oldest (`a`) should have been evicted.
    assert!(!c.check_and_insert_at("a".into(), 6 * ms));
}

#[test]
fn stale_fingerprint_is_refreshed() {
    let s: u128 = 1_000_000_000;
    let mut c = WebhookDedup::new(Duration::from_secs(60).as_nanos(), 4);
    assert!(!c.check_and_insert_at("k".into(), 0));
    assert!(c.check_and_insert_at("k".into(), 59 * s));
    assert!(!c.check_and_insert_at("k".into(), 60 * s));
    assert!(c.check_and_insert_at("k".into(), 100 * s));
    assert_eq!(c.window(), Duration::from_secs(60).as_nanos());
}

#[test]
fn dedup_settings_from_env_values() {
    assert_eq!(window_secs_from(None), DEFAULT_WINDOW_SECS);
    assert_eq!(window_secs_from(Some("120")), 120);
    assert_eq!(window_secs_from(Some("+7")), 7);
    assert_eq!(window_secs_from(Some("-1")), 300);
    assert_eq!(window_secs_from(Some("abc")), 300);
    assert_eq!(max_entries_from(None), DEFAULT_MAX_ENTRIES);
    assert_eq!(max_entries_from(Some("5")), 5);
    assert_eq!(max_entries_from(Some("")), 10_000);
    let zero_cap = WebhookDedup::new(Duration::from_secs(1).as_nanos(), 0);
    assert!(zero_cap.is_empty());
}

#[test]
fn dedup_keeps_its_window() {
    let mut c = WebhookDedup::new(Duration::from_millis(1500).as_nanos(), 4);
    assert_eq!(c.window(), Duration::from_millis(1500).as_nanos());
    let _ = c.check_and_insert("a".into());
    c.prune();
    assert_eq!(c.window(), Duration::from_millis(1500).as_nanos());
}

// ---- raft ---------------------------------------------------------------

#[test]
fn rsraft_resp_ok_and_err() {
    let ok: RsRaftResp = Ok(());
    let err: RsRaftResp = Err("nope".into());
    assert!(ok.is_ok());
    assert_eq!(err, Err("nope".to_string()));
}

#[test]
fn factory_registers_and_lists_peers() {
    let mut f = RaftNetworkFactory::new();
    assert!(f.is_empty());
    f.register_peer(Node::new(2, "10.0.0.2:9000"));
    f.register_peer(Node::new(3, "10.0.0.3:9000"));
    assert_eq!(f.len(), 2);
    let mut ids: Vec<_> = f.peers().into_iter().map(|p| p.id).collect();
    ids.sort();
    assert_eq!(ids, vec![2, 3]);
}

#[test]
fn client_stubs_return_unimplemented() {
    let mut f = RaftNetworkFactory::new();
    f.register_peer(Node::new(5, "x:1"));
    let c = f.client(5);
    assert!(c.append_entries().is_err());
    assert!(c.vote().is_err());
    assert!(c.install_snapshot().is_err());
}

#[test]
fn start_returns_ok_stub_single_node() {
    let r = RsRaft::start(1, (), vec![], "127.0.0.1:9100");
    assert_eq!(r.node_id(), 1);
    assert_eq!(r.bind(), "127.0.0.1:9100");
    assert!(r.peers().is_empty());
    assert!(!r.is_leader());
}

#[test]
fn start_records_peers() {
    let peers = vec![Node::new(2, "10.0.0.2:9100"), Node::new(3, "10.0.0.3:9100")];
    let r = RsRaft::start(1, (), peers.clone(), "0.0.0.0:9100");
    assert_eq!(r.peers().len(), 2);
    assert_eq!(r.network().len(), 2);
}

#[test]
fn apply_set_global_returns_ok() {
    let sm = RaftStateMachine::new(());
    let r = sm.apply(RsRaftReq::SetGlobal { name: "k".into(), value: "v".into() });
    assert!(r.is_ok());
}

#[test]
fn apply_insert_job_returns_ok() {
    let sm = RaftStateMachine::new(());
    let r = sm.apply(RsRaftReq::InsertJob(job("j1", "echo")));
    assert!(r.is_ok());
}

#[test]
fn remote_reports_and_deadlines() {
    assert_eq!(deadline_secs(0), None);
    assert_eq!(deadline_secs(30), Some(30));
    let spawn_failed = remote_report("01HXYZ".to_string(), None);
    assert_eq!(spawn_failed.run_id, "01HXYZ");
    assert_eq!((spawn_failed.exit_code, spawn_failed.timed_out), (-1, false));
    let exited = remote_report("r1".to_string(), Some(ProcessEnd::Exited(Some(3))));
    assert_eq!((exited.run_id.as_str(), exited.exit_code, exited.timed_out), ("r1", 3, false));
    let timed = remote_report("r2".to_string(), Some(ProcessEnd::TimedOut));
    assert_eq!((timed.exit_code, timed.timed_out), (-1, true));
    let killed = remote_report("r3".to_string(), Some(ProcessEnd::KillRequested));
    assert_eq!((killed.exit_code, killed.timed_out, killed.peak_rss_bytes), (-1, false, 0));
}

#[test]
fn plugin_stream_last_code_wins() {
    let mut p = PluginProgress::new();
    for line in [
        "starting",
        "{\"progress\": 0.5}",
        "{\"complete\": 1}",
        "{\"complete\": true, \"code\": 7}",
        "{\"complete\": 1, \"code\": \"x\"}",
        "{\"complete\": 1}",
    ] {
        let _ = classify_plugin_line(line, &mut p);
    }
    assert!(p.completed);
    assert_eq!(p.exit_code, Some(7));
    let mut q = PluginProgress::new();
    let _ = classify_plugin_line("{\"complete\": 1}", &mut q);
    assert_eq!(q.exit_code, Some(0));
    let mut n = PluginProgress::new();
    let _ = classify_plugin_line("{\"complete\": 0, \"code\": 4}", &mut n);
    assert!(!n.completed);
    assert_eq!(n.exit_code, None);
}

#[test]
fn plugin_stdin_escapes_json_strings() {
    let mut job = job("p3", "/bin/true");
    job.shell = Shell::Plugin;
    job.env.insert("Q".into(), "a\"b\\c\n\u{1}".into());
    let run_id = RunId(0);
    let s = build_plugin_stdin(run_id, &job);
    assert_eq!(
        s,
        "{\"id\":\"00000000000000000000000000\",\"params\":{\"Q\":\"a\\\"b\\\\c\\n\\u0001\"}}\n"
    );
}
