use rsched::sla::{evaluate_must_times, evaluate_sla, SlaBreach};
use rsched::policy::AlertEvent;
use rsched::time::{TimeOfDay, Timestamp};

const NOW: i64 = 1_780_000_000;

fn secs_ago(s: i64) -> Timestamp {
    Timestamp { secs: NOW - s, nanos: 0 }
}

fn now() -> Timestamp {
    Timestamp { secs: NOW, nanos: 0 }
}

#[test]
fn no_breach_when_under_sla() {
    assert_eq!(evaluate_sla(now(), secs_ago(120), Some(secs_ago(30)), 60, 30), SlaBreach::NoBreach);
}

#[test]
fn sla_miss_when_exceeded() {
    assert_eq!(evaluate_sla(now(), secs_ago(200), Some(secs_ago(120)), 60, 30), SlaBreach::SlaMiss);
}

#[test]
fn late_start_when_not_started_in_time() {
    assert_eq!(evaluate_sla(now(), secs_ago(120), None, 0, 30), SlaBreach::LateStart);
}

#[test]
fn sla_zero_disables_check() {
    assert_eq!(evaluate_sla(now(), secs_ago(3700), Some(secs_ago(3600)), 0, 30), SlaBreach::NoBreach);
}

#[test]
fn sla_boundaries_use_whole_seconds() {
    let started = Timestamp { secs: NOW - 61, nanos: 500_000_000 };
    assert_eq!(evaluate_sla(now(), secs_ago(0), Some(started), 60, 0), SlaBreach::NoBreach);
    assert_eq!(evaluate_sla(now(), secs_ago(31), None, 0, 30), SlaBreach::LateStart);
    assert_eq!(evaluate_sla(now(), secs_ago(30), None, 0, 30), SlaBreach::NoBreach);
    assert_eq!(evaluate_sla(secs_ago(100), now(), None, 0, 0), SlaBreach::NoBreach);
}

#[test]
fn breach_events() {
    assert_eq!(SlaBreach::NoBreach.to_event(), None);
    assert_eq!(SlaBreach::SlaMiss.to_event(), Some(AlertEvent::OnSlaMiss));
    assert_eq!(SlaBreach::LateStart.to_event(), Some(AlertEvent::OnLateStart));
}

fn today_start() -> i64 {
    NOW - NOW.rem_euclid(86400)
}

fn at(h: i64, m: i64) -> Timestamp {
    Timestamp { secs: today_start() + h * 3600 + m * 60, nanos: 0 }
}

fn hm(h: u32, m: u32) -> TimeOfDay {
    TimeOfDay::from_hms(h, m, 0).unwrap()
}

#[test]
fn no_breach_before_must_start_window() {
    assert_eq!(evaluate_must_times(at(1, 30), None, &[hm(2, 0)], &[]), SlaBreach::NoBreach);
}

#[test]
fn late_start_when_past_all_must_start_times() {
    assert_eq!(evaluate_must_times(at(3, 0), None, &[hm(2, 0), hm(2, 30)], &[]), SlaBreach::LateStart);
}

#[test]
fn no_late_start_when_one_slot_still_pending() {
    assert_eq!(evaluate_must_times(at(2, 15), None, &[hm(2, 0), hm(2, 30)], &[]), SlaBreach::NoBreach);
}

#[test]
fn sla_miss_when_past_must_complete() {
    assert_eq!(evaluate_must_times(at(4, 30), Some(at(2, 0)), &[], &[hm(4, 0)]), SlaBreach::SlaMiss);
}

#[test]
fn no_sla_miss_before_must_complete() {
    assert_eq!(evaluate_must_times(at(3, 30), Some(at(2, 0)), &[], &[hm(4, 0)]), SlaBreach::NoBreach);
}

#[test]
fn must_complete_before_start_ignored() {
    assert_eq!(evaluate_must_times(at(4, 30), Some(at(4, 0)), &[], &[hm(3, 0)]), SlaBreach::NoBreach);
}

#[test]
fn empty_must_times_lists_never_fire() {
    assert_eq!(evaluate_must_times(at(12, 0), None, &[], &[]), SlaBreach::NoBreach);
    assert_eq!(evaluate_must_times(at(12, 0), Some(at(10, 0)), &[], &[]), SlaBreach::NoBreach);
}
