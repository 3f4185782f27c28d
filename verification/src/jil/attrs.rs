//! Applying `key: value` attributes to job specs.

use vstd::prelude::*;
use crate::jil::error::{JilError, JilErrorV};
use crate::jil::model::{
    apply_all, apply_all_partial, apply_to_partial, apply_to_spec, debug_quoted, debug_text,
    ignored_attr, job_type_of, not_integer, not_unsigned, unknown_warning, unmapped_warning, yes_no,
};
use crate::jil::scan::pairs_view;
use crate::jil::spec::{JilJobType, JobSpec, JobSpecV, PartialJobSpec, PartialJobSpecV, texts};
use crate::text::{
    chars_vec, lower_range, lower_seq, parse_i32_range, parse_unsigned_range, str_eq_lit,
    string_of, string_of_str, trim, trim_bounds, vec_eq_lit,
};

verus! {

/// The job type a JIL `job_type` value names.
pub fn parse_job_type(s: &str, job_name: &str) -> (r: Result<JilJobType, JilError>)
    ensures
        match job_type_of(s@, job_name@) {
            Ok(t) => r == Ok::<JilJobType, JilError>(t),
            Err(e) => r is Err && r->Err_0@ == e,
        },
{
    let v = chars_vec(s);
    let l = lower_range(&v, 0, v.len());
    assert(v@.subrange(0, v@.len() as int) =~= s@);
    if vec_eq_lit(&l, "c") || vec_eq_lit(&l, "cmd") || vec_eq_lit(&l, "command") {
        Ok(JilJobType::Command)
    } else if vec_eq_lit(&l, "box") {
        Ok(JilJobType::Box)
    } else if vec_eq_lit(&l, "fw") || vec_eq_lit(&l, "file_watcher") {
        Ok(JilJobType::FileWatcher)
    } else {
        assert(l@.subrange(0, l@.len() as int) =~= l@);
        Err(JilError::UnknownJobType(string_of(&l, 0, l.len()), string_of_str(job_name)))
    }
}

/// A `y`/`n` flag.
pub fn parse_yn(s: &str, attr: &str) -> (r: Result<bool, JilError>)
    ensures
        match yes_no(s@, attr@) {
            Ok(b) => r == Ok::<bool, JilError>(b),
            Err(e) => r is Err && r->Err_0@ == e,
        },
{
    let v = chars_vec(s);
    let l = lower_range(&v, 0, v.len());
    assert(v@.subrange(0, v@.len() as int) =~= s@);
    let (a, b) = trim_bounds(&l, 0, l.len());
    assert(l@.subrange(0, l@.len() as int) =~= l@);
    let t = string_of(&l, a, b);
    let ts = t.as_str();
    if str_eq_lit(ts, "y") || str_eq_lit(ts, "yes") || str_eq_lit(ts, "true") || str_eq_lit(ts, "1") {
        Ok(true)
    } else if str_eq_lit(ts, "n") || str_eq_lit(ts, "no") || str_eq_lit(ts, "false") || str_eq_lit(ts, "0") {
        Ok(false)
    } else {
        let mut detail = debug_quoted(ts);
        detail.append(" is not y/n");
        Err(JilError::BadValue { attr: string_of_str(attr), detail })
    }
}

/// `value.parse::<u64>()` with at most `max`.
fn parse_unsigned_str(value: &str, max: u64) -> (r: Option<u64>)
    ensures
        r == (match crate::text::parse_unsigned(value@, max as nat) {
            Some(n) => Some(n as u64),
            None => None::<u64>,
        }),
{
    let v = chars_vec(value);
    assert(v@.subrange(0, v@.len() as int) =~= value@);
    parse_unsigned_range(&v, 0, v.len(), max)
}

/// `value.parse::<i32>()`.
fn parse_i32_str(value: &str) -> (r: Option<i32>)
    ensures
        r == (match crate::text::parse_i32_spec(value@) {
            Some(n) => Some(n as i32),
            None => None::<i32>,
        }),
{
    let v = chars_vec(value);
    assert(v@.subrange(0, v@.len() as int) =~= value@);
    parse_i32_range(&v, 0, v.len())
}

/// A bad-value error whose detail is the value's `{:?}` text and `tail`.
fn bad_value(key: &str, value: &str, tail: &str) -> (e: JilError)
    ensures
        e@ == (JilErrorV::BadValue { attr: key@, detail: debug_text(value@) + tail@ }),
{
    let mut detail = debug_quoted(value);
    detail.append(tail);
    JilError::BadValue { attr: string_of_str(key), detail }
}

proof fn lemma_texts_push(v: Seq<String>, s: String)
    ensures
        texts(v.push(s)) == texts(v).push(s@),
{
    assert(texts(v.push(s)) =~= texts(v).push(s@));
}

/// Applies one attribute to a full spec; on an error the spec is unchanged.
#[verifier::rlimit(100)]
pub fn apply_attr_to_spec(spec: &mut JobSpec, key: &str, value: &str) -> (r: Result<(), JilError>)
    ensures
        match apply_to_spec(old(spec)@, key@, value@) {
            Ok(s) => r is Ok && final(spec)@ == s,
            Err(e) => r is Err && r->Err_0@ == e && final(spec)@ == old(spec)@,
        },
{
    if str_eq_lit(key, "job_type") {
        let t = parse_job_type(value, spec.name.as_str())?;
        spec.job_type = t;
        Ok(())
    } else if str_eq_lit(key, "command") {
        spec.command = Some(string_of_str(value));
        Ok(())
    } else if str_eq_lit(key, "machine") {
        spec.machine = Some(string_of_str(value));
        Ok(())
    } else if str_eq_lit(key, "owner") {
        spec.owner = Some(string_of_str(value));
        Ok(())
    } else if str_eq_lit(key, "days_of_week") {
        spec.days_of_week = Some(string_of_str(value));
        Ok(())
    } else if str_eq_lit(key, "start_times") {
        spec.start_times = Some(string_of_str(value));
        Ok(())
    } else if str_eq_lit(key, "condition") {
        spec.condition = Some(string_of_str(value));
        Ok(())
    } else if str_eq_lit(key, "alarm_if_fail") {
        let b = parse_yn(value, key)?;
        spec.alarm_if_fail = b;
        Ok(())
    } else if str_eq_lit(key, "n_retrys") || str_eq_lit(key, "n_retries") {
        match parse_unsigned_str(value, 0xffff_ffff) {
            Some(n) => {
                spec.n_retrys = n as u32;
                Ok(())
            },
            None => Err(bad_value(key, value, " is not a non-negative integer")),
        }
    } else if str_eq_lit(key, "term_run_time") {
        match parse_unsigned_str(value, 0xffff_ffff_ffff_ffff) {
            Some(n) => {
                spec.term_run_time = Some(n);
                Ok(())
            },
            None => Err(bad_value(key, value, " is not a non-negative integer")),
        }
    } else if str_eq_lit(key, "description") {
        spec.description = Some(string_of_str(value));
        Ok(())
    } else if str_eq_lit(key, "std_out_file") {
        spec.std_out_file = Some(string_of_str(value));
        Ok(())
    } else if str_eq_lit(key, "std_err_file") {
        spec.std_err_file = Some(string_of_str(value));
        Ok(())
    } else if str_eq_lit(key, "box_name") {
        spec.box_name = Some(string_of_str(value));
        Ok(())
    } else if str_eq_lit(key, "exclude_calendar") {
        spec.exclude_calendar = Some(string_of_str(value));
        Ok(())
    } else if str_eq_lit(key, "must_start_times") {
        spec.must_start_times = Some(string_of_str(value));
        Ok(())
    } else if str_eq_lit(key, "must_complete_times") {
        spec.must_complete_times = Some(string_of_str(value));
        Ok(())
    } else if str_eq_lit(key, "fail_codes") {
        spec.fail_codes = Some(string_of_str(value));
        Ok(())
    } else if str_eq_lit(key, "max_exit_success") {
        match parse_i32_str(value) {
            Some(n) => {
                spec.max_exit_success = Some(n);
                Ok(())
            },
            None => Err(bad_value(key, value, " is not an integer")),
        }
    } else if str_eq_lit(key, "condition_code") {
        match parse_i32_str(value) {
            Some(n) => {
                spec.condition_code = Some(n);
                Ok(())
            },
            None => Err(bad_value(key, value, " is not an integer")),
        }
    } else if str_eq_lit(key, "box_success") {
        spec.box_success = Some(string_of_str(value));
        Ok(())
    } else if str_eq_lit(key, "box_failure") {
        spec.box_failure = Some(string_of_str(value));
        Ok(())
    } else if str_eq_lit(key, "box_terminator") {
        let b = parse_yn(value, key)?;
        spec.box_terminator = Some(b);
        Ok(())
    } else if str_eq_lit(key, "job_terminator") {
        let b = parse_yn(value, key)?;
        spec.job_terminator = Some(b);
        Ok(())
    } else if str_eq_lit(key, "auto_hold") {
        let b = parse_yn(value, key)?;
        spec.auto_hold = Some(b);
        Ok(())
    } else if str_eq_lit(key, "resources") {
        spec.resources = Some(string_of_str(value));
        Ok(())
    } else if str_eq_lit(key, "date_conditions") || str_eq_lit(key, "timezone") || str_eq_lit(
        key,
        "run_calendar",
    ) || str_eq_lit(key, "max_run_alarm") || str_eq_lit(key, "watch_file") || str_eq_lit(
        key,
        "watch_interval",
    ) || str_eq_lit(key, "watch_file_min_size") || str_eq_lit(key, "profile") || str_eq_lit(
        key,
        "application",
    ) || str_eq_lit(key, "group") || str_eq_lit(key, "permission") {
        let mut w = string_of_str("attribute ");
        let k = debug_quoted(key);
        w.append(k.as_str());
        w.append(" is not yet mapped; value ");
        let v = debug_quoted(value);
        w.append(v.as_str());
        w.append(" ignored");
        proof {
            lemma_texts_push(spec.warnings@, w);
        }
        spec.warnings.push(w);
        Ok(())
    } else {
        let mut w = string_of_str("unknown attribute ");
        let k = debug_quoted(key);
        w.append(k.as_str());
        w.append(" ignored");
        proof {
            lemma_texts_push(spec.warnings@, w);
        }
        spec.warnings.push(w);
        Ok(())
    }
}

/// Applies one attribute to a partial spec; values that do not parse are
/// dropped.
#[verifier::rlimit(100)]
pub fn apply_attr_to_partial(spec: &mut PartialJobSpec, key: &str, value: &str)
    ensures
        final(spec)@ == apply_to_partial(old(spec)@, key@, value@),
{
    if str_eq_lit(key, "command") {
        spec.command = Some(string_of_str(value));
    } else if str_eq_lit(key, "machine") {
        spec.machine = Some(string_of_str(value));
    } else if str_eq_lit(key, "owner") {
        spec.owner = Some(string_of_str(value));
    } else if str_eq_lit(key, "days_of_week") {
        spec.days_of_week = Some(string_of_str(value));
    } else if str_eq_lit(key, "start_times") {
        spec.start_times = Some(string_of_str(value));
    } else if str_eq_lit(key, "condition") {
        spec.condition = Some(string_of_str(value));
    } else if str_eq_lit(key, "alarm_if_fail") {
        if let Ok(b) = parse_yn(value, key) {
            spec.alarm_if_fail = Some(b);
        }
    } else if str_eq_lit(key, "n_retrys") || str_eq_lit(key, "n_retries") {
        if let Some(n) = parse_unsigned_str(value, 0xffff_ffff) {
            spec.n_retrys = Some(n as u32);
        }
    } else if str_eq_lit(key, "term_run_time") {
        if let Some(n) = parse_unsigned_str(value, 0xffff_ffff_ffff_ffff) {
            spec.term_run_time = Some(n);
        }
    } else if str_eq_lit(key, "description") {
        spec.description = Some(string_of_str(value));
    } else if str_eq_lit(key, "std_out_file") {
        spec.std_out_file = Some(string_of_str(value));
    } else if str_eq_lit(key, "std_err_file") {
        spec.std_err_file = Some(string_of_str(value));
    } else if str_eq_lit(key, "box_name") {
        spec.box_name = Some(string_of_str(value));
    } else if str_eq_lit(key, "exclude_calendar") {
        spec.exclude_calendar = Some(string_of_str(value));
    } else if str_eq_lit(key, "must_start_times") {
        spec.must_start_times = Some(string_of_str(value));
    } else if str_eq_lit(key, "must_complete_times") {
        spec.must_complete_times = Some(string_of_str(value));
    } else if str_eq_lit(key, "fail_codes") {
        spec.fail_codes = Some(string_of_str(value));
    } else if str_eq_lit(key, "max_exit_success") {
        if let Some(n) = parse_i32_str(value) {
            spec.max_exit_success = Some(n);
        }
    } else if str_eq_lit(key, "condition_code") {
        if let Some(n) = parse_i32_str(value) {
            spec.condition_code = Some(n);
        }
    } else if str_eq_lit(key, "box_success") {
        spec.box_success = Some(string_of_str(value));
    } else if str_eq_lit(key, "box_failure") {
        spec.box_failure = Some(string_of_str(value));
    } else if str_eq_lit(key, "box_terminator") {
        if let Ok(b) = parse_yn(value, key) {
            spec.box_terminator = Some(b);
        }
    } else if str_eq_lit(key, "job_terminator") {
        if let Ok(b) = parse_yn(value, key) {
            spec.job_terminator = Some(b);
        }
    } else if str_eq_lit(key, "auto_hold") {
        if let Ok(b) = parse_yn(value, key) {
            spec.auto_hold = Some(b);
        }
    } else if str_eq_lit(key, "resources") {
        spec.resources = Some(string_of_str(value));
    } else {
        let mut w = string_of_str("unknown attribute ");
        let k = debug_quoted(key);
        w.append(k.as_str());
        w.append(" ignored");
        proof {
            lemma_texts_push(spec.warnings@, w);
        }
        spec.warnings.push(w);
    }
}

/// Builds the spec of `insert_job: name` from its attributes, in order; the
/// first bad attribute stops.
pub fn build_job_spec(name: &str, attrs: Vec<(String, String)>) -> (r: Result<JobSpec, JilError>)
    ensures
        match apply_all(crate::jil::spec::empty_spec(name@, JilJobType::Command), pairs_view(attrs@)) {
            Ok(s) => r is Ok && r->Ok_0@ == s,
            Err(e) => r is Err && r->Err_0@ == e,
        },
{
    let mut spec = JobSpec::empty(name, JilJobType::Command);
    let ghost all = pairs_view(attrs@);
    let mut i: usize = 0;
    assert(all.subrange(0, all.len() as int) =~= all);
    while i < attrs.len()
        invariant
            i <= attrs.len(),
            all == pairs_view(attrs@),
            apply_all(crate::jil::spec::empty_spec(name@, JilJobType::Command), all) == apply_all(
                spec@,
                all.subrange(i as int, all.len() as int),
            ),
        decreases attrs.len() - i,
    {
        let ghost rest = all.subrange(i as int, all.len() as int);
        assert(rest[0] == (attrs@[i as int].0@, attrs@[i as int].1@));
        assert(rest.drop_first() =~= all.subrange(i + 1, all.len() as int));
        let (k, v) = (&attrs[i].0, &attrs[i].1);
        apply_attr_to_spec(&mut spec, k.as_str(), v.as_str())?;
        i = i + 1;
    }
    assert(all.subrange(i as int, all.len() as int).len() == 0);
    Ok(spec)
}

/// Builds the partial spec of `update_job` from its attributes, in order.
pub fn build_partial_spec(attrs: Vec<(String, String)>) -> (r: PartialJobSpec)
    ensures
        r@ == apply_all_partial(crate::jil::spec::empty_partial(), pairs_view(attrs@)),
{
    let mut spec = PartialJobSpec::new();
    let ghost all = pairs_view(attrs@);
    let mut i: usize = 0;
    assert(all.subrange(0, all.len() as int) =~= all);
    while i < attrs.len()
        invariant
            i <= attrs.len(),
            all == pairs_view(attrs@),
            apply_all_partial(crate::jil::spec::empty_partial(), all) == apply_all_partial(
                spec@,
                all.subrange(i as int, all.len() as int),
            ),
        decreases attrs.len() - i,
    {
        let ghost rest = all.subrange(i as int, all.len() as int);
        assert(rest[0] == (attrs@[i as int].0@, attrs@[i as int].1@));
        assert(rest.drop_first() =~= all.subrange(i + 1, all.len() as int));
        apply_attr_to_partial(&mut spec, attrs[i].0.as_str(), attrs[i].1.as_str());
        i = i + 1;
    }
    assert(all.subrange(i as int, all.len() as int).len() == 0);
    spec
}

} // verus!
