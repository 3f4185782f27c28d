//! What reading JIL text means, stated over character sequences.
//!
//! JIL is line-oriented with `key: value` pairs. A new block begins when an
//! `insert_job`, `update_job` or `delete_job` verb appears. `/* … */` block
//! comments (which Autosys uses as separators) are replaced by a line break
//! first.

use vstd::prelude::*;
use crate::jil::error::JilErrorV;
use crate::jil::spec::{JilJobType, JobSpecV, PartialJobSpecV, empty_partial, empty_spec};
use crate::jil::JilBlockV;
use crate::text::{
    ends_with, is_ascii_ws, is_unicode_ws, lower_seq, parse_i32_spec, parse_unsigned,
    starts_with, trim, trim_start,
};

verus! {

/// First `k >= i` at which `*/` starts, if any.
pub open spec fn close_at(s: Seq<char>, i: int) -> Option<int>
    decreases s.len() - i,
{
    if i < 0 || i + 1 >= s.len() {
        None
    } else if s[i] == '*' && s[i + 1] == '/' {
        Some(i)
    } else {
        close_at(s, i + 1)
    }
}

/// The text with every `/* ... */` comment replaced by a line break, or
/// `None` when a comment is not closed.
pub open spec fn strip(s: Seq<char>) -> Option<Seq<char>>
    decreases s.len(),
{
    if s.len() == 0 {
        Some(Seq::empty())
    } else if s.len() >= 2 && s[0] == '/' && s[1] == '*' {
        match close_at(s, 2) {
            None => None,
            Some(k) => {
                proof {
                    lemma_close_at(s, 2);
                }
                match strip(s.subrange(k + 2, s.len() as int)) {
                    Some(r) => Some(seq!['\n'] + r),
                    None => None,
                }
            },
        }
    } else {
        match strip(s.drop_first()) {
            Some(r) => Some(seq![s[0]] + r),
            None => None,
        }
    }
}

/// Index of the first `c` at or after `i`, or the length.
pub open spec fn next_index(s: Seq<char>, c: char, i: int) -> int
    decreases s.len() - i,
{
    if i < 0 || i >= s.len() {
        s.len() as int
    } else if s[i] == c {
        i
    } else {
        next_index(s, c, i + 1)
    }
}

/// The lines starting at `start`: the pieces between line feeds, the last
/// one only when it is not empty (`str::lines`; a carriage return before a
/// line feed stays on its line, where trimming drops it).
pub open spec fn lines_from(t: Seq<char>, start: int) -> Seq<Seq<char>>
    decreases t.len() - start,
{
    if start < 0 || start >= t.len() {
        Seq::empty()
    } else {
        let e = next_index(t, '\n', start);
        if e >= start && e < t.len() {
            seq![t.subrange(start, e)] + lines_from(t, e + 1)
        } else {
            seq![t.subrange(start, t.len() as int)]
        }
    }
}

/// The trimmed lines of `t`.
pub open spec fn trimmed_lines(t: Seq<char>) -> Seq<Seq<char>> {
    lines_from(t, 0).map_values(|l: Seq<char>| trim(l))
}

/// Index of the first ASCII whitespace character, or the length.
pub open spec fn first_ascii_ws(s: Seq<char>, i: int) -> int
    decreases s.len() - i,
{
    if i < 0 || i >= s.len() {
        s.len() as int
    } else if is_ascii_ws(s[i]) {
        i
    } else {
        first_ascii_ws(s, i + 1)
    }
}

/// Index of the first Unicode whitespace character, or the length.
pub open spec fn first_ws(s: Seq<char>, i: int) -> int
    decreases s.len() - i,
{
    if i < 0 || i >= s.len() {
        s.len() as int
    } else if is_unicode_ws(s[i]) {
        i
    } else {
        first_ws(s, i + 1)
    }
}

/// The words of `s` (`str::split_whitespace`).
pub open spec fn words(s: Seq<char>) -> Seq<Seq<char>>
    decreases s.len(),
{
    let t = trim_start(s);
    if t.len() == 0 {
        Seq::empty()
    } else {
        let e = first_ws(t, 0);
        proof {
            lemma_trim_start(s);
            lemma_first_ws(t, 0);
        }
        seq![t.subrange(0, e)] + words(t.subrange(e, t.len() as int))
    }
}

/// The job name at the start of a verb's value, and the text after it
/// (trimmed).
pub open spec fn name_and_rest(rest: Seq<char>) -> (Seq<char>, Seq<char>) {
    let r = trim(rest);
    let e = first_ascii_ws(r, 0);
    (r.subrange(0, e), trim(r.subrange(e, r.len() as int)))
}

/// `key: value` pairs written on the verb line after the job name: a word
/// ending in `:` takes the next word as its value; a word `k:v` is split at
/// its first `:`. Keys are lower-cased.
#[verifier::opaque]
pub open spec fn inline_pairs(toks: Seq<Seq<char>>) -> Seq<(Seq<char>, Seq<char>)>
    decreases toks.len(),
{
    if toks.len() == 0 {
        Seq::empty()
    } else {
        let tok = toks[0];
        if tok.len() > 0 && tok.last() == ':' {
            if toks.len() > 1 {
                seq![(lower_seq(tok.drop_last()), toks[1])] + inline_pairs(
                    toks.subrange(2, toks.len() as int),
                )
            } else {
                Seq::empty()
            }
        } else if next_index(tok, ':', 0) < tok.len() {
            let c = next_index(tok, ':', 0);
            let k = tok.subrange(0, c);
            let v = tok.subrange(c + 1, tok.len() as int);
            if v.len() > 0 {
                seq![(lower_seq(k), v)] + inline_pairs(toks.drop_first())
            } else if toks.len() > 1 {
                seq![(lower_seq(k), toks[1])] + inline_pairs(toks.subrange(2, toks.len() as int))
            } else {
                Seq::empty()
            }
        } else {
            inline_pairs(toks.drop_first())
        }
    }
}

/// A line that begins a new block.
pub open spec fn verb_line(line: Seq<char>) -> bool {
    let low = lower_seq(line);
    starts_with(low, "insert_job"@) || starts_with(low, "update_job"@) || starts_with(
        low,
        "delete_job"@,
    )
}

/// `\"` replaced by `"`, left to right.
pub open spec fn unescape_quotes(s: Seq<char>) -> Seq<char>
    decreases s.len(),
{
    if s.len() == 0 {
        s
    } else if s.len() >= 2 && s[0] == '\\' && s[1] == '"' {
        seq!['"'] + unescape_quotes(s.subrange(2, s.len() as int))
    } else {
        seq![s[0]] + unescape_quotes(s.drop_first())
    }
}

/// An attribute value: trimmed; when wrapped in double quotes, the quotes
/// are dropped and `\"` inside becomes `"`.
pub open spec fn attr_value(s: Seq<char>) -> Seq<char> {
    let t = trim(s);
    if t.len() >= 2 && t[0] == '"' && t.last() == '"' {
        unescape_quotes(t.subrange(1, t.len() - 1))
    } else {
        t
    }
}

/// The attribute of one line: lower-cased trimmed key before the first `:`,
/// value after it.
pub open spec fn line_pair(line: Seq<char>, c: int) -> (Seq<char>, Seq<char>) {
    (lower_seq(trim(line.subrange(0, c))), attr_value(line.subrange(c + 1, line.len() as int)))
}

/// Attribute lines from line `i` on, up to a blank line, a verb line or the
/// end: the pairs read and the index where reading stopped. Lines without
/// `:` are passed over.
pub open spec fn gather(tl: Seq<Seq<char>>, i: int) -> (Seq<(Seq<char>, Seq<char>)>, int)
    decreases tl.len() - i,
{
    if i < 0 || i >= tl.len() {
        (Seq::empty(), i)
    } else {
        let line = tl[i];
        if line.len() == 0 || verb_line(line) {
            (Seq::empty(), i)
        } else if next_index(line, ':', 0) < line.len() {
            let (rest, j) = gather(tl, i + 1);
            (seq![line_pair(line, next_index(line, ':', 0))] + rest, j)
        } else {
            gather(tl, i + 1)
        }
    }
}

/// The `{:?}` text of a string (`<str as Debug>::fmt`): quoted, with
/// `char::escape_debug` escapes.
pub uninterp spec fn debug_text(s: Seq<char>) -> Seq<char>;

/// `format!("{:?}", s)` (`<str as Debug>::fmt`); its text depends on `s` alone.
#[verifier::external_body]
pub(crate) fn debug_quoted(s: &str) -> (r: String)
    ensures
        r@ == debug_text(s@),
{
    format!("{:?}", s)
}

/// Job types by their JIL spelling (case-insensitive).
pub open spec fn job_type_of(s: Seq<char>, job_name: Seq<char>) -> Result<JilJobType, JilErrorV> {
    let l = lower_seq(s);
    if l == "c"@ || l == "cmd"@ || l == "command"@ {
        Ok(JilJobType::Command)
    } else if l == "box"@ {
        Ok(JilJobType::Box)
    } else if l == "fw"@ || l == "file_watcher"@ {
        Ok(JilJobType::FileWatcher)
    } else {
        Err(JilErrorV::UnknownJobType(l, job_name))
    }
}

/// `y`/`n` flags (case-insensitive, surrounding whitespace ignored).
pub open spec fn yes_no(s: Seq<char>, attr: Seq<char>) -> Result<bool, JilErrorV> {
    let l = trim(lower_seq(s));
    if l == "y"@ || l == "yes"@ || l == "true"@ || l == "1"@ {
        Ok(true)
    } else if l == "n"@ || l == "no"@ || l == "false"@ || l == "0"@ {
        Ok(false)
    } else {
        Err(JilErrorV::BadValue { attr, detail: debug_text(l) + " is not y/n"@ })
    }
}

/// A JIL flag reads `y`, `yes`, `true` and `1` as yes and `n`, `no`,
/// `false` and `0` as no, in any letter case and with surrounding whitespace;
/// any other value is a bad value naming the attribute.
pub proof fn lemma_yes_no_values(s: Seq<char>, attr: Seq<char>)
    ensures
        yes_no(s, attr) == Ok::<bool, JilErrorV>(true) <==> ({
            let l = trim(lower_seq(s));
            l == "y"@ || l == "yes"@ || l == "true"@ || l == "1"@
        }),
        yes_no(s, attr) == Ok::<bool, JilErrorV>(false) <==> ({
            let l = trim(lower_seq(s));
            l == "n"@ || l == "no"@ || l == "false"@ || l == "0"@
        }),
        yes_no(s, attr) is Err ==> (yes_no(s, attr)->Err_0 matches JilErrorV::BadValue { attr: a, .. }
            && a == attr),
{
    reveal_strlit("y");
    reveal_strlit("yes");
    reveal_strlit("true");
    reveal_strlit("1");
    reveal_strlit("n");
    reveal_strlit("no");
    reveal_strlit("false");
    reveal_strlit("0");
    assert("n"@[0] != "y"@[0]);
    assert("no"@[0] != "yes"@[0]);
    assert("false"@[0] != "true"@[0]);
    assert("0"@[0] != "1"@[0]);
    assert("no"@.len() != "y"@.len() && "no"@.len() != "yes"@.len() && "no"@.len() != "true"@.len());
    assert("n"@.len() != "yes"@.len() && "n"@.len() != "true"@.len());
    assert("false"@.len() != "y"@.len() && "false"@.len() != "yes"@.len() && "false"@.len() != "true"@.len());
    assert("0"@[0] != "y"@[0] && "0"@.len() != "yes"@.len() && "0"@.len() != "true"@.len());
    assert("n"@[0] != "1"@[0] && "no"@.len() != "1"@.len() && "false"@.len() != "1"@.len());
}

/// Attributes that real JIL carries but that are not mapped.
pub open spec fn ignored_attr(k: Seq<char>) -> bool {
    k == "date_conditions"@ || k == "timezone"@ || k == "run_calendar"@ || k == "max_run_alarm"@
        || k == "watch_file"@ || k == "watch_interval"@ || k == "watch_file_min_size"@ || k
        == "profile"@ || k == "application"@ || k == "group"@ || k == "permission"@
}

/// Warning for a known attribute that is not mapped.
pub open spec fn unmapped_warning(k: Seq<char>, v: Seq<char>) -> Seq<char> {
    "attribute "@ + debug_text(k) + " is not yet mapped; value "@ + debug_text(v) + " ignored"@
}

/// Warning for an unknown attribute.
pub open spec fn unknown_warning(k: Seq<char>) -> Seq<char> {
    "unknown attribute "@ + debug_text(k) + " ignored"@
}

/// Error for a value that should be a non-negative integer.
pub open spec fn not_unsigned(k: Seq<char>, v: Seq<char>) -> JilErrorV {
    JilErrorV::BadValue { attr: k, detail: debug_text(v) + " is not a non-negative integer"@ }
}

/// Error for a value that should be an integer.
pub open spec fn not_integer(k: Seq<char>, v: Seq<char>) -> JilErrorV {
    JilErrorV::BadValue { attr: k, detail: debug_text(v) + " is not an integer"@ }
}

/// One attribute applied to a full spec.
pub open spec fn apply_to_spec(s: JobSpecV, k: Seq<char>, v: Seq<char>) -> Result<
    JobSpecV,
    JilErrorV,
> {
    if k == "job_type"@ {
        match job_type_of(v, s.name) {
            Ok(t) => Ok(JobSpecV { job_type: t, ..s }),
            Err(e) => Err(e),
        }
    } else if k == "command"@ {
        Ok(JobSpecV { command: Some(v), ..s })
    } else if k == "machine"@ {
        Ok(JobSpecV { machine: Some(v), ..s })
    } else if k == "owner"@ {
        Ok(JobSpecV { owner: Some(v), ..s })
    } else if k == "days_of_week"@ {
        Ok(JobSpecV { days_of_week: Some(v), ..s })
    } else if k == "start_times"@ {
        Ok(JobSpecV { start_times: Some(v), ..s })
    } else if k == "condition"@ {
        Ok(JobSpecV { condition: Some(v), ..s })
    } else if k == "alarm_if_fail"@ {
        match yes_no(v, k) {
            Ok(b) => Ok(JobSpecV { alarm_if_fail: b, ..s }),
            Err(e) => Err(e),
        }
    } else if k == "n_retrys"@ || k == "n_retries"@ {
        match parse_unsigned(v, u32::MAX as nat) {
            Some(n) => Ok(JobSpecV { n_retrys: n as u32, ..s }),
            None => Err(not_unsigned(k, v)),
        }
    } else if k == "term_run_time"@ {
        match parse_unsigned(v, u64::MAX as nat) {
            Some(n) => Ok(JobSpecV { term_run_time: Some(n as u64), ..s }),
            None => Err(not_unsigned(k, v)),
        }
    } else if k == "description"@ {
        Ok(JobSpecV { description: Some(v), ..s })
    } else if k == "std_out_file"@ {
        Ok(JobSpecV { std_out_file: Some(v), ..s })
    } else if k == "std_err_file"@ {
        Ok(JobSpecV { std_err_file: Some(v), ..s })
    } else if k == "box_name"@ {
        Ok(JobSpecV { box_name: Some(v), ..s })
    } else if k == "exclude_calendar"@ {
        Ok(JobSpecV { exclude_calendar: Some(v), ..s })
    } else if k == "must_start_times"@ {
        Ok(JobSpecV { must_start_times: Some(v), ..s })
    } else if k == "must_complete_times"@ {
        Ok(JobSpecV { must_complete_times: Some(v), ..s })
    } else if k == "fail_codes"@ {
        Ok(JobSpecV { fail_codes: Some(v), ..s })
    } else if k == "max_exit_success"@ {
        match parse_i32_spec(v) {
            Some(n) => Ok(JobSpecV { max_exit_success: Some(n as i32), ..s }),
            None => Err(not_integer(k, v)),
        }
    } else if k == "condition_code"@ {
        match parse_i32_spec(v) {
            Some(n) => Ok(JobSpecV { condition_code: Some(n as i32), ..s }),
            None => Err(not_integer(k, v)),
        }
    } else if k == "box_success"@ {
        Ok(JobSpecV { box_success: Some(v), ..s })
    } else if k == "box_failure"@ {
        Ok(JobSpecV { box_failure: Some(v), ..s })
    } else if k == "box_terminator"@ {
        match yes_no(v, k) {
            Ok(b) => Ok(JobSpecV { box_terminator: Some(b), ..s }),
            Err(e) => Err(e),
        }
    } else if k == "job_terminator"@ {
        match yes_no(v, k) {
            Ok(b) => Ok(JobSpecV { job_terminator: Some(b), ..s }),
            Err(e) => Err(e),
        }
    } else if k == "auto_hold"@ {
        match yes_no(v, k) {
            Ok(b) => Ok(JobSpecV { auto_hold: Some(b), ..s }),
            Err(e) => Err(e),
        }
    } else if k == "resources"@ {
        Ok(JobSpecV { resources: Some(v), ..s })
    } else if ignored_attr(k) {
        Ok(JobSpecV { warnings: s.warnings.push(unmapped_warning(k, v)), ..s })
    } else {
        Ok(JobSpecV { warnings: s.warnings.push(unknown_warning(k)), ..s })
    }
}

/// The keys that [`apply_to_spec`] maps to a field of the spec.
pub open spec fn mapped_attr(k: Seq<char>) -> bool {
    k == "job_type"@ || k == "command"@ || k == "machine"@ || k == "owner"@ || k
        == "days_of_week"@ || k == "start_times"@ || k == "condition"@ || k == "alarm_if_fail"@
        || k == "n_retrys"@ || k == "n_retries"@ || k == "term_run_time"@ || k == "description"@
        || k == "std_out_file"@ || k == "std_err_file"@ || k == "box_name"@ || k
        == "exclude_calendar"@ || k == "must_start_times"@ || k == "must_complete_times"@ || k
        == "fail_codes"@ || k == "max_exit_success"@ || k == "condition_code"@ || k
        == "box_success"@ || k == "box_failure"@ || k == "box_terminator"@ || k
        == "job_terminator"@ || k == "auto_hold"@ || k == "resources"@
}

/// Applying one attribute to a full spec fails only with a value error that
/// names the attribute, or with an unknown job type for `job_type`. A key that
/// maps to no field (unknown, or known but not mapped) always succeeds, leaves
/// every field as it was and adds exactly one warning, which quotes the key.
pub proof fn lemma_apply_to_spec_outcomes(s: JobSpecV, k: Seq<char>, v: Seq<char>)
    ensures
        apply_to_spec(s, k, v) is Err ==> {
            let e = apply_to_spec(s, k, v)->Err_0;
            ||| e matches JilErrorV::BadValue { attr, .. } && attr == k
            ||| e is UnknownJobType && k == "job_type"@
        },
        !mapped_attr(k) ==> apply_to_spec(s, k, v) == Ok::<JobSpecV, JilErrorV>(
            JobSpecV {
                warnings: s.warnings.push(
                    if ignored_attr(k) {
                        unmapped_warning(k, v)
                    } else {
                        unknown_warning(k)
                    },
                ),
                ..s
            },
        ),
{
}

/// One attribute applied to a partial spec; values that do not parse are
/// dropped silently.
pub open spec fn apply_to_partial(s: PartialJobSpecV, k: Seq<char>, v: Seq<char>) -> PartialJobSpecV {
    if k == "command"@ {
        PartialJobSpecV { command: Some(v), ..s }
    } else if k == "machine"@ {
        PartialJobSpecV { machine: Some(v), ..s }
    } else if k == "owner"@ {
        PartialJobSpecV { owner: Some(v), ..s }
    } else if k == "days_of_week"@ {
        PartialJobSpecV { days_of_week: Some(v), ..s }
    } else if k == "start_times"@ {
        PartialJobSpecV { start_times: Some(v), ..s }
    } else if k == "condition"@ {
        PartialJobSpecV { condition: Some(v), ..s }
    } else if k == "alarm_if_fail"@ {
        match yes_no(v, k) {
            Ok(b) => PartialJobSpecV { alarm_if_fail: Some(b), ..s },
            Err(_) => s,
        }
    } else if k == "n_retrys"@ || k == "n_retries"@ {
        match parse_unsigned(v, u32::MAX as nat) {
            Some(n) => PartialJobSpecV { n_retrys: Some(n as u32), ..s },
            None => s,
        }
    } else if k == "term_run_time"@ {
        match parse_unsigned(v, u64::MAX as nat) {
            Some(n) => PartialJobSpecV { term_run_time: Some(n as u64), ..s },
            None => s,
        }
    } else if k == "description"@ {
        PartialJobSpecV { description: Some(v), ..s }
    } else if k == "std_out_file"@ {
        PartialJobSpecV { std_out_file: Some(v), ..s }
    } else if k == "std_err_file"@ {
        PartialJobSpecV { std_err_file: Some(v), ..s }
    } else if k == "box_name"@ {
        PartialJobSpecV { box_name: Some(v), ..s }
    } else if k == "exclude_calendar"@ {
        PartialJobSpecV { exclude_calendar: Some(v), ..s }
    } else if k == "must_start_times"@ {
        PartialJobSpecV { must_start_times: Some(v), ..s }
    } else if k == "must_complete_times"@ {
        PartialJobSpecV { must_complete_times: Some(v), ..s }
    } else if k == "fail_codes"@ {
        PartialJobSpecV { fail_codes: Some(v), ..s }
    } else if k == "max_exit_success"@ {
        match parse_i32_spec(v) {
            Some(n) => PartialJobSpecV { max_exit_success: Some(n as i32), ..s },
            None => s,
        }
    } else if k == "condition_code"@ {
        match parse_i32_spec(v) {
            Some(n) => PartialJobSpecV { condition_code: Some(n as i32), ..s },
            None => s,
        }
    } else if k == "box_success"@ {
        PartialJobSpecV { box_success: Some(v), ..s }
    } else if k == "box_failure"@ {
        PartialJobSpecV { box_failure: Some(v), ..s }
    } else if k == "box_terminator"@ {
        match yes_no(v, k) {
            Ok(b) => PartialJobSpecV { box_terminator: Some(b), ..s },
            Err(_) => s,
        }
    } else if k == "job_terminator"@ {
        match yes_no(v, k) {
            Ok(b) => PartialJobSpecV { job_terminator: Some(b), ..s },
            Err(_) => s,
        }
    } else if k == "auto_hold"@ {
        match yes_no(v, k) {
            Ok(b) => PartialJobSpecV { auto_hold: Some(b), ..s },
            Err(_) => s,
        }
    } else if k == "resources"@ {
        PartialJobSpecV { resources: Some(v), ..s }
    } else {
        PartialJobSpecV { warnings: s.warnings.push(unknown_warning(k)), ..s }
    }
}

/// Attributes applied in order to a full spec; the first error stops.
pub open spec fn apply_all(s: JobSpecV, attrs: Seq<(Seq<char>, Seq<char>)>) -> Result<
    JobSpecV,
    JilErrorV,
>
    decreases attrs.len(),
{
    if attrs.len() == 0 {
        Ok(s)
    } else {
        match apply_to_spec(s, attrs[0].0, attrs[0].1) {
            Ok(s2) => apply_all(s2, attrs.drop_first()),
            Err(e) => Err(e),
        }
    }
}

/// Attributes applied in order to a partial spec.
pub open spec fn apply_all_partial(s: PartialJobSpecV, attrs: Seq<(Seq<char>, Seq<char>)>) -> PartialJobSpecV
    decreases attrs.len(),
{
    if attrs.len() == 0 {
        s
    } else {
        apply_all_partial(apply_to_partial(s, attrs[0].0, attrs[0].1), attrs.drop_first())
    }
}

/// The verb of a line (the trimmed text before its first `:`), if it has a `:`.
pub open spec fn verb_of(line: Seq<char>) -> Option<Seq<char>> {
    let c = next_index(line, ':', 0);
    if c < line.len() {
        Some(trim(line.subrange(0, c)))
    } else {
        None
    }
}

/// The value after a verb (trimmed text after the first `:`).
pub open spec fn verb_value(line: Seq<char>) -> Seq<char> {
    let c = next_index(line, ':', 0);
    trim(line.subrange(c + 1, line.len() as int))
}

/// The index of the line after the block that line `i` starts.
pub open spec fn block_end(tl: Seq<Seq<char>>, i: int) -> int {
    match verb_of(tl[i]) {
        Some(v) => if lower_seq(v) == "insert_job"@ || lower_seq(v) == "update_job"@ {
            gather(tl, i + 1).1
        } else {
            i + 1
        },
        None => i + 1,
    }
}

/// The block a verb line at index `i` starts; `None` when the line is no
/// verb line; an error for an unknown `*_job` verb or a bad attribute.
#[verifier::opaque]
pub open spec fn verb_step(tl: Seq<Seq<char>>, i: int) -> Result<Option<JilBlockV>, JilErrorV> {
    match verb_of(tl[i]) {
        None => Ok(None),
        Some(verb) => {
            let vl = lower_seq(verb);
            let (name, extra) = name_and_rest(verb_value(tl[i]));
            let attrs = inline_pairs(words(extra)) + gather(tl, i + 1).0;
            if vl == "insert_job"@ {
                match apply_all(empty_spec(name, JilJobType::Command), attrs) {
                    Ok(s) => Ok(Some(JilBlockV::Insert(s))),
                    Err(e) => Err(e),
                }
            } else if vl == "update_job"@ {
                Ok(Some(JilBlockV::Update(name, apply_all_partial(empty_partial(), attrs))))
            } else if vl == "delete_job"@ {
                Ok(Some(JilBlockV::Delete(name)))
            } else if ends_with(vl, "_job"@) {
                Err(JilErrorV::UnknownVerb(verb, i + 1))
            } else {
                Ok(None)
            }
        },
    }
}

/// The blocks from line `i` on.
pub open spec fn blocks_from(tl: Seq<Seq<char>>, i: int) -> Result<Seq<JilBlockV>, JilErrorV>
    decreases tl.len() - i,
{
    if i < 0 || i >= tl.len() {
        Ok(Seq::empty())
    } else if tl[i].len() == 0 {
        blocks_from(tl, i + 1)
    } else {
        proof {
            lemma_block_end(tl, i);
        }
        match verb_step(tl, i) {
            Err(e) => Err(e),
            Ok(None) => blocks_from(tl, i + 1),
            Ok(Some(b)) => match blocks_from(tl, block_end(tl, i)) {
                Ok(rest) => Ok(seq![b] + rest),
                Err(e) => Err(e),
            },
        }
    }
}

/// Where `*/` is found, it lies inside the text.
pub proof fn lemma_close_at(s: Seq<char>, i: int)
    ensures
        close_at(s, i) is Some ==> i <= close_at(s, i)->0 && close_at(s, i)->0 + 2 <= s.len(),
        close_at(s, i) is Some ==> s[close_at(s, i)->0] == '*' && s[close_at(s, i)->0 + 1] == '/',
        close_at(s, i) is Some ==> forall|k: int|
            i <= k < close_at(s, i)->0 ==> !(#[trigger] s[k] == '*' && s[k + 1] == '/'),
        close_at(s, i) is None && 0 <= i ==> forall|k: int|
            i <= k && k + 1 < s.len() ==> !(#[trigger] s[k] == '*' && s[k + 1] == '/'),
    decreases s.len() - i,
{
    if i < 0 || i + 1 >= s.len() {
    } else if s[i] == '*' && s[i + 1] == '/' {
    } else {
        lemma_close_at(s, i + 1);
    }
}

/// `trim_start` drops a prefix of whitespace.
pub proof fn lemma_trim_start(s: Seq<char>)
    ensures
        trim_start(s).len() <= s.len(),
        trim_start(s) == s.subrange(s.len() - trim_start(s).len(), s.len() as int),
        trim_start(s).len() > 0 ==> !is_unicode_ws(trim_start(s)[0]),
        forall|k: int| 0 <= k < s.len() - trim_start(s).len() ==> is_unicode_ws(#[trigger] s[k]),
    decreases s.len(),
{
    if s.len() > 0 && is_unicode_ws(s[0]) {
        lemma_trim_start(s.drop_first());
        let t = trim_start(s.drop_first());
        assert(s.drop_first().subrange(s.drop_first().len() - t.len(), s.drop_first().len() as int)
            =~= s.subrange(s.len() - t.len(), s.len() as int));
        assert forall|k: int| 0 <= k < s.len() - trim_start(s).len() implies is_unicode_ws(
            #[trigger] s[k],
        ) by {
            if k > 0 {
                assert(s[k] == s.drop_first()[k - 1]);
            }
        }
    } else {
        assert(s.subrange(0, s.len() as int) =~= s);
    }
}

/// `first_ws` finds the first whitespace at or after `i`.
pub proof fn lemma_first_ws(s: Seq<char>, i: int)
    requires
        0 <= i <= s.len(),
    ensures
        i <= first_ws(s, i) <= s.len(),
        forall|k: int| i <= k < first_ws(s, i) ==> !is_unicode_ws(#[trigger] s[k]),
        first_ws(s, i) < s.len() ==> is_unicode_ws(s[first_ws(s, i)]),
    decreases s.len() - i,
{
    if i < s.len() && !is_unicode_ws(s[i]) {
        lemma_first_ws(s, i + 1);
    }
}

/// `first_ascii_ws` finds the first ASCII whitespace at or after `i`.
pub proof fn lemma_first_ascii_ws(s: Seq<char>, i: int)
    requires
        0 <= i <= s.len(),
    ensures
        i <= first_ascii_ws(s, i) <= s.len(),
        forall|k: int| i <= k < first_ascii_ws(s, i) ==> !is_ascii_ws(#[trigger] s[k]),
        first_ascii_ws(s, i) < s.len() ==> is_ascii_ws(s[first_ascii_ws(s, i)]),
    decreases s.len() - i,
{
    if i < s.len() && !is_ascii_ws(s[i]) {
        lemma_first_ascii_ws(s, i + 1);
    }
}

/// `next_index` finds the first `c` at or after `i`.
pub proof fn lemma_next_index(s: Seq<char>, c: char, i: int)
    requires
        0 <= i <= s.len(),
    ensures
        i <= next_index(s, c, i) <= s.len(),
        forall|k: int| i <= k < next_index(s, c, i) ==> #[trigger] s[k] != c,
        next_index(s, c, i) < s.len() ==> s[next_index(s, c, i)] == c,
    decreases s.len() - i,
{
    if i < s.len() && s[i] != c {
        lemma_next_index(s, c, i + 1);
    }
}

/// Gathering from line `i` stops at or after `i`.
pub proof fn lemma_gather_end(tl: Seq<Seq<char>>, i: int)
    requires
        0 <= i,
    ensures
        gather(tl, i).1 >= i,
        i <= tl.len() ==> gather(tl, i).1 <= tl.len(),
    decreases tl.len() - i,
{
    if i < tl.len() {
        lemma_gather_end(tl, i + 1);
    }
}

/// A block ends after the line that starts it.
pub proof fn lemma_block_end(tl: Seq<Seq<char>>, i: int)
    requires
        0 <= i < tl.len(),
    ensures
        i < block_end(tl, i) <= tl.len(),
{
    lemma_gather_end(tl, i + 1);
}

/// The blocks JIL text holds.
pub open spec fn jil_blocks(input: Seq<char>) -> Result<Seq<JilBlockV>, JilErrorV> {
    match strip(input) {
        None => Err(JilErrorV::UnterminatedComment),
        Some(t) => blocks_from(trimmed_lines(t), 0),
    }
}

} // verus!
