//! Reading the comma-separated JIL attribute values: day lists, start
//! times, exit codes, must-times and resource claims.

use vstd::prelude::*;
use chrono::Timelike;
use crate::conditions::expr::{dec, push_dec};
use crate::jil::model::{debug_quoted, debug_text, lemma_next_index, next_index};
use crate::jil::scan::index_in;
use crate::jil::spec::texts;
use crate::text::{
    chars_vec, lower_range, lower_seq, parse_i32_range, parse_i32_spec, parse_unsigned,
    parse_unsigned_range, push_char, string_of, string_of_str, trim, trim_bounds, vec_eq_lit,
};
use crate::time::TimeOfDay;
use crate::resource::ResourceClaim;

verus! {

/// The pieces of `s` from `start` on between separators `c` (`str::split`:
/// there is always at least one piece, maybe empty).
pub open spec fn split_from(s: Seq<char>, c: char, start: int) -> Seq<Seq<char>>
    decreases s.len() - start,
{
    if start < 0 || start > s.len() {
        Seq::empty()
    } else {
        let e = next_index(s, c, start);
        if start <= e < s.len() {
            seq![s.subrange(start, e)] + split_from(s, c, e + 1)
        } else {
            seq![s.subrange(start, s.len() as int)]
        }
    }
}

/// `s.split(c)`.
pub open spec fn split_on(s: Seq<char>, c: char) -> Seq<Seq<char>> {
    split_from(s, c, 0)
}

/// `s.trim_start_matches(c)`.
pub open spec fn trim_char_start(s: Seq<char>, c: char) -> Seq<char>
    decreases s.len(),
{
    if s.len() > 0 && s[0] == c {
        trim_char_start(s.drop_first(), c)
    } else {
        s
    }
}

/// `s.trim_end_matches(c)`.
pub open spec fn trim_char_end(s: Seq<char>, c: char) -> Seq<char>
    decreases s.len(),
{
    if s.len() > 0 && s.last() == c {
        trim_char_end(s.drop_last(), c)
    } else {
        s
    }
}

/// `s.trim_matches(c)`.
pub open spec fn strip_char(s: Seq<char>, c: char) -> Seq<char> {
    trim_char_end(trim_char_start(s, c), c)
}

proof fn lemma_trim_char_start_step(v: Seq<char>, a: int, b: int, c: char)
    requires
        0 <= a < b <= v.len(),
        v[a] == c,
    ensures
        trim_char_start(v.subrange(a, b), c) == trim_char_start(v.subrange(a + 1, b), c),
{
    assert(v.subrange(a, b).drop_first() =~= v.subrange(a + 1, b));
}

proof fn lemma_trim_char_end_step(v: Seq<char>, a: int, b: int, c: char)
    requires
        0 <= a < b <= v.len(),
        v[b - 1] == c,
    ensures
        trim_char_end(v.subrange(a, b), c) == trim_char_end(v.subrange(a, b - 1), c),
{
    assert(v.subrange(a, b).drop_last() =~= v.subrange(a, b - 1));
}

/// Bounds of `v[lo..hi].trim_end_matches(c)`.
pub fn trim_char_end_bounds(v: &Vec<char>, lo: usize, hi: usize, c: char) -> (r: usize)
    requires
        lo <= hi <= v.len(),
    ensures
        lo <= r <= hi,
        v@.subrange(lo as int, r as int) == trim_char_end(v@.subrange(lo as int, hi as int), c),
{
    let mut b = hi;
    while b > lo && v[b - 1] == c
        invariant
            lo <= b <= hi <= v.len(),
            trim_char_end(v@.subrange(lo as int, hi as int), c) == trim_char_end(
                v@.subrange(lo as int, b as int),
                c,
            ),
        decreases b - lo,
    {
        proof {
            lemma_trim_char_end_step(v@, lo as int, b as int, c);
        }
        b = b - 1;
    }
    proof {
        let s = v@.subrange(lo as int, b as int);
        if s.len() > 0 {
            assert(s.last() == v@[b - 1]);
        }
    }
    b
}

/// Bounds of `v[lo..hi].trim_matches(c)`.
pub fn strip_char_bounds(v: &Vec<char>, lo: usize, hi: usize, c: char) -> (r: (usize, usize))
    requires
        lo <= hi <= v.len(),
    ensures
        lo <= r.0 <= r.1 <= hi,
        v@.subrange(r.0 as int, r.1 as int) == strip_char(v@.subrange(lo as int, hi as int), c),
{
    let mut a = lo;
    while a < hi && v[a] == c
        invariant
            lo <= a <= hi <= v.len(),
            trim_char_start(v@.subrange(lo as int, hi as int), c) == trim_char_start(
                v@.subrange(a as int, hi as int),
                c,
            ),
        decreases hi - a,
    {
        proof {
            lemma_trim_char_start_step(v@, a as int, hi as int, c);
        }
        a = a + 1;
    }
    proof {
        let s = v@.subrange(a as int, hi as int);
        if s.len() > 0 {
            assert(s[0] == v@[a as int]);
        }
    }
    let b = trim_char_end_bounds(v, a, hi, c);
    (a, b)
}

/// Bounds of the pieces of `v[lo..hi]` split at `c`.
pub fn split_bounds(v: &Vec<char>, lo: usize, hi: usize, c: char) -> (r: Vec<(usize, usize)>)
    requires
        lo <= hi <= v.len(),
    ensures
        r@.len() == split_on(v@.subrange(lo as int, hi as int), c).len(),
        forall|k: int|
            0 <= k < r@.len() ==> lo <= r@[k].0 <= r@[k].1 <= hi && v@.subrange(
                #[trigger] r@[k].0 as int,
                r@[k].1 as int,
            ) == split_on(v@.subrange(lo as int, hi as int), c)[k],
{
    let ghost s = v@.subrange(lo as int, hi as int);
    let mut r: Vec<(usize, usize)> = Vec::new();
    let mut pos = lo;
    let ghost mut done: Seq<Seq<char>> = Seq::empty();
    loop
        invariant_except_break
            split_on(s, c) == done + split_from(s, c, pos - lo),
            r@.len() == done.len(),
            forall|k: int|
                0 <= k < r@.len() ==> lo <= r@[k].0 <= r@[k].1 <= hi && v@.subrange(
                    #[trigger] r@[k].0 as int,
                    r@[k].1 as int,
                ) == done[k],
        invariant
            lo <= pos <= hi <= v.len(),
            s == v@.subrange(lo as int, hi as int),
        ensures
            r@.len() == split_on(s, c).len(),
            forall|k: int|
                0 <= k < r@.len() ==> lo <= r@[k].0 <= r@[k].1 <= hi && v@.subrange(
                    #[trigger] r@[k].0 as int,
                    r@[k].1 as int,
                ) == split_on(s, c)[k],
        decreases hi - pos,
    {
        proof {
            lemma_next_index(s, c, pos - lo);
        }
        let mut e = pos;
        while e < hi && v[e] != c
            invariant
                lo <= pos <= e <= hi <= v.len(),
                s == v@.subrange(lo as int, hi as int),
                next_index(s, c, pos - lo) == next_index(s, c, e - lo),
            decreases hi - e,
        {
            assert(s[e - lo] == v@[e as int]);
            e = e + 1;
        }
        if e < hi {
            assert(s[e - lo] == v@[e as int]);
        }
        assert(s.subrange(pos - lo, e - lo) =~= v@.subrange(pos as int, e as int));
        let ghost before = r@;
        r.push((pos, e));
        proof {
            done = done.push(v@.subrange(pos as int, e as int));
        }
        assert(forall|k: int| 0 <= k < before.len() ==> r@[k] == before[k]);
        if e < hi {
            pos = e + 1;
        } else {
            assert(s.subrange(pos - lo, s.len() as int) =~= v@.subrange(pos as int, e as int));
            assert(split_on(s, c) == done);
            break;
        }
    }
    r
}

/// The cron day digit of a lower-cased day name.
pub open spec fn day_digit(l: Seq<char>) -> Option<char> {
    if l == "su"@ || l == "sun"@ {
        Some('0')
    } else if l == "mo"@ || l == "mon"@ {
        Some('1')
    } else if l == "tu"@ || l == "tue"@ {
        Some('2')
    } else if l == "we"@ || l == "wed"@ {
        Some('3')
    } else if l == "th"@ || l == "thu"@ {
        Some('4')
    } else if l == "fr"@ || l == "fri"@ {
        Some('5')
    } else if l == "sa"@ || l == "sat"@ {
        Some('6')
    } else {
        None
    }
}

/// The two-letter day names in week order, Sunday first.
pub open spec fn week_short() -> Seq<Seq<char>> {
    seq!["su"@, "mo"@, "tu"@, "we"@, "th"@, "fr"@, "sa"@]
}

/// The three-letter day names in week order, Sunday first.
pub open spec fn week_long() -> Seq<Seq<char>> {
    seq!["sun"@, "mon"@, "tue"@, "wed"@, "thu"@, "fri"@, "sat"@]
}

/// Cron numbers the days of the week from Sunday as 0 to Saturday as 6:
/// the `i`-th day of the week, by its two- or three-letter name, has the
/// digit `i`, and no other name has a digit.
pub proof fn lemma_day_digits_in_week_order(l: Seq<char>)
    ensures
        forall|i: int|
            0 <= i < 7 ==> (day_digit(#[trigger] week_short()[i]) matches Some(d) && d as u32 == 48 + i)
                && (day_digit(week_long()[i]) matches Some(d) && d as u32 == 48 + i),
        day_digit(l) is Some ==> exists|i: int|
            0 <= i < 7 && (l == #[trigger] week_short()[i] || l == week_long()[i]),
{
    reveal_strlit("su");
    reveal_strlit("sun");
    reveal_strlit("mo");
    reveal_strlit("mon");
    reveal_strlit("tu");
    reveal_strlit("tue");
    reveal_strlit("we");
    reveal_strlit("wed");
    reveal_strlit("th");
    reveal_strlit("thu");
    reveal_strlit("fr");
    reveal_strlit("fri");
    reveal_strlit("sa");
    reveal_strlit("sat");
    let ws = week_short();
    let wl = week_long();
    assert forall|i: int| 0 <= i < 7 implies (day_digit(#[trigger] ws[i]) matches Some(d) && d as u32
        == 48 + i) && (day_digit(wl[i]) matches Some(d) && d as u32 == 48 + i) by {
        if i == 0 {
            assert(ws[i] == "su"@ && ws[i][0] == 's' && ws[i][1] == 'u');
            assert(wl[i] == "sun"@ && wl[i][0] == 's' && wl[i][1] == 'u');
        } else if i == 1 {
            assert(ws[i] == "mo"@ && ws[i][0] == 'm' && ws[i][1] == 'o');
            assert(wl[i] == "mon"@ && wl[i][0] == 'm' && wl[i][1] == 'o');
        } else if i == 2 {
            assert(ws[i] == "tu"@ && ws[i][0] == 't' && ws[i][1] == 'u');
            assert(wl[i] == "tue"@ && wl[i][0] == 't' && wl[i][1] == 'u');
        } else if i == 3 {
            assert(ws[i] == "we"@ && ws[i][0] == 'w' && ws[i][1] == 'e');
            assert(wl[i] == "wed"@ && wl[i][0] == 'w' && wl[i][1] == 'e');
        } else if i == 4 {
            assert(ws[i] == "th"@ && ws[i][0] == 't' && ws[i][1] == 'h');
            assert(wl[i] == "thu"@ && wl[i][0] == 't' && wl[i][1] == 'h');
        } else if i == 5 {
            assert(ws[i] == "fr"@ && ws[i][0] == 'f' && ws[i][1] == 'r');
            assert(wl[i] == "fri"@ && wl[i][0] == 'f' && wl[i][1] == 'r');
        } else if i == 6 {
            assert(ws[i] == "sa"@ && ws[i][0] == 's' && ws[i][1] == 'a');
            assert(wl[i] == "sat"@ && wl[i][0] == 's' && wl[i][1] == 'a');
        }
    }
    if day_digit(l) is Some {
        assert(l == ws[0] || l == wl[0] || l == ws[1] || l == wl[1] || l == ws[2] || l == wl[2]
            || l == ws[3] || l == wl[3] || l == ws[4] || l == wl[4] || l == ws[5] || l == wl[5]
            || l == ws[6] || l == wl[6]);
    }
}

/// Cron digits of the day pieces, unknown names skipped; `None` once `all`
/// comes up.
pub open spec fn dow_digits(ps: Seq<Seq<char>>) -> Option<Seq<char>>
    decreases ps.len(),
{
    if ps.len() == 0 {
        Some(Seq::empty())
    } else {
        let l = lower_seq(trim(ps[0]));
        if l == "all"@ {
            None
        } else {
            match dow_digits(ps.drop_first()) {
                None => None,
                Some(rest) => Some(
                    match day_digit(l) {
                        Some(d) => seq![d] + rest,
                        None => rest,
                    },
                ),
            }
        }
    }
}

/// Characters joined with `,`.
pub open spec fn comma_joined(ds: Seq<char>) -> Seq<char>
    decreases ds.len(),
{
    if ds.len() <= 1 {
        ds
    } else {
        seq![ds[0], ','] + comma_joined(ds.drop_first())
    }
}

/// The cron day-of-week field for Autosys day names: `*` for `all` or when
/// no day is recognised.
pub open spec fn cron_days(days: Seq<char>) -> Seq<char> {
    match dow_digits(split_on(days, ',')) {
        None => "*"@,
        Some(ds) => if ds.len() == 0 {
            "*"@
        } else {
            comma_joined(ds)
        },
    }
}

fn day_digit_exec(l: &Vec<char>) -> (r: Option<char>)
    ensures
        r == day_digit(l@),
{
    if vec_eq_lit(l, "su") || vec_eq_lit(l, "sun") {
        Some('0')
    } else if vec_eq_lit(l, "mo") || vec_eq_lit(l, "mon") {
        Some('1')
    } else if vec_eq_lit(l, "tu") || vec_eq_lit(l, "tue") {
        Some('2')
    } else if vec_eq_lit(l, "we") || vec_eq_lit(l, "wed") {
        Some('3')
    } else if vec_eq_lit(l, "th") || vec_eq_lit(l, "thu") {
        Some('4')
    } else if vec_eq_lit(l, "fr") || vec_eq_lit(l, "fri") {
        Some('5')
    } else if vec_eq_lit(l, "sa") || vec_eq_lit(l, "sat") {
        Some('6')
    } else {
        None
    }
}

/// Convert Autosys day abbreviations to cron day-of-week numbers.
pub fn translate_days(days: &str) -> (r: String)
    ensures
        r@ == cron_days(days@),
{
    let v = chars_vec(days);
    let ps = split_bounds(&v, 0, v.len(), ',');
    let ghost pieces = split_on(v@.subrange(0, v@.len() as int), ',');
    assert(v@.subrange(0, v@.len() as int) =~= days@);
    let mut digits: Vec<char> = Vec::new();
    let mut k: usize = 0;
    assert(pieces.subrange(0, pieces.len() as int) =~= pieces);
    assert(forall|s: Seq<char>| #![auto] digits@ + s =~= s);
    while k < ps.len()
        invariant
            k <= ps@.len(),
            pieces == split_on(days@, ','),
            ps@.len() == pieces.len(),
            forall|j: int|
                0 <= j < ps@.len() ==> ps@[j].0 <= ps@[j].1 <= v@.len() && v@.subrange(
                    #[trigger] ps@[j].0 as int,
                    ps@[j].1 as int,
                ) == pieces[j],
            dow_digits(pieces) == match dow_digits(pieces.subrange(k as int, pieces.len() as int)) {
                None => None,
                Some(rest) => Some(digits@ + rest),
            },
        decreases ps.len() - k,
    {
        let ghost rest = pieces.subrange(k as int, pieces.len() as int);
        assert(rest[0] == pieces[k as int]);
        assert(rest.drop_first() =~= pieces.subrange(k + 1, pieces.len() as int));
        let (a, b) = ps[k];
        let (ta, tb) = trim_bounds(&v, a, b);
        let l = lower_range(&v, ta, tb);
        if vec_eq_lit(&l, "all") {
            return string_of_str("*");
        }
        match day_digit_exec(&l) {
            Some(d) => {
                let ghost before = digits@;
                digits.push(d);
                assert(forall|s: Seq<char>| #![auto] before + (seq![d] + s) =~= digits@ + s);
            },
            None => {},
        }
        k = k + 1;
    }
    assert(pieces.subrange(k as int, pieces.len() as int).len() == 0);
    assert(digits@ + Seq::<char>::empty() =~= digits@);
    if digits.len() == 0 {
        return string_of_str("*");
    }
    let mut out = String::new();
    let mut j: usize = 0;
    assert(digits@.subrange(0, digits@.len() as int) =~= digits@);
    while j < digits.len()
        invariant
            1 <= digits@.len(),
            j <= digits@.len(),
            comma_joined(digits@) == out@ + (if j < digits@.len() {
                comma_joined(digits@.subrange(j as int, digits@.len() as int))
            } else {
                Seq::<char>::empty()
            }),
        decreases digits.len() - j,
    {
        let ghost rest = digits@.subrange(j as int, digits@.len() as int);
        push_char(&mut out, digits[j]);
        if j + 1 < digits.len() {
            assert(rest.drop_first() =~= digits@.subrange(j + 1, digits@.len() as int));
            push_char(&mut out, ',');
        } else {
            assert(rest =~= seq![digits@[j as int]]);
        }
        j = j + 1;
        assert(comma_joined(digits@) =~= out@ + (if j < digits@.len() {
            comma_joined(digits@.subrange(j as int, digits@.len() as int))
        } else {
            Seq::<char>::empty()
        }));
    }
    out
}

/// The first start time of a `start_times` list, trimmed and unquoted.
pub open spec fn first_start(times: Seq<char>) -> Seq<char> {
    strip_char(trim(split_on(times, ',')[0]), '"')
}

/// Hour and minute of `HH:MM` (each `u8`, surrounding whitespace ignored).
pub open spec fn hour_minute(t: Seq<char>) -> Option<(nat, nat)> {
    let k = next_index(t, ':', 0);
    if k >= t.len() {
        None
    } else {
        match (
            parse_unsigned(trim(t.subrange(0, k)), 255),
            parse_unsigned(trim(t.subrange(k + 1, t.len() as int)), 255),
        ) {
            (Some(h), Some(m)) => Some((h, m)),
            _ => None,
        }
    }
}

/// The cron expression for a day list and start-time list, when the first
/// start time reads as `HH:MM`.
pub open spec fn cron_expr(days: Seq<char>, times: Seq<char>) -> Option<Seq<char>> {
    match hour_minute(first_start(times)) {
        Some((h, m)) => Some(dec(m) + " "@ + dec(h) + " * * "@ + cron_days(days)),
        None => None,
    }
}

proof fn lemma_split_nonempty(s: Seq<char>, c: char)
    ensures
        split_on(s, c).len() >= 1,
{
    lemma_next_index(s, c, 0);
}

/// `min hour * * dow` from the first start time and the days, if the time
/// reads as `HH:MM`.
pub fn build_cron_expr(days: &str, times: &str) -> (r: Option<String>)
    ensures
        match cron_expr(days@, times@) {
            Some(e) => r is Some && r->0@ == e,
            None => r is None,
        },
{
    let v = chars_vec(times);
    assert(v@.subrange(0, v@.len() as int) =~= times@);
    let ps = split_bounds(&v, 0, v.len(), ',');
    proof {
        lemma_split_nonempty(times@, ',');
    }
    let (a, b) = ps[0];
    let (ta, tb) = trim_bounds(&v, a, b);
    let (fa, fb) = strip_char_bounds(&v, ta, tb, '"');
    let ghost ft = v@.subrange(fa as int, fb as int);
    assert(ft == first_start(times@));
    let k = index_in(&v, fa, fb, ':');
    if k == fb {
        return None;
    }
    assert(ft.subrange(0, k - fa) =~= v@.subrange(fa as int, k as int));
    assert(ft.subrange(k - fa + 1, ft.len() as int) =~= v@.subrange(k + 1, fb as int));
    let (ha, hb) = trim_bounds(&v, fa, k);
    let (ma, mb) = trim_bounds(&v, k + 1, fb);
    let h = parse_unsigned_range(&v, ha, hb, 255);
    let m = parse_unsigned_range(&v, ma, mb, 255);
    match (h, m) {
        (Some(h), Some(m)) => {
            let mut e = String::new();
            push_dec(&mut e, m);
            e.append(" ");
            push_dec(&mut e, h);
            e.append(" * * ");
            let d = translate_days(days);
            e.append(d.as_str());
            Some(e)
        },
        _ => None,
    }
}

/// Integer exit codes among the pieces; pieces that do not read as `i32`
/// (after trimming) are skipped.
pub open spec fn codes_of(ps: Seq<Seq<char>>) -> Seq<i32>
    decreases ps.len(),
{
    if ps.len() == 0 {
        Seq::empty()
    } else {
        match parse_i32_spec(trim(ps[0])) {
            Some(n) => seq![n as i32] + codes_of(ps.drop_first()),
            None => codes_of(ps.drop_first()),
        }
    }
}

/// The exit codes of a `fail_codes` list.
pub fn parse_codes(csv: &str) -> (r: Vec<i32>)
    ensures
        r@ == codes_of(split_on(csv@, ',')),
{
    let v = chars_vec(csv);
    assert(v@.subrange(0, v@.len() as int) =~= csv@);
    let ps = split_bounds(&v, 0, v.len(), ',');
    let ghost pieces = split_on(csv@, ',');
    let mut out: Vec<i32> = Vec::new();
    let mut k: usize = 0;
    assert(pieces.subrange(0, pieces.len() as int) =~= pieces);
    assert(out@ + codes_of(pieces) =~= codes_of(pieces));
    while k < ps.len()
        invariant
            k <= ps@.len(),
            ps@.len() == pieces.len(),
            forall|j: int|
                0 <= j < ps@.len() ==> ps@[j].0 <= ps@[j].1 <= v@.len() && v@.subrange(
                    #[trigger] ps@[j].0 as int,
                    ps@[j].1 as int,
                ) == pieces[j],
            codes_of(pieces) == out@ + codes_of(pieces.subrange(k as int, pieces.len() as int)),
        decreases ps.len() - k,
    {
        let ghost rest = pieces.subrange(k as int, pieces.len() as int);
        assert(rest[0] == pieces[k as int]);
        assert(rest.drop_first() =~= pieces.subrange(k + 1, pieces.len() as int));
        let (a, b) = ps[k];
        let (ta, tb) = trim_bounds(&v, a, b);
        match parse_i32_range(&v, ta, tb) {
            Some(n) => {
                let ghost before = out@;
                out.push(n);
                assert(before + (seq![n] + codes_of(rest.drop_first())) =~= out@ + codes_of(
                    rest.drop_first(),
                ));
            },
            None => {},
        }
        k = k + 1;
    }
    assert(pieces.subrange(k as int, pieces.len() as int).len() == 0);
    assert(out@ + codes_of(Seq::<Seq<char>>::empty()) =~= out@);
    out
}

/// The time that `chrono::NaiveTime::parse_from_str` reads from a text with
/// a format, if it reads one.
pub uninterp spec fn parsed_time(text: Seq<char>, fmt: Seq<char>) -> Option<TimeOfDay>;

/// `chrono::NaiveTime::parse_from_str`; the result depends on the text and
/// the format alone, and a `NaiveTime` always keeps its seconds below a day
/// and its nanoseconds below two seconds, past one only at a leap second.
#[verifier::external_body]
fn parse_time(text: &str, fmt: &str) -> (r: Option<TimeOfDay>)
    ensures
        r == parsed_time(text@, fmt@),
        r is Some ==> r->0.wf(),
{
    match chrono::NaiveTime::parse_from_str(text, fmt) {
        Ok(t) => Some(TimeOfDay { secs: t.num_seconds_from_midnight(), frac: t.nanosecond() }),
        Err(_) => None,
    }
}

/// A time of day read as `HH:MM`, else as `HH:MM:SS`.
pub open spec fn time_of(t: Seq<char>) -> Option<TimeOfDay> {
    match parsed_time(t, "%H:%M"@) {
        Some(x) => Some(x),
        None => parsed_time(t, "%H:%M:%S"@),
    }
}

/// The times of day among the pieces and a warning for each piece that is
/// no time.
pub open spec fn times_from(ps: Seq<Seq<char>>, attr: Seq<char>) -> (Seq<TimeOfDay>, Seq<Seq<char>>)
    decreases ps.len(),
{
    if ps.len() == 0 {
        (Seq::empty(), Seq::empty())
    } else {
        let rest = times_from(ps.drop_first(), attr);
        match time_of(strip_char(trim(ps[0]), '"')) {
            Some(x) => (seq![x] + rest.0, rest.1),
            None => (rest.0, seq![attr + ": failed to parse time "@ + debug_text(ps[0])] + rest.1),
        }
    }
}

/// The times of day of an optional comma-separated list, and its warnings.
pub open spec fn times_of(raw: Option<Seq<char>>, attr: Seq<char>) -> (Seq<TimeOfDay>, Seq<Seq<char>>) {
    match raw {
        None => (Seq::empty(), Seq::empty()),
        Some(s) => times_from(split_on(s, ','), attr),
    }
}

proof fn lemma_texts_push(v: Seq<String>, s: String)
    ensures
        texts(v.push(s)) == texts(v).push(s@),
{
    assert(texts(v.push(s)) =~= texts(v).push(s@));
}

/// Reads an optional list of `HH:MM` / `HH:MM:SS` times; each piece that
/// does not read adds a warning.
#[verifier::spinoff_prover]
pub fn parse_times_csv(raw: &Option<String>, warnings: &mut Vec<String>, attr: &str) -> (r: Vec<TimeOfDay>)
    ensures
        r@ == times_of(crate::jil::spec::opt_text(*raw), attr@).0,
        texts(final(warnings)@) == texts(old(warnings)@) + times_of(
            crate::jil::spec::opt_text(*raw),
            attr@,
        ).1,
        forall|k: int| 0 <= k < r@.len() ==> (#[trigger] r@[k]).wf(),
{
    match raw {
        None => {
            assert(texts(warnings@) =~= texts(warnings@) + Seq::<Seq<char>>::empty());
            Vec::new()
        },
        Some(s) => {
            let v = chars_vec(s.as_str());
            assert(v@.subrange(0, v@.len() as int) =~= s@);
            let ps = split_bounds(&v, 0, v.len(), ',');
            let ghost pieces = split_on(s@, ',');
            let ghost w0 = texts(warnings@);
            let mut out: Vec<TimeOfDay> = Vec::new();
            let mut k: usize = 0;
            assert(pieces.subrange(0, pieces.len() as int) =~= pieces);
            assert(out@ + times_from(pieces, attr@).0 =~= times_from(pieces, attr@).0);
            assert(w0 + times_from(pieces, attr@).1 =~= texts(warnings@) + times_from(pieces, attr@).1);
            while k < ps.len()
                invariant
                    k <= ps@.len(),
                    ps@.len() == pieces.len(),
                    forall|j: int|
                        0 <= j < ps@.len() ==> ps@[j].0 <= ps@[j].1 <= v@.len() && v@.subrange(
                            #[trigger] ps@[j].0 as int,
                            ps@[j].1 as int,
                        ) == pieces[j],
                    times_from(pieces, attr@).0 == out@ + times_from(
                        pieces.subrange(k as int, pieces.len() as int),
                        attr@,
                    ).0,
                    w0 + times_from(pieces, attr@).1 == texts(warnings@) + times_from(
                        pieces.subrange(k as int, pieces.len() as int),
                        attr@,
                    ).1,
                    forall|j: int| 0 <= j < out@.len() ==> (#[trigger] out@[j]).wf(),
                decreases ps.len() - k,
            {
                let ghost rest = pieces.subrange(k as int, pieces.len() as int);
                assert(rest[0] == pieces[k as int]);
                assert(rest.drop_first() =~= pieces.subrange(k + 1, pieces.len() as int));
                let ghost tail = times_from(rest.drop_first(), attr@);
                let (a, b) = ps[k];
                let (ta, tb) = trim_bounds(&v, a, b);
                let (qa, qb) = strip_char_bounds(&v, ta, tb, '"');
                let t = string_of(&v, qa, qb);
                let parsed = match parse_time(t.as_str(), "%H:%M") {
                    Some(x) => Some(x),
                    None => parse_time(t.as_str(), "%H:%M:%S"),
                };
                match parsed {
                    Some(x) => {
                        let ghost before = out@;
                        out.push(x);
                        assert(before + (seq![x] + tail.0) =~= out@ + tail.0);
                    },
                    None => {
                        let mut w = string_of_str(attr);
                        w.append(": failed to parse time ");
                        let tok = string_of(&v, a, b);
                        let d = debug_quoted(tok.as_str());
                        w.append(d.as_str());
                        let ghost before = texts(warnings@);
                        proof {
                            lemma_texts_push(warnings@, w);
                        }
                        warnings.push(w);
                        assert(before + (seq![w@] + tail.1) =~= texts(warnings@) + tail.1);
                    },
                }
                k = k + 1;
            }
            assert(pieces.subrange(k as int, pieces.len() as int).len() == 0);
            assert(out@ + Seq::<TimeOfDay>::empty() =~= out@);
            assert(texts(warnings@) + Seq::<Seq<char>>::empty() =~= texts(warnings@));
            out
        },
    }
}

/// Resource claims among the pieces (`name` for one unit or `name(units)`
/// with units above 0) and a warning for each malformed piece; blank pieces
/// are skipped.
pub open spec fn claims_from(ps: Seq<Seq<char>>) -> (Seq<(Seq<char>, u32)>, Seq<Seq<char>>)
    decreases ps.len(),
{
    if ps.len() == 0 {
        (Seq::empty(), Seq::empty())
    } else {
        let rest = claims_from(ps.drop_first());
        let e = strip_char(trim(ps[0]), '"');
        let k = next_index(e, '(', 0);
        if e.len() == 0 {
            rest
        } else if k < e.len() {
            let n = trim(e.subrange(0, k));
            let u = parse_unsigned(trim(trim_char_end(e.subrange(k + 1, e.len() as int), ')')), u32::MAX as nat);
            if u is None || u->0 == 0 {
                (rest.0, seq!["resources: bad units in "@ + debug_text(e)] + rest.1)
            } else if n.len() == 0 {
                (rest.0, seq!["resources: empty name in "@ + debug_text(e)] + rest.1)
            } else {
                (seq![(n, u->0 as u32)] + rest.0, rest.1)
            }
        } else {
            (seq![(e, 1u32)] + rest.0, rest.1)
        }
    }
}

/// The claims of an optional `resources` value, and its warnings.
pub open spec fn claims_of(raw: Option<Seq<char>>) -> (Seq<(Seq<char>, u32)>, Seq<Seq<char>>) {
    match raw {
        None => (Seq::empty(), Seq::empty()),
        Some(s) => claims_from(split_on(s, ',')),
    }
}

/// Claims by their names and units.
pub open spec fn claims_view(v: Seq<ResourceClaim>) -> Seq<(Seq<char>, u32)> {
    v.map_values(|c: ResourceClaim| (c.resource_name@, c.units))
}

/// Parse an Autosys-style `resources` value: comma-separated entries, each
/// `name` (1 unit) or `name(units)`. Whitespace around tokens is ignored.
/// Malformed entries add a warning and are skipped.
pub fn parse_resource_claims(raw: &Option<String>, warnings: &mut Vec<String>) -> (r: Vec<ResourceClaim>)
    ensures
        claims_view(r@) == claims_of(crate::jil::spec::opt_text(*raw)).0,
        texts(final(warnings)@) == texts(old(warnings)@) + claims_of(
            crate::jil::spec::opt_text(*raw),
        ).1,
{
    match raw {
        None => {
            assert(texts(warnings@) =~= texts(warnings@) + Seq::<Seq<char>>::empty());
            assert(claims_view(Seq::<ResourceClaim>::empty()) =~= Seq::<(Seq<char>, u32)>::empty());
            Vec::new()
        },
        Some(s) => {
            let v = chars_vec(s.as_str());
            assert(v@.subrange(0, v@.len() as int) =~= s@);
            let ps = split_bounds(&v, 0, v.len(), ',');
            let ghost pieces = split_on(s@, ',');
            let ghost w0 = texts(warnings@);
            let mut out: Vec<ResourceClaim> = Vec::new();
            let mut k: usize = 0;
            assert(pieces.subrange(0, pieces.len() as int) =~= pieces);
            assert(claims_view(out@) + claims_from(pieces).0 =~= claims_from(pieces).0);
            assert(w0 + claims_from(pieces).1 =~= texts(warnings@) + claims_from(pieces).1);
            while k < ps.len()
                invariant
                    k <= ps@.len(),
                    ps@.len() == pieces.len(),
                    forall|j: int|
                        0 <= j < ps@.len() ==> ps@[j].0 <= ps@[j].1 <= v@.len() && v@.subrange(
                            #[trigger] ps@[j].0 as int,
                            ps@[j].1 as int,
                        ) == pieces[j],
                    claims_from(pieces).0 == claims_view(out@) + claims_from(
                        pieces.subrange(k as int, pieces.len() as int),
                    ).0,
                    w0 + claims_from(pieces).1 == texts(warnings@) + claims_from(
                        pieces.subrange(k as int, pieces.len() as int),
                    ).1,
                decreases ps.len() - k,
            {
                let ghost rest = pieces.subrange(k as int, pieces.len() as int);
                assert(rest[0] == pieces[k as int]);
                assert(rest.drop_first() =~= pieces.subrange(k + 1, pieces.len() as int));
                let ghost tail = claims_from(rest.drop_first());
                let (a, b) = ps[k];
                let (ta, tb) = trim_bounds(&v, a, b);
                let (ea, eb) = strip_char_bounds(&v, ta, tb, '"');
                let ghost e = v@.subrange(ea as int, eb as int);
                if ea < eb {
                    let p = index_in(&v, ea, eb, '(');
                    let mut claim: Option<ResourceClaim> = None;
                    let mut warn: Option<String> = None;
                    if p < eb {
                        assert(e.subrange(0, p - ea) =~= v@.subrange(ea as int, p as int));
                        assert(e.subrange(p - ea + 1, e.len() as int) =~= v@.subrange(
                            p + 1,
                            eb as int,
                        ));
                        let (na, nb) = trim_bounds(&v, ea, p);
                        let ue = trim_char_end_bounds(&v, p + 1, eb, ')');
                        let (ua, ub) = trim_bounds(&v, p + 1, ue);
                        let units = parse_unsigned_range(&v, ua, ub, 0xffff_ffff);
                        let entry = string_of(&v, ea, eb);
                        match units {
                            Some(u) if u > 0 => {
                                if na == nb {
                                    let mut w = string_of_str("resources: empty name in ");
                                    let d = debug_quoted(entry.as_str());
                                    w.append(d.as_str());
                                    warn = Some(w);
                                } else {
                                    claim = Some(
                                        ResourceClaim {
                                            resource_name: string_of(&v, na, nb),
                                            units: u as u32,
                                        },
                                    );
                                }
                            },
                            _ => {
                                let mut w = string_of_str("resources: bad units in ");
                                let d = debug_quoted(entry.as_str());
                                w.append(d.as_str());
                                warn = Some(w);
                            },
                        }
                    } else {
                        claim = Some(ResourceClaim { resource_name: string_of(&v, ea, eb), units: 1 });
                    }
                    match claim {
                        Some(c) => {
                            let ghost before = claims_view(out@);
                            out.push(c);
                            assert(claims_view(out@) =~= before.push((c.resource_name@, c.units)));
                            assert(before + (seq![(c.resource_name@, c.units)] + tail.0)
                                =~= claims_view(out@) + tail.0);
                        },
                        None => {},
                    }
                    match warn {
                        Some(w) => {
                            let ghost before = texts(warnings@);
                            proof {
                                lemma_texts_push(warnings@, w);
                            }
                            warnings.push(w);
                            assert(before + (seq![w@] + tail.1) =~= texts(warnings@) + tail.1);
                        },
                        None => {},
                    }
                }
                k = k + 1;
            }
            assert(pieces.subrange(k as int, pieces.len() as int).len() == 0);
            assert(claims_view(out@) + Seq::<(Seq<char>, u32)>::empty() =~= claims_view(out@));
            assert(texts(warnings@) + Seq::<Seq<char>>::empty() =~= texts(warnings@));
            out
        },
    }
}

} // verus!
