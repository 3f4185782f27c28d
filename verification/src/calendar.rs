//! Calendars: control when jobs are allowed to run.

use vstd::prelude::*;
use crate::error::{CoreError, CoreErrorV, checked};
use crate::ids::CalendarId;
use crate::text::{blank, is_blank};
use crate::time::{Date, TimeOfDay, Timestamp, weekday_of_day};

verus! {

/// One rule in a calendar.
#[derive(Debug, Clone, PartialEq, Eq)]
pub enum CalendarRule {
    /// Allow on these weekdays (Mon=1..Sun=7).
    Weekdays {
        /// Days (1..=7).
        days: Vec<u8>,
    },
    /// Block on these dates.
    Blackout {
        /// Dates blocked.
        dates: Vec<Date>,
    },
    /// Allow only inside this time-of-day window (UTC).
    TimeWindow {
        /// Start.
        start: TimeOfDay,
        /// End, exclusive.
        end: TimeOfDay,
    },
}

/// Calendar = id + name + ordered list of rules. Rules are ANDed.
#[derive(Debug, Clone, PartialEq, Eq)]
pub struct Calendar {
    /// Identifier.
    pub id: CalendarId,
    /// Display name (unique).
    pub name: String,
    /// Ordered AND-combined rules.
    pub rules: Vec<CalendarRule>,
}

/// A leap year of the proleptic Gregorian calendar.
pub open spec fn leap_year(y: int) -> bool {
    y % 4 == 0 && (y % 100 != 0 || y % 400 == 0)
}

/// Days in month `m` of year `y`.
pub open spec fn month_days(y: int, m: int) -> int {
    if m == 2 {
        if leap_year(y) {
            29
        } else {
            28
        }
    } else if m == 4 || m == 6 || m == 9 || m == 11 {
        30
    } else {
        31
    }
}

/// Days from 1970-01-01 to a proleptic Gregorian date, counting years from
/// March so that the leap day ends a year: 400-year eras of 146097 days.
pub open spec fn days_from_civil(y: int, m: int, d: int) -> int {
    let y2 = if m <= 2 {
        y - 1
    } else {
        y
    };
    let era = y2 / 400;
    let yoe = y2 - era * 400;
    let mp = if m > 2 {
        m - 3
    } else {
        m + 9
    };
    let doy = (153 * mp + 2) / 5 + d - 1;
    let doe = yoe * 365 + yoe / 4 - yoe / 100 + doy;
    era * 146097 + doe - 719468
}

/// The days since 1970-01-01 of a proleptic Gregorian date, when
/// `chrono::NaiveDate::from_ymd_opt` accepts it: a year from -262143 to
/// 262142, a month from 1 to 12 and a day of that month.
pub open spec fn civil_days(year: i32, month: u32, day: u32) -> Option<int> {
    if -262143 <= year <= 262142 && 1 <= month <= 12 && 1 <= day <= month_days(
        year as int,
        month as int,
    ) {
        Some(days_from_civil(year as int, month as int, day as int))
    } else {
        None
    }
}

/// `chrono::NaiveDate::from_ymd_opt`, read back as a day count.
#[verifier::external_body]
fn days_from_ymd(year: i32, month: u32, day: u32) -> (r: Option<i64>)
    ensures
        r is Some <==> civil_days(year, month, day) is Some,
        r is Some ==> r->0 == civil_days(year, month, day)->0,
{
    match chrono::NaiveDate::from_ymd_opt(year, month, day) {
        Some(d) => Some(d.signed_duration_since(chrono::NaiveDate::default()).num_days()),
        None => None,
    }
}

impl Date {
    /// The date with this year, month and day, if it exists.
    pub fn from_ymd(year: i32, month: u32, day: u32) -> (r: Option<Date>)
        ensures
            r is Some <==> civil_days(year, month, day) is Some,
            r is Some ==> r->0.days == civil_days(year, month, day)->0,
    {
        match days_from_ymd(year, month, day) {
            Some(d) => Some(Date { days: d }),
            None => None,
        }
    }
}

/// The time of day of `now`, whole seconds only.
pub open spec fn clock_of(now: Timestamp) -> TimeOfDay {
    TimeOfDay { secs: now.second_of_day() as u32, frac: 0 }
}

/// Whether one rule lets a job run at `now`.
pub open spec fn rule_allows(rule: CalendarRule, now: Timestamp) -> bool {
    match rule {
        CalendarRule::Weekdays { days } => days@.contains(weekday_of_day(now.day()) as u8),
        CalendarRule::Blackout { dates } => !dates@.contains(Date { days: now.day() as i64 }),
        CalendarRule::TimeWindow { start, end } => !clock_of(now).before(start) && clock_of(
            now,
        ).before(end),
    }
}

/// Whether every rule lets a job run at `now`.
pub open spec fn rules_allow(rules: Seq<CalendarRule>, now: Timestamp) -> bool {
    forall|i: int| 0 <= i < rules.len() ==> rule_allows(#[trigger] rules[i], now)
}

/// The error a malformed rule raises, if any.
pub open spec fn rule_error(rule: CalendarRule) -> Option<CoreErrorV> {
    match rule {
        CalendarRule::Weekdays { days } => if days@.len() == 0 || exists|i: int|
            0 <= i < days@.len() && (days@[i] < 1 || days@[i] > 7) {
            Some(CoreErrorV::InvalidCalendar("weekdays out of range"@))
        } else {
            None
        },
        CalendarRule::TimeWindow { start, end } => if !start.before(end) {
            Some(CoreErrorV::InvalidCalendar("time window start>=end"@))
        } else {
            None
        },
        CalendarRule::Blackout { .. } => None,
    }
}

/// The error of the first malformed rule, if any.
pub open spec fn rules_error(rules: Seq<CalendarRule>) -> Option<CoreErrorV>
    decreases rules.len(),
{
    if rules.len() == 0 {
        None
    } else if rule_error(rules[0]) is Some {
        rule_error(rules[0])
    } else {
        rules_error(rules.drop_first())
    }
}

/// The error a malformed calendar raises, if any.
pub open spec fn calendar_error(name: Seq<char>, rules: Seq<CalendarRule>) -> Option<CoreErrorV> {
    if blank(name) {
        Some(CoreErrorV::InvalidName(name, "name empty"@))
    } else {
        rules_error(rules)
    }
}

fn day_listed(days: &Vec<u8>, d: u8) -> (r: bool)
    ensures
        r == days@.contains(d),
{
    let mut i: usize = 0;
    while i < days.len()
        invariant
            i <= days.len(),
            forall|j: int| 0 <= j < i ==> days@[j] != d,
        decreases days.len() - i,
    {
        if days[i] == d {
            return true;
        }
        i = i + 1;
    }
    false
}

fn date_listed(dates: &Vec<Date>, d: Date) -> (r: bool)
    ensures
        r == dates@.contains(d),
{
    let mut i: usize = 0;
    while i < dates.len()
        invariant
            i <= dates.len(),
            forall|j: int| 0 <= j < i ==> dates@[j] != d,
        decreases dates.len() - i,
    {
        if dates[i].days == d.days {
            return true;
        }
        i = i + 1;
    }
    false
}

/// Whether `rule` lets a job run at `now`.
fn rule_allows_exec(rule: &CalendarRule, now: &Timestamp) -> (r: bool)
    ensures
        r == rule_allows(*rule, *now),
{
    match rule {
        CalendarRule::Weekdays { days } => day_listed(days, now.weekday()),
        CalendarRule::Blackout { dates } => !date_listed(dates, now.date()),
        CalendarRule::TimeWindow { start, end } => {
            let t = TimeOfDay { secs: now.second_of_day_exec(), frac: 0 };
            !t.is_before(start) && t.is_before(end)
        },
    }
}

fn days_in_range(days: &Vec<u8>) -> (r: bool)
    ensures
        r == (forall|i: int| 0 <= i < days@.len() ==> 1 <= #[trigger] days@[i] <= 7),
{
    let mut i: usize = 0;
    while i < days.len()
        invariant
            i <= days.len(),
            forall|j: int| 0 <= j < i ==> 1 <= #[trigger] days@[j] <= 7,
        decreases days.len() - i,
    {
        if days[i] < 1 || days[i] > 7 {
            return false;
        }
        i = i + 1;
    }
    true
}

impl Calendar {
    /// True if `now` satisfies every rule.
    pub fn allows(&self, now: &Timestamp) -> (r: bool)
        ensures
            r == rules_allow(self.rules@, *now),
    {
        let mut i: usize = 0;
        while i < self.rules.len()
            invariant
                i <= self.rules.len(),
                forall|j: int| 0 <= j < i ==> rule_allows(#[trigger] self.rules@[j], *now),
            decreases self.rules.len() - i,
        {
            if !rule_allows_exec(&self.rules[i], now) {
                return false;
            }
            i = i + 1;
        }
        true
    }

    /// Validate calendar shape.
    pub fn validate(&self) -> (r: Result<(), CoreError>)
        ensures
            checked(r, calendar_error(self.name@, self.rules@)),
    {
        if is_blank(self.name.as_str()) {
            return Err(CoreError::InvalidName(self.name.clone(), "name empty"));
        }
        let mut i: usize = 0;
        assert(self.rules@.subrange(0, self.rules@.len() as int) =~= self.rules@);
        while i < self.rules.len()
            invariant
                i <= self.rules.len(),
                !blank(self.name@),
                rules_error(self.rules@) == rules_error(self.rules@.subrange(i as int, self.rules@.len() as int)),
            decreases self.rules.len() - i,
        {
            let ghost rest = self.rules@.subrange(i as int, self.rules@.len() as int);
            assert(rest[0] == self.rules@[i as int]);
            assert(rest.drop_first() =~= self.rules@.subrange(i + 1, self.rules@.len() as int));
            match &self.rules[i] {
                CalendarRule::Weekdays { days } => {
                    if days.len() == 0 || !days_in_range(days) {
                        return Err(CoreError::InvalidCalendar("weekdays out of range"));
                    }
                },
                CalendarRule::TimeWindow { start, end } => {
                    if !start.is_before(end) {
                        return Err(CoreError::InvalidCalendar("time window start>=end"));
                    }
                },
                CalendarRule::Blackout { .. } => {},
            }
            i = i + 1;
        }
        assert(self.rules@.subrange(i as int, self.rules@.len() as int).len() == 0);
        Ok(())
    }
}

/// Rules are ANDed: adding a rule never allows more instants.
pub proof fn lemma_rules_anded(rules: Seq<CalendarRule>, extra: CalendarRule, now: Timestamp)
    ensures
        rules_allow(rules.push(extra), now) <==> (rules_allow(rules, now) && rule_allows(extra, now)),
{
    let all = rules.push(extra);
    if rules_allow(rules, now) && rule_allows(extra, now) {
        assert forall|i: int| 0 <= i < all.len() implies rule_allows(#[trigger] all[i], now) by {
            if i < rules.len() {
                assert(all[i] == rules[i]);
            }
        }
    }
    if rules_allow(all, now) {
        assert forall|i: int| 0 <= i < rules.len() implies rule_allows(#[trigger] rules[i], now) by {
            assert(all[i] == rules[i]);
        }
        assert(all[rules.len() as int] == extra);
    }
}

} // verus!
