//! Points in time, calendar dates and times of day as plain numbers.
//!
//! A [`Timestamp`] counts seconds and nanoseconds since 1970-01-01T00:00:00Z,
//! a [`Date`] counts days since 1970-01-01 and a [`TimeOfDay`] counts seconds
//! since midnight; the clock and the calendar arithmetic come from
//! `chrono`.

use vstd::prelude::*;

verus! {

/// Nanoseconds in one second.
pub const NANOS_PER_SEC: u32 = 1_000_000_000;

/// Seconds in one day.
pub const SECS_PER_DAY: i64 = 86400;

/// An instant, UTC.
#[derive(Debug, Clone, Copy, PartialEq, Eq, Hash, Structural)]
pub struct Timestamp {
    /// Whole seconds since the Unix epoch.
    pub secs: i64,
    /// Nanoseconds past `secs`.
    pub nanos: u32,
}

/// A calendar date (proleptic Gregorian), as days since 1970-01-01.
#[derive(Debug, Clone, Copy, PartialEq, Eq, Hash, Structural)]
pub struct Date {
    /// Days since 1970-01-01 (negative before).
    pub days: i64,
}

/// A time of day. `frac` may reach into a second second only to stand for a
/// leap second (`secs % 60 == 59`), as in `chrono::NaiveTime`.
#[derive(Debug, Clone, Copy, PartialEq, Eq, Hash, Structural)]
pub struct TimeOfDay {
    /// Seconds since midnight, below 86400.
    pub secs: u32,
    /// Nanoseconds past `secs`, below 2_000_000_000.
    pub frac: u32,
}

impl Timestamp {
    /// Nanoseconds below one second.
    pub open spec fn wf(self) -> bool {
        self.nanos < NANOS_PER_SEC
    }

    /// Total nanoseconds since the epoch.
    pub open spec fn total_nanos(self) -> int {
        self.secs * 1_000_000_000 + self.nanos
    }

    /// The day this instant falls on.
    pub open spec fn day(self) -> int {
        (self.secs as int) / 86400
    }

    /// Seconds since midnight of that day.
    pub open spec fn second_of_day(self) -> int {
        (self.secs as int) % 86400
    }
}

impl TimeOfDay {
    /// Inside one day; a second past 1e9 nanoseconds only for a leap second.
    pub open spec fn wf(self) -> bool {
        &&& self.secs < 86400
        &&& self.frac < 2_000_000_000
        &&& self.frac >= 1_000_000_000 ==> self.secs % 60 == 59
    }

    /// `self` comes strictly before `other` (`NaiveTime`'s order).
    pub open spec fn before(self, other: TimeOfDay) -> bool {
        self.secs < other.secs || (self.secs == other.secs && self.frac < other.frac)
    }
}

/// `a` is strictly later than `b` (`DateTime`'s order).
pub open spec fn later(a: Timestamp, b: Timestamp) -> bool {
    a.secs > b.secs || (a.secs == b.secs && a.nanos > b.nanos)
}

/// The instant at which `t` falls on the day of `now`.
pub open spec fn on_day_of(now: Timestamp, t: TimeOfDay) -> Timestamp {
    Timestamp { secs: (now.day() * 86400 + t.secs) as i64, nanos: t.frac }
}

/// Whole seconds from `earlier` to `later_ts`, or 0 when that is not
/// positive (`(later - earlier).num_seconds().max(0)`).
pub open spec fn whole_secs_between(later_ts: Timestamp, earlier: Timestamp) -> nat {
    let d = later_ts.total_nanos() - earlier.total_nanos();
    if d <= 0 {
        0
    } else {
        (d / 1_000_000_000) as nat
    }
}

/// ISO weekday of a day number: Monday is 1, Sunday is 7 (1970-01-01 was a Thursday).
pub open spec fn weekday_of_day(day: int) -> int {
    (day + 3) % 7 + 1
}

impl Timestamp {
    /// `a > b` for timestamps.
    pub fn is_after(&self, other: &Timestamp) -> (r: bool)
        ensures
            r == later(*self, *other),
    {
        self.secs > other.secs || (self.secs == other.secs && self.nanos > other.nanos)
    }

    /// The day this instant falls on (`date_naive`).
    pub fn date(&self) -> (d: Date)
        ensures
            d.days == self.day(),
    {
        let q = self.secs / SECS_PER_DAY;
        let r = self.secs % SECS_PER_DAY;
        if r < 0 {
            Date { days: (q - 1) as i64 }
        } else {
            Date { days: q as i64 }
        }
    }

    /// Seconds since midnight of this instant's day.
    pub fn second_of_day_exec(&self) -> (s: u32)
        ensures
            s == self.second_of_day(),
            s < 86400,
    {
        let r = self.secs % SECS_PER_DAY;
        if r < 0 {
            (r + SECS_PER_DAY) as u32
        } else {
            r as u32
        }
    }

    /// ISO weekday (Monday 1 .. Sunday 7).
    pub fn weekday(&self) -> (w: u8)
        ensures
            w == weekday_of_day(self.day()),
            1 <= w <= 7,
    {
        let d = self.date();
        let m = (d.days % 7 + 7) % 7;
        proof {
            assert((d.days % 7 + 7) % 7 == (d.days as int) % 7) by (nonlinear_arith);
        }
        let w = (m + 3) % 7 + 1;
        proof {
            assert(((d.days as int) % 7 + 3) % 7 == ((d.days as int) + 3) % 7) by (nonlinear_arith);
        }
        w as u8
    }

    /// The instant at which `t` falls on this instant's day.
    pub fn at_time_of_day(&self, t: &TimeOfDay) -> (r: Timestamp)
        requires
            t.wf(),
            i64::MIN + 86400 < self.secs < i64::MAX - 86400,
        ensures
            r == on_day_of(*self, *t),
    {
        let d = self.date();
        proof {
            assert(self.secs - 86400 < d.days * 86400 <= self.secs) by (nonlinear_arith)
                requires
                    d.days == (self.secs as int) / 86400,
            ;
        }
        Timestamp { secs: d.days * SECS_PER_DAY + t.secs as i64, nanos: t.frac }
    }

    /// Whole seconds from `earlier` to `self`, 0 when not positive.
    pub fn secs_since(&self, earlier: &Timestamp) -> (r: u64)
        requires
            self.wf(),
            earlier.wf(),
        ensures
            r == whole_secs_between(*self, *earlier),
    {
        proof {
            assert(-0x8000_0000_0000_0000 * 1_000_000_000int <= self.secs * 1_000_000_000int
                <= 0x7fff_ffff_ffff_ffff * 1_000_000_000int) by (nonlinear_arith)
                requires
                    -0x8000_0000_0000_0000 <= self.secs <= 0x7fff_ffff_ffff_ffff,
            ;
            assert(-0x8000_0000_0000_0000 * 1_000_000_000int <= earlier.secs * 1_000_000_000int
                <= 0x7fff_ffff_ffff_ffff * 1_000_000_000int) by (nonlinear_arith)
                requires
                    -0x8000_0000_0000_0000 <= earlier.secs <= 0x7fff_ffff_ffff_ffff,
            ;
        }
        let a: i128 = self.secs as i128 * 1_000_000_000 + self.nanos as i128;
        let b: i128 = earlier.secs as i128 * 1_000_000_000 + earlier.nanos as i128;
        let d: i128 = a - b;
        if d <= 0 {
            0
        } else {
            proof {
                assert(d / 1_000_000_000 <= u64::MAX) by (nonlinear_arith)
                    requires
                        d <= 0xffff_ffff_ffff_ffff * 1_000_000_000int + 999_999_999,
                        d > 0,
                ;
            }
            (d / 1_000_000_000) as u64
        }
    }
}

/// The current time (`chrono::Utc::now`); the clock is never before the epoch.
#[verifier::external_body]
pub(crate) fn now() -> (t: Timestamp)
    ensures
        t.wf(),
        t.secs >= 0,
{
    let n = chrono::Utc::now();
    Timestamp { secs: n.timestamp(), nanos: n.timestamp_subsec_nanos() }
}

impl TimeOfDay {
    /// `self < other`.
    pub fn is_before(&self, other: &TimeOfDay) -> (r: bool)
        ensures
            r == self.before(*other),
    {
        self.secs < other.secs || (self.secs == other.secs && self.frac < other.frac)
    }

    /// `HH:MM:SS` with no fraction, if in range (`NaiveTime::from_hms_opt`).
    pub fn from_hms(h: u32, m: u32, s: u32) -> (r: Option<TimeOfDay>)
        ensures
            r is Some <==> (h < 24 && m < 60 && s < 60),
            r is Some ==> r->0 == (TimeOfDay { secs: (h * 3600 + m * 60 + s) as u32, frac: 0 }),
            r is Some ==> r->0.wf(),
    {
        if h < 24 && m < 60 && s < 60 {
            Some(TimeOfDay { secs: h * 3600 + m * 60 + s, frac: 0 })
        } else {
            None
        }
    }
}

} // verus!
