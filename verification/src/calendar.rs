//! Calendar and rolling budget windows, in UTC.

use vstd::prelude::*;

use crate::identity::AgentTimestampMillis;

verus! {

/// Milliseconds in one day.
pub const MILLIS_PER_DAY: u64 = 86_400_000;

/// Whether a year of the proleptic Gregorian calendar is a leap year.
pub open spec fn is_leap(year: nat) -> bool {
    year % 4 == 0 && (year % 100 != 0 || year % 400 == 0)
}

/// How many days a month has.
pub open spec fn month_length(year: nat, month: nat) -> nat {
    if month == 2 {
        if is_leap(year) {
            29
        } else {
            28
        }
    } else if month == 4 || month == 6 || month == 9 || month == 11 {
        30
    } else {
        31
    }
}

/// How many days a year has.
pub open spec fn year_length(year: nat) -> nat {
    if is_leap(year) {
        366
    } else {
        365
    }
}

/// Days from 1970-01-01 to the first day of a year.
pub open spec fn days_before_year(year: nat) -> nat
    decreases year,
{
    if year <= 1970 {
        0
    } else {
        days_before_year((year - 1) as nat) + year_length((year - 1) as nat)
    }
}

/// Days from the first day of a year to the first day of one of its months.
pub open spec fn days_before_month(year: nat, month: nat) -> nat
    decreases month,
{
    if month <= 1 {
        0
    } else {
        days_before_month(year, (month - 1) as nat) + month_length(year, (month - 1) as nat)
    }
}

/// The first day of a month, counted from 1970-01-01.
pub open spec fn month_start_day(year: nat, month: nat) -> nat {
    days_before_year(year) + days_before_month(year, month)
}

/// Whether a year and a month name a month from January 1970 on.
pub open spec fn is_month(year: nat, month: nat) -> bool {
    year >= 1970 && 1 <= month <= 12
}

/// Whether a day lies in a month.
pub open spec fn day_in_month(day: nat, year: nat, month: nat) -> bool {
    &&& is_month(year, month)
    &&& month_start_day(year, month) <= day
    &&& day < month_start_day(year, month) + month_length(year, month)
}

/// The month that follows a month.
pub open spec fn next_month(year: nat, month: nat) -> (nat, nat) {
    if month == 12 {
        (year + 1, 1)
    } else {
        (year, month + 1)
    }
}

/// Leap days of the years up to and with `year`, counted from year one.
spec fn leap_days(year: int) -> int {
    year / 4 - year / 100 + year / 400
}

proof fn lemma_leap_step(year: nat)
    requires
        year >= 1,
    ensures
        leap_days(year as int) - leap_days(year - 1) == if is_leap(year) {
            1int
        } else {
            0int
        },
{
}

proof fn lemma_days_before_year(year: nat)
    requires
        year >= 1970,
    ensures
        days_before_year(year) == 365 * (year - 1970) + leap_days(year - 1) - 477,
    decreases year,
{
    if year > 1970 {
        lemma_days_before_year((year - 1) as nat);
        lemma_leap_step((year - 1) as nat);
    } else {
        assert(leap_days(1969) == 477);
    }
}

proof fn lemma_days_before_month(year: nat, month: nat)
    requires
        1 <= month <= 12,
    ensures
        days_before_month(year, month) == if month <= 2 {
            (153 * (month + 9) + 2) / 5 - 306
        } else {
            (153 * (month - 3) + 2) / 5 + 59 + if is_leap(year) {
                1int
            } else {
                0int
            }
        },
{
    reveal_with_fuel(days_before_month, 13);
}

/// A month ends where the next one starts.
pub proof fn lemma_month_end(year: nat, month: nat)
    requires
        is_month(year, month),
    ensures
        is_month(next_month(year, month).0, next_month(year, month).1),
        month_start_day(year, month) + month_length(year, month) == month_start_day(
            next_month(year, month).0,
            next_month(year, month).1,
        ),
{
    if month == 12 {
        assert(days_before_month(year, 12) == if is_leap(year) { 335nat } else { 334nat }) by {
            lemma_days_before_month(year, 12);
        }
    }
}

/// Months follow each other without overlap: a later month starts no earlier
/// than an earlier one ends.
proof fn lemma_months_ordered(y1: nat, m1: nat, y2: nat, m2: nat)
    requires
        is_month(y1, m1),
        is_month(y2, m2),
        y1 < y2 || (y1 == y2 && m1 < m2),
    ensures
        month_start_day(y1, m1) + month_length(y1, m1) <= month_start_day(y2, m2),
    decreases y2, m2,
{
    let previous: (nat, nat) = if m2 == 1 {
        ((y2 - 1) as nat, 12)
    } else {
        (y2, (m2 - 1) as nat)
    };
    lemma_month_end(previous.0, previous.1);
    if previous.0 == y1 && previous.1 == m1 {
    } else {
        lemma_months_ordered(y1, m1, previous.0, previous.1);
    }
}

/// A day lies in one month only.
pub proof fn lemma_month_unique(day: nat, y1: nat, m1: nat, y2: nat, m2: nat)
    requires
        day_in_month(day, y1, m1),
        day_in_month(day, y2, m2),
    ensures
        y1 == y2,
        m1 == m2,
{
    if y1 < y2 || (y1 == y2 && m1 < m2) {
        lemma_months_ordered(y1, m1, y2, m2);
    } else if y2 < y1 || (y1 == y2 && m2 < m1) {
        lemma_months_ordered(y2, m2, y1, m1);
    }
}

/// Days of the first `years` years of an era that starts on a first of March.
spec fn era_days(years: int) -> int {
    365 * years + years / 4 - years / 100
}

/// The year of the era a day of the era lies in.
proof fn lemma_year_of_era(doe: int, yoe: int)
    requires
        0 <= doe < 146_097,
        yoe == (doe - doe / 1_460 + doe / 36_524 - doe / 146_096) / 365,
    ensures
        0 <= yoe < 400,
        era_days(yoe) <= doe,
        doe < era_days(yoe + 1) || (yoe == 399 && doe == 146_096),
{
    if doe == 146_096 {
        assert(yoe == 399);
    } else {
        let c = doe / 36_524;
        let r = doe % 36_524;
        let q = r / 1_461;
        let p = r % 1_461;
        assert(0 <= c <= 3);
        assert(0 <= q <= 24);
        assert(q == 24 ==> p < 1_460);
        assert(doe == 36_524 * c + 1_461 * q + p);
        let e = (24 * c + q + p) / 1_460;
        assert(doe == 1_460 * (25 * c + q) + (24 * c + q + p));
        assert(doe / 1_460 == 25 * c + q + e);
        assert(e == 0 || e == 1);
        assert(doe / 146_096 == 0);
        let k = if p == 1_460 {
            3
        } else {
            p / 365
        };
        assert(0 <= k <= 3);
        assert(doe - doe / 1_460 + c == 365 * (100 * c + 4 * q) + (p - e));
        assert((p - e) / 365 == k) by {
            if p == 1_460 {
                assert(e == 1);
            } else if p % 365 == 0 {
                assert(p <= 1_095);
                assert(e == 0);
            }
        }
        assert(yoe == 100 * c + 4 * q + k);
        assert(yoe / 100 == c);
        assert(yoe / 4 == 25 * c + q);
        assert(era_days(yoe) == 36_524 * c + 1_461 * q + 365 * k);
        let next = yoe + 1;
        if k < 3 {
            assert(next / 4 == 25 * c + q);
            assert(next / 100 == c);
        } else {
            assert(next / 4 == 25 * c + q + 1);
            if q < 24 {
                assert(next / 100 == c);
            } else {
                assert(next / 100 == c + 1);
            }
        }
    }
}

/// The month of a March-based year a day of it lies in.
proof fn lemma_month_of_year(doy: int, mp: int)
    requires
        0 <= doy <= 365,
        mp == (5 * doy + 2) / 153,
    ensures
        0 <= mp <= 11,
        (153 * mp + 2) / 5 <= doy,
        mp < 11 ==> doy < (153 * (mp + 1) + 2) / 5,
{
}

/// The first day of a month, by March-based years.
proof fn lemma_month_start_closed(year: nat, month: nat)
    requires
        is_month(year, month),
    ensures
        ({
            let shifted = if month <= 2 {
                year - 1
            } else {
                year as int
            };
            let mp = if month > 2 {
                month - 3
            } else {
                (month + 9) as int
            };
            month_start_day(year, month) == 365 * shifted + leap_days(shifted) + (153 * mp + 2) / 5
                - 719_468
        }),
{
    lemma_days_before_year(year);
    lemma_days_before_month(year, month);
    lemma_leap_step(year);
}

/// Days of whole eras and of the years begun in the last one.
proof fn lemma_era_days(era: int, yoe: int)
    requires
        0 <= era,
        0 <= yoe < 400,
    ensures
        era * 146_097 + era_days(yoe) == 365 * (era * 400 + yoe) + leap_days(era * 400 + yoe),
{
    let y = era * 400 + yoe;
    assert(y / 400 == era);
    assert(y / 100 == 4 * era + yoe / 100);
    assert(y / 4 == 100 * era + yoe / 4);
}

/// A March-based year has at most 366 days, and 366 only when the February it
/// ends with is a leap year's.
proof fn lemma_day_of_year(era: int, doe: int, yoe: int)
    requires
        0 <= era,
        0 <= doe < 146_097,
        0 <= yoe < 400,
        era_days(yoe) <= doe,
        doe < era_days(yoe + 1) || (yoe == 399 && doe == 146_096),
    ensures
        0 <= doe - era_days(yoe) <= 365,
        doe - era_days(yoe) == 365 ==> is_leap((era * 400 + yoe + 1) as nat),
{
    let next = yoe + 1;
    let whole = era * 400 + next;
    assert(whole % 4 == next % 4);
    assert(whole % 100 == next % 100);
    assert(whole % 400 == next % 400);
    if yoe == 399 {
        assert(next % 400 == 0);
    }
    assert(next / 4 - yoe / 4 == if next % 4 == 0 {
        1int
    } else {
        0int
    });
    assert(next / 100 - yoe / 100 == if next % 100 == 0 {
        1int
    } else {
        0int
    });
}

/// How many days each month of a March-based year has.
proof fn lemma_month_length(year: nat, mp: int)
    requires
        0 <= mp < 11,
    ensures
        ({
            let month = if mp < 10 {
                mp + 3
            } else {
                mp - 9
            };
            month_length(year, month as nat) == (153 * (mp + 1) + 2) / 5 - (153 * mp + 2) / 5
        }),
{
}

/// Years before 1969 end before the calendar starts.
proof fn lemma_early_years(year: int)
    requires
        0 <= year < 1969,
    ensures
        365 * year + leap_days(year) + 365 < 719_468,
{
}

/// The day a March-based year, month and day of the year name.
proof fn lemma_civil_day(days: int, era: int, yoe: int, doy: int, mp: int)
    requires
        0 <= days,
        0 <= era,
        0 <= yoe < 400,
        0 <= doy <= 365,
        doy == 365 ==> is_leap((era * 400 + yoe + 1) as nat),
        mp == (5 * doy + 2) / 153,
        days + 719_468 == era * 146_097 + era_days(yoe) + doy,
    ensures
        ({
            let month = if mp < 10 {
                mp + 3
            } else {
                mp - 9
            };
            let year = yoe + era * 400 + if month <= 2 {
                1int
            } else {
                0int
            };
            day_in_month(days as nat, year as nat, month as nat)
        }),
{
    let month = if mp < 10 {
        mp + 3
    } else {
        mp - 9
    };
    let shifted = era * 400 + yoe;
    let year = if month <= 2 {
        shifted + 1
    } else {
        shifted
    };
    lemma_month_of_year(doy, mp);
    lemma_era_days(era, yoe);
    if shifted < 1969 {
        lemma_early_years(shifted);
    }
    if shifted == 1969 {
        assert(leap_days(1969) == 477);
        assert(doy >= 306);
        assert(mp >= 10);
    }
    assert(year >= 1970);
    lemma_month_start_closed(year as nat, month as nat);
    assert(days == month_start_day(year as nat, month as nat) + (doy - (153 * mp + 2) / 5));
    if mp < 11 {
        lemma_month_length(year as nat, mp);
    }
}

/// Civil year and month of a day counted from 1970-01-01.
pub fn civil_year_month(days: u64) -> (civil: (u64, u64))
    requires
        days <= u64::MAX / MILLIS_PER_DAY,
    ensures
        day_in_month(days as nat, civil.0 as nat, civil.1 as nat),
        civil.0 <= 1_000_000_000,
{
    let z: u64 = days + 719_468;
    let era: u64 = z / 146_097;
    let doe: u64 = z % 146_097;
    let yoe: u64 = (doe - doe / 1_460 + doe / 36_524 - doe / 146_096) / 365;
    proof {
        lemma_year_of_era(doe as int, yoe as int);
        lemma_day_of_year(era as int, doe as int, yoe as int);
    }
    let doy: u64 = doe - (365 * yoe + yoe / 4 - yoe / 100);
    let mp: u64 = (5 * doy + 2) / 153;
    proof {
        lemma_month_of_year(doy as int, mp as int);
        lemma_civil_day(days as int, era as int, yoe as int, doy as int, mp as int);
    }
    let month: u64 = if mp < 10 {
        mp + 3
    } else {
        mp - 9
    };
    let year: u64 = yoe + era * 400 + if month <= 2 {
        1
    } else {
        0
    };
    (year, month)
}

/// The first day of a civil month, counted from 1970-01-01.
pub fn days_of_month_start(year: u64, month: u64) -> (days: u64)
    requires
        is_month(year as nat, month as nat),
        month_start_day(year as nat, month as nat) + 719_468 <= u64::MAX,
    ensures
        days == month_start_day(year as nat, month as nat),
{
    let shifted: u64 = if month <= 2 {
        year - 1
    } else {
        year
    };
    let era: u64 = shifted / 400;
    let yoe: u64 = shifted % 400;
    let mp: u64 = if month > 2 {
        month - 3
    } else {
        month + 9
    };
    let doy: u64 = (153 * mp + 2) / 5;
    let doe: u64 = yoe * 365 + yoe / 4 - yoe / 100 + doy;
    proof {
        lemma_era_days(era as int, yoe as int);
        lemma_month_start_closed(year as nat, month as nat);
    }
    era * 146_097 + doe - 719_468
}

/// The month a day lies in.
pub open spec fn civil_month(day: nat) -> (nat, nat) {
    choose|civil: (nat, nat)| day_in_month(day, civil.0, civil.1)
}

/// Every day lies in exactly one month.
pub proof fn every_day_lies_in_one_month(day: nat)
    ensures
        day_in_month(day, civil_month(day).0, civil_month(day).1),
        forall|year: nat, month: nat| #[trigger]
            day_in_month(day, year, month) ==> (year, month) == civil_month(day),
{
    let z = day + 719_468;
    let era = z / 146_097;
    let doe = z % 146_097;
    let yoe = (doe - doe / 1_460 + doe / 36_524 - doe / 146_096) / 365;
    lemma_year_of_era(doe as int, yoe);
    lemma_day_of_year(era as int, doe as int, yoe);
    let doy = doe - era_days(yoe);
    let mp = (5 * doy + 2) / 153;
    lemma_month_of_year(doy, mp);
    lemma_civil_day(day as int, era as int, yoe, doy, mp);
    let month = if mp < 10 {
        mp + 3
    } else {
        mp - 9
    };
    let year = yoe + era * 400 + if month <= 2 {
        1int
    } else {
        0int
    };
    let civil: (nat, nat) = (year as nat, month as nat);
    assert(day_in_month(day, civil.0, civil.1));
    assert forall|year: nat, month: nat| #[trigger] day_in_month(day, year, month) implies (
    year, month) == civil_month(day) by {
        let found = civil_month(day);
        lemma_month_unique(day, year, month, found.0, found.1);
    }
}

/// Calendar unit of a calendar-aligned budget window.
#[derive(Debug, Clone, Copy, PartialEq, Eq, PartialOrd, Ord, Hash, Structural)]
#[non_exhaustive]
pub enum AgentCalendarUnit {
    /// One calendar day.
    Day,
    /// One calendar week, from Monday on.
    Week,
    /// One calendar month.
    Month,
}

impl AgentCalendarUnit {
    /// Stable kebab-case label.
    pub fn as_label(self) -> (label: &'static str)
        ensures
            label@ == self.label_text(),
    {
        match self {
            AgentCalendarUnit::Day => "day",
            AgentCalendarUnit::Week => "week",
            AgentCalendarUnit::Month => "month",
        }
    }

    /// The label of each unit.
    pub open spec fn label_text(self) -> Seq<char> {
        match self {
            AgentCalendarUnit::Day => "day"@,
            AgentCalendarUnit::Week => "week"@,
            AgentCalendarUnit::Month => "month"@,
        }
    }
}

/// The window a goal-level budget ceiling covers.
#[derive(Debug, Clone, Copy, PartialEq, Eq, Structural)]
#[non_exhaustive]
pub enum AgentBudgetWindow {
    /// A rolling window of fixed length.
    Rolling {
        /// Window length in milliseconds. Positive.
        length_millis: u64,
    },
    /// A calendar-aligned window.
    Calendar {
        /// The calendar unit the window aligns to.
        unit: AgentCalendarUnit,
    },
}

/// The day a time lies in.
pub open spec fn day_of(time: AgentTimestampMillis) -> nat {
    (time.millis / MILLIS_PER_DAY) as nat
}

/// Whether weeks can be told at a time: the first Monday is 1970-01-05.
pub open spec fn unit_covers(unit: AgentCalendarUnit, time: AgentTimestampMillis) -> bool {
    unit == AgentCalendarUnit::Week ==> day_of(time) >= 4
}

/// The first day of the calendar window a day lies in. Weeks start on Monday,
/// and 1970-01-01 was a Thursday.
pub open spec fn window_start_day(unit: AgentCalendarUnit, day: nat) -> int {
    match unit {
        AgentCalendarUnit::Day => day as int,
        AgentCalendarUnit::Week => day - (day + 3) % 7,
        AgentCalendarUnit::Month => month_start_day(
            civil_month(day).0,
            civil_month(day).1,
        ) as int,
    }
}

/// The first day after the calendar window a day lies in.
pub open spec fn window_end_day(unit: AgentCalendarUnit, day: nat) -> int {
    match unit {
        AgentCalendarUnit::Day => (day + 1) as int,
        AgentCalendarUnit::Week => window_start_day(unit, day) + 7,
        AgentCalendarUnit::Month => window_start_day(unit, day) + month_length(
            civil_month(day).0,
            civil_month(day).1,
        ),
    }
}

/// When the calendar window that holds a time starts.
pub open spec fn calendar_start(unit: AgentCalendarUnit, time: AgentTimestampMillis) -> int {
    window_start_day(unit, day_of(time)) * MILLIS_PER_DAY
}

/// When the calendar window after the one that holds a time starts.
pub open spec fn calendar_end(unit: AgentCalendarUnit, time: AgentTimestampMillis) -> int {
    window_end_day(unit, day_of(time)) * MILLIS_PER_DAY
}

/// The days of a window: each lies between its window's first day and the first
/// day after it, and all days between those two share the window.
pub proof fn lemma_window_days(unit: AgentCalendarUnit, day: nat, other: nat)
    requires
        window_start_day(unit, day) <= other < window_end_day(unit, day),
    ensures
        window_start_day(unit, day) <= day < window_end_day(unit, day),
        window_start_day(unit, other) == window_start_day(unit, day),
        window_end_day(unit, other) == window_end_day(unit, day),
{
    match unit {
        AgentCalendarUnit::Day => {},
        AgentCalendarUnit::Week => {},
        AgentCalendarUnit::Month => {
            every_day_lies_in_one_month(day);
            every_day_lies_in_one_month(other);
            let civil = civil_month(day);
            assert(day_in_month(other, civil.0, civil.1));
        },
    }
}

/// A calendar window starts no later than any time in it, and the next one
/// starts later.
pub proof fn a_calendar_window_holds_its_time(unit: AgentCalendarUnit, time: AgentTimestampMillis)
    ensures
        calendar_start(unit, time) <= time.millis < calendar_end(unit, time),
{
    let day = day_of(time);
    every_day_lies_in_one_month(day);
    let start = window_start_day(unit, day);
    let end = window_end_day(unit, day);
    assert(start <= day < end);
    assert(day * MILLIS_PER_DAY <= time.millis < (day + 1) * MILLIS_PER_DAY);
    assert(start * MILLIS_PER_DAY <= day * MILLIS_PER_DAY) by (nonlinear_arith)
        requires
            start <= day,
            MILLIS_PER_DAY == 86_400_000,
    ;
    assert((day + 1) * MILLIS_PER_DAY <= end * MILLIS_PER_DAY) by (nonlinear_arith)
        requires
            day + 1 <= end,
            MILLIS_PER_DAY == 86_400_000,
    ;
}

/// Two times share a calendar window exactly when each lies before the other's
/// window ends and no earlier than it starts.
pub proof fn times_in_one_calendar_window_share_it(
    unit: AgentCalendarUnit,
    time: AgentTimestampMillis,
    other: AgentTimestampMillis,
)
    ensures
        calendar_start(unit, time) <= other.millis < calendar_end(unit, time) <==> calendar_start(
            unit,
            other,
        ) == calendar_start(unit, time),
{
    let day = day_of(time);
    let start = window_start_day(unit, day);
    let end = window_end_day(unit, day);
    a_calendar_window_holds_its_time(unit, time);
    a_calendar_window_holds_its_time(unit, other);
    let there = day_of(other);
    every_day_lies_in_one_month(day);
    every_day_lies_in_one_month(there);
    assert(MILLIS_PER_DAY == 86_400_000);
    assert(there * MILLIS_PER_DAY <= other.millis < (there + 1) * MILLIS_PER_DAY);
    if start * 86_400_000 <= other.millis < end * 86_400_000 {
        assert(start <= there < end);
        lemma_window_days(unit, day, there);
    }
    if calendar_start(unit, other) == calendar_start(unit, time) {
        assert(window_start_day(unit, there) == start);
        assert(window_end_day(unit, there) == end) by {
            lemma_window_days(unit, day, day);
            lemma_window_days(unit, there, there);
            if start >= 0 {
                lemma_window_days(unit, day, start as nat);
                lemma_window_days(unit, there, start as nat);
            }
        }
    }
}

/// The start of the calendar window that holds `now`, in UTC milliseconds.
pub fn calendar_window_start(unit: AgentCalendarUnit, now: AgentTimestampMillis) -> (start: u64)
    requires
        unit_covers(unit, now),
    ensures
        start == calendar_start(unit, now),
{
    let days: u64 = now.millis / MILLIS_PER_DAY;
    proof {
        every_day_lies_in_one_month(days as nat);
        a_calendar_window_holds_its_time(unit, now);
    }
    match unit {
        AgentCalendarUnit::Day => days * MILLIS_PER_DAY,
        AgentCalendarUnit::Week => {
            let weekday: u64 = (days + 3) % 7;
            (days - weekday) * MILLIS_PER_DAY
        },
        AgentCalendarUnit::Month => {
            let (year, month) = civil_year_month(days);
            days_of_month_start(year, month) * MILLIS_PER_DAY
        },
    }
}

/// The start of the calendar window after the one that holds `now`, in UTC
/// milliseconds.
pub fn next_calendar_boundary(unit: AgentCalendarUnit, now: AgentTimestampMillis) -> (boundary: u64)
    requires
        unit_covers(unit, now),
        calendar_end(unit, now) <= u64::MAX,
    ensures
        boundary == calendar_end(unit, now),
{
    let days: u64 = now.millis / MILLIS_PER_DAY;
    proof {
        every_day_lies_in_one_month(days as nat);
        a_calendar_window_holds_its_time(unit, now);
    }
    match unit {
        AgentCalendarUnit::Day => (days + 1) * MILLIS_PER_DAY,
        AgentCalendarUnit::Week => {
            let weekday: u64 = (days + 3) % 7;
            (days - weekday + 7) * MILLIS_PER_DAY
        },
        AgentCalendarUnit::Month => {
            let (year, month) = civil_year_month(days);
            proof {
                lemma_month_end(year as nat, month as nat);
            }
            let (next_year, following) = if month == 12 {
                (year + 1, 1u64)
            } else {
                (year, month + 1)
            };
            days_of_month_start(next_year, following) * MILLIS_PER_DAY
        },
    }
}

/// Whether a window can be placed at a time: a rolling window has a length, and
/// weeks start with the first Monday.
pub open spec fn window_covers(window: AgentBudgetWindow, time: AgentTimestampMillis) -> bool {
    match window {
        AgentBudgetWindow::Rolling { length_millis } => length_millis > 0,
        AgentBudgetWindow::Calendar { unit } => unit_covers(unit, time),
    }
}

/// Milliseconds from an earlier time to a later one, none when it is not later.
pub open spec fn elapsed_millis(from: AgentTimestampMillis, to: AgentTimestampMillis) -> int {
    if to.millis >= from.millis {
        to.millis - from.millis
    } else {
        0
    }
}

/// Where the window that holds `now` starts, given where an earlier one did. A
/// rolling window advances by whole lengths; a window never moves back.
pub open spec fn advanced_start(
    window: AgentBudgetWindow,
    previous: AgentTimestampMillis,
    now: AgentTimestampMillis,
) -> AgentTimestampMillis {
    match window {
        AgentBudgetWindow::Rolling { length_millis } => AgentTimestampMillis {
            millis: (previous.millis + (elapsed_millis(previous, now) / length_millis as int)
                * length_millis) as u64,
        },
        AgentBudgetWindow::Calendar { unit } => if calendar_start(unit, now) > previous.millis {
            AgentTimestampMillis { millis: calendar_start(unit, now) as u64 }
        } else {
            previous
        },
    }
}

/// Where the first window starts: a rolling one at the first charge.
pub open spec fn first_start(
    window: AgentBudgetWindow,
    now: AgentTimestampMillis,
) -> AgentTimestampMillis {
    match window {
        AgentBudgetWindow::Rolling { .. } => now,
        AgentBudgetWindow::Calendar { unit } => AgentTimestampMillis {
            millis: calendar_start(unit, now) as u64,
        },
    }
}

/// Whether the time at which a window turns can be counted.
pub open spec fn boundary_fits(
    window: AgentBudgetWindow,
    start: AgentTimestampMillis,
    now: AgentTimestampMillis,
) -> bool {
    match window {
        AgentBudgetWindow::Rolling { length_millis } => elapsed_millis(start, now)
            / length_millis as int + 1 <= u64::MAX,
        AgentBudgetWindow::Calendar { unit } => calendar_end(unit, now) <= u64::MAX,
    }
}

/// When the window that holds `now` turns, given where it started; the last
/// representable time when that is later.
pub open spec fn turn_of_window(
    window: AgentBudgetWindow,
    start: AgentTimestampMillis,
    now: AgentTimestampMillis,
) -> AgentTimestampMillis {
    match window {
        AgentBudgetWindow::Rolling { length_millis } => {
            let turn = start.millis + (elapsed_millis(start, now) / length_millis as int + 1)
                * length_millis;
            AgentTimestampMillis {
                millis: if turn > u64::MAX {
                    u64::MAX
                } else {
                    turn as u64
                },
            }
        },
        AgentBudgetWindow::Calendar { unit } => AgentTimestampMillis {
            millis: calendar_end(unit, now) as u64,
        },
    }
}

proof fn lemma_rolling(elapsed: int, length: int)
    requires
        elapsed >= 0,
        length > 0,
    ensures
        0 <= (elapsed / length) * length <= elapsed,
        elapsed < (elapsed / length + 1) * length,
        elapsed / length >= 0,
{
    vstd::arithmetic::div_mod::lemma_fundamental_div_mod(elapsed, length);
    vstd::arithmetic::div_mod::lemma_div_pos_is_pos(elapsed, length);
    let q = elapsed / length;
    assert(q * length == length * q) by (nonlinear_arith);
    assert((q + 1) * length == q * length + length) by (nonlinear_arith);
    assert(q * length >= 0) by (nonlinear_arith)
        requires
            q >= 0,
            length > 0,
    ;
}

/// The start of the window that holds `now`, given where the previous one
/// started.
pub fn advance_window_start(
    window: &AgentBudgetWindow,
    previous: AgentTimestampMillis,
    now: AgentTimestampMillis,
) -> (start: AgentTimestampMillis)
    requires
        window_covers(*window, now),
    ensures
        start == advanced_start(*window, previous, now),
{
    match window {
        AgentBudgetWindow::Rolling { length_millis } => {
            let elapsed: u64 = now.millis.saturating_sub(previous.millis);
            proof {
                lemma_rolling(elapsed as int, *length_millis as int);
            }
            let advanced: u64 = previous.millis + (elapsed / *length_millis) * *length_millis;
            AgentTimestampMillis::new(advanced)
        },
        AgentBudgetWindow::Calendar { unit } => {
            let boundary: u64 = calendar_window_start(*unit, now);
            if boundary > previous.millis {
                AgentTimestampMillis::new(boundary)
            } else {
                previous
            }
        },
    }
}

/// The start of the first window a ceiling opens.
pub fn initial_window_start(window: &AgentBudgetWindow, now: AgentTimestampMillis) -> (start:
    AgentTimestampMillis)
    requires
        window_covers(*window, now),
    ensures
        start == first_start(*window, now),
{
    match window {
        AgentBudgetWindow::Rolling { .. } => now,
        AgentBudgetWindow::Calendar { unit } => AgentTimestampMillis::new(
            calendar_window_start(*unit, now),
        ),
    }
}

/// When the window that holds `now` turns, given where it started.
pub fn next_window_boundary(
    window: &AgentBudgetWindow,
    start: AgentTimestampMillis,
    now: AgentTimestampMillis,
) -> (boundary: AgentTimestampMillis)
    requires
        window_covers(*window, now),
        boundary_fits(*window, start, now),
    ensures
        boundary == turn_of_window(*window, start, now),
{
    match window {
        AgentBudgetWindow::Rolling { length_millis } => {
            let elapsed: u64 = now.millis.saturating_sub(start.millis);
            proof {
                lemma_rolling(elapsed as int, *length_millis as int);
            }
            let turns: u64 = elapsed / *length_millis + 1;
            let span: u64 = match turns.checked_mul(*length_millis) {
                Some(span) => span,
                None => u64::MAX,
            };
            AgentTimestampMillis::new(start.millis.saturating_add(span))
        },
        AgentBudgetWindow::Calendar { unit } => AgentTimestampMillis::new(
            next_calendar_boundary(*unit, now),
        ),
    }
}

/// A window's start never moves back, and never passes the later of itself and
/// `now`; once advanced to `now` it stays.
pub proof fn a_window_start_only_advances(
    window: AgentBudgetWindow,
    previous: AgentTimestampMillis,
    now: AgentTimestampMillis,
)
    requires
        window_covers(window, now),
    ensures
        previous.millis <= advanced_start(window, previous, now).millis,
        advanced_start(window, previous, now).millis <= if now.millis > previous.millis {
            now.millis
        } else {
            previous.millis
        },
        advanced_start(window, advanced_start(window, previous, now), now) == advanced_start(
            window,
            previous,
            now,
        ),
{
    match window {
        AgentBudgetWindow::Rolling { length_millis } => {
            let elapsed = elapsed_millis(previous, now);
            let length = length_millis as int;
            lemma_rolling(elapsed, length);
            let start = advanced_start(window, previous, now);
            let left = elapsed_millis(start, now);
            assert(0 <= left < length) by {
                assert((elapsed / length + 1) * length == (elapsed / length) * length + length)
                    by (nonlinear_arith);
            }
            vstd::arithmetic::div_mod::lemma_basic_div(left, length);
        },
        AgentBudgetWindow::Calendar { unit } => {
            a_calendar_window_holds_its_time(unit, now);
        },
    }
}

/// The turn of a window that holds `now` comes after `now`, unless time ends
/// first.
pub proof fn a_window_turns_after_now(
    window: AgentBudgetWindow,
    start: AgentTimestampMillis,
    now: AgentTimestampMillis,
)
    requires
        window_covers(window, now),
        boundary_fits(window, start, now),
    ensures
        turn_of_window(window, start, now).millis > now.millis || turn_of_window(
            window,
            start,
            now,
        ).millis == u64::MAX,
{
    match window {
        AgentBudgetWindow::Rolling { length_millis } => {
            lemma_rolling(elapsed_millis(start, now), length_millis as int);
        },
        AgentBudgetWindow::Calendar { unit } => {
            a_calendar_window_holds_its_time(unit, now);
        },
    }
}

} // verus!
