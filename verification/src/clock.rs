//! Civil time: the calendar date and the time of day of an instant that is
//! given in seconds since the start of 1970, in UTC.

use vstd::prelude::*;
use vstd::string::StringExecFns;
use crate::text::{decimal, push_decimal};

verus! {

/// Seconds in a day.
pub const SECS_IN_DAY: u64 = 86400;

/// Days in the 400 years after which the calendar repeats.
pub const DAYS_IN_ERA: u64 = 146097;

/// Whether `year` is a leap year of the Gregorian calendar.
pub open spec fn is_leap(year: int) -> bool {
    year % 4 == 0 && (year % 100 != 0 || year % 400 == 0)
}

/// The number of days of the month `month` of `year`.
pub open spec fn month_len(year: int, month: int) -> int {
    if month == 2 {
        if is_leap(year) {
            29
        } else {
            28
        }
    } else if month == 4 || month == 6 || month == 9 || month == 11 {
        30
    } else {
        31
    }
}

/// The number of days of `year` that lie before its month `month`.
pub open spec fn days_before_month(year: int, month: int) -> int
    decreases month,
{
    if month <= 1 {
        0
    } else {
        days_before_month(year, month - 1) + month_len(year, month - 1)
    }
}

/// The number of days from the start of 1970 to the start of `year`.
pub open spec fn days_before_year(year: int) -> int
    decreases year - 1970,
{
    if year <= 1970 {
        0
    } else {
        days_before_year(year - 1) + (if is_leap(year - 1) {
            366int
        } else {
            365int
        })
    }
}

/// A calendar date.
#[derive(Clone, Copy, Debug, PartialEq, Eq, Structural)]
pub struct Date {
    pub year: u64,
    pub month: u64,
    pub day: u64,
}

impl Date {
    /// The date exists in the calendar, in 1970 or later.
    pub open spec fn valid(self) -> bool {
        &&& self.year >= 1970
        &&& 1 <= self.month <= 12
        &&& 1 <= self.day <= month_len(self.year as int, self.month as int)
    }

    /// The number of days from the first day of 1970 to the date.
    pub open spec fn days_since_epoch(self) -> int {
        days_before_year(self.year as int) + days_before_month(
            self.year as int,
            self.month as int,
        ) + self.day - 1
    }
}

/// The number of leap years among the years 1 to `year`.
spec fn leaps_through(year: int) -> int {
    year / 4 - year / 100 + year / 400
}

/// The days before a year, counted by its leap years.
#[verifier::rlimit(40)]
proof fn lemma_days_before_year(year: int)
    requires
        year >= 1970,
    ensures
        days_before_year(year) == 365 * (year - 1970) + leaps_through(year - 1) - 477,
    decreases year - 1970,
{
    if year > 1970 {
        lemma_days_before_year(year - 1);
        let p = year - 1;
        assert(leaps_through(p) - leaps_through(p - 1) == (if is_leap(p) {
            1int
        } else {
            0int
        }));
    }
}

/// The days before a month, as the computation counts them from March.
proof fn lemma_days_before_month(year: int, month: int)
    requires
        1 <= month <= 12,
    ensures
        days_before_month(year, month) == (if month == 1 {
            0int
        } else if month == 2 {
            31
        } else {
            (153 * (month - 3) + 2) / 5 + 59 + (if is_leap(year) {
                1int
            } else {
                0int
            })
        }),
    decreases month,
{
    if month > 1 {
        lemma_days_before_month(year, month - 1);
    }
}

/// The date that lies `days` days after the first day of 1970.
pub fn civil_from_days(days: u64) -> (date: Date)
    requires
        days <= u64::MAX - 719468,
    ensures
        date.valid(),
        date.days_since_epoch() == days,
{
    let shifted: u64 = days + 719468;
    let era: u64 = shifted / DAYS_IN_ERA;
    let day_of_era: u64 = shifted - era * DAYS_IN_ERA;
    let year_of_era: u64 = (day_of_era - day_of_era / 1460 + day_of_era / 36524 - day_of_era
        / 146096) / 365;
    proof {
        lemma_year_of_era(day_of_era as int);
    }
    let year: u64 = year_of_era + era * 400;
    let day_of_year: u64 = day_of_era - (365 * year_of_era + year_of_era / 4 - year_of_era / 100);
    let month_from_march: u64 = (5 * day_of_year + 2) / 153;
    let day: u64 = day_of_year - (153 * month_from_march + 2) / 5 + 1;
    let month: u64 = if month_from_march < 10 {
        month_from_march + 3
    } else {
        month_from_march - 9
    };
    let civil_year: u64 = if month <= 2 {
        year + 1
    } else {
        year
    };
    proof {
        lemma_month_and_day(day_of_year as int);
        lemma_assemble(
            era as int,
            year_of_era as int,
            day_of_year as int,
            month_from_march as int,
            day as int,
        );
    }
    Date { year: civil_year, month, day }
}

/// The leap years through a year that is given by its era and its year
/// within the era.
#[verifier::rlimit(40)]
proof fn lemma_leaps_in_era(e: int, q: int)
    requires
        0 <= e,
        0 <= q <= 400,
    ensures
        leaps_through(400 * e + q) == 97 * e + q / 4 - q / 100 + q / 400,
{
    let y = 400 * e + q;
    assert(y / 4 == 100 * e + q / 4);
    assert(y / 100 == 4 * e + q / 100);
    assert(y / 400 == e + q / 400);
}

/// The computation never lands before 1970.
#[verifier::rlimit(40)]
proof fn lemma_not_before_epoch(e: int, q: int, doy: int, mp: int)
    requires
        0 <= q <= 399,
        0 <= doy <= 365,
        146097 * e + 365 * q + q / 4 - q / 100 + doy >= 719468,
        mp == (5 * doy + 2) / 153,
    ensures
        e >= 4,
        400 * e + q >= 1970 || (400 * e + q == 1969 && mp >= 10),
{
    assert(365 * q + q / 4 - q / 100 + doy <= 146096);
    if e == 4 && q <= 369 {
        assert(365 * q + q / 4 - q / 100 + doy >= 135080);
        if q <= 368 {
            assert(365 * q + q / 4 - q / 100 <= 134409);
        }
        assert(q == 369);
        assert(doy >= 306);
    }
}

/// A date in March or later, put together from the parts that the
/// computation finds.
#[verifier::rlimit(40)]
proof fn lemma_assemble_late(e: int, q: int, doy: int, mp: int, d: int)
    requires
        4 <= e,
        0 <= q <= 399,
        400 * e + q >= 1970,
        0 <= mp <= 9,
        1 <= d <= 31,
        doy == (153 * mp + 2) / 5 + d - 1,
        (mp == 1 || mp == 3 || mp == 6 || mp == 8) ==> d <= 30,
    ensures
        1 <= d <= month_len(400 * e + q, mp + 3),
        days_before_year(400 * e + q) + days_before_month(400 * e + q, mp + 3) + d - 1 == 146097
            * e + 365 * q + q / 4 - q / 100 + doy - 719468,
{
    let year = 400 * e + q;
    lemma_days_before_year(year);
    lemma_days_before_month(year, mp + 3);
    lemma_leaps_in_era(e, q);
    assert(leaps_through(year) - leaps_through(year - 1) == (if is_leap(year) {
        1int
    } else {
        0int
    }));
}

/// A date in January or February, put together from the parts that the
/// computation finds.
#[verifier::rlimit(40)]
proof fn lemma_assemble_early(e: int, q: int, doy: int, mp: int, d: int)
    requires
        4 <= e,
        0 <= q <= 399,
        400 * e + q >= 1969,
        10 <= mp <= 11,
        1 <= d <= 31,
        doy == (153 * mp + 2) / 5 + d - 1,
        mp == 11 ==> d <= 29,
        mp == 11 && d == 29 ==> (q + 1) % 4 == 0 && ((q + 1) % 100 != 0 || q == 399),
    ensures
        1 <= d <= month_len(400 * e + q + 1, mp - 9),
        days_before_year(400 * e + q + 1) + days_before_month(400 * e + q + 1, mp - 9) + d - 1
            == 146097 * e + 365 * q + q / 4 - q / 100 + doy - 719468,
{
    let year = 400 * e + q + 1;
    lemma_days_before_year(year);
    lemma_days_before_month(year, mp - 9);
    lemma_leaps_in_era(e, q);
    if mp == 11 && d == 29 {
        assert(year % 4 == (q + 1) % 4);
        assert(year % 100 == (q + 1) % 100);
        if q == 399 {
            assert(year % 400 == 0);
        }
    }
}

/// Era, year of the era, day of the year, month and day, put together, are
/// a date of the calendar that lies as many days after the first day of
/// 1970 as the computation began with.
proof fn lemma_assemble(e: int, q: int, doy: int, mp: int, d: int)
    requires
        0 <= q <= 399,
        0 <= doy <= 365,
        doy == 365 ==> (q + 1) % 4 == 0 && ((q + 1) % 100 != 0 || q == 399),
        146097 * e + 365 * q + q / 4 - q / 100 + doy >= 719468,
        mp == (5 * doy + 2) / 153,
        d == doy - (153 * mp + 2) / 5 + 1,
        0 <= mp <= 11,
        1 <= d <= 31,
        (mp == 1 || mp == 3 || mp == 6 || mp == 8) ==> d <= 30,
        mp == 11 ==> d <= 29,
        mp == 11 && d == 29 ==> doy == 365,
    ensures
        ({
            let month = if mp < 10 {
                mp + 3
            } else {
                mp - 9
            };
            let year = if month <= 2 {
                400 * e + q + 1
            } else {
                400 * e + q
            };
            &&& year >= 1970
            &&& 1 <= d <= month_len(year, month)
            &&& days_before_year(year) + days_before_month(year, month) + d - 1 == 146097 * e
                + 365 * q + q / 4 - q / 100 + doy - 719468
        }),
{
    lemma_not_before_epoch(e, q, doy, mp);
    if mp < 10 {
        lemma_assemble_late(e, q, doy, mp, d);
    } else {
        lemma_assemble_early(e, q, doy, mp, d);
    }
}

/// The year within an era that the computation finds is the one whose days
/// hold the given day of the era.
#[verifier::rlimit(40)]
proof fn lemma_year_of_era(doe: int)
    requires
        0 <= doe < 146097,
    ensures
        ({
            let yoe = (doe - doe / 1460 + doe / 36524 - doe / 146096) / 365;
            let doy = doe - (365 * yoe + yoe / 4 - yoe / 100);
            &&& 0 <= yoe <= 399
            &&& 0 <= doy <= 365
            &&& doy == 365 ==> (yoe + 1) % 4 == 0 && ((yoe + 1) % 100 != 0 || yoe == 399)
        }),
{
    let c = doe / 36524;
    if doe == 146096 {
    } else if c == 0 {
        lemma_year_in_century(doe, 0);
    } else if c == 1 {
        lemma_year_in_century(doe, 1);
    } else if c == 2 {
        lemma_year_in_century(doe, 2);
    } else {
        lemma_year_in_century(doe, 3);
    }
}

/// The same, for a day within one of the first four centuries of the era.
#[verifier::rlimit(40)]
proof fn lemma_year_in_century(doe: int, c: int)
    requires
        0 <= c <= 3,
        36524 * c <= doe < 36524 * (c + 1),
    ensures
        ({
            let yoe = (doe - doe / 1460 + doe / 36524 - doe / 146096) / 365;
            let doy = doe - (365 * yoe + yoe / 4 - yoe / 100);
            &&& 0 <= yoe <= 399
            &&& 0 <= doy <= 365
            &&& doy == 365 ==> (yoe + 1) % 4 == 0 && ((yoe + 1) % 100 != 0 || yoe == 399)
        }),
{
    assert(doe / 36524 == c);
    assert(doe / 146096 == 0);
    let r = doe - 36524 * c;
    let f = r / 1461;
    let s = r - 1461 * f;
    assert(0 <= f <= 24);
    assert(0 <= s <= 1460);
}

/// The month and the day that the computation finds from the day of a year
/// that begins in March.
#[verifier::rlimit(40)]
proof fn lemma_month_and_day(doy: int)
    requires
        0 <= doy <= 365,
    ensures
        ({
            let mp = (5 * doy + 2) / 153;
            let d = doy - (153 * mp + 2) / 5 + 1;
            &&& 0 <= mp <= 11
            &&& 1 <= d <= 31
            &&& (mp == 1 || mp == 3 || mp == 6 || mp == 8) ==> d <= 30
            &&& mp == 11 ==> d <= 29
            &&& mp == 11 && d == 29 ==> doy == 365
        }),
{
}

/// A year has 365 days, and one more if it is a leap year.
proof fn lemma_year_len(year: int)
    requires
        year >= 1970,
    ensures
        days_before_year(year + 1) - days_before_year(year) == (if is_leap(year) {
            366int
        } else {
            365int
        }),
{
}

/// Later years begin later.
proof fn lemma_years_in_order(a: int, b: int)
    requires
        1970 <= a <= b,
    ensures
        days_before_year(a) <= days_before_year(b),
    decreases b - a,
{
    if a < b {
        lemma_years_in_order(a, b - 1);
    }
}

/// A date lies within its year.
proof fn lemma_date_within_year(date: Date)
    requires
        date.valid(),
    ensures
        days_before_year(date.year as int) <= date.days_since_epoch() < days_before_year(
            date.year + 1,
        ),
{
    lemma_days_before_month(date.year as int, date.month as int);
    lemma_year_len(date.year as int);
}

/// Two dates of the calendar that lie equally many days after the first day
/// of 1970 are the same date.
pub proof fn lemma_date_is_unique(a: Date, b: Date)
    requires
        a.valid(),
        b.valid(),
        a.days_since_epoch() == b.days_since_epoch(),
    ensures
        a == b,
{
    lemma_date_within_year(a);
    lemma_date_within_year(b);
    if a.year < b.year {
        lemma_years_in_order(a.year + 1, b.year as int);
    } else if b.year < a.year {
        lemma_years_in_order(b.year + 1, a.year as int);
    } else {
        lemma_days_before_month(a.year as int, a.month as int);
        lemma_days_before_month(b.year as int, b.month as int);
    }
}

/// Hour, minute and second found by peeling the day apart are the
/// remainders that define them.
#[verifier::rlimit(40)]
proof fn lemma_time_of_day(now: int)
    requires
        0 <= now,
    ensures
        ({
            let today = now % 86400;
            let hour = today / 3600;
            let minute = (today - hour * 3600) / 60;
            let second = today - hour * 3600 - minute * 60;
            &&& 0 <= today < 86400
            &&& 0 <= hour < 24
            &&& minute == (now % 3600) / 60
            &&& second == now % 60
        }),
{
    let day = now / 86400;
    let today = now % 86400;
    let hour = today / 3600;
    let rest = today - hour * 3600;
    assert(now == 3600 * (24 * day + hour) + rest);
    assert(now % 3600 == rest);
    let minute = rest / 60;
    let second = rest - minute * 60;
    assert(now == 60 * (60 * (24 * day + hour) + minute) + second);
}

/// A date and a time of day.
#[derive(Clone, Copy, Debug, PartialEq, Eq, Structural)]
pub struct CivilTime {
    pub date: Date,
    pub hour: u64,
    pub minute: u64,
    pub second: u64,
}

impl CivilTime {
    /// The date and the time of day are those of the instant `now`, given in
    /// seconds since the start of 1970.
    pub open spec fn is_time_of(self, now: u64) -> bool {
        &&& self.date.valid()
        &&& self.date.days_since_epoch() == now / 86400
        &&& self.hour == (now % 86400) / 3600
        &&& self.minute == (now % 3600) / 60
        &&& self.second == now % 60
    }

    /// The time as a timestamp shows it: day, month and year, then hour,
    /// minute and second, none of them padded.
    pub open spec fn text(self) -> Seq<char> {
        "["@ + decimal(self.date.day as nat) + "/"@ + decimal(self.date.month as nat) + "/"@
            + decimal(self.date.year as nat) + " "@ + decimal(self.hour as nat) + ":"@ + decimal(
            self.minute as nat,
        ) + ":"@ + decimal(self.second as nat) + " UTC]"@
    }

    /// The date and the time of day of the instant `now`, given in seconds
    /// since the start of 1970.
    pub fn from_secs(now: u64) -> (time: CivilTime)
        ensures
            time.is_time_of(now),
    {
        let date = civil_from_days(now / SECS_IN_DAY);
        let seconds_today: u64 = now % SECS_IN_DAY;
        let hour: u64 = seconds_today / 3600;
        let minute: u64 = (seconds_today - hour * 3600) / 60;
        let second: u64 = seconds_today - hour * 3600 - minute * 60;
        proof {
            lemma_time_of_day(now as int);
        }
        CivilTime { date, hour, minute, second }
    }

    /// The date alone as a timestamp shows it.
    pub open spec fn date_text(self) -> Seq<char> {
        "["@ + decimal(self.date.day as nat) + "/"@ + decimal(self.date.month as nat) + "/"@
            + decimal(self.date.year as nat) + "]"@
    }

    /// The date alone as a timestamp shows it.
    pub fn to_date_text(&self) -> (stamp: String)
        ensures
            stamp@ == self.date_text(),
    {
        let mut stamp = String::from_str("[");
        push_decimal(&mut stamp, self.date.day);
        stamp.append("/");
        push_decimal(&mut stamp, self.date.month);
        stamp.append("/");
        push_decimal(&mut stamp, self.date.year);
        stamp.append("]");
        stamp
    }

    /// The time as a timestamp shows it.
    pub fn to_text(&self) -> (stamp: String)
        ensures
            stamp@ == self.text(),
    {
        let mut stamp = String::from_str("[");
        push_decimal(&mut stamp, self.date.day);
        stamp.append("/");
        push_decimal(&mut stamp, self.date.month);
        stamp.append("/");
        push_decimal(&mut stamp, self.date.year);
        stamp.append(" ");
        push_decimal(&mut stamp, self.hour);
        stamp.append(":");
        push_decimal(&mut stamp, self.minute);
        stamp.append(":");
        push_decimal(&mut stamp, self.second);
        stamp.append(" UTC]");
        stamp
    }
}

/// The timestamp of the instant `now`, given in seconds since the start of
/// 1970. Where the clock gave no such reading the stamp says so.
pub fn timestamp(now: Option<u64>) -> (stamp: String)
    ensures
        match now {
            Some(secs) => exists|time: CivilTime| #[trigger]
                time.is_time_of(secs) && stamp@ == time.text(),
            None => stamp@ == "[Wrong System Time]"@,
        },
{
    match now {
        Some(secs) => {
            let time = CivilTime::from_secs(secs);
            time.to_text()
        },
        None => String::from_str("[Wrong System Time]"),
    }
}

/// The date of the instant `now`, given in seconds since the start of 1970,
/// as a stamp. Where the clock gave no such reading the stamp says so.
pub fn date_stamp(now: Option<u64>) -> (stamp: String)
    ensures
        match now {
            Some(secs) => exists|time: CivilTime| #[trigger]
                time.is_time_of(secs) && stamp@ == time.date_text(),
            None => stamp@ == "[Wrong System Time]"@,
        },
{
    match now {
        Some(secs) => {
            let time = CivilTime::from_secs(secs);
            time.to_date_text()
        },
        None => String::from_str("[Wrong System Time]"),
    }
}

} // verus!
