use taskmeister::clock::{
    civil_from_days, date_stamp, timestamp, CivilTime, Date, DAYS_IN_ERA, SECS_IN_DAY,
};
use taskmeister::logger::{LogLevel, Logger};

#[test]
fn constants() {
    assert_eq!(SECS_IN_DAY, 86400);
    assert_eq!(DAYS_IN_ERA, 146097);
}

#[test]
fn known_dates() {
    assert_eq!(civil_from_days(0), Date { year: 1970, month: 1, day: 1 });
    assert_eq!(civil_from_days(30), Date { year: 1970, month: 1, day: 31 });
    assert_eq!(civil_from_days(31), Date { year: 1970, month: 2, day: 1 });
    assert_eq!(civil_from_days(58), Date { year: 1970, month: 2, day: 28 });
    assert_eq!(civil_from_days(59), Date { year: 1970, month: 3, day: 1 });
    assert_eq!(civil_from_days(364), Date { year: 1970, month: 12, day: 31 });
    assert_eq!(civil_from_days(365), Date { year: 1971, month: 1, day: 1 });
    assert_eq!(civil_from_days(789), Date { year: 1972, month: 2, day: 29 });
    assert_eq!(civil_from_days(10957), Date { year: 2000, month: 1, day: 1 });
    assert_eq!(civil_from_days(11016), Date { year: 2000, month: 2, day: 29 });
    assert_eq!(civil_from_days(19782), Date { year: 2024, month: 2, day: 29 });
    assert_eq!(civil_from_days(19783), Date { year: 2024, month: 3, day: 1 });
    assert_eq!(civil_from_days(47540), Date { year: 2100, month: 2, day: 28 });
    assert_eq!(civil_from_days(47541), Date { year: 2100, month: 3, day: 1 });
}

fn is_leap(year: u64) -> bool {
    year % 4 == 0 && (year % 100 != 0 || year % 400 == 0)
}

fn month_len(year: u64, month: u64) -> u64 {
    match month {
        2 if is_leap(year) => 29,
        2 => 28,
        4 | 6 | 9 | 11 => 30,
        _ => 31,
    }
}

#[test]
fn dates_follow_the_calendar_day_by_day() {
    let mut expected = Date { year: 1970, month: 1, day: 1 };
    for days in 0..(2 * DAYS_IN_ERA) {
        assert_eq!(civil_from_days(days), expected, "day {days}");
        expected.day += 1;
        if expected.day > month_len(expected.year, expected.month) {
            expected.day = 1;
            expected.month += 1;
            if expected.month > 12 {
                expected.month = 1;
                expected.year += 1;
            }
        }
    }
}

#[test]
fn largest_day_count_is_accepted() {
    let last = civil_from_days(u64::MAX - 719468);
    assert!((1..=12).contains(&last.month));
    assert!((1..=month_len(last.year, last.month)).contains(&last.day));
    let date = civil_from_days(u64::MAX / SECS_IN_DAY);
    assert!(date.year > 1970);
    assert!((1..=12).contains(&date.month));
    assert!((1..=month_len(date.year, date.month)).contains(&date.day));
}

#[test]
fn time_of_day() {
    let time = CivilTime::from_secs(86399);
    assert_eq!(
        time,
        CivilTime { date: Date { year: 1970, month: 1, day: 1 }, hour: 23, minute: 59, second: 59 }
    );
    let time = CivilTime::from_secs(1_700_000_000);
    assert_eq!(
        time,
        CivilTime { date: Date { year: 2023, month: 11, day: 14 }, hour: 22, minute: 13, second: 20 }
    );
    assert_eq!(time.to_text(), "[14/11/2023 22:13:20 UTC]");
    assert_eq!(time.to_date_text(), "[14/11/2023]");
}

#[test]
fn timestamps() {
    assert_eq!(timestamp(Some(0)), "[1/1/1970 0:0:0 UTC]");
    assert_eq!(timestamp(Some(951_782_400 + 3_661)), "[29/2/2000 1:1:1 UTC]");
    assert_eq!(timestamp(Some(1_709_251_199)), "[29/2/2024 23:59:59 UTC]");
    assert_eq!(timestamp(None), "[Wrong System Time]");
    assert!(timestamp(Some(u64::MAX)).ends_with(" UTC]"));
}

#[test]
fn date_stamps() {
    assert_eq!(date_stamp(Some(0)), "[1/1/1970]");
    assert_eq!(date_stamp(Some(1_709_251_199)), "[29/2/2024]");
    assert_eq!(date_stamp(None), "[Wrong System Time]");
    let logger = Logger::new(LogLevel::Info, false);
    assert_eq!(logger.println_info(Some(86400 * 365)), "[1/1/1971]");
}
