use chrono::Datelike;
use habit_calendar::date::Date;
use habit_calendar::date::leap_year;
use habit_calendar::date::month_length;

fn d(y: u32, m: u32, day: u32) -> Date {
    Date { year: y, month: m, day }
}

#[test]
fn leap_years() {
    assert!(leap_year(2024));
    assert!(!leap_year(2023));
    assert!(!leap_year(1900));
    assert!(leap_year(2000));
}

#[test]
fn month_lengths() {
    assert_eq!(month_length(2024, 2), 29);
    assert_eq!(month_length(2023, 2), 28);
    assert_eq!(month_length(2024, 1), 31);
    assert_eq!(month_length(2024, 4), 30);
    assert_eq!(month_length(2024, 12), 31);
}

#[test]
fn weekday_known_dates() {
    // 2024-03-15 was a Friday; Sunday maps to 0.
    assert_eq!(d(2024, 3, 15).weekday(), 5);
    // 2024-03-01 was a Friday too.
    assert_eq!(d(2024, 3, 1).weekday(), 5);
    // 2000-01-01 was a Saturday.
    assert_eq!(d(2000, 1, 1).weekday(), 6);
    // 2024-01-01 was a Monday.
    assert_eq!(d(2024, 1, 1).weekday(), 1);
}

#[test]
fn weekday_matches_chrono() {
    let samples = [
        (2024u32, 3u32, 15u32),
        (2024, 2, 29),
        (2023, 12, 31),
        (1970, 1, 1),
        (2000, 2, 28),
        (1999, 7, 4),
    ];
    for (y, m, day) in samples {
        let ours = d(y, m, day).weekday();
        let theirs = chrono::NaiveDate::from_ymd_opt(y as i32, m, day)
            .unwrap()
            .weekday()
            .num_days_from_sunday();
        assert_eq!(ours, theirs, "weekday of {y}-{m}-{day}");
    }
}

#[test]
fn next_and_prev_cross_boundaries() {
    assert_eq!(d(2024, 1, 31).next_day(), Some(d(2024, 2, 1)));
    assert_eq!(d(2024, 2, 29).next_day(), Some(d(2024, 3, 1)));
    assert_eq!(d(2023, 12, 31).next_day(), Some(d(2024, 1, 1)));
    assert_eq!(d(2024, 3, 1).prev_day(), Some(d(2024, 2, 29)));
    assert_eq!(d(2024, 1, 1).prev_day(), Some(d(2023, 12, 31)));
    assert_eq!(d(9999, 12, 31).next_day(), None);
    assert_eq!(d(1, 1, 1).prev_day(), None);
}

#[test]
fn plus_minus_days() {
    assert_eq!(d(2024, 3, 15).plus_days(7), Some(d(2024, 3, 22)));
    assert_eq!(d(2024, 3, 15).minus_days(7), Some(d(2024, 3, 8)));
    assert_eq!(d(2024, 2, 26).plus_days(7), Some(d(2024, 3, 4)));
    assert_eq!(d(9999, 12, 28).plus_days(7), None);
    assert_eq!(d(1, 1, 3).minus_days(7), None);
}

#[test]
fn checked_new_validates() {
    assert_eq!(Date::checked_new(2024, 2, 29), Some(d(2024, 2, 29)));
    assert_eq!(Date::checked_new(2023, 2, 29), None);
    assert_eq!(Date::checked_new(2024, 13, 1), None);
    assert_eq!(Date::checked_new(2024, 0, 1), None);
    assert_eq!(Date::checked_new(0, 1, 1), None);
    assert_eq!(Date::checked_new(2024, 4, 31), None);
}
