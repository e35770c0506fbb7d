//! Dates and moments.

use finupdate::date::{
    days_in_month, first_of_month, format_compact, format_dashed, format_long, format_moment,
    format_month, from_ymd_opt, next_month, not_later, parse_compact, previous_month, Date,
    UtcTime, MAX_YEAR, MIN_YEAR,
};

fn day(year: i32, month: u32, day: u32) -> Date {
    from_ymd_opt(year, month, day).unwrap()
}

#[test]
fn eight_digits_are_a_day_of_the_calendar() {
    assert_eq!(parse_compact("20260527"), Some(day(2026, 5, 27)));
    assert_eq!(parse_compact("00010101"), Some(day(1, 1, 1)));
    assert_eq!(parse_compact("20240229"), Some(day(2024, 2, 29)));
    assert_eq!(parse_compact("20230229"), None);
    assert_eq!(parse_compact("20261301"), None);
    assert_eq!(parse_compact("20260532"), None);
    assert_eq!(parse_compact("2026052"), None);
    assert_eq!(parse_compact("+2026052"), None);
    assert_eq!(parse_compact("2026 527"), None);
}

#[test]
fn compact_text_reads_back() {
    for d in [day(2026, 5, 27), day(0, 1, 1), day(9999, 12, 31), day(2024, 2, 29)] {
        assert_eq!(parse_compact(&format_compact(&d)), Some(d));
    }
}

#[test]
fn days_are_written_in_four_ways() {
    let d = day(2026, 5, 7);
    assert_eq!(format_compact(&d), "20260507");
    assert_eq!(format_dashed(&d), "2026-05-07");
    assert_eq!(format_long(&d), "May 7, 2026");
    assert_eq!(format_month(&d), "May 2026");
}

#[test]
fn years_of_other_lengths_have_a_sign() {
    assert_eq!(format_dashed(&day(5, 1, 2)), "0005-01-02");
    assert_eq!(format_dashed(&day(12345, 1, 2)), "+12345-01-02");
    assert_eq!(format_dashed(&day(-5, 1, 2)), "-0005-01-02");
    assert_eq!(format_compact(&day(-12345, 11, 12)), "-123451112");
}

#[test]
fn months_have_their_names() {
    let names = [
        "January", "February", "March", "April", "May", "June", "July", "August", "September",
        "October", "November", "December",
    ];
    for (i, name) in names.iter().enumerate() {
        let d = day(2026, i as u32 + 1, 1);
        assert_eq!(format_month(&d), format!("{name} 2026"));
        let t = UtcTime { date: d, seconds_of_day: 0, nanos: 0 };
        assert_eq!(format_moment(&t), format!("{} 1, 2026 · 00:00 UTC", &name[..3]));
    }
}

#[test]
fn moments_show_hour_and_minute() {
    let date = day(2026, 2, 22);
    let t = UtcTime { date, seconds_of_day: 4 * 3600 + 30 * 60 + 59, nanos: 7 };
    assert_eq!(format_moment(&t), "Feb 22, 2026 · 04:30 UTC");
    let leap = UtcTime { date, seconds_of_day: 86_399, nanos: 1_000_000_000 };
    assert_eq!(format_moment(&leap), "Feb 22, 2026 · 23:59 UTC");
}

#[test]
fn only_days_of_the_calendar_exist() {
    assert!(from_ymd_opt(2026, 2, 29).is_none());
    assert!(from_ymd_opt(2000, 2, 29).is_some());
    assert!(from_ymd_opt(1900, 2, 29).is_none());
    assert!(from_ymd_opt(-4, 2, 29).is_some());
    assert!(from_ymd_opt(-100, 2, 29).is_none());
    assert!(from_ymd_opt(2026, 0, 1).is_none());
    assert!(from_ymd_opt(2026, 13, 1).is_none());
    assert!(from_ymd_opt(2026, 1, 0).is_none());
    assert!(from_ymd_opt(2026, 4, 31).is_none());
    assert!(from_ymd_opt(MAX_YEAR, 12, 31).is_some());
    assert!(from_ymd_opt(MAX_YEAR + 1, 1, 1).is_none());
    assert!(from_ymd_opt(MIN_YEAR, 1, 1).is_some());
    assert!(from_ymd_opt(MIN_YEAR - 1, 12, 31).is_none());
}

#[test]
fn the_years_are_those_of_chrono() {
    assert!(chrono::NaiveDate::from_ymd_opt(MAX_YEAR, 12, 31).is_some());
    assert!(chrono::NaiveDate::from_ymd_opt(MAX_YEAR + 1, 1, 1).is_none());
    assert!(chrono::NaiveDate::from_ymd_opt(MIN_YEAR, 1, 1).is_some());
    assert!(chrono::NaiveDate::from_ymd_opt(MIN_YEAR - 1, 12, 31).is_none());
}

#[test]
fn months_have_as_many_days_as_the_calendar_says() {
    for year in [1900, 2000, 2023, 2024, -4] {
        for month in 1..=12 {
            let d = day(year, month, 15);
            let n = days_in_month(&d);
            assert!(from_ymd_opt(year, month, n).is_some());
            assert!(from_ymd_opt(year, month, n + 1).is_none());
        }
    }
}

#[test]
fn going_on_and_back_leads_to_the_same_month() {
    let d = day(2025, 12, 31);
    assert_eq!(next_month(&d), day(2026, 1, 1));
    assert_eq!(previous_month(&next_month(&d)), first_of_month(&d));
    assert_eq!(previous_month(&day(2026, 1, 9)), day(2025, 12, 1));
    let last = day(MAX_YEAR, 12, 4);
    assert_eq!(next_month(&last), last);
    let first = day(MIN_YEAR, 1, 4);
    assert_eq!(previous_month(&first), first);
}

#[test]
fn days_are_ordered_by_year_month_and_day() {
    assert!(not_later(&day(2025, 12, 31), &day(2026, 1, 1)));
    assert!(!not_later(&day(2026, 1, 1), &day(2025, 12, 31)));
    assert!(not_later(&day(2026, 1, 31), &day(2026, 2, 1)));
    assert!(not_later(&day(2026, 1, 1), &day(2026, 1, 1)));
}
