use moneybook::date::Date;
use moneybook::period::{today_from_reading, Period};

fn d(year: u32, month: u8, day: u8) -> Date {
    Date { year, month, day }
}

#[test]
fn leap_years() {
    assert!(moneybook::date::leap_year(2024));
    assert!(moneybook::date::leap_year(2000));
    assert!(!moneybook::date::leap_year(1900));
    assert!(!moneybook::date::leap_year(2023));
}

#[test]
fn month_lengths() {
    assert_eq!(moneybook::date::days_in_month_of(2024, 2), 29);
    assert_eq!(moneybook::date::days_in_month_of(2023, 2), 28);
    assert_eq!(moneybook::date::days_in_month_of(2024, 1), 31);
    assert_eq!(moneybook::date::days_in_month_of(2024, 4), 30);
    assert_eq!(moneybook::date::days_in_month_of(2024, 12), 31);
}

#[test]
fn date_validity() {
    assert!(d(2024, 2, 29).valid());
    assert!(!d(2023, 2, 29).valid());
    assert!(!d(2024, 2, 30).valid());
    assert!(!d(2024, 13, 1).valid());
    assert!(!d(2024, 0, 1).valid());
    assert!(!d(2024, 1, 0).valid());
    assert!(!d(0, 1, 1).valid());
    assert!(d(9999, 12, 31).valid());
}

#[test]
fn date_order() {
    assert!(d(2024, 3, 15).lt(&d(2024, 3, 16)));
    assert!(d(2024, 3, 15).lt(&d(2024, 4, 1)));
    assert!(d(2024, 12, 31).lt(&d(2025, 1, 1)));
    assert!(d(2024, 3, 15).le(&d(2024, 3, 15)));
    assert!(!d(2024, 3, 15).lt(&d(2024, 3, 15)));
}

#[test]
fn next_day_steps() {
    assert_eq!(d(2024, 3, 15).next_day(), Some(d(2024, 3, 16)));
    assert_eq!(d(2024, 1, 31).next_day(), Some(d(2024, 2, 1)));
    assert_eq!(d(2024, 2, 28).next_day(), Some(d(2024, 2, 29)));
    assert_eq!(d(2023, 2, 28).next_day(), Some(d(2023, 3, 1)));
    assert_eq!(d(2024, 12, 31).next_day(), Some(d(2025, 1, 1)));
    assert_eq!(d(9999, 12, 31).next_day(), None);
}

#[test]
fn prev_day_steps() {
    assert_eq!(d(2024, 3, 1).prev_day(), Some(d(2024, 2, 29)));
    assert_eq!(d(2025, 1, 1).prev_day(), Some(d(2024, 12, 31)));
    assert_eq!(d(1, 1, 1).prev_day(), None);
}

#[test]
fn add_months_clamps_to_month_end() {
    assert_eq!(d(2024, 1, 31).add_months(1), Some(d(2024, 2, 29)));
    assert_eq!(d(2023, 1, 31).add_months(1), Some(d(2023, 2, 28)));
    assert_eq!(d(2024, 3, 31).add_months(1), Some(d(2024, 4, 30)));
    assert_eq!(d(2024, 2, 29).add_months(12), Some(d(2025, 2, 28)));
    assert_eq!(d(2024, 5, 15).add_months(1), Some(d(2024, 6, 15)));
    assert_eq!(d(9999, 12, 1).add_months(1), None);
}

#[test]
fn add_days_steps() {
    assert_eq!(d(2024, 3, 15).add_days(7), Some(d(2024, 3, 22)));
    assert_eq!(d(2024, 2, 26).add_days(7), Some(d(2024, 3, 4)));
    assert_eq!(d(9999, 12, 28).add_days(7), None);
}

#[test]
fn weekdays_from_monday() {
    // 1970-01-01 was a Thursday.
    assert_eq!(d(1970, 1, 1).weekday(), 3);
    // 2024-03-15 was a Friday.
    assert_eq!(d(2024, 3, 15).weekday(), 4);
    // 2024-03-11 was a Monday.
    assert_eq!(d(2024, 3, 11).weekday(), 0);
    assert_eq!(d(2024, 3, 17).weekday(), 6);
}

#[test]
fn day_numbers_count_from_calendar_start() {
    assert_eq!(d(1, 1, 1).day_number_of(), 0);
    assert_eq!(d(1, 1, 2).day_number_of(), 1);
    assert_eq!(d(1970, 1, 1).day_number_of(), 719162);
}

#[test]
fn date_text_round_trip() {
    let day = d(2024, 3, 5);
    let text = day.to_text();
    assert_eq!(text, "2024-03-05");
    assert_eq!(Date::parse(&text), Some(day));
    assert_eq!(d(987, 12, 31).to_text(), "0987-12-31");
}

#[test]
fn date_parse_rejects_bad_input() {
    assert_eq!(Date::parse("2024-03-05"), Some(d(2024, 3, 5)));
    assert_eq!(Date::parse("2024-3-5"), None);
    assert_eq!(Date::parse("2024-13-01"), None);
    assert_eq!(Date::parse("2023-02-29"), None);
    assert_eq!(Date::parse("2024-02-30"), None);
    assert_eq!(Date::parse("0000-01-01"), None);
    assert_eq!(Date::parse("2024/03/05"), None);
    assert_eq!(Date::parse("2024-03-05x"), None);
    assert_eq!(Date::parse(""), None);
    assert_eq!(Date::parse("hello"), None);
}

#[test]
fn period_bounds_all_end_at_today() {
    let today = d(2024, 3, 15);
    assert_eq!(Period::Day.bounds(today), (d(2024, 3, 15), today));
    assert_eq!(Period::Week.bounds(today), (d(2024, 3, 11), today));
    assert_eq!(Period::Month.bounds(today), (d(2024, 3, 1), today));
    assert_eq!(Period::Year.bounds(today), (d(2024, 1, 1), today));
    assert_eq!(Period::All.bounds(today), (d(1970, 1, 1), today));
}

#[test]
fn week_bounds_cross_month_boundary() {
    // 2024-03-02 was a Saturday; its week began Monday 2024-02-26.
    let today = d(2024, 3, 2);
    assert_eq!(Period::Week.bounds(today), (d(2024, 2, 26), today));
}

#[test]
fn period_names() {
    assert_eq!(Period::Day.as_str(), "Day");
    assert_eq!(Period::All.as_str(), "All");
    assert_eq!(Period::as_slice().len(), 5);
    assert_eq!(Period::default(), Period::All);
}

#[test]
fn clock_readings_are_clamped_to_the_calendar() {
    // A sane reading passes through unchanged.
    assert_eq!(today_from_reading(2024, 3, 15), d(2024, 3, 15));
    assert_eq!(today_from_reading(2024, 2, 29), d(2024, 2, 29));
    // Readings before the epoch, or no date at all, clamp to the epoch.
    assert_eq!(today_from_reading(1969, 12, 31), d(1970, 1, 1));
    assert_eq!(today_from_reading(-44, 3, 15), d(1970, 1, 1));
    assert_eq!(today_from_reading(2024, 2, 30), d(1970, 1, 1));
    assert_eq!(today_from_reading(2024, 13, 1), d(1970, 1, 1));
    assert_eq!(today_from_reading(2024, 0, 0), d(1970, 1, 1));
    // Readings past the supported years clamp to the last supported day.
    assert_eq!(today_from_reading(10000, 1, 1), d(9999, 12, 31));
}
