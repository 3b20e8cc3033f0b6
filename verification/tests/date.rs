use caffi::date::Date;

fn date(year: u16, month: u8, day: u8) -> Date {
    Date::new(year, month, day).unwrap()
}

#[test]
fn date_holds_its_parts() {
    let d = date(2024, 2, 29);
    assert_eq!(d.year(), 2024);
    assert_eq!(d.month(), 2);
    assert_eq!(d.day(), 29);
    assert_eq!(d, date(2024, 2, 29));
    assert_ne!(d, date(2024, 2, 28));
}

#[test]
fn only_days_that_exist_are_dates() {
    assert!(Date::new(2023, 2, 28).is_some());
    assert!(Date::new(2023, 2, 29).is_none());
    assert!(Date::new(2024, 2, 29).is_some());
    assert!(Date::new(2024, 2, 30).is_none());
    assert!(Date::new(2024, 4, 31).is_none());
    assert!(Date::new(2024, 12, 31).is_some());
    assert!(Date::new(2024, 1, 0).is_none());
    assert!(Date::new(2024, 0, 1).is_none());
    assert!(Date::new(2024, 13, 1).is_none());
    assert!(Date::new(2024, 1, 32).is_none());
}

#[test]
fn no_date_lies_before_the_reform() {
    assert!(Date::new(0, 1, 1).is_none());
    assert!(Date::new(1752, 12, 31).is_none());
    assert!(Date::new(1753, 1, 1).is_some());
    assert!(Date::new(u16::MAX, 12, 31).is_some());
}

#[test]
fn unix_epoch_is_the_first_day_of_1970() {
    assert_eq!(Date::unix_epoch(), date(1970, 1, 1));
}

#[test]
fn next_month_keeps_the_day() {
    assert_eq!(date(2024, 3, 15).next_month(), Some(date(2024, 4, 15)));
    assert_eq!(date(2024, 12, 31).next_month(), Some(date(2025, 1, 31)));
    assert_eq!(date(2024, 11, 30).next_month(), Some(date(2024, 12, 30)));
}

#[test]
fn next_month_stops_at_the_end_of_a_shorter_month() {
    assert_eq!(date(2024, 1, 31).next_month(), Some(date(2024, 2, 29)));
    assert_eq!(date(2023, 1, 31).next_month(), Some(date(2023, 2, 28)));
    assert_eq!(date(2023, 1, 29).next_month(), Some(date(2023, 2, 28)));
    assert_eq!(date(2024, 3, 31).next_month(), Some(date(2024, 4, 30)));
}

#[test]
fn prev_month_keeps_the_day() {
    assert_eq!(date(2024, 4, 15).prev_month(), Some(date(2024, 3, 15)));
    assert_eq!(date(2025, 1, 31).prev_month(), Some(date(2024, 12, 31)));
}

#[test]
fn prev_month_stops_at_the_end_of_a_shorter_month() {
    assert_eq!(date(2024, 3, 31).prev_month(), Some(date(2024, 2, 29)));
    assert_eq!(date(2023, 3, 30).prev_month(), Some(date(2023, 2, 28)));
    assert_eq!(date(2024, 5, 31).prev_month(), Some(date(2024, 4, 30)));
}

#[test]
fn months_end_where_dates_end() {
    assert_eq!(date(1753, 1, 10).prev_month(), None);
    assert_eq!(date(1753, 2, 10).prev_month(), Some(date(1753, 1, 10)));
    assert_eq!(date(u16::MAX, 12, 10).next_month(), None);
    assert_eq!(date(u16::MAX, 11, 10).next_month(), Some(date(u16::MAX, 12, 10)));
}
