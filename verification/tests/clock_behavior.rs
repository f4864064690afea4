use ticket_queue::clock::{current_timestamp, reading_to_timestamp, retention_cutoff, ClockReading, Timestamp};

#[test]
fn the_clock_yields_a_valid_timestamp() {
    let now = current_timestamp().expect("the wall clock is in range");
    assert!(now.year <= 9999);
    assert!((1..=12).contains(&now.month));
    assert!((1..=31).contains(&now.day));
    assert!(now.hour <= 23);
    assert!(now.minute <= 59);
    assert!(now.second <= 59);
    assert!(now.milli <= 999);
}

#[test]
fn cutoff_is_seven_days_earlier() {
    let now = Timestamp::new(2024, 1, 10, 8, 30, 0, 0).unwrap();
    let cutoff = retention_cutoff(&now).expect("date in range");
    assert_eq!((cutoff.year, cutoff.month, cutoff.day), (2024, 1, 3));
}

#[test]
fn cutoff_crosses_month_and_leap_day() {
    let now = Timestamp::new(2024, 3, 5, 8, 0, 0, 0).unwrap();
    let cutoff = retention_cutoff(&now).expect("date in range");
    // 2024 is a leap year: seven days before March 5 is February 27.
    assert_eq!((cutoff.year, cutoff.month, cutoff.day), (2024, 2, 27));

    let plain = Timestamp::new(2023, 3, 5, 8, 0, 0, 0).unwrap();
    let cutoff = retention_cutoff(&plain).expect("date in range");
    assert_eq!((cutoff.year, cutoff.month, cutoff.day), (2023, 2, 26));
}

#[test]
fn cutoff_crosses_year_boundary() {
    let now = Timestamp::new(2024, 1, 3, 8, 0, 0, 0).unwrap();
    let cutoff = retention_cutoff(&now).expect("date in range");
    assert_eq!((cutoff.year, cutoff.month, cutoff.day), (2023, 12, 27));
}

#[test]
fn timestamp_rejects_out_of_range_fields() {
    assert!(Timestamp::new(2024, 13, 1, 0, 0, 0, 0).is_none());
    assert!(Timestamp::new(2024, 0, 1, 0, 0, 0, 0).is_none());
    assert!(Timestamp::new(2024, 1, 32, 0, 0, 0, 0).is_none());
    assert!(Timestamp::new(2024, 1, 1, 24, 0, 0, 0).is_none());
    assert!(Timestamp::new(2024, 1, 1, 0, 60, 0, 0).is_none());
    assert!(Timestamp::new(2024, 1, 1, 0, 0, 60, 0).is_none());
    assert!(Timestamp::new(2024, 1, 1, 0, 0, 0, 1000).is_none());
    assert!(Timestamp::new(10000, 1, 1, 0, 0, 0, 0).is_none());
    assert!(Timestamp::new(2024, 2, 29, 12, 0, 0, 0).is_some());
}

#[test]
fn cutoff_is_none_when_it_would_leave_the_year_range() {
    // Seven days before the first day of year 0 lies in year -1.
    let earliest = Timestamp::new(0, 1, 1, 0, 0, 0, 0).unwrap();
    assert!(retention_cutoff(&earliest).is_none());
}

#[test]
fn readings_convert_exactly_or_not_at_all() {
    let good = ClockReading { year: 2024, month: 6, day: 15, hour: 13, minute: 45, second: 30, milli: 250 };
    let t = reading_to_timestamp(&good).expect("in range");
    assert_eq!(
        (t.year, t.month, t.day, t.hour, t.minute, t.second, t.milli),
        (2024, 6, 15, 13, 45, 30, 250)
    );
    let leap_second = ClockReading { year: 2024, month: 6, day: 15, hour: 13, minute: 45, second: 59, milli: 1250 };
    assert!(reading_to_timestamp(&leap_second).is_none());
    let before_epoch = ClockReading { year: -44, month: 3, day: 15, hour: 12, minute: 0, second: 0, milli: 0 };
    assert!(reading_to_timestamp(&before_epoch).is_none());
}

#[test]
fn timestamp_rejects_calendar_invalid_dates() {
    assert!(Timestamp::new(2024, 2, 31, 0, 0, 0, 0).is_none());
    assert!(Timestamp::new(2023, 2, 29, 0, 0, 0, 0).is_none());
    assert!(Timestamp::new(2024, 4, 31, 0, 0, 0, 0).is_none());
    assert!(Timestamp::new(1900, 2, 29, 0, 0, 0, 0).is_none());
    assert!(Timestamp::new(2000, 2, 29, 0, 0, 0, 0).is_some());
    assert!(Timestamp::new(2024, 12, 31, 23, 59, 59, 999).is_some());
    let invalid_reading = ClockReading { year: 2024, month: 2, day: 31, hour: 0, minute: 0, second: 0, milli: 0 };
    assert!(reading_to_timestamp(&invalid_reading).is_none());
}

#[test]
fn cutoff_exists_for_every_wellformed_timestamp_after_year_zero() {
    let now = Timestamp::new(1, 1, 1, 0, 0, 0, 0).unwrap();
    let cutoff = retention_cutoff(&now).expect("year one is promised a cutoff");
    assert_eq!((cutoff.year, cutoff.month, cutoff.day), (0, 12, 25));
}
