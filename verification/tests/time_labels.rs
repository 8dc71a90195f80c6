//! Time-label generation: the fixed display zone sits five hours behind
//! UTC, and labels carry the weekday's short name with a 12-hour clock
//! reading.

use gathering_surf::{convert_24_to_12_hour, increment_time, Latest};

#[test]
fn increment_time_creates_display_string() {
    assert_eq!(
        increment_time(b"2024-09-06T11:00:00+00:00", 2).unwrap(),
        "Fri 08 AM"
    )
}

#[test]
fn increment_time_creates_display_string_with_a_pm_time() {
    assert_eq!(
        increment_time(b"2024-09-06T11:00:00+00:00", 12).unwrap(),
        "Fri 06 PM"
    )
}

#[test]
fn increment_time_creates_handles_noon() {
    assert_eq!(
        increment_time(b"2024-09-06T11:00:00+00:00", 6).unwrap(),
        "Fri 12 PM"
    )
}

#[test]
fn increment_time_creates_handles_midnight() {
    assert_eq!(
        increment_time(b"2024-09-06T11:00:00+00:00", 18).unwrap(),
        "Sat 12 AM"
    )
}

#[test]
fn the_display_shift_borrows_across_a_leap_day() {
    // four in the morning UTC on a leap day reads as the previous
    // evening in the display zone
    assert_eq!(
        increment_time(b"2024-02-29T04:00:00+00:00", 0).unwrap(),
        "Wed 11 PM"
    );
}

#[test]
fn the_display_shift_borrows_into_a_leap_day() {
    assert_eq!(
        Latest::parse_as_of(b"2024 03 01 03 00").unwrap(),
        "Thu, 29 Feb 2024 22:00:00"
    );
}

#[test]
fn increment_time_rejects_text_that_is_not_a_timestamp() {
    assert!(increment_time(b"sometime soon", 1).is_err());
    assert!(increment_time(b"2024-09-06T11:00:00-05:00", 1).is_err());
}

#[test]
fn convert_24_to_12_hour_adds_a_leading_zero_to_am() {
    assert_eq!(convert_24_to_12_hour(7), "07 AM")
}

#[test]
fn convert_24_to_12_hour_adds_a_leading_zero_to_pm() {
    assert_eq!(convert_24_to_12_hour(13), "01 PM")
}

#[test]
fn convert_24_to_12_hour_does_not_add_a_leading_zero_to_am() {
    assert_eq!(convert_24_to_12_hour(10), "10 AM")
}

#[test]
fn convert_24_to_12_hour_does_not_add_a_leading_zero_to_pm() {
    assert_eq!(convert_24_to_12_hour(22), "10 PM")
}

#[test]
fn convert_24_to_12_hour_handles_noon() {
    assert_eq!(convert_24_to_12_hour(12), "12 PM")
}

#[test]
fn convert_24_to_12_hour_handles_midnight() {
    assert_eq!(convert_24_to_12_hour(00), "12 AM")
}
