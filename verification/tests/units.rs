//! Unit-conversion and decimal-parsing behaviour, on concrete values.
//! One physical unit is a million ticks.

use gathering_surf::units::parse_decimal;
use gathering_surf::{
    convert_celsius_to_fahrenheit, convert_kilo_meter_to_mile,
    convert_meter_per_second_to_miles_per_hour, convert_meter_to_feet, truncate_to_two_decimals,
};

#[test]
fn truncate_to_two_decimals_limits_f64_to_two_decimals() {
    assert_eq!(truncate_to_two_decimals(12_121_212), 12_120_000)
}

#[test]
fn convert_meter_per_second_to_miles_per_hour_converts_correctly() {
    assert_eq!(convert_meter_per_second_to_miles_per_hour(b"6.0"), "13")
}

#[test]
fn convert_meter_to_feet_converts_correctly() {
    assert_eq!(convert_meter_to_feet(1_000_000), 3_281_000)
}

#[test]
fn convert_kilo_meter_to_mile_converts_correctly() {
    assert_eq!(convert_kilo_meter_to_mile(11_500_000), 7_141_500)
}

#[test]
fn convert_celsius_to_fahrenheit_converts_correctly() {
    assert_eq!(convert_celsius_to_fahrenheit(66_000_000), "151")
}

#[test]
fn convert_celsius_to_fahrenheit_handles_below_zero() {
    // -10.5 C is 13.1 F, rounded to the nearest whole
    assert_eq!(convert_celsius_to_fahrenheit(-10_500_000), "13")
}

#[test]
fn unparsable_speed_counts_as_zero() {
    assert_eq!(convert_meter_per_second_to_miles_per_hour(b"MM"), "0")
}

#[test]
fn parse_decimal_reads_five_fractional_places() {
    assert_eq!(parse_decimal(b"81.15151"), Some(81_151_510));
}

#[test]
fn parse_decimal_reads_signs_and_bare_fractions() {
    assert_eq!(parse_decimal(b"-1.5"), Some(-1_500_000));
    assert_eq!(parse_decimal(b".5"), Some(500_000));
    assert_eq!(parse_decimal(b"6."), Some(6_000_000));
}

#[test]
fn parse_decimal_rejects_markers_and_out_of_range_values() {
    assert_eq!(parse_decimal(b"MM"), None);
    assert_eq!(parse_decimal(b""), None);
    assert_eq!(parse_decimal(b"."), None);
    assert_eq!(parse_decimal(b"1.2.3"), None);
    // whole parts above ten million are out of range
    assert_eq!(parse_decimal(b"10000001"), None);
}

#[test]
fn truncation_keeps_the_sign_toward_zero() {
    assert_eq!(truncate_to_two_decimals(-12_345_678), -12_340_000);
}
