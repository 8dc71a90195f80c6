//! The surf-quality classifier on concrete conditions. Heights are in
//! feet, speeds in miles per hour, directions in degrees, all in ticks
//! (one unit = 10^6 ticks).

use gathering_surf::Quality;

const HIGH_WIND: i64 = 33_300_000;
const LOW_WIND: i64 = 5_500_000;

const HIGH_WAVES: i64 = 5_700_000;
const SMALL_WAVES: i64 = 300_000;

const NORTH_WIND: i64 = 180_000_000;
const SOUTH_WIND: i64 = 0;
const SOUTH_WEST_WIND: i64 = 275_000_000;
const NORTH_WEST_WIND: i64 = 95_000_000;

#[test]
fn basic_wave_check_works_when_its_not_flat() {
    assert!(Quality::basic_wave_check(2_100_000).is_none());
}

#[test]
fn basic_wave_check_works_when_it_is_flat() {
    assert!(Quality::basic_wave_check(100_000).is_some());
    assert_eq!(Quality::basic_wave_check(100_000).unwrap().text(), "Flat");
    assert_eq!(Quality::basic_wave_check(100_000).unwrap().color(), "#a8a29e");
}

#[test]
fn a_north_beach_should_be_good_in_some_condition() {
    assert_eq!(Quality::north(HIGH_WAVES, LOW_WIND, SOUTH_WIND).text(), "Good");
}

#[test]
fn a_north_beach_shoud_be_bad_in_some_condition() {
    assert_eq!(
        Quality::north(HIGH_WAVES, HIGH_WIND, NORTH_WIND).text(),
        "Very Poor"
    );
}

#[test]
fn a_north_beach_shoud_be_ok_in_some_condition() {
    assert_eq!(
        Quality::north(HIGH_WAVES, HIGH_WIND, SOUTH_WEST_WIND).text(),
        "Fair to Good"
    );
}

#[test]
fn a_north_beach_shoud_be_poor_in_some_condition() {
    assert_eq!(
        Quality::north(HIGH_WAVES, HIGH_WIND, NORTH_WEST_WIND).text(),
        "Poor"
    );
}

#[test]
fn a_north_beach_shoud_be_flat_in_some_condition() {
    assert_eq!(Quality::north(SMALL_WAVES, HIGH_WIND, NORTH_WIND).text(), "Flat");
}

#[test]
fn half_a_foot_is_flat_whatever_the_wind() {
    // 0.5 ft sits below the flat threshold on both shorelines
    let half_foot: i64 = 500_000;
    for wind_speed in [0i64, 4_999_999, 25_000_000, 99_000_000] {
        for wind_direction in [0i64, 95_000_000, 180_000_000, 305_000_000, 359_000_000] {
            assert_eq!(Quality::north(half_foot, wind_speed, wind_direction), Quality::Flat);
            assert_eq!(Quality::south(half_foot, wind_speed, wind_direction), Quality::Flat);
        }
    }
}

#[test]
fn crossing_the_speed_threshold_never_improves_a_sector() {
    // within the 80..120 degree south sector the rating drops from
    // fair-to-good to poor across the high-wind threshold
    let below = Quality::south(HIGH_WAVES, 20_000_000, 100_000_000);
    let above = Quality::south(HIGH_WAVES, 30_000_000, 100_000_000);
    assert_eq!(below, Quality::FairToGood);
    assert_eq!(above, Quality::Poor);
    // and in the 120..230 degree north sector from poor to very poor
    assert_eq!(Quality::north(HIGH_WAVES, 20_000_000, NORTH_WIND), Quality::Poor);
    assert_eq!(Quality::north(HIGH_WAVES, 30_000_000, NORTH_WIND), Quality::VeryPoor);
}

#[test]
fn calm_wind_is_good_on_any_non_flat_day() {
    assert_eq!(Quality::south(HIGH_WAVES, 4_900_000, NORTH_WIND), Quality::Good);
    assert_eq!(Quality::north(HIGH_WAVES, 0, NORTH_WEST_WIND), Quality::Good);
}

#[test]
fn south_shore_offshore_band_is_good_even_in_high_wind() {
    assert_eq!(Quality::south(HIGH_WAVES, HIGH_WIND, 250_000_000), Quality::Good);
}

#[test]
fn south_shore_north_north_west_wind_rates_poor() {
    assert_eq!(Quality::south(HIGH_WAVES, 20_000_000, 340_000_000), Quality::Poor);
    assert_eq!(Quality::south(HIGH_WAVES, HIGH_WIND, 340_000_000), Quality::VeryPoor);
}
