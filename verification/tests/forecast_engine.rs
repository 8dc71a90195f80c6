//! The forecast engine: period expansion, smoothing, alignment,
//! current-conditions derivation, and whole-payload assembly.

use gathering_surf::forecast::{
    expand_values, get_current_wave_data, smooth_wave_data, try_labels,
};
use gathering_surf::time::{epoch_minutes, Civil};
use gathering_surf::{
    parse_hour, parse_period, ErrorKind, Forecast, ForecastProperties, Location, TimedSample,
};

#[test]
fn parse_period_parses_an_hours_only_string() {
    assert_eq!(parse_period(b"T2H"), 2);
}

#[test]
fn parse_period_parses_an_hours_and_days_string() {
    assert_eq!(parse_period(b"2DT10H"), 58);
}

#[test]
fn parse_period_parses_an_empty_string() {
    assert_eq!(parse_period(b""), 0);
}

#[test]
fn parse_hour_gets_the_number_of_hours_from_a_period_string() {
    assert_eq!(parse_hour(b"T12H").unwrap(), 12)
}

#[test]
fn parse_hour_rejects_a_tag_without_markers() {
    assert!(parse_hour(b"12").is_err());
    assert!(parse_hour(b"T12").is_err());
    assert!(parse_hour(b"TH").is_err());
}

fn sample(value: i64, valid_time: &str) -> TimedSample {
    TimedSample { value, valid_time: valid_time.as_bytes().to_vec() }
}

#[test]
fn expansion_repeats_each_value_once_per_hour() {
    let channel = vec![
        sample(1_000_000, "2024-09-06T11:00:00+00:00/PT2H"),
        sample(2_000_000, "2024-09-06T13:00:00+00:00/PT1H"),
        sample(3_000_000, "2024-09-06T14:00:00+00:00/PT0H"),
    ];
    let expanded = expand_values(&channel).unwrap();
    assert_eq!(expanded, vec![1_000_000, 1_000_000, 2_000_000]);
}

#[test]
fn expansion_fails_the_whole_channel_without_a_period_marker() {
    let channel = vec![
        sample(1_000_000, "2024-09-06T11:00:00+00:00/PT2H"),
        sample(2_000_000, "2024-09-06T13:00:00+00:00"),
    ];
    let e = expand_values(&channel).unwrap_err();
    assert_eq!(e.kind, ErrorKind::MalformedPayload);
    assert_eq!(e.message, "Unknown period found!");
}

#[test]
fn smoothing_leaves_a_length_one_series_unchanged() {
    assert_eq!(smooth_wave_data(&vec![1_234_567]), vec![1_234_567]);
}

#[test]
fn smoothing_averages_three_interior_points_truncated() {
    // (1 + 2 + 4) / 3 is 2.333..., truncated to 2.33; the edges average
    // their two in-range neighbours
    let smoothed = smooth_wave_data(&vec![1_000_000, 2_000_000, 4_000_000]);
    assert_eq!(smoothed, vec![1_500_000, 2_330_000, 3_000_000]);
}

#[test]
fn alignment_cuts_every_required_channel_to_the_minimum() {
    let mut f = Forecast {
        as_of: String::new(),
        cloud_cover: vec![],
        current_wave_height: String::new(),
        current_wave_period: 0,
        current_wave_direction: 0,
        dewpoint: vec![],
        probability_of_precipitation: vec![],
        probability_of_thunder: vec![],
        quality: None,
        starting_at: String::new(),
        temperature: vec![],
        wave_direction: vec![9, 9, 9, 9, 9, 9],
        wave_height: vec![1, 2, 3, 4, 5],
        wave_height_labels: vec!["a".to_string(), "b".to_string(), "c".to_string(), "d".to_string()],
        wave_period: vec![1, 2, 3],
        wind_speed: vec![1, 2, 3, 4],
        wind_gust: vec![1, 2, 3, 4, 5, 6],
        wind_direction: vec![1, 2, 3, 4, 5],
    };
    f.condense();
    assert_eq!(f.wave_period.len(), 3);
    assert_eq!(f.wave_height.len(), 3);
    assert_eq!(f.wind_speed.len(), 3);
    assert_eq!(f.wind_gust.len(), 3);
    assert_eq!(f.wind_direction.len(), 3);
    assert_eq!(f.wave_height_labels.len(), 3);
    assert_eq!(f.wave_height, vec![1, 2, 3]);
}

#[test]
fn current_conditions_rising_heights_read_as_a_plus_range() {
    // whole feet 2, 2, 3: the reading rose from 2 to 3 over the last hour
    let heights = vec![2_000_000, 2_000_000, 3_000_000];
    let periods = vec![7_000_000, 7_000_000, 8_000_000];
    let directions = vec![90_000_000, 90_000_000, 90_000_000];
    let (s, p, d) = get_current_wave_data(&heights, &periods, &directions, 2).unwrap();
    assert_eq!(s, "2-3+");
    assert_eq!(p, 8_000_000);
    assert_eq!(d, 270_000_000);
}

#[test]
fn current_conditions_falling_heights_read_as_a_range() {
    let heights = vec![3_000_000, 2_000_000];
    let periods = vec![7_000_000, 7_000_000];
    let directions = vec![0, 0];
    let (s, _, _) = get_current_wave_data(&heights, &periods, &directions, 1).unwrap();
    assert_eq!(s, "2-3");
}

#[test]
fn current_conditions_equal_heights_read_plainly() {
    let heights = vec![2_400_000, 2_900_000];
    let periods = vec![7_000_000, 7_000_000];
    let directions = vec![0, 0];
    let (s, _, _) = get_current_wave_data(&heights, &periods, &directions, 1).unwrap();
    assert_eq!(s, "2");
}

#[test]
fn current_conditions_flat_surf_reads_flat() {
    // half a foot: below the classifier's flat threshold
    let heights = vec![2_000_000, 500_000];
    let periods = vec![7_000_000, 7_000_000];
    let directions = vec![0, 0];
    let (s, _, _) = get_current_wave_data(&heights, &periods, &directions, 1).unwrap();
    assert_eq!(s, "Flat");
}

#[test]
fn current_conditions_index_beyond_a_channel_is_fatal() {
    let heights = vec![2_000_000, 2_000_000];
    let periods = vec![7_000_000];
    let directions = vec![0, 0];
    let e = get_current_wave_data(&heights, &periods, &directions, 1).unwrap_err();
    assert_eq!(e.kind, ErrorKind::IndexOutOfRange);
}

#[test]
fn labels_expand_hour_by_hour() {
    let channel = vec![sample(1_000_000, "2024-09-06T11:00:00+00:00/PT3H")];
    let labels = try_labels(&channel).unwrap();
    assert_eq!(labels, vec!["Fri 06 AM", "Fri 07 AM", "Fri 08 AM"]);
}

fn channel_of(values: &[i64], valid_time: &str) -> Option<Vec<TimedSample>> {
    Some(values.iter().map(|v| sample(*v, valid_time)).collect())
}

#[test]
fn the_temperature_guard_accepts_byte_range_readings_only() {
    let tag = "2024-09-06T11:00:00+00:00/PT1H";
    let mut props = ForecastProperties {
        update_time: None,
        valid_times: None,
        wave_height: None,
        wave_period: None,
        wave_direction: None,
        wind_speed: None,
        wind_gust: None,
        wind_direction: None,
        temperature: channel_of(&[20_000_000], tag),
        probability_of_precipitation: None,
        dewpoint: None,
        sky_cover: None,
        probability_of_thunder: None,
    };
    assert!(gathering_surf::forecast::temps_in_byte_range(&props));
    // 200 C converts to 392 F, past what a byte holds
    props.temperature = channel_of(&[200_000_000], tag);
    assert!(!gathering_surf::forecast::temps_in_byte_range(&props));
    // -20 C converts to -4 F, below zero
    props.temperature = channel_of(&[-20_000_000], tag);
    assert!(!gathering_surf::forecast::temps_in_byte_range(&props));
}

#[test]
fn assembly_builds_an_aligned_rated_forecast() {
    let tag = "2024-09-06T11:00:00+00:00/PT2H";
    let props = ForecastProperties {
        update_time: Some(b"2024-09-06T10:30:00+00:00".to_vec()),
        valid_times: Some(b"2024-09-06T11:00:00+00:00/P7DT13H".to_vec()),
        // metres; two samples expand to four hours
        wave_height: channel_of(&[1_000_000, 2_000_000], tag),
        wave_period: channel_of(&[7_000_000, 7_000_000], tag),
        wave_direction: channel_of(&[90_000_000, 90_000_000], tag),
        // kilometres per hour
        wind_speed: channel_of(&[10_000_000, 12_000_000], tag),
        wind_gust: channel_of(&[20_000_000, 22_000_000], tag),
        wind_direction: channel_of(&[250_000_000, 250_000_000], tag),
        // celsius
        temperature: channel_of(&[20_000_000, 21_000_000], tag),
        probability_of_precipitation: channel_of(&[55_000_000, 60_000_000], tag),
        dewpoint: channel_of(&[10_000_000, 11_000_000], tag),
        sky_cover: channel_of(&[80_000_000, 90_000_000], tag),
        probability_of_thunder: channel_of(&[0, 5_000_000], tag),
    };
    // half past noon UTC: one whole hour into the series, reference index 2
    let now = epoch_minutes(&Civil {
        year: 2024,
        month: 9,
        day: 6,
        hour: 12,
        minute: 30,
        second: 0,
    });
    let f = Forecast::assemble(&props, now, &Location::Atwater).unwrap();
    assert_eq!(f.as_of, "Fri, 6 Sep 2024 05:30:00");
    assert_eq!(f.starting_at, "2024-09-06T11:00:00+00:00");
    assert_eq!(f.wave_height.len(), 4);
    assert_eq!(f.wind_speed.len(), 4);
    // 1 m is 3.281 ft; smoothing the first edge gives (3.281+3.281)/2
    assert_eq!(f.wave_height[0], 3_280_000);
    // 10 km/h is 6.21 mph
    assert_eq!(f.wind_speed[0], 6_210_000);
    // 20 C is 68 F
    assert_eq!(f.temperature[0], 68);
    assert_eq!(f.dewpoint[0], "50");
    assert_eq!(f.probability_of_precipitation[0], 55);
    assert_eq!(f.wave_height_labels[0], "Fri 06 AM");
    assert_eq!(f.current_wave_period, 7_000_000);
    assert_eq!(f.current_wave_direction, 270_000_000);
    let q = f.quality.as_ref().unwrap();
    assert_eq!(q.len(), 4);
    // waves well above flat, wind 6.21 mph from 250 degrees on a south
    // shore: offshore, good
    assert_eq!(q[0], "Good");
}

#[test]
fn assembly_reports_a_missing_channel_as_malformed() {
    let tag = "2024-09-06T11:00:00+00:00/PT2H";
    let props = ForecastProperties {
        update_time: Some(b"2024-09-06T10:30:00+00:00".to_vec()),
        valid_times: Some(b"2024-09-06T11:00:00+00:00/P7DT13H".to_vec()),
        wave_height: None,
        wave_period: channel_of(&[7_000_000], tag),
        wave_direction: channel_of(&[90_000_000], tag),
        wind_speed: channel_of(&[10_000_000], tag),
        wind_gust: channel_of(&[20_000_000], tag),
        wind_direction: channel_of(&[250_000_000], tag),
        temperature: channel_of(&[20_000_000], tag),
        probability_of_precipitation: channel_of(&[55_000_000], tag),
        dewpoint: channel_of(&[10_000_000], tag),
        sky_cover: channel_of(&[80_000_000], tag),
        probability_of_thunder: channel_of(&[0], tag),
    };
    let e = Forecast::assemble(&props, 28_000_000, &Location::Atwater).unwrap_err();
    assert_eq!(e.kind, ErrorKind::MalformedPayload);
    assert_eq!(e.message, "no waveHeight found!");
}

#[test]
fn assembly_reports_an_index_past_the_series_as_fatal() {
    let tag = "2024-09-06T11:00:00+00:00/PT2H";
    let props = ForecastProperties {
        update_time: Some(b"2024-09-06T10:30:00+00:00".to_vec()),
        valid_times: Some(b"2024-09-06T11:00:00+00:00/P7DT13H".to_vec()),
        wave_height: channel_of(&[1_000_000], tag),
        wave_period: channel_of(&[7_000_000], tag),
        wave_direction: channel_of(&[90_000_000], tag),
        wind_speed: channel_of(&[10_000_000], tag),
        wind_gust: channel_of(&[20_000_000], tag),
        wind_direction: channel_of(&[250_000_000], tag),
        temperature: channel_of(&[20_000_000], tag),
        probability_of_precipitation: channel_of(&[55_000_000], tag),
        dewpoint: channel_of(&[10_000_000], tag),
        sky_cover: channel_of(&[80_000_000], tag),
        probability_of_thunder: channel_of(&[0], tag),
    };
    // two days past the series start: the reference index is far outside
    let now = epoch_minutes(&Civil {
        year: 2024,
        month: 9,
        day: 8,
        hour: 12,
        minute: 0,
        second: 0,
    });
    let e = Forecast::assemble(&props, now, &Location::Atwater).unwrap_err();
    assert_eq!(e.kind, ErrorKind::IndexOutOfRange);
}
