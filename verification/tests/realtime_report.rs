//! Buoy report parsing, the tiered wave-direction fallback, the
//! water-temperature fallback scan, staleness, and the retry plan.

use gathering_surf::realtime::{
    fallback_water_temp, fetch_step, initial_fetch_state, is_stale, FetchEvent, FetchState,
};
use gathering_surf::text::split_lines;
use gathering_surf::time::epoch_minutes;
use gathering_surf::{ErrorKind, Location, Realtime};

fn report(rows: &[&str]) -> Vec<Vec<u8>> {
    let text = rows.join("\n");
    split_lines(text.as_bytes())
}

const HEADER_1: &str = "#YY  MM DD hh mm WDIR WSPD GST  WVHT   DPD   APD MWD   PRES  ATMP  WTMP  DEWP  VIS PTDY  TIDE";
const HEADER_2: &str = "#yr  mo dy hr mn degT m/s  m/s     m   sec   sec degT   hPa  degC  degC  degC  nmi  hPa    ft";

#[test]
fn a_full_report_row_parses_into_a_reading() {
    let lines = report(&[
        HEADER_1,
        HEADER_2,
        "2024 09 06 16 30 230 5.0 7.0 1.5 5 4.8 111 1014.2 20.1 18.0",
    ]);
    let (r, water_missing) = Realtime::parse_data(&lines, &Location::Atwater, false).unwrap();
    assert!(!water_missing);
    assert_eq!(r.as_of, "Fri, 6 Sep 2024 11:30:00");
    assert_eq!(r.wind_direction, 230);
    assert_eq!(r.wind_speed, "11");
    assert_eq!(r.gusts, "16");
    assert_eq!(r.wave_height.as_deref(), Some("4.92"));
    assert_eq!(r.wave_period, Some(5));
    assert_eq!(r.wave_direction, Some(291));
    assert_eq!(r.air_temp, "68");
    assert_eq!(r.water_temp, "64");
    // 4.92 ft of waves, 11 mph from 230 degrees on a south shore
    assert_eq!(r.quality_text, "Good");
    assert_eq!(r.quality_color, "#0bd674");
    assert!(!r.loaded_from_fallback);
}

#[test]
fn wave_direction_missing_in_latest_row_falls_back_two_rows() {
    let lines = report(&[
        HEADER_1,
        HEADER_2,
        "2024 09 06 16 30 230 5.0 7.0 1.5 5 4.8 MM 1014.2 20.1 18.0",
        "2024 09 06 15 30 228 5.0 7.0 1.5 5 4.8 MM 1014.2 20.1 18.0",
        "2024 09 06 14 30 232 5.0 7.0 1.5 5 4.8 111 1014.2 20.1 18.0",
    ]);
    let (r, _) = Realtime::parse_data(&lines, &Location::Atwater, false).unwrap();
    assert_eq!(r.wave_direction, Some(291));
}

#[test]
fn wave_direction_absent_everywhere_stays_absent() {
    let lines = report(&[
        HEADER_1,
        HEADER_2,
        "2024 09 06 16 30 230 5.0 7.0 1.5 5 4.8 MM 1014.2 20.1 18.0",
    ]);
    let (r, _) = Realtime::parse_data(&lines, &Location::Atwater, false).unwrap();
    assert_eq!(r.wave_direction, None);
}

#[test]
fn missing_sensors_leave_height_absent_and_force_non_flat_rating() {
    let lines = report(&[
        HEADER_1,
        HEADER_2,
        "2024 09 06 16 30 100 15.0 17.0 MM 5 4.8 111 1014.2 20.1 18.0",
    ]);
    let (r, _) = Realtime::parse_data(&lines, &Location::Atwater, false).unwrap();
    assert_eq!(r.wave_height, None);
    // 33 mph from 100 degrees on a south shore: fair-to-good band, high wind
    assert_eq!(r.quality_text, "Poor");
}

#[test]
fn missing_water_temperature_is_flagged_for_the_fallback_station() {
    let lines = report(&[
        HEADER_1,
        HEADER_2,
        "2024 09 06 16 30 230 5.0 7.0 1.5 5 4.8 111 1014.2 20.1 MM",
    ]);
    let (r, water_missing) = Realtime::parse_data(&lines, &Location::Atwater, false).unwrap();
    assert!(water_missing);
    assert_eq!(r.water_temp, "");
}

#[test]
fn the_fallback_scan_skips_rows_until_a_numeric_value() {
    let lines = report(&[
        HEADER_1,
        HEADER_2,
        "2024 09 06 16 30 230 5.0 7.0 1.5 5 4.8 111 1014.2 20.1 MM 17.0 1.1 2.2 3.3",
        "2024 09 06 15 30 230 5.0 7.0 1.5 5 4.8 111 1014.2 20.1 18.0 17.0 1.1 2.2 3.3",
    ]);
    // column fifteen of the first data row is MM; the next row reads 18.0 C
    assert_eq!(fallback_water_temp(&lines), "64");
}

#[test]
fn the_fallback_scan_defaults_to_freezing_past_the_end() {
    let lines = report(&[
        HEADER_1,
        HEADER_2,
        "2024 09 06 16 30 230 5.0 7.0 1.5 5 4.8 111 1014.2 20.1 MM MM MM MM MM",
    ]);
    assert_eq!(fallback_water_temp(&lines), "32");
}

#[test]
fn a_truncated_report_is_malformed() {
    let lines = report(&[HEADER_1, HEADER_2]);
    let e = Realtime::parse_data(&lines, &Location::Atwater, false).unwrap_err();
    assert_eq!(e.kind, ErrorKind::MalformedPayload);
}

#[test]
fn a_report_time_feeds_the_freshness_check() {
    let lines = report(&[
        HEADER_1,
        HEADER_2,
        "2024 09 06 16 30 230 5.0 7.0 1.5 5 4.8 111 1014.2 20.1 18.0",
    ]);
    let as_of = Realtime::report_time(&lines).unwrap();
    let as_of_minutes = epoch_minutes(&as_of);
    // a day later, to the minute: still fresh
    assert!(!is_stale(as_of_minutes, as_of_minutes + 1440));
    // one minute past the window: stale
    assert!(is_stale(as_of_minutes, as_of_minutes + 1441));
    // clocks can disagree; a reading from the future is not stale
    assert!(!is_stale(as_of_minutes, as_of_minutes - 10));
}

#[test]
fn the_retry_plan_retries_each_source_once_then_moves_on() {
    let s0 = initial_fetch_state();
    assert_eq!(s0, FetchState::TryPrimary { attempts_left: 2 });
    let s1 = fetch_step(s0, FetchEvent::Failed);
    assert_eq!(s1, FetchState::TryPrimary { attempts_left: 1 });
    let s2 = fetch_step(s1, FetchEvent::Failed);
    assert_eq!(s2, FetchState::TryFallback { attempts_left: 2 });
    let s3 = fetch_step(s2, FetchEvent::Failed);
    assert_eq!(s3, FetchState::TryFallback { attempts_left: 1 });
    let s4 = fetch_step(s3, FetchEvent::Failed);
    assert_eq!(s4, FetchState::Failed);
}

#[test]
fn a_stale_primary_reading_retries_from_the_fallback() {
    let s = fetch_step(initial_fetch_state(), FetchEvent::SucceededStale);
    assert_eq!(s, FetchState::TryFallback { attempts_left: 2 });
    // a stale fallback reading is still used
    assert_eq!(fetch_step(s, FetchEvent::SucceededStale), FetchState::Done);
}

#[test]
fn a_fresh_reading_ends_the_plan() {
    assert_eq!(fetch_step(initial_fetch_state(), FetchEvent::Succeeded), FetchState::Done);
}
