//! The spot registry, the water-quality query builders, and the small
//! wrapper types around readings and errors.

use gathering_surf::{
    get_quality_query, get_status_query, AppError, ErrorKind, Latest, Location, Spot, SpotParam,
    WaterQuality,
};

#[test]
fn an_absent_spot_falls_back_to_the_home_spot() {
    let spot = Spot::from(SpotParam { spot: None });
    assert_eq!(spot.name, "Atwater");
    assert_eq!(spot.forecast_path, "/gridpoints/MKX/90,67");
    assert_eq!(spot.realtime_path, "/data/realtime2/45013.txt");
    assert_eq!(spot.fallback_realtime_path, Some("/data/realtime2/MLWW3.txt"));
    assert!(spot.has_bouy);
}

#[test]
fn get_spot_takes_the_selection_out_of_the_request() {
    let mut param = SpotParam { spot: Some(Location::Racine) };
    assert_eq!(param.get_spot(), Location::Racine);
    assert!(param.spot.is_none());
    assert_eq!(param.get_spot(), Location::Atwater);
}

#[test]
fn each_location_has_its_registry_row() {
    let sheboygan = Spot::from(SpotParam { spot: Some(Location::Sheboygan) });
    assert_eq!(sheboygan.name, "Sheboygan - North");
    assert_eq!(sheboygan.forecast_path, "/gridpoints/MKX/94,99");
    assert!(sheboygan.has_bouy);
    assert!(sheboygan.live_feed_url.is_some());
    let bradford = Spot::from(SpotParam { spot: Some(Location::Bradford) });
    assert_eq!(bradford.name, "Bradford");
    assert!(!bradford.has_bouy);
    assert!(bradford.fallback_realtime_path.is_none());
}

#[test]
fn get_all_lists_every_location_in_registry_order() {
    let all = Location::get_all();
    assert_eq!(
        all,
        vec![
            Location::Atwater,
            Location::Bradford,
            Location::Sheboygan,
            Location::SheboyganSouth,
            Location::PortWashington,
            Location::Racine,
        ]
    );
}

#[test]
fn the_query_builders_interpolate_the_station_id() {
    assert_eq!(
        get_status_query("171"),
        "?f=json&objectIds=171&outFields=MAP_STATUS"
    );
    assert!(get_quality_query("171").starts_with("?f=json&objectIds=171&outFields=ECOLIPRONAME"));
    let spot = Spot::from(SpotParam { spot: None });
    assert_eq!(spot.status_query(), "?f=json&objectIds=171&outFields=MAP_STATUS");
}

#[test]
fn orientation_selects_the_sector_table() {
    // a due-north wind at 20 mph with solid waves: poor on a south
    // shore, good on a north shore
    let h = 5_700_000;
    let s = 20_000_000;
    let d = 0;
    assert_eq!(Location::Atwater.get_quality(h, s, d).text(), "Poor");
    assert_eq!(Location::Racine.get_quality(h, s, d).text(), "Good");
}

#[test]
fn water_quality_reads_both_map_service_documents() {
    let status: serde_json::Value = serde_json::from_str(
        r#"{"features": [{"attributes": {"MAP_STATUS": "Open"}}]}"#,
    )
    .unwrap();
    let response: serde_json::Value = serde_json::from_str(
        r#"{"features": [{"attributes": {"STATUS": "Good"}}]}"#,
    )
    .unwrap();
    let w = WaterQuality::try_get(&status, &response).unwrap();
    assert_eq!(w.water_quality, "Open");
    assert_eq!(w.water_quality_text, "Good");
}

#[test]
fn water_quality_reports_the_first_missing_shape() {
    let empty: serde_json::Value = serde_json::from_str(r#"{}"#).unwrap();
    let response: serde_json::Value = serde_json::from_str(
        r#"{"features": [{"attributes": {"STATUS": "Good"}}]}"#,
    )
    .unwrap();
    let e = WaterQuality::try_get(&empty, &response).unwrap_err();
    assert_eq!(e.kind, ErrorKind::MalformedPayload);
    assert_eq!(e.message, "no features found.");
    let no_features: serde_json::Value =
        serde_json::from_str(r#"{"features": []}"#).unwrap();
    let e = WaterQuality::try_get(&no_features, &response).unwrap_err();
    assert_eq!(e.message, "empty array of features.");
    let bad_attr: serde_json::Value = serde_json::from_str(
        r#"{"features": [{"attributes": {"MAP_STATUS": 3}}]}"#,
    )
    .unwrap();
    let e = WaterQuality::try_get(&bad_attr, &response).unwrap_err();
    assert_eq!(e.message, "map status not a string.");
}

#[test]
fn latest_shares_the_report_parsers() {
    assert_eq!(Latest::parse_wave_height(b"1.5").as_deref(), Some("4.92"));
    assert_eq!(Latest::parse_wave_height(b"MM"), None);
    assert_eq!(
        Latest::parse_as_of(b"2024 09 06 16 30").unwrap(),
        "Fri, 6 Sep 2024 11:30:00"
    );
}

#[test]
fn every_error_kind_can_be_raised() {
    let up = AppError::new(ErrorKind::UpstreamUnavailable, "Non 200 response from NOAA");
    assert_eq!(up.kind, ErrorKind::UpstreamUnavailable);
    assert_eq!(up.message, "Non 200 response from NOAA");
    let stale = AppError::new(ErrorKind::StaleData, "reading past freshness window");
    assert_eq!(stale.kind, ErrorKind::StaleData);
}
