//! Marine weather aggregation engine for a handful of Great Lakes beach
//! locations: expands sparse interval-tagged forecast samples into
//! uniform hourly series, aligns and smooths the channels, derives
//! current-condition summaries, parses live buoy reports, and
//! classifies surf quality by shoreline orientation.
//!
//! All continuous quantities (wave heights, wind speeds, temperatures,
//! compass directions) are carried as fixed-point integers with one
//! physical unit equal to a million ticks, so every derivation is exact
//! integer arithmetic. Text is handled byte for byte; display strings
//! are assembled from verified ASCII buffers.

pub mod digits;
pub mod error;
pub mod forecast;
pub mod latest;
pub mod quality;
pub mod realtime;
pub mod spot;
pub mod text;
pub mod time;
pub mod units;
pub mod water_quality;

pub use error::AppError;
pub use error::ErrorKind;
pub use forecast::parse_hour;
pub use forecast::parse_period;
pub use forecast::Forecast;
pub use forecast::ForecastProperties;
pub use forecast::TimedSample;
pub use latest::Latest;
pub use quality::Quality;
pub use realtime::Realtime;
pub use spot::get_quality_query;
pub use spot::get_status_query;
pub use spot::Location;
pub use spot::Spot;
pub use spot::SpotParam;
pub use time::convert_24_to_12_hour;
pub use time::increment_time;
pub use units::convert_celsius_to_fahrenheit;
pub use units::convert_kilo_meter_to_mile;
pub use units::convert_meter_per_second_to_miles_per_hour;
pub use units::convert_meter_to_feet;
pub use units::truncate_to_two_decimals;
pub use water_quality::WaterQuality;
