//! A trimmed current-conditions reading from a single station report,
//! without the fallback machinery: the reading's timestamp and wave
//! height are parsed with the same rules the realtime engine uses.

use vstd::prelude::*;

use crate::error::AppError;
use crate::realtime::{spec_as_of_civil, spec_as_of_ok, Realtime};
use crate::text::ascii_chars;
use crate::time::{spec_central, spec_display_bytes};

verus! {

/// A current-conditions reading without fallback provenance.
pub struct Latest {
    pub as_of: String,
    pub wind_direction: u32,
    pub wind_speed: String,
    pub gusts: String,
    pub water_temp: String,
    pub air_temp: String,
    pub quality_color: String,
    pub quality_text: String,
    pub wave_height: Option<String>,
    pub wave_period: Option<u8>,
    pub wave_direction: Option<u16>,
}

impl Latest {
    /// Converts a wave-height column to a feet string with two decimal
    /// places; a column that does not read as a decimal is a missing
    /// sensor.
    pub fn parse_wave_height(wave_height: &[u8]) -> (r: Option<String>)
        ensures
            match r {
                Some(s) => Realtime::spec_wave_height(wave_height@) == Some(s@),
                None => Realtime::spec_wave_height(wave_height@) is None,
            },
    {
        Realtime::parse_wave_height(wave_height)
    }

    /// Reads the report's leading `YYYY MM DD HH MM` field and renders
    /// it for display in the local zone.
    pub fn parse_as_of(as_of: &[u8]) -> (r: Result<String, AppError>)
        ensures
            match r {
                Ok(s) => spec_as_of_ok(as_of@) && s@ == ascii_chars(
                    spec_display_bytes(spec_central(spec_as_of_civil(as_of@))),
                ),
                Err(e) => !spec_as_of_ok(as_of@) && e.kind
                    == crate::error::ErrorKind::MalformedPayload,
            },
    {
        let civil = match Realtime::parse_as_of(as_of) {
            Ok(c) => c,
            Err(e) => {
                return Err(e);
            },
        };
        Ok(crate::time::format_display_time(&crate::time::to_central(&civil)))
    }
}

} // verus!
