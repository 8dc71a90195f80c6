//! The realtime engine: parses the fixed-column buoy text report into a
//! current-conditions reading, rates it, and drives the retry-and-
//! fallback plan as an explicit state machine whose fetches the caller
//! performs.

use vstd::prelude::*;

use crate::digits::{all_digits, digits_val, parse_u64};
use crate::error::{AppError, ErrorKind};
use crate::text::{
    ascii_chars, spec_split, spec_tokens, spec_trim, split_byte, tokenize, trim,
};
use crate::time::{
    spec_central, spec_days_in_month, spec_display_bytes, spec_valid_civil, Civil,
};
use vstd::slice::slice_subrange;

verus! {

/// A current-conditions reading assembled from one buoy report.
#[derive(Debug)]
pub struct Realtime {
    pub as_of: String,
    pub wind_direction: u32,
    pub wind_speed: String,
    pub gusts: String,
    pub water_temp: String,
    pub air_temp: String,
    pub quality_color: String,
    pub quality_text: String,
    pub wave_height: Option<String>,
    pub wave_period: Option<u8>,
    pub wave_direction: Option<u16>,
    pub loaded_from_fallback: bool,
}

/// The leading timestamp field of a report row parses when, after
/// trimming, its first five space-separated fields are digit runs that
/// read as a calendar date with a time of day, within the supported
/// year range.
pub open spec fn spec_as_of_ok(s: Seq<u8>) -> bool {
    let parts = spec_split(spec_trim(s), ' ' as u8);
    &&& parts.len() >= 5
    &&& parts[0].len() > 0 && all_digits(parts[0])
    &&& parts[1].len() > 0 && all_digits(parts[1])
    &&& parts[2].len() > 0 && all_digits(parts[2])
    &&& parts[3].len() > 0 && all_digits(parts[3])
    &&& parts[4].len() > 0 && all_digits(parts[4])
    &&& 1971 <= digits_val(parts[0]) <= 9999
    &&& 1 <= digits_val(parts[1]) <= 12
    &&& 1 <= digits_val(parts[2]) <= spec_days_in_month(
        digits_val(parts[0]),
        digits_val(parts[1]),
    )
    &&& digits_val(parts[3]) < 24
    &&& digits_val(parts[4]) < 60
}

/// The civil time the timestamp field denotes, at second zero.
pub open spec fn spec_as_of_civil(s: Seq<u8>) -> Civil {
    let parts = spec_split(spec_trim(s), ' ' as u8);
    Civil {
        year: digits_val(parts[0]) as u64,
        month: digits_val(parts[1]) as u64,
        day: digits_val(parts[2]) as u64,
        hour: digits_val(parts[3]) as u64,
        minute: digits_val(parts[4]) as u64,
        second: 0,
    }
}

impl Realtime {
    /// Reads the report's leading `YYYY MM DD HH MM` field as a civil
    /// time. A field that does not read as a supported calendar time is
    /// malformed payload.
    pub fn parse_as_of(as_of: &[u8]) -> (r: Result<Civil, AppError>)
        ensures
            match r {
                Ok(c) => spec_as_of_ok(as_of@) && c == spec_as_of_civil(as_of@)
                    && spec_valid_civil(c) && c.year >= 1971,
                Err(e) => !spec_as_of_ok(as_of@) && e.kind == ErrorKind::MalformedPayload,
            },
    {
        let trimmed = trim(as_of);
        let parts = split_byte(trimmed.as_slice(), ' ' as u8);
        proof {
            assert(parts.deep_view() == spec_split(spec_trim(as_of@), ' ' as u8));
        }
        if parts.len() < 5 {
            return Err(AppError::malformed("could not parse time"));
        }
        let ghost sp = spec_split(spec_trim(as_of@), ' ' as u8);
        proof {
            assert(parts@[0]@ == sp[0]);
            assert(parts@[1]@ == sp[1]);
            assert(parts@[2]@ == sp[2]);
            assert(parts@[3]@ == sp[3]);
            assert(parts@[4]@ == sp[4]);
        }
        let year = match parse_u64(parts[0].as_slice()) {
            Some(v) => v,
            None => {
                return Err(AppError::malformed("could not parse time"));
            },
        };
        let month = match parse_u64(parts[1].as_slice()) {
            Some(v) => v,
            None => {
                return Err(AppError::malformed("could not parse time"));
            },
        };
        let day = match parse_u64(parts[2].as_slice()) {
            Some(v) => v,
            None => {
                return Err(AppError::malformed("could not parse time"));
            },
        };
        let hour = match parse_u64(parts[3].as_slice()) {
            Some(v) => v,
            None => {
                return Err(AppError::malformed("could not parse time"));
            },
        };
        let minute = match parse_u64(parts[4].as_slice()) {
            Some(v) => v,
            None => {
                return Err(AppError::malformed("could not parse time"));
            },
        };
        if !(1971 <= year && year <= 9999) {
            return Err(AppError::malformed("time out of range"));
        }
        if !(1 <= month && month <= 12) {
            return Err(AppError::malformed("time out of range"));
        }
        if !(1 <= day && day <= crate::time::days_in_month(year, month)) {
            return Err(AppError::malformed("time out of range"));
        }
        if !(hour < 24 && minute < 60) {
            return Err(AppError::malformed("time out of range"));
        }
        Ok(Civil { year, month, day, hour, minute, second: 0 })
    }

    /// The displayed feet reading of a metre decimal: absent when the
    /// column does not parse (the station writes `MM` for a missing
    /// sensor).
    pub open spec fn spec_wave_height(s: Seq<u8>) -> Option<Seq<char>> {
        match crate::units::spec_decimal(s) {
            Some(v) => Some(
                ascii_chars(
                    crate::units::spec_two_dec_bytes(crate::units::spec_meters_to_feet(v)),
                ),
            ),
            None => None,
        }
    }

    /// Converts a wave-height column to a feet string with two decimal
    /// places; a column that does not read as a decimal is a missing
    /// sensor.
    pub fn parse_wave_height(wave_height: &[u8]) -> (r: Option<String>)
        ensures
            match r {
                Some(s) => Realtime::spec_wave_height(wave_height@) == Some(s@),
                None => Realtime::spec_wave_height(wave_height@) is None,
            },
    {
        match crate::units::parse_decimal(wave_height) {
            Some(v) => Some(
                crate::units::format_two_decimals(crate::units::convert_meter_to_feet(v)),
            ),
            None => None,
        }
    }

    /// The wave direction read from an earlier report row: the twelfth
    /// column of the row `offset` below the latest, turned half a
    /// circle; absent when the row, the column, or the number is not
    /// there.
    pub open spec fn spec_wave_direction_at(lines: Seq<Seq<u8>>, offset: int) -> Option<u16> {
        if 2 + offset < lines.len() {
            let toks = spec_tokens(lines[2 + offset]);
            if toks.len() > 11 {
                let t = toks[11];
                if t.len() > 0 && all_digits(t) && digits_val(t) + 180 <= 65535 {
                    Some((digits_val(t) + 180) as u16)
                } else {
                    None
                }
            } else {
                None
            }
        } else {
            None
        }
    }

    /// Reads the wave direction out of an earlier report row; stations
    /// that update the sensor every third hour leave `MM` in between.
    pub fn get_wave_direction(latest: &Vec<Vec<u8>>, offset: usize) -> (r: Option<u16>)
        requires
            offset <= 100,
        ensures
            r == Realtime::spec_wave_direction_at(latest.deep_view(), offset as int),
    {
        if 2 + offset >= latest.len() {
            return None;
        }
        let row = &latest[2 + offset];
        let toks = tokenize(row.as_slice());
        proof {
            assert(latest.deep_view()[2 + offset] == row@);
        }
        if toks.len() <= 11 {
            return None;
        }
        let t = &toks[11];
        proof {
            assert(toks.deep_view()[11] == t@);
        }
        match parse_u64(t.as_slice()) {
            Some(v) => {
                if v <= 65535 - 180 {
                    Some((v + 180) as u16)
                } else {
                    None
                }
            },
            None => {
                proof {
                    if t@.len() > 0 && all_digits(t@) && digits_val(t@) + 180 <= 65535 {
                        crate::digits::lemma_digits_val_nonneg(t@);
                    }
                }
                None
            },
        }
    }
}

/// A reading older than this many minutes is stale.
pub const FRESHNESS_MINUTES: u64 = 1440;

/// Whether a reading is past the freshness window: strictly more than a
/// day old.
pub fn is_stale(as_of_minutes: u64, now_minutes: u64) -> (r: bool)
    ensures
        r == (now_minutes - as_of_minutes > 1440),
{
    now_minutes > as_of_minutes && now_minutes - as_of_minutes > FRESHNESS_MINUTES
}

/// Where the realtime retrieval stands: which source to try next, with
/// how many attempts left, or how the session ended.
#[derive(PartialEq, Eq, Structural, Clone, Copy, Debug)]
pub enum FetchState {
    /// Fetching the spot's own report path.
    TryPrimary { attempts_left: u8 },
    /// Fetching the fallback report path.
    TryFallback { attempts_left: u8 },
    /// A fresh report is in hand.
    Done,
    /// Both sources are exhausted.
    Failed,
}

/// What the last fetch attempt came to.
#[derive(PartialEq, Eq, Structural, Clone, Copy, Debug)]
pub enum FetchEvent {
    /// The fetch returned a report that parsed fresh enough to use.
    Succeeded,
    /// The fetch failed or its body could not be read.
    Failed,
    /// The fetch returned a report whose reading is past the freshness
    /// window.
    SucceededStale,
}

/// The number of attempts each source is given.
pub const FETCH_ATTEMPTS: u8 = 2;

/// The opening state of the retrieval.
pub fn initial_fetch_state() -> (r: FetchState)
    ensures
        r == (FetchState::TryPrimary { attempts_left: FETCH_ATTEMPTS }),
{
    FetchState::TryPrimary { attempts_left: FETCH_ATTEMPTS }
}

/// One step of the retrieval plan: the next state after an attempt.
pub open spec fn spec_fetch_step(state: FetchState, event: FetchEvent) -> FetchState {
    match state {
        FetchState::TryPrimary { attempts_left } => match event {
            FetchEvent::Succeeded => FetchState::Done,
            FetchEvent::SucceededStale => FetchState::TryFallback {
                attempts_left: FETCH_ATTEMPTS,
            },
            FetchEvent::Failed => {
                if attempts_left > 1 {
                    FetchState::TryPrimary { attempts_left: (attempts_left - 1) as u8 }
                } else {
                    FetchState::TryFallback { attempts_left: FETCH_ATTEMPTS }
                }
            },
        },
        FetchState::TryFallback { attempts_left } => match event {
            FetchEvent::Succeeded => FetchState::Done,
            // a fallback reading is used whatever its age
            FetchEvent::SucceededStale => FetchState::Done,
            FetchEvent::Failed => {
                if attempts_left > 1 {
                    FetchState::TryFallback { attempts_left: (attempts_left - 1) as u8 }
                } else {
                    FetchState::Failed
                }
            },
        },
        FetchState::Done => FetchState::Done,
        FetchState::Failed => FetchState::Failed,
    }
}

/// Advances the retrieval plan: a fresh success ends it, a stale
/// primary success moves to the fallback source, and a failure retries
/// the same source until its attempts run out.
pub fn fetch_step(state: FetchState, event: FetchEvent) -> (r: FetchState)
    ensures
        r == spec_fetch_step(state, event),
{
    match state {
        FetchState::TryPrimary { attempts_left } => match event {
            FetchEvent::Succeeded => FetchState::Done,
            FetchEvent::SucceededStale => FetchState::TryFallback {
                attempts_left: FETCH_ATTEMPTS,
            },
            FetchEvent::Failed => {
                if attempts_left > 1 {
                    FetchState::TryPrimary { attempts_left: attempts_left - 1 }
                } else {
                    FetchState::TryFallback { attempts_left: FETCH_ATTEMPTS }
                }
            },
        },
        FetchState::TryFallback { attempts_left } => match event {
            FetchEvent::Succeeded => FetchState::Done,
            FetchEvent::SucceededStale => FetchState::Done,
            FetchEvent::Failed => {
                if attempts_left > 1 {
                    FetchState::TryFallback { attempts_left: attempts_left - 1 }
                } else {
                    FetchState::Failed
                }
            },
        },
        FetchState::Done => FetchState::Done,
        FetchState::Failed => FetchState::Failed,
    }
}

/// The measurement tokens of the latest report row, after its sixteen-
/// byte timestamp field.
pub open spec fn spec_meas_tokens(lines: Seq<Seq<u8>>) -> Seq<Seq<u8>> {
    spec_tokens(lines[2].skip(16))
}

pub open spec fn spec_tok(lines: Seq<Seq<u8>>, i: int) -> Seq<u8> {
    spec_meas_tokens(lines)[i]
}

/// A report whose latest row parses: the header takes the first two
/// lines, the third starts with a sixteen-byte timestamp field that
/// reads as a calendar time, and at least nine measurement columns
/// follow.
pub open spec fn spec_report_ok(lines: Seq<Seq<u8>>) -> bool {
    &&& lines.len() >= 3
    &&& lines[2].len() >= 16
    &&& spec_as_of_ok(lines[2].take(16))
    &&& spec_meas_tokens(lines).len() >= 9
}

/// A whole-number column read as in `str::parse::<u32>().unwrap_or(0)`.
pub open spec fn spec_u32_or_zero(t: Seq<u8>) -> int {
    if t.len() > 0 && all_digits(t) && digits_val(t) <= 0xFFFF_FFFF {
        digits_val(t)
    } else {
        0
    }
}

/// A whole-number column read as in `str::parse::<u8>().ok()`.
pub open spec fn spec_u8_opt(t: Seq<u8>) -> Option<u8> {
    if t.len() > 0 && all_digits(t) && digits_val(t) <= 255 {
        Some(digits_val(t) as u8)
    } else {
        None
    }
}

/// The wave-direction column turned half a circle, when it is a number
/// that stays on the compass dial.
pub open spec fn spec_wd_primary(t: Seq<u8>) -> Option<u16> {
    if t.len() > 0 && all_digits(t) && digits_val(t) + 180 <= 65535 {
        Some((digits_val(t) + 180) as u16)
    } else {
        None
    }
}

/// The wave direction of the report: the latest row's column when it is
/// numeric, else the same column one row earlier, else two rows earlier.
pub open spec fn spec_wave_direction(lines: Seq<Seq<u8>>) -> Option<u16> {
    match spec_wd_primary(spec_tok(lines, 6)) {
        Some(v) => Some(v),
        None => match Realtime::spec_wave_direction_at(lines, 1) {
            Some(v) => Some(v),
            None => Realtime::spec_wave_direction_at(lines, 2),
        },
    }
}

/// A temperature column as a whole Fahrenheit display string, an
/// unparsable column counting as zero Celsius.
pub open spec fn spec_temp_string(t: Seq<u8>) -> Seq<char> {
    ascii_chars(
        crate::units::spec_whole_bytes(
            crate::units::spec_c_to_f_val(
                match crate::units::spec_decimal(t) {
                    Some(v) => v,
                    None => 0,
                },
            ),
        ),
    )
}

/// Whether the water-temperature column is missing: absent altogether,
/// or the station's `MM` marker.
pub open spec fn spec_water_missing(lines: Seq<Seq<u8>>) -> bool {
    spec_meas_tokens(lines).len() <= 9 || spec_tok(lines, 9) == seq![('M' as u8), ('M' as u8)]
}

/// The wave height handed to the classifier: the displayed feet
/// reading (hundredths, as shown), or a sentinel far above flat when
/// the sensor is missing, forcing the non-flat branches.
pub open spec fn spec_classifier_height(lines: Seq<Seq<u8>>) -> int {
    match crate::units::spec_decimal(spec_tok(lines, 3)) {
        Some(v) => crate::units::spec_rhe(crate::units::spec_meters_to_feet(v), 10_000) * 10_000,
        None => 99_000_000,
    }
}

/// The wind speed handed to the classifier: the displayed whole
/// miles-per-hour reading.
pub open spec fn spec_classifier_speed(t: Seq<u8>) -> int {
    crate::units::spec_mps_to_mph_val(t) * 1_000_000
}

/// The rating of the report's conditions at a location.
pub open spec fn spec_report_quality(
    lines: Seq<Seq<u8>>,
    location: crate::spot::Location,
) -> crate::quality::Quality {
    location.spec_get_quality(
        spec_classifier_height(lines),
        spec_classifier_speed(spec_tok(lines, 1)),
        spec_u32_or_zero(spec_tok(lines, 0)) * 1_000_000,
    )
}

impl Realtime {
    /// The civil time of the report's latest row, for the freshness
    /// check.
    pub fn report_time(lines: &Vec<Vec<u8>>) -> (r: Result<Civil, AppError>)
        ensures
            match r {
                Ok(c) => {
                    &&& lines.deep_view().len() >= 3
                    &&& lines.deep_view()[2].len() >= 16
                    &&& spec_as_of_ok(lines.deep_view()[2].take(16))
                    &&& c == spec_as_of_civil(lines.deep_view()[2].take(16))
                    &&& spec_valid_civil(c)
                    &&& c.year >= 1971
                },
                Err(e) => {
                    &&& !(lines.deep_view().len() >= 3 && lines.deep_view()[2].len() >= 16
                        && spec_as_of_ok(lines.deep_view()[2].take(16)))
                    &&& e.kind == ErrorKind::MalformedPayload
                },
            },
    {
        if lines.len() < 3 {
            return Err(AppError::malformed("missing report rows"));
        }
        let line = &lines[2];
        proof {
            assert(lines.deep_view()[2] == line@);
        }
        if line.len() < 16 {
            return Err(AppError::malformed("report row too short"));
        }
        let field = slice_subrange(line.as_slice(), 0, 16);
        proof {
            assert(field@ =~= lines.deep_view()[2].take(16));
        }
        Realtime::parse_as_of(field)
    }

    /// Parses the latest row of a buoy report into a rated reading.
    /// Fixed whitespace columns follow the timestamp field: wind
    /// direction, wind speed, gust, wave height (`MM` when the sensor
    /// is missing), wave period, a skipped column, wave direction
    /// (falling back to the two earlier rows), another skipped column,
    /// air temperature, and water temperature. A missing water
    /// temperature is flagged so the caller can consult the fallback
    /// station; the reading's `water_temp` is then still empty.
    pub fn parse_data(
        lines: &Vec<Vec<u8>>,
        location: &crate::spot::Location,
        loaded_from_fallback: bool,
    ) -> (r: Result<(Realtime, bool), AppError>)
        ensures
            match r {
                Ok(t) => {
                    let rt = t.0;
                    let missing = t.1;
                    let lv = lines.deep_view();
                    &&& spec_report_ok(lv)
                    &&& rt.as_of@ == ascii_chars(
                        spec_display_bytes(spec_central(spec_as_of_civil(lv[2].take(16)))),
                    )
                    &&& rt.wind_direction == spec_u32_or_zero(spec_tok(lv, 0))
                    &&& rt.wind_speed@ == ascii_chars(
                        crate::units::spec_whole_bytes(
                            crate::units::spec_mps_to_mph_val(spec_tok(lv, 1)),
                        ),
                    )
                    &&& rt.gusts@ == ascii_chars(
                        crate::units::spec_whole_bytes(
                            crate::units::spec_mps_to_mph_val(spec_tok(lv, 2)),
                        ),
                    )
                    &&& (match rt.wave_height {
                        Some(s) => Realtime::spec_wave_height(spec_tok(lv, 3)) == Some(s@),
                        None => Realtime::spec_wave_height(spec_tok(lv, 3)) is None,
                    })
                    &&& rt.wave_period == spec_u8_opt(spec_tok(lv, 4))
                    &&& rt.wave_direction == spec_wave_direction(lv)
                    &&& rt.air_temp@ == spec_temp_string(spec_tok(lv, 8))
                    &&& missing == spec_water_missing(lv)
                    &&& (!missing ==> rt.water_temp@ == spec_temp_string(spec_tok(lv, 9)))
                    &&& (missing ==> rt.water_temp@.len() == 0)
                    &&& rt.quality_text@ == spec_report_quality(lv, *location).spec_text()
                    &&& rt.quality_color@ == spec_report_quality(lv, *location).spec_color()
                    &&& rt.loaded_from_fallback == loaded_from_fallback
                },
                Err(e) => {
                    &&& !spec_report_ok(lines.deep_view())
                    &&& e.kind == ErrorKind::MalformedPayload
                },
            },
    {
        let ghost lv = lines.deep_view();
        if lines.len() < 3 {
            return Err(AppError::malformed("missing report rows"));
        }
        let line = &lines[2];
        proof {
            assert(lv[2] == line@);
        }
        if line.len() < 16 {
            return Err(AppError::malformed("report row too short"));
        }
        let field = slice_subrange(line.as_slice(), 0, 16);
        proof {
            assert(field@ =~= lv[2].take(16));
        }
        let as_of_civil = match Realtime::parse_as_of(field) {
            Ok(c) => c,
            Err(e) => {
                return Err(e);
            },
        };
        let as_of = crate::time::format_display_time(&crate::time::to_central(&as_of_civil));
        let n = line.len();
        let meas = slice_subrange(line.as_slice(), 16, n);
        let toks = tokenize(meas);
        proof {
            assert(meas@ =~= lv[2].skip(16));
            assert(toks.deep_view() == spec_meas_tokens(lv));
        }
        if toks.len() < 9 {
            return Err(AppError::malformed("missing report columns"));
        }
        proof {
            assert(toks@[0]@ == spec_tok(lv, 0));
            assert(toks@[1]@ == spec_tok(lv, 1));
            assert(toks@[2]@ == spec_tok(lv, 2));
            assert(toks@[3]@ == spec_tok(lv, 3));
            assert(toks@[4]@ == spec_tok(lv, 4));
            assert(toks@[6]@ == spec_tok(lv, 6));
            assert(toks@[8]@ == spec_tok(lv, 8));
        }
        let wind_direction: u32 = match parse_u64(toks[0].as_slice()) {
            Some(v) => {
                if v <= 0xFFFF_FFFF {
                    v as u32
                } else {
                    0
                }
            },
            None => 0,
        };
        let wind_speed = crate::units::convert_meter_per_second_to_miles_per_hour(
            toks[1].as_slice(),
        );
        let gusts = crate::units::convert_meter_per_second_to_miles_per_hour(toks[2].as_slice());
        let wave_height = Realtime::parse_wave_height(toks[3].as_slice());
        let wave_period: Option<u8> = match parse_u64(toks[4].as_slice()) {
            Some(v) => {
                if v <= 255 {
                    Some(v as u8)
                } else {
                    None
                }
            },
            None => None,
        };
        let wd_primary: Option<u16> = match parse_u64(toks[6].as_slice()) {
            Some(v) => {
                if v <= 65535 - 180 {
                    Some((v + 180) as u16)
                } else {
                    None
                }
            },
            None => {
                proof {
                    if spec_tok(lv, 6).len() > 0 && all_digits(spec_tok(lv, 6)) {
                        crate::digits::lemma_digits_val_nonneg(spec_tok(lv, 6));
                    }
                }
                None
            },
        };
        let wave_direction = match wd_primary {
            Some(v) => Some(v),
            None => match Realtime::get_wave_direction(lines, 1) {
                Some(v) => Some(v),
                None => Realtime::get_wave_direction(lines, 2),
            },
        };
        let air_c: i64 = match crate::units::parse_decimal(toks[8].as_slice()) {
            Some(v) => v,
            None => 0,
        };
        let air_temp = crate::units::convert_celsius_to_fahrenheit(air_c);
        let (water_missing, water_temp): (bool, String) = if toks.len() <= 9 {
            (true, String::new())
        } else {
            let t9 = &toks[9];
            proof {
                assert(toks@[9]@ == spec_tok(lv, 9));
            }
            if t9.len() == 2 && t9[0] == ('M' as u8) && t9[1] == ('M' as u8) {
                proof {
                    assert(t9@ =~= seq![('M' as u8), ('M' as u8)]);
                }
                (true, String::new())
            } else {
                proof {
                    assert(t9@ != seq![('M' as u8), ('M' as u8)]) by {
                        if t9@ == seq![('M' as u8), ('M' as u8)] {
                            assert(t9@.len() == 2);
                            assert(t9@[0] == ('M' as u8));
                            assert(t9@[1] == ('M' as u8));
                        }
                    }
                }
                let c: i64 = match crate::units::parse_decimal(t9.as_slice()) {
                    Some(v) => v,
                    None => 0,
                };
                (false, crate::units::convert_celsius_to_fahrenheit(c))
            }
        };
        // the classifier reads the displayed values back
        let height_ticks: i64 = match crate::units::parse_decimal(toks[3].as_slice()) {
            Some(v) => {
                let feet = crate::units::convert_meter_to_feet(v);
                crate::units::round_half_even(feet, 10_000) * 10_000
            },
            None => 99_000_000,
        };
        let v1: i64 = match crate::units::parse_decimal(toks[1].as_slice()) {
            Some(v) => v,
            None => 0,
        };
        let mph = crate::units::round_half_even(v1 * 22369, 10_000_000_000);
        let speed_ticks: i64 = mph * 1_000_000;
        let dir_ticks: i64 = (wind_direction as i64) * 1_000_000;
        let q = location.get_quality(height_ticks, speed_ticks, dir_ticks);
        let reading = Realtime {
            as_of,
            wind_direction,
            wind_speed,
            gusts,
            water_temp,
            air_temp,
            quality_color: q.color().to_owned(),
            quality_text: q.text().to_owned(),
            wave_height,
            wave_period,
            wave_direction,
            loaded_from_fallback,
        };
        Ok((reading, water_missing))
    }
}

/// The water temperature of the fallback station's report, in Celsius
/// ticks: scanning from the first data row, the first row whose
/// fifteenth column reads as a decimal gives the value; a row without
/// that many columns, or the end of the report, reads as zero.
pub open spec fn spec_fallback_water(lines: Seq<Seq<u8>>, row: int) -> int
    decreases lines.len() - row,
{
    if row >= lines.len() {
        0
    } else {
        let toks = spec_tokens(lines[row]);
        if toks.len() < 15 {
            0
        } else {
            match crate::units::spec_decimal(toks[14]) {
                Some(v) => v,
                None => spec_fallback_water(lines, row + 1),
            }
        }
    }
}

/// Reads the water temperature out of the fallback station's report,
/// skipping rows until a numeric value parses, and renders it as a
/// whole Fahrenheit string.
pub fn fallback_water_temp(lines: &Vec<Vec<u8>>) -> (r: String)
    ensures
        r@ == ascii_chars(
            crate::units::spec_whole_bytes(
                crate::units::spec_c_to_f_val(spec_fallback_water(lines.deep_view(), 2)),
            ),
        ),
{
    let ghost lv = lines.deep_view();
    let mut row: usize = 2;
    while row < lines.len()
        invariant
            2 <= row,
            lv == lines.deep_view(),
            spec_fallback_water(lv, 2) == spec_fallback_water(lv, row as int),
        decreases lines@.len() - row,
    {
        let toks = tokenize(lines[row].as_slice());
        proof {
            assert(lv[row as int] == lines@[row as int]@);
            assert(toks.deep_view() == spec_tokens(lv[row as int]));
        }
        if toks.len() < 15 {
            proof {
                assert(spec_fallback_water(lv, row as int) == 0);
            }
            return crate::units::convert_celsius_to_fahrenheit(0);
        }
        proof {
            assert(toks@[14]@ == spec_tokens(lv[row as int])[14]);
        }
        match crate::units::parse_decimal(toks[14].as_slice()) {
            Some(v) => {
                proof {
                    assert(spec_fallback_water(lv, row as int) == v);
                }
                return crate::units::convert_celsius_to_fahrenheit(v);
            },
            None => {
                row = row + 1;
            },
        }
    }
    proof {
        assert(spec_fallback_water(lv, row as int) == 0);
    }
    crate::units::convert_celsius_to_fahrenheit(0)
}

} // verus!
