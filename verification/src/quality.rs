//! Surf-quality classification. A rating is one of five closed
//! variants, each carrying display text and a colour. Classification is
//! a pure function of wave height (feet), wind speed (miles per hour)
//! and wind direction (degrees), all fixed-point ticks, against the
//! directional sector table of the beach's shoreline orientation.

use vstd::prelude::*;

verus! {

/// One tick is a millionth of a physical unit.
pub const TICKS: i64 = 1_000_000;

/// Wave heights below this, in feet, read as flat surf.
pub const FLAT_THRESHOLD: i64 = 980_000;

/// Wind speeds below this, in miles per hour, leave any sector at its
/// best rating.
pub const CALM_WIND: i64 = 5_000_000;

/// The calibrated high-wind speed threshold, in miles per hour.
pub const HIGH_WIND: i64 = 25_000_000;

/// A surf-quality rating with its display text and colour.
#[derive(PartialEq, Eq, Structural, Clone, Copy, Debug)]
pub enum Quality {
    Good,
    FairToGood,
    Poor,
    VeryPoor,
    Flat,
}

impl Quality {
    /// The display text of the rating.
    pub open spec fn spec_text(self) -> Seq<char> {
        match self {
            Quality::Good => "Good"@,
            Quality::FairToGood => "Fair to Good"@,
            Quality::Poor => "Poor"@,
            Quality::VeryPoor => "Very Poor"@,
            Quality::Flat => "Flat"@,
        }
    }

    /// The display colour of the rating.
    pub open spec fn spec_color(self) -> Seq<char> {
        match self {
            Quality::Good => "#0bd674"@,
            Quality::FairToGood => "#ffcd1e"@,
            Quality::Poor => "#ff9500"@,
            Quality::VeryPoor => "#f4496d"@,
            Quality::Flat => "#a8a29e"@,
        }
    }

    pub fn text(&self) -> (r: &'static str)
        ensures
            r@ == self.spec_text(),
    {
        match self {
            Quality::Good => "Good",
            Quality::FairToGood => "Fair to Good",
            Quality::Poor => "Poor",
            Quality::VeryPoor => "Very Poor",
            Quality::Flat => "Flat",
        }
    }

    pub fn color(&self) -> (r: &'static str)
        ensures
            r@ == self.spec_color(),
    {
        match self {
            Quality::Good => "#0bd674",
            Quality::FairToGood => "#ffcd1e",
            Quality::Poor => "#ff9500",
            Quality::VeryPoor => "#f4496d",
            Quality::Flat => "#a8a29e",
        }
    }

    /// Flat surf short-circuits every other consideration.
    pub open spec fn spec_basic_wave_check(wave_height: int) -> Option<Quality> {
        if wave_height < FLAT_THRESHOLD {
            Some(Quality::Flat)
        } else {
            None
        }
    }

    pub fn basic_wave_check(wave_height: i64) -> (r: Option<Quality>)
        ensures
            r == Quality::spec_basic_wave_check(wave_height as int),
    {
        if wave_height < FLAT_THRESHOLD {
            Some(Quality::Flat)
        } else {
            None
        }
    }

    /// The sector table of a north-facing shoreline, in branch order:
    /// flat surf, calm wind, the offshore band, then each directional
    /// band split at the high-wind threshold.
    pub open spec fn spec_north(wave_height: int, wind_speed: int, wind_direction: int) -> Quality {
        if wave_height < FLAT_THRESHOLD {
            Quality::Flat
        } else if wind_speed < CALM_WIND {
            Quality::Good
        } else if 300 * TICKS <= wind_direction < 340 * TICKS {
            // essentially offshore
            Quality::Good
        } else if (0 <= wind_direction < 70 * TICKS) || (270 * TICKS <= wind_direction < 360
            * TICKS) {
            if wind_speed <= HIGH_WIND {
                Quality::Good
            } else {
                Quality::FairToGood
            }
        } else if (70 * TICKS <= wind_direction < 120 * TICKS) || (230 * TICKS <= wind_direction
            < 270 * TICKS) {
            if wind_speed <= HIGH_WIND {
                Quality::FairToGood
            } else {
                Quality::Poor
            }
        } else if 120 * TICKS <= wind_direction < 230 * TICKS {
            if wind_speed <= HIGH_WIND {
                Quality::Poor
            } else {
                Quality::VeryPoor
            }
        } else {
            Quality::Poor
        }
    }

    /// Rates conditions on a north-facing shoreline.
    pub fn north(wave_height: i64, wind_speed: i64, wind_direction: i64) -> (r: Quality)
        ensures
            r == Quality::spec_north(wave_height as int, wind_speed as int, wind_direction as int),
    {
        if wave_height < FLAT_THRESHOLD {
            return Quality::Flat;
        }
        if wind_speed < CALM_WIND {
            return Quality::Good;
        }
        if 300 * TICKS <= wind_direction && wind_direction < 340 * TICKS {
            return Quality::Good;
        }
        if (0 <= wind_direction && wind_direction < 70 * TICKS) || (270 * TICKS <= wind_direction
            && wind_direction < 360 * TICKS) {
            if wind_speed <= HIGH_WIND {
                return Quality::Good;
            }
            return Quality::FairToGood;
        }
        if (70 * TICKS <= wind_direction && wind_direction < 120 * TICKS) || (230 * TICKS
            <= wind_direction && wind_direction < 270 * TICKS) {
            if wind_speed <= HIGH_WIND {
                return Quality::FairToGood;
            }
            return Quality::Poor;
        }
        if 120 * TICKS <= wind_direction && wind_direction < 230 * TICKS {
            if wind_speed <= HIGH_WIND {
                return Quality::Poor;
            }
            return Quality::VeryPoor;
        }
        Quality::Poor
    }

    /// The sector table of a south-facing shoreline, in branch order.
    /// Winds from 330 degrees and beyond rate poor, or very poor past
    /// the high-wind threshold.
    pub open spec fn spec_south(wave_height: int, wind_speed: int, wind_direction: int) -> Quality {
        if wave_height < FLAT_THRESHOLD {
            Quality::Flat
        } else if wind_speed < CALM_WIND {
            Quality::Good
        } else if 240 * TICKS <= wind_direction < 310 * TICKS {
            // essentially offshore
            Quality::Good
        } else if 120 * TICKS <= wind_direction < 330 * TICKS {
            if wind_speed <= HIGH_WIND {
                Quality::Good
            } else {
                Quality::FairToGood
            }
        } else if wind_direction >= 330 * TICKS {
            if wind_speed <= HIGH_WIND {
                Quality::Poor
            } else {
                Quality::VeryPoor
            }
        } else if 80 * TICKS <= wind_direction < 120 * TICKS {
            if wind_speed <= HIGH_WIND {
                Quality::FairToGood
            } else {
                Quality::Poor
            }
        } else if 0 <= wind_direction < 80 * TICKS {
            if wind_speed <= HIGH_WIND {
                Quality::Poor
            } else {
                Quality::VeryPoor
            }
        } else {
            Quality::Poor
        }
    }

    /// Rates conditions on a south-facing shoreline.
    pub fn south(wave_height: i64, wind_speed: i64, wind_direction: i64) -> (r: Quality)
        ensures
            r == Quality::spec_south(wave_height as int, wind_speed as int, wind_direction as int),
    {
        if wave_height < FLAT_THRESHOLD {
            return Quality::Flat;
        }
        if wind_speed < CALM_WIND {
            return Quality::Good;
        }
        if 240 * TICKS <= wind_direction && wind_direction < 310 * TICKS {
            return Quality::Good;
        }
        if 120 * TICKS <= wind_direction && wind_direction < 330 * TICKS {
            if wind_speed <= HIGH_WIND {
                return Quality::Good;
            }
            return Quality::FairToGood;
        }
        if wind_direction >= 330 * TICKS {
            if wind_speed <= HIGH_WIND {
                return Quality::Poor;
            }
            return Quality::VeryPoor;
        }
        if 80 * TICKS <= wind_direction && wind_direction < 120 * TICKS {
            if wind_speed <= HIGH_WIND {
                return Quality::FairToGood;
            }
            return Quality::Poor;
        }
        if 0 <= wind_direction && wind_direction < 80 * TICKS {
            if wind_speed <= HIGH_WIND {
                return Quality::Poor;
            }
            return Quality::VeryPoor;
        }
        Quality::Poor
    }

    /// How good a rating is, best first; flat surf sits apart at the
    /// bottom, reached only through the wave-height check.
    pub open spec fn spec_rank(self) -> int {
        match self {
            Quality::Good => 4,
            Quality::FairToGood => 3,
            Quality::Poor => 2,
            Quality::VeryPoor => 1,
            Quality::Flat => 0,
        }
    }
}

/// Raising the wind speed, with everything else fixed, never improves a
/// north-shore rating: in particular, crossing the high-wind threshold
/// within one directional sector can only hold or lower it.
pub proof fn lemma_north_speed_monotone(
    wave_height: int,
    wind_direction: int,
    s1: int,
    s2: int,
)
    requires
        s1 <= s2,
    ensures
        Quality::spec_north(wave_height, s2, wind_direction).spec_rank()
            <= Quality::spec_north(wave_height, s1, wind_direction).spec_rank(),
{
}

/// Raising the wind speed, with everything else fixed, never improves a
/// south-shore rating: in particular, crossing the high-wind threshold
/// within one directional sector can only hold or lower it.
pub proof fn lemma_south_speed_monotone(
    wave_height: int,
    wind_direction: int,
    s1: int,
    s2: int,
)
    requires
        s1 <= s2,
    ensures
        Quality::spec_south(wave_height, s2, wind_direction).spec_rank()
            <= Quality::spec_south(wave_height, s1, wind_direction).spec_rank(),
{
}

/// Any wave height below the flat threshold reads as flat surf on
/// either shoreline, whatever the wind.
pub proof fn lemma_flat_overrides_wind(wave_height: int, wind_speed: int, wind_direction: int)
    requires
        wave_height < FLAT_THRESHOLD,
    ensures
        Quality::spec_north(wave_height, wind_speed, wind_direction) == Quality::Flat,
        Quality::spec_south(wave_height, wind_speed, wind_direction) == Quality::Flat,
{
}

} // verus!
