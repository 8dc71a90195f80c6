//! The spot registry: a closed set of beach locations, each with its
//! gridded-forecast path, buoy report path, optional fallback buoy,
//! water-quality query identifiers, shoreline orientation and display
//! name. The table is constant for the life of the process.

use vstd::prelude::*;

use crate::quality::Quality;
use vstd::string::StringExecFns;

verus! {

/// The closed set of beach locations.
#[derive(PartialEq, Eq, Structural, Clone, Copy, Debug)]
pub enum Location {
    Atwater,
    Bradford,
    Sheboygan,
    SheboyganSouth,
    PortWashington,
    Racine,
}

/// A requested spot; an absent or unknown name falls back to the home
/// spot.
#[derive(Debug)]
pub struct SpotParam {
    pub spot: Option<Location>,
}

impl SpotParam {
    /// Takes the selected location out of the request, falling back to
    /// Atwater.
    pub fn get_spot(&mut self) -> (r: Location)
        ensures
            final(self).spot is None,
            r == match old(self).spot {
                Some(l) => l,
                None => Location::Atwater,
            },
    {
        let r = match self.spot {
            Some(l) => l,
            None => Location::Atwater,
        };
        self.spot = None;
        r
    }
}

/// The static record of one beach location.
pub struct Spot {
    pub forecast_path: &'static str,
    pub realtime_path: &'static str,
    pub quality_id: &'static str,
    pub fallback_realtime_path: Option<&'static str>,
    pub location: Location,
    pub live_feed_url: Option<&'static str>,
    pub name: &'static str,
    pub has_bouy: bool,
}

/// The water-quality map query for a station identifier.
pub fn get_status_query(id: &str) -> (r: String)
    ensures
        r@ == "?f=json&objectIds="@ + id@ + "&outFields=MAP_STATUS"@,
{
    let mut r = String::new();
    r.append("?f=json&objectIds=");
    r.append(id);
    r.append("&outFields=MAP_STATUS");
    proof {
        assert(r@ =~= "?f=json&objectIds="@ + id@ + "&outFields=MAP_STATUS"@);
    }
    r
}

/// The water-quality detail query for a station identifier.
pub fn get_quality_query(id: &str) -> (r: String)
    ensures
        r@ == "?f=json&objectIds="@ + id@
            + "&outFields=ECOLIPRONAME%2CECOLIVALUE%2CISSUED%2COGW_BEACH_NAME_TEXT%2CSAMPLEDATE%2CSTATIONNAME%2CSTATUS%2CWATERTEMP%2COBJECTID"@,
{
    let mut r = String::new();
    r.append("?f=json&objectIds=");
    r.append(id);
    r.append(
        "&outFields=ECOLIPRONAME%2CECOLIVALUE%2CISSUED%2COGW_BEACH_NAME_TEXT%2CSAMPLEDATE%2CSTATIONNAME%2CSTATUS%2CWATERTEMP%2COBJECTID",
    );
    proof {
        assert(r@ =~= "?f=json&objectIds="@ + id@
            + "&outFields=ECOLIPRONAME%2CECOLIVALUE%2CISSUED%2COGW_BEACH_NAME_TEXT%2CSAMPLEDATE%2CSTATIONNAME%2CSTATUS%2CWATERTEMP%2COBJECTID"@);
    }
    r
}

impl Spot {
    /// The registry row of each location, field for field.
    pub open spec fn spec_row_ok(s: Spot, loc: Location) -> bool {
        &&& s.location == loc
        &&& match loc {
            Location::Atwater => {
                &&& s.forecast_path@ == "/gridpoints/MKX/90,67"@
                &&& s.realtime_path@ == "/data/realtime2/45013.txt"@
                &&& s.quality_id@ == "171"@
                &&& s.fallback_realtime_path matches Some(p) && p@
                    == "/data/realtime2/MLWW3.txt"@
                &&& s.live_feed_url is None
                &&& s.name@ == "Atwater"@
                &&& s.has_bouy == true
            },
            Location::Bradford => {
                &&& s.forecast_path@ == "/gridpoints/MKX/90,66"@
                &&& s.realtime_path@ == "/data/realtime2/MLWW3.txt"@
                &&& s.quality_id@ == "192"@
                &&& s.fallback_realtime_path is None
                &&& s.live_feed_url is None
                &&& s.name@ == "Bradford"@
                &&& s.has_bouy == false
            },
            Location::Sheboygan => {
                &&& s.forecast_path@ == "/gridpoints/MKX/94,99"@
                &&& s.realtime_path@ == "/data/realtime2/45218.txt"@
                &&& s.quality_id@ == "170"@
                &&& s.fallback_realtime_path matches Some(p) && p@
                    == "/data/realtime2/SGNW3.txt"@
                &&& s.live_feed_url matches Some(u) && u@
                    == "https://www.youtube-nocookie.com/embed/p780CkCgNVE?si=qBa_a4twCnOprcG1&amp;controls=0"@
                &&& s.name@ == "Sheboygan - North"@
                &&& s.has_bouy == true
            },
            Location::SheboyganSouth => {
                &&& s.forecast_path@ == "/gridpoints/MKX/94,98"@
                &&& s.realtime_path@ == "/data/realtime2/45218.txt"@
                &&& s.quality_id@ == "382"@
                &&& s.fallback_realtime_path matches Some(p) && p@
                    == "/data/realtime2/SGNW3.txt"@
                &&& s.live_feed_url matches Some(u) && u@
                    == "https://www.youtube.com/embed/M0Ion4MpsgU?si=yCi2OVy3RIbY_5kC&amp;controls=0"@
                &&& s.name@ == "Sheboygan - South"@
                &&& s.has_bouy == true
            },
            Location::PortWashington => {
                &&& s.forecast_path@ == "/gridpoints/MKX/91,80"@
                &&& s.realtime_path@ == "/data/realtime2/PWAW3.txt"@
                &&& s.quality_id@ == "100"@
                &&& s.fallback_realtime_path is None
                &&& s.live_feed_url is None
                &&& s.name@ == "Port Washington"@
                &&& s.has_bouy == false
            },
            Location::Racine => {
                &&& s.forecast_path@ == "/gridpoints/MKX/94,52"@
                &&& s.realtime_path@ == "/data/realtime2/45199.txt"@
                &&& s.quality_id@ == "204"@
                &&& s.fallback_realtime_path matches Some(p) && p@
                    == "/data/realtime2/KNSW3.txt"@
                &&& s.live_feed_url is None
                &&& s.name@ == "Racine"@
                &&& s.has_bouy == true
            },
        }
    }

    /// Looks the requested spot up in the registry.
    pub fn from(param: SpotParam) -> (s: Spot)
        ensures
            Spot::spec_row_ok(
                s,
                match param.spot {
                    Some(l) => l,
                    None => Location::Atwater,
                },
            ),
    {
        let mut param = param;
        let loc = param.get_spot();
        match loc {
            Location::Bradford => Spot {
                forecast_path: "/gridpoints/MKX/90,66",
                realtime_path: "/data/realtime2/MLWW3.txt",
                quality_id: "192",
                fallback_realtime_path: None,
                location: Location::Bradford,
                live_feed_url: None,
                name: "Bradford",
                has_bouy: false,
            },
            Location::PortWashington => Spot {
                forecast_path: "/gridpoints/MKX/91,80",
                realtime_path: "/data/realtime2/PWAW3.txt",
                quality_id: "100",
                fallback_realtime_path: None,
                location: Location::PortWashington,
                live_feed_url: None,
                name: "Port Washington",
                has_bouy: false,
            },
            Location::Sheboygan => Spot {
                forecast_path: "/gridpoints/MKX/94,99",
                realtime_path: "/data/realtime2/45218.txt",
                quality_id: "170",
                fallback_realtime_path: Some("/data/realtime2/SGNW3.txt"),
                location: Location::Sheboygan,
                live_feed_url: Some(
                    "https://www.youtube-nocookie.com/embed/p780CkCgNVE?si=qBa_a4twCnOprcG1&amp;controls=0",
                ),
                name: "Sheboygan - North",
                has_bouy: true,
            },
            Location::SheboyganSouth => Spot {
                forecast_path: "/gridpoints/MKX/94,98",
                realtime_path: "/data/realtime2/45218.txt",
                quality_id: "382",
                fallback_realtime_path: Some("/data/realtime2/SGNW3.txt"),
                location: Location::SheboyganSouth,
                live_feed_url: Some(
                    "https://www.youtube.com/embed/M0Ion4MpsgU?si=yCi2OVy3RIbY_5kC&amp;controls=0",
                ),
                name: "Sheboygan - South",
                has_bouy: true,
            },
            Location::Racine => Spot {
                forecast_path: "/gridpoints/MKX/94,52",
                realtime_path: "/data/realtime2/45199.txt",
                quality_id: "204",
                fallback_realtime_path: Some("/data/realtime2/KNSW3.txt"),
                location: Location::Racine,
                live_feed_url: None,
                name: "Racine",
                has_bouy: true,
            },
            Location::Atwater => Spot {
                forecast_path: "/gridpoints/MKX/90,67",
                realtime_path: "/data/realtime2/45013.txt",
                quality_id: "171",
                fallback_realtime_path: Some("/data/realtime2/MLWW3.txt"),
                location: Location::Atwater,
                live_feed_url: None,
                name: "Atwater",
                has_bouy: true,
            },
        }
    }

    /// The water-quality detail query of this spot.
    pub fn quality_query(&self) -> (r: String)
        ensures
            r@ == "?f=json&objectIds="@ + self.quality_id@
                + "&outFields=ECOLIPRONAME%2CECOLIVALUE%2CISSUED%2COGW_BEACH_NAME_TEXT%2CSAMPLEDATE%2CSTATIONNAME%2CSTATUS%2CWATERTEMP%2COBJECTID"@,
    {
        get_quality_query(self.quality_id)
    }

    /// The water-quality status query of this spot.
    pub fn status_query(&self) -> (r: String)
        ensures
            r@ == "?f=json&objectIds="@ + self.quality_id@ + "&outFields=MAP_STATUS"@,
    {
        get_status_query(self.quality_id)
    }
}

impl Location {
    /// Every location, in registry order.
    pub fn get_all() -> (r: Vec<Location>)
        ensures
            r@ == seq![
                Location::Atwater,
                Location::Bradford,
                Location::Sheboygan,
                Location::SheboyganSouth,
                Location::PortWashington,
                Location::Racine,
            ],
    {
        let mut v: Vec<Location> = Vec::new();
        v.push(Location::Atwater);
        v.push(Location::Bradford);
        v.push(Location::Sheboygan);
        v.push(Location::SheboyganSouth);
        v.push(Location::PortWashington);
        v.push(Location::Racine);
        proof {
            assert(v@ =~= seq![
                Location::Atwater,
                Location::Bradford,
                Location::Sheboygan,
                Location::SheboyganSouth,
                Location::PortWashington,
                Location::Racine,
            ]);
        }
        v
    }

    /// Which shoreline orientation's sector table rates this location.
    pub open spec fn spec_is_south_shore(self) -> bool {
        self == Location::Atwater || self == Location::Bradford || self == Location::Sheboygan
    }

    /// The rating of these conditions at this location.
    pub open spec fn spec_get_quality(
        self,
        wave_height: int,
        wind_speed: int,
        wind_direction: int,
    ) -> Quality {
        if self.spec_is_south_shore() {
            Quality::spec_south(wave_height, wind_speed, wind_direction)
        } else {
            Quality::spec_north(wave_height, wind_speed, wind_direction)
        }
    }

    /// Rates conditions with the sector table of this location's
    /// shoreline orientation.
    pub fn get_quality(&self, wave_height: i64, wind_speed: i64, wind_direction: i64) -> (r:
        Quality)
        ensures
            r == self.spec_get_quality(
                wave_height as int,
                wind_speed as int,
                wind_direction as int,
            ),
    {
        match self {
            Location::Atwater | Location::Bradford | Location::Sheboygan => Quality::south(
                wave_height,
                wind_speed,
                wind_direction,
            ),
            Location::PortWashington | Location::Racine | Location::SheboyganSouth => Quality::north(
                wave_height,
                wind_speed,
                wind_direction,
            ),
        }
    }
}

} // verus!
