//! Position-provider data: aircraft state vectors.
//!
//! The provider sends each state as a fixed-order array; the decoding
//! into this struct happens outside the library, which receives the
//! numeric fields as fixed-point micro-units (one millionth of a meter,
//! of a degree, or of a meter per second).

use vstd::prelude::*;

verus! {

/// Magnitude bound on the micro-unit telemetry fields, generous enough
/// for any physical value; it keeps the merge arithmetic within `i64`.
pub const MAX_RAW_MICRO: i64 = 500_000_000_000;

/// A numeric telemetry field is absent or within the magnitude bound.
pub open spec fn opt_bounded(v: Option<i64>) -> bool {
    match v {
        Some(x) => -MAX_RAW_MICRO <= x <= MAX_RAW_MICRO,
        None => true,
    }
}

/// Response from the position provider's state endpoint.
#[derive(Debug)]
pub struct OpenSkyResponse {
    /// Unix timestamp of the response.
    pub time: i64,
    /// List of aircraft state vectors.
    pub states: Option<Vec<StateVector>>,
}

/// Aircraft state vector from live telemetry.
///
/// `longitude`, `latitude` and `true_track` are micro-degrees,
/// `baro_altitude` and `geo_altitude` micro-meters, `velocity` and
/// `vertical_rate` micro-meters-per-second.
#[derive(Debug, Clone)]
pub struct StateVector {
    /// Transponder address (hex).
    pub icao24: String,
    /// Callsign of the aircraft, already trimmed.
    pub callsign: Option<String>,
    /// Country of aircraft registration.
    pub origin_country: String,
    /// Unix timestamp of the last position update.
    pub time_position: Option<i64>,
    /// Unix timestamp of the last contact.
    pub last_contact: i64,
    pub longitude: Option<i64>,
    pub latitude: Option<i64>,
    pub baro_altitude: Option<i64>,
    /// Whether the aircraft is on the ground.
    pub on_ground: bool,
    pub velocity: Option<i64>,
    pub true_track: Option<i64>,
    pub vertical_rate: Option<i64>,
    pub geo_altitude: Option<i64>,
    /// Transponder squawk code.
    pub squawk: Option<String>,
}

impl StateVector {
    /// The fields that feed unit conversions are within bounds.
    pub open spec fn bounded(&self) -> bool {
        opt_bounded(self.baro_altitude) && opt_bounded(self.velocity) && opt_bounded(
            self.vertical_rate,
        )
    }
}

/// The state a transponder lookup yields: the first element of the
/// response's state list.
pub open spec fn spec_first_state(resp: OpenSkyResponse) -> Option<StateVector> {
    match resp.states {
        Some(v) => if v@.len() > 0 {
            Some(v@[0])
        } else {
            None
        },
        None => None,
    }
}

/// Picks the state vector a single-aircraft response carries, if any.
pub fn first_state(resp: OpenSkyResponse) -> (r: Option<StateVector>)
    ensures
        r == spec_first_state(resp),
{
    match resp.states {
        Some(mut v) => {
            if v.len() > 0 {
                Some(v.remove(0))
            } else {
                None
            }
        },
        None => None,
    }
}

} // verus!
