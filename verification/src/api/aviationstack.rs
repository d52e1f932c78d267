//! Schedule-provider data: route, departure/arrival times and delays.
//!
//! The provider answers with a `data` array of flight objects; only the
//! first one matters to the tracker.  Fetching, JSON decoding and the
//! persistent cache's file live outside the library; the library holds
//! the decoded values and picks the record to use.

use vstd::prelude::*;

verus! {

/// A provider response: an optional array of flight records.
#[derive(Debug)]
pub struct AviationStackResponse {
    pub data: Option<Vec<FlightData>>,
}

/// One flight as the schedule provider describes it.
#[derive(Debug, Clone)]
pub struct FlightData {
    pub flight_status: Option<String>,
    pub departure: Option<AirportInfo>,
    pub arrival: Option<AirportInfo>,
    pub airline: Option<AirlineInfo>,
    pub flight: Option<FlightInfo>,
    pub aircraft: Option<AircraftInfo>,
}

/// Airport information including schedule times, all optional.
#[derive(Debug, Clone)]
pub struct AirportInfo {
    pub airport: Option<String>,
    pub iata: Option<String>,
    pub icao: Option<String>,
    pub scheduled: Option<String>,
    pub estimated: Option<String>,
    pub actual: Option<String>,
    pub delay: Option<i32>,
}

/// Airline information.
#[derive(Debug, Clone)]
pub struct AirlineInfo {
    pub name: Option<String>,
    pub iata: Option<String>,
}

/// Flight-number information.
#[derive(Debug, Clone)]
pub struct FlightInfo {
    pub iata: Option<String>,
    pub icao: Option<String>,
    pub number: Option<String>,
}

/// Aircraft information.
#[derive(Debug, Clone)]
pub struct AircraftInfo {
    pub registration: Option<String>,
    pub iata: Option<String>,
    pub icao: Option<String>,
}

/// The record a response yields: the first element of its `data` array.
pub open spec fn spec_first_flight(resp: AviationStackResponse) -> Option<FlightData> {
    match resp.data {
        Some(d) => if d@.len() > 0 {
            Some(d@[0])
        } else {
            None
        },
        None => None,
    }
}

/// Picks the flight record a schedule response carries, if any.
pub fn first_flight(resp: AviationStackResponse) -> (r: Option<FlightData>)
    ensures
        r == spec_first_flight(resp),
{
    match resp.data {
        Some(mut d) => {
            if d.len() > 0 {
                Some(d.remove(0))
            } else {
                None
            }
        },
        None => None,
    }
}

} // verus!
