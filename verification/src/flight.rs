//! The per-flight record and its status state machine.
//!
//! Numeric telemetry is held in fixed-point micro-units (one millionth of
//! the displayed unit), so a latitude of 37.7749 degrees is stored as
//! `37_774_900`.  This keeps the merge arithmetic exact and checkable.

use vstd::prelude::*;
use vstd::string::*;

use crate::text::{spec_to_lower, str_eq, to_lower};

verus! {

/// Closed set of flight states; transitions are last-write-wins by data
/// source, with live telemetry overriding schedule metadata.
#[derive(Debug, Clone, Copy, PartialEq, Eq, Structural)]
pub enum FlightStatus {
    Unknown,
    Scheduled,
    EnRoute,
    Landed,
    OnGround,
    Delayed,
    Cancelled,
    NotFound,
}

impl Default for FlightStatus {
    fn default() -> (r: Self)
        ensures
            r == FlightStatus::Unknown,
    {
        FlightStatus::Unknown
    }
}

/// The provider's status string, lower-cased, decides the variant;
/// anything unmapped resolves to `Unknown`.
pub open spec fn spec_status_from(s: Seq<char>) -> FlightStatus {
    let l = spec_to_lower(s);
    if l == "scheduled"@ {
        FlightStatus::Scheduled
    } else if l == "active"@ || l == "en-route"@ {
        FlightStatus::EnRoute
    } else if l == "landed"@ {
        FlightStatus::Landed
    } else if l == "delayed"@ {
        FlightStatus::Delayed
    } else if l == "cancelled"@ {
        FlightStatus::Cancelled
    } else {
        FlightStatus::Unknown
    }
}

pub open spec fn spec_status_name(s: FlightStatus) -> Seq<char> {
    match s {
        FlightStatus::Unknown => "Unknown"@,
        FlightStatus::Scheduled => "Scheduled"@,
        FlightStatus::EnRoute => "En Route"@,
        FlightStatus::Landed => "Landed"@,
        FlightStatus::OnGround => "On Ground"@,
        FlightStatus::Delayed => "Delayed"@,
        FlightStatus::Cancelled => "Cancelled"@,
        FlightStatus::NotFound => "Not Found"@,
    }
}

impl FlightStatus {
    /// Case-insensitive mapping from a provider status string.
    pub fn from_api_status(status: &str) -> (r: Self)
        ensures
            r == spec_status_from(status@),
    {
        let l = to_lower(status);
        if str_eq(l.as_str(), "scheduled") {
            FlightStatus::Scheduled
        } else if str_eq(l.as_str(), "active") || str_eq(l.as_str(), "en-route") {
            FlightStatus::EnRoute
        } else if str_eq(l.as_str(), "landed") {
            FlightStatus::Landed
        } else if str_eq(l.as_str(), "delayed") {
            FlightStatus::Delayed
        } else if str_eq(l.as_str(), "cancelled") {
            FlightStatus::Cancelled
        } else {
            FlightStatus::Unknown
        }
    }

    /// Human-readable name of the status.
    pub fn display_name(&self) -> (r: String)
        ensures
            r@ == spec_status_name(*self),
    {
        match self {
            FlightStatus::Unknown => String::from_str("Unknown"),
            FlightStatus::Scheduled => String::from_str("Scheduled"),
            FlightStatus::EnRoute => String::from_str("En Route"),
            FlightStatus::Landed => String::from_str("Landed"),
            FlightStatus::OnGround => String::from_str("On Ground"),
            FlightStatus::Delayed => String::from_str("Delayed"),
            FlightStatus::Cancelled => String::from_str("Cancelled"),
            FlightStatus::NotFound => String::from_str("Not Found"),
        }
    }
}

/// An airport as the schedule feed describes it; every part is optional.
#[derive(Debug, Clone)]
pub struct Airport {
    pub name: Option<String>,
    pub iata: Option<String>,
    pub icao: Option<String>,
}

/// Mathematical value of an `Airport`.
pub struct AirportView {
    pub name: Option<Seq<char>>,
    pub iata: Option<Seq<char>>,
    pub icao: Option<Seq<char>>,
}

impl View for Airport {
    type V = AirportView;

    open spec fn view(&self) -> AirportView {
        AirportView {
            name: self.name.deep_view(),
            iata: self.iata.deep_view(),
            icao: self.icao.deep_view(),
        }
    }
}

impl Default for Airport {
    fn default() -> (r: Self)
        ensures
            r.name is None,
            r.iata is None,
            r.icao is None,
    {
        Airport { name: None, iata: None, icao: None }
    }
}

/// One tracked flight: identity, status, live telemetry and schedule data.
///
/// Telemetry fields hold micro-units: micro-degrees for latitude,
/// longitude and heading, micro-feet for altitude, micro-feet-per-minute
/// for the vertical rate, micro-knots for ground speed.  `last_updated`
/// is a Unix timestamp in seconds.
#[derive(Debug, Clone)]
pub struct Flight {
    pub flight_number: String,
    pub callsign: String,
    pub icao24: String,

    pub status: FlightStatus,

    pub latitude: Option<i64>,
    pub longitude: Option<i64>,
    pub altitude_ft: Option<i64>,
    pub heading: Option<i64>,
    pub vertical_rate: Option<i64>,
    pub ground_speed_kts: Option<i64>,
    pub on_ground: bool,
    pub squawk: Option<String>,

    pub airline: Option<String>,
    pub aircraft_type: Option<String>,
    pub registration: Option<String>,

    pub origin: Option<Airport>,
    pub destination: Option<Airport>,

    pub departure_scheduled: Option<String>,
    pub departure_estimated: Option<String>,
    pub departure_actual: Option<String>,
    pub departure_delay: Option<i32>,

    pub arrival_scheduled: Option<String>,
    pub arrival_estimated: Option<String>,
    pub arrival_actual: Option<String>,
    pub arrival_delay: Option<i32>,

    pub last_updated: Option<u64>,
}

/// Mathematical value of a `Flight`.
pub struct FlightView {
    pub flight_number: Seq<char>,
    pub callsign: Seq<char>,
    pub icao24: Seq<char>,
    pub status: FlightStatus,
    pub latitude: Option<i64>,
    pub longitude: Option<i64>,
    pub altitude_ft: Option<i64>,
    pub heading: Option<i64>,
    pub vertical_rate: Option<i64>,
    pub ground_speed_kts: Option<i64>,
    pub on_ground: bool,
    pub squawk: Option<Seq<char>>,
    pub airline: Option<Seq<char>>,
    pub aircraft_type: Option<Seq<char>>,
    pub registration: Option<Seq<char>>,
    pub origin: Option<AirportView>,
    pub destination: Option<AirportView>,
    pub departure_scheduled: Option<Seq<char>>,
    pub departure_estimated: Option<Seq<char>>,
    pub departure_actual: Option<Seq<char>>,
    pub departure_delay: Option<i32>,
    pub arrival_scheduled: Option<Seq<char>>,
    pub arrival_estimated: Option<Seq<char>>,
    pub arrival_actual: Option<Seq<char>>,
    pub arrival_delay: Option<i32>,
    pub last_updated: Option<u64>,
}

impl View for Flight {
    type V = FlightView;

    open spec fn view(&self) -> FlightView {
        FlightView {
            flight_number: self.flight_number@,
            callsign: self.callsign@,
            icao24: self.icao24@,
            status: self.status,
            latitude: self.latitude,
            longitude: self.longitude,
            altitude_ft: self.altitude_ft,
            heading: self.heading,
            vertical_rate: self.vertical_rate,
            ground_speed_kts: self.ground_speed_kts,
            on_ground: self.on_ground,
            squawk: self.squawk.deep_view(),
            airline: self.airline.deep_view(),
            aircraft_type: self.aircraft_type.deep_view(),
            registration: self.registration.deep_view(),
            origin: match self.origin {
                Some(a) => Some(a@),
                None => None,
            },
            destination: match self.destination {
                Some(a) => Some(a@),
                None => None,
            },
            departure_scheduled: self.departure_scheduled.deep_view(),
            departure_estimated: self.departure_estimated.deep_view(),
            departure_actual: self.departure_actual.deep_view(),
            departure_delay: self.departure_delay,
            arrival_scheduled: self.arrival_scheduled.deep_view(),
            arrival_estimated: self.arrival_estimated.deep_view(),
            arrival_actual: self.arrival_actual.deep_view(),
            arrival_delay: self.arrival_delay,
            last_updated: self.last_updated,
        }
    }
}

/// A record as it is first created for a flight the user asked to track:
/// empty but for the identifier, a `NotFound` status to be overwritten by
/// whatever data arrives, and the creation timestamp.
pub open spec fn spec_base_record(flight_number: Seq<char>, t: u64) -> FlightView {
    FlightView {
        flight_number: flight_number,
        callsign: Seq::<char>::empty(),
        icao24: Seq::<char>::empty(),
        status: FlightStatus::NotFound,
        latitude: None,
        longitude: None,
        altitude_ft: None,
        heading: None,
        vertical_rate: None,
        ground_speed_kts: None,
        on_ground: false,
        squawk: None,
        airline: None,
        aircraft_type: None,
        registration: None,
        origin: None,
        destination: None,
        departure_scheduled: None,
        departure_estimated: None,
        departure_actual: None,
        departure_delay: None,
        arrival_scheduled: None,
        arrival_estimated: None,
        arrival_actual: None,
        arrival_delay: None,
        last_updated: Some(t),
    }
}

impl Default for Flight {
    fn default() -> (r: Self)
        ensures
            r.flight_number@ == Seq::<char>::empty(),
            r.callsign@ == Seq::<char>::empty(),
            r.icao24@ == Seq::<char>::empty(),
            r.status == FlightStatus::Unknown,
            r.latitude is None,
            r.longitude is None,
            r.altitude_ft is None,
            r.heading is None,
            r.vertical_rate is None,
            r.ground_speed_kts is None,
            !r.on_ground,
            r.squawk is None,
            r.airline is None,
            r.aircraft_type is None,
            r.registration is None,
            r.origin is None,
            r.destination is None,
            r.departure_scheduled is None,
            r.departure_estimated is None,
            r.departure_actual is None,
            r.departure_delay is None,
            r.arrival_scheduled is None,
            r.arrival_estimated is None,
            r.arrival_actual is None,
            r.arrival_delay is None,
            r.last_updated is None,
    {
        Flight {
            flight_number: String::new(),
            callsign: String::new(),
            icao24: String::new(),
            status: FlightStatus::Unknown,
            latitude: None,
            longitude: None,
            altitude_ft: None,
            heading: None,
            vertical_rate: None,
            ground_speed_kts: None,
            on_ground: false,
            squawk: None,
            airline: None,
            aircraft_type: None,
            registration: None,
            origin: None,
            destination: None,
            departure_scheduled: None,
            departure_estimated: None,
            departure_actual: None,
            departure_delay: None,
            arrival_scheduled: None,
            arrival_estimated: None,
            arrival_actual: None,
            arrival_delay: None,
            last_updated: None,
        }
    }
}

} // verus!
