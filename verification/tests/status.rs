//! Flight records and the status state machine.

use flight_tracker_tui::flight::{Airport, Flight, FlightStatus};

#[test]
fn test_flight_status_from_api_status() {
    assert_eq!(FlightStatus::from_api_status("scheduled"), FlightStatus::Scheduled);
    assert_eq!(FlightStatus::from_api_status("SCHEDULED"), FlightStatus::Scheduled);
    assert_eq!(FlightStatus::from_api_status("active"), FlightStatus::EnRoute);
    assert_eq!(FlightStatus::from_api_status("en-route"), FlightStatus::EnRoute);
    assert_eq!(FlightStatus::from_api_status("landed"), FlightStatus::Landed);
    assert_eq!(FlightStatus::from_api_status("delayed"), FlightStatus::Delayed);
    assert_eq!(FlightStatus::from_api_status("cancelled"), FlightStatus::Cancelled);
    assert_eq!(FlightStatus::from_api_status("unknown_status"), FlightStatus::Unknown);
    assert_eq!(FlightStatus::from_api_status(""), FlightStatus::Unknown);
}

#[test]
fn test_flight_status_display() {
    assert_eq!(FlightStatus::Unknown.display_name(), "Unknown");
    assert_eq!(FlightStatus::Scheduled.display_name(), "Scheduled");
    assert_eq!(FlightStatus::EnRoute.display_name(), "En Route");
    assert_eq!(FlightStatus::Landed.display_name(), "Landed");
    assert_eq!(FlightStatus::OnGround.display_name(), "On Ground");
    assert_eq!(FlightStatus::Delayed.display_name(), "Delayed");
    assert_eq!(FlightStatus::Cancelled.display_name(), "Cancelled");
    assert_eq!(FlightStatus::NotFound.display_name(), "Not Found");
}

#[test]
fn test_flight_default() {
    let flight = Flight::default();

    assert_eq!(flight.flight_number, "");
    assert_eq!(flight.status, FlightStatus::Unknown);
    assert!(!flight.on_ground);
    assert!(flight.latitude.is_none());
    assert!(flight.origin.is_none());
}

#[test]
fn test_airport_default() {
    let airport = Airport::default();

    assert!(airport.name.is_none());
    assert!(airport.iata.is_none());
    assert!(airport.icao.is_none());
}

#[test]
fn test_flight_with_data() {
    // Coordinates and altitude are fixed-point micro-units: 37.7749
    // degrees is 37_774_900, 35000 feet is 35_000_000_000.
    let flight = Flight {
        flight_number: "UA123".to_string(),
        callsign: "UAL123".to_string(),
        status: FlightStatus::EnRoute,
        latitude: Some(37_774_900),
        longitude: Some(-122_419_400),
        altitude_ft: Some(35_000_000_000),
        origin: Some(Airport {
            name: Some("San Francisco International".to_string()),
            iata: Some("SFO".to_string()),
            icao: Some("KSFO".to_string()),
        }),
        destination: Some(Airport {
            name: Some("John F Kennedy International".to_string()),
            iata: Some("JFK".to_string()),
            icao: Some("KJFK".to_string()),
        }),
        ..Default::default()
    };

    assert_eq!(flight.flight_number, "UA123");
    assert_eq!(flight.status, FlightStatus::EnRoute);
    assert_eq!(flight.latitude, Some(37_774_900));
    assert!(flight.origin.is_some());
    assert_eq!(flight.origin.as_ref().unwrap().iata, Some("SFO".to_string()));
}
