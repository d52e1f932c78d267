//! The reconciliation engine and the orchestrator's response handling.

use flight_tracker_tui::api::aviationstack::{
    AirportInfo, AviationStackResponse, FlightData, first_flight,
};
use flight_tracker_tui::api::opensky::select_matching_state;
use flight_tracker_tui::api::types::{first_state, OpenSkyResponse, StateVector};
use flight_tracker_tui::app::{
    apply_position_data, apply_schedule_data, handle_api_response, ApiResponse, App,
};
use flight_tracker_tui::error::AppError;
use flight_tracker_tui::flight::{Flight, FlightStatus};
use flight_tracker_tui::format_time;

#[test]
fn test_position_overrides_schedule_status() {
    // Schedule says "active"; later live data reports on-ground: the
    // position data wins and the status ends up OnGround.
    let mut flight = Flight::default();
    apply_schedule_data(
        &mut flight,
        FlightData {
            flight_status: Some("active".to_string()),
            departure: None,
            arrival: None,
            airline: None,
            flight: None,
            aircraft: None,
        },
    );
    assert_eq!(flight.status, FlightStatus::EnRoute);

    apply_position_data(
        &mut flight,
        StateVector {
            icao24: "a1b2c3".to_string(),
            callsign: Some("UAL123".to_string()),
            origin_country: "United States".to_string(),
            time_position: None,
            last_contact: 1700000000,
            longitude: None,
            latitude: None,
            baro_altitude: None,
            on_ground: true,
            velocity: None,
            true_track: None,
            vertical_rate: None,
            geo_altitude: None,
            squawk: None,
        },
    );
    assert_eq!(flight.status, FlightStatus::OnGround);
}

#[test]
fn test_schedule_only_keeps_status_and_delay() {
    // Only schedule data, with a 45-minute departure delay: the status
    // is the schedule-derived one and the delay is reported as-is.
    let mut flight = Flight::default();
    apply_schedule_data(
        &mut flight,
        FlightData {
            flight_status: Some("delayed".to_string()),
            departure: Some(AirportInfo {
                airport: Some("San Francisco International".to_string()),
                iata: Some("SFO".to_string()),
                icao: Some("KSFO".to_string()),
                scheduled: Some("2024-01-15T14:30:00+00:00".to_string()),
                estimated: None,
                actual: None,
                delay: Some(45),
            }),
            arrival: None,
            airline: None,
            flight: None,
            aircraft: None,
        },
    );

    assert_eq!(flight.status, FlightStatus::Delayed);
    assert_eq!(flight.departure_delay, Some(45));
    assert!(flight.arrival_delay.is_none());
}

#[test]
fn test_unit_conversions_at_merge() {
    // 10000 meters → 32808.4 feet; 5 m/s climb → 984.252 ft/min;
    // 250 m/s ground speed → 485.96 knots — all in micro-units.
    let mut flight = Flight::default();
    apply_position_data(
        &mut flight,
        StateVector {
            icao24: "abcdef".to_string(),
            callsign: Some("BAW285".to_string()),
            origin_country: "United Kingdom".to_string(),
            time_position: Some(1700000000),
            last_contact: 1700000000,
            longitude: Some(-122_419_400),
            latitude: Some(37_774_900),
            baro_altitude: Some(10_000_000_000),
            on_ground: false,
            velocity: Some(250_000_000),
            true_track: Some(270_000_000),
            vertical_rate: Some(5_000_000),
            geo_altitude: None,
            squawk: Some("7700".to_string()),
        },
    );

    assert_eq!(flight.status, FlightStatus::EnRoute);
    assert_eq!(flight.altitude_ft, Some(32_808_400_000));
    assert_eq!(flight.vertical_rate, Some(984_252_000));
    assert_eq!(flight.ground_speed_kts, Some(485_960_000));
    assert_eq!(flight.latitude, Some(37_774_900));
    assert_eq!(flight.heading, Some(270_000_000));
    assert_eq!(flight.squawk, Some("7700".to_string()));
    assert_eq!(flight.callsign, "BAW285");
    assert_eq!(flight.icao24, "abcdef");
}

#[test]
fn test_negative_vertical_rate_conversion() {
    let mut flight = Flight::default();
    apply_position_data(
        &mut flight,
        StateVector {
            icao24: "abcdef".to_string(),
            callsign: None,
            origin_country: "France".to_string(),
            time_position: None,
            last_contact: 0,
            longitude: None,
            latitude: None,
            baro_altitude: None,
            on_ground: false,
            velocity: None,
            true_track: None,
            vertical_rate: Some(-5_000_000),
            geo_altitude: None,
            squawk: None,
        },
    );
    // A descent converts symmetrically: -5 m/s → -984.252 ft/min.
    assert_eq!(flight.vertical_rate, Some(-984_252_000));
    assert_eq!(flight.callsign, "");
}

#[test]
fn test_dual_lookup_position_only_still_creates_record() {
    // The schedule call failed (no schedule data arrived), the position
    // call succeeded: the record is still created, populated from the
    // position data.
    let mut app = App::default();
    handle_api_response(
        &mut app,
        ApiResponse::FlightSearch {
            flight_number: "UA123".to_string(),
            position: Ok(Some(StateVector {
                icao24: "a1b2c3".to_string(),
                callsign: Some("UAL123".to_string()),
                origin_country: "United States".to_string(),
                time_position: None,
                last_contact: 1700000000,
                longitude: Some(-122_419_400),
                latitude: Some(37_774_900),
                baro_altitude: Some(10_000_000_000),
                on_ground: false,
                velocity: None,
                true_track: None,
                vertical_rate: None,
                geo_altitude: None,
                squawk: None,
            })),
            schedule: None,
        },
        4000,
    );

    assert_eq!(app.tracked_flights.len(), 1);
    let f = &app.tracked_flights[0];
    assert_eq!(f.flight_number, "UA123");
    assert_eq!(f.callsign, "UAL123");
    assert_eq!(f.icao24, "a1b2c3");
    assert_eq!(f.status, FlightStatus::EnRoute);
    assert_eq!(f.latitude, Some(37_774_900));
    assert!(!app.loading);
    assert_eq!(app.last_api_call, Some(4000));
    assert!(app.last_error.is_none());
}

#[test]
fn test_dual_lookup_schedule_only_still_creates_record() {
    // The position call failed but schedule data arrived: partial
    // success is a valid outcome and the record is created.
    let mut app = App::default();
    handle_api_response(
        &mut app,
        ApiResponse::FlightSearch {
            flight_number: "UA123".to_string(),
            position: Err(AppError::RateLimited),
            schedule: Some(FlightData {
                flight_status: Some("scheduled".to_string()),
                departure: None,
                arrival: None,
                airline: None,
                flight: None,
                aircraft: None,
            }),
        },
        4000,
    );

    assert_eq!(app.tracked_flights.len(), 1);
    assert_eq!(app.tracked_flights[0].status, FlightStatus::Scheduled);
    assert!(app.last_error.is_none());
}

#[test]
fn test_dual_lookup_both_failed_surfaces_error() {
    let mut app = App::default();
    handle_api_response(
        &mut app,
        ApiResponse::FlightSearch {
            flight_number: "UA123".to_string(),
            position: Err(AppError::RateLimited),
            schedule: None,
        },
        4000,
    );

    assert!(app.tracked_flights.is_empty());
    assert_eq!(app.last_error, Some("API rate limit reached. Try again later.".to_string()));
    assert!(app.last_api_call.is_none());
}

#[test]
fn test_flight_update_applies_position() {
    let mut app = App::default();
    app.add_flight("UA123".to_string(), None, None);
    assert_eq!(app.tracked_flights[0].status, FlightStatus::NotFound);

    handle_api_response(
        &mut app,
        ApiResponse::FlightUpdate(
            "UA123".to_string(),
            Ok(Some(StateVector {
                icao24: "a1b2c3".to_string(),
                callsign: Some("UAL123".to_string()),
                origin_country: "United States".to_string(),
                time_position: None,
                last_contact: 1700000000,
                longitude: None,
                latitude: None,
                baro_altitude: None,
                on_ground: true,
                velocity: None,
                true_track: None,
                vertical_rate: None,
                geo_altitude: None,
                squawk: None,
            })),
        ),
        4000,
    );

    assert_eq!(app.tracked_flights.len(), 1);
    assert_eq!(app.tracked_flights[0].status, FlightStatus::OnGround);
}

#[test]
fn test_flight_update_error_surfaces_message() {
    let mut app = App::default();
    app.add_flight("UA123".to_string(), None, None);

    handle_api_response(
        &mut app,
        ApiResponse::FlightUpdate("UA123".to_string(), Err(AppError::Parse("bad".to_string()))),
        4000,
    );

    assert_eq!(app.last_error, Some("Failed to parse flight data.".to_string()));
    assert_eq!(app.tracked_flights[0].status, FlightStatus::NotFound);
}

#[test]
fn test_user_messages_per_error_kind() {
    assert_eq!(
        AppError::RateLimited.user_message(),
        "API rate limit reached. Try again later."
    );
    assert_eq!(
        AppError::Network("connection refused".to_string()).user_message(),
        "Network error. Check your connection."
    );
    assert_eq!(
        AppError::Parse("unexpected token".to_string()).user_message(),
        "Failed to parse flight data."
    );
}

#[test]
fn test_route_remembered_in_history() {
    let mut app = App::default();
    app.add_flight(
        "UA123".to_string(),
        None,
        Some(FlightData {
            flight_status: None,
            departure: Some(AirportInfo {
                airport: None,
                iata: Some("SFO".to_string()),
                icao: Some("KSFO".to_string()),
                scheduled: None,
                estimated: None,
                actual: None,
                delay: None,
            }),
            arrival: Some(AirportInfo {
                airport: None,
                iata: None,
                icao: Some("KJFK".to_string()),
                scheduled: None,
                estimated: None,
                actual: None,
                delay: None,
            }),
            airline: None,
            flight: None,
            aircraft: None,
        }),
    );

    let entries = app.history.entries();
    assert_eq!(entries[0].flight_number, "UA123");
    // IATA is preferred; a missing IATA falls back to ICAO.
    assert_eq!(entries[0].route, Some("SFO→KJFK".to_string()));
}

#[test]
fn test_first_flight_picks_head_of_data() {
    let resp = AviationStackResponse {
        data: Some(vec![
            FlightData {
                flight_status: Some("active".to_string()),
                departure: None,
                arrival: None,
                airline: None,
                flight: None,
                aircraft: None,
            },
            FlightData {
                flight_status: Some("landed".to_string()),
                departure: None,
                arrival: None,
                airline: None,
                flight: None,
                aircraft: None,
            },
        ]),
    };
    let picked = first_flight(resp).unwrap();
    assert_eq!(picked.flight_status, Some("active".to_string()));

    assert!(first_flight(AviationStackResponse { data: Some(vec![]) }).is_none());
    assert!(first_flight(AviationStackResponse { data: None }).is_none());
}

#[test]
fn test_select_matching_state_by_callsign_prefix() {
    let states = vec![
        StateVector {
            icao24: "000001".to_string(),
            callsign: Some("DLH400".to_string()),
            origin_country: "Germany".to_string(),
            time_position: None,
            last_contact: 0,
            longitude: None,
            latitude: None,
            baro_altitude: None,
            on_ground: false,
            velocity: None,
            true_track: None,
            vertical_rate: None,
            geo_altitude: None,
            squawk: None,
        },
        StateVector {
            icao24: "000002".to_string(),
            callsign: Some("ual123".to_string()),
            origin_country: "United States".to_string(),
            time_position: None,
            last_contact: 0,
            longitude: None,
            latitude: None,
            baro_altitude: None,
            on_ground: false,
            velocity: None,
            true_track: None,
            vertical_rate: None,
            geo_altitude: None,
            squawk: None,
        },
    ];

    // Matching is case-insensitive and by prefix.
    let picked = select_matching_state(states, "UAL123").unwrap();
    assert_eq!(picked.icao24, "000002");
}

#[test]
fn test_first_state_picks_head_of_list() {
    let resp = OpenSkyResponse {
        time: 1700000000,
        states: Some(vec![StateVector {
            icao24: "a1b2c3".to_string(),
            callsign: Some("UAL123".to_string()),
            origin_country: "United States".to_string(),
            time_position: None,
            last_contact: 0,
            longitude: None,
            latitude: None,
            baro_altitude: None,
            on_ground: false,
            velocity: None,
            true_track: None,
            vertical_rate: None,
            geo_altitude: None,
            squawk: None,
        }]),
    };
    assert_eq!(first_state(resp).unwrap().icao24, "a1b2c3");

    assert!(first_state(OpenSkyResponse { time: 0, states: Some(vec![]) }).is_none());
    assert!(first_state(OpenSkyResponse { time: 0, states: None }).is_none());
}

#[test]
fn test_select_matching_state_none_matches() {
    let states = vec![StateVector {
        icao24: "000001".to_string(),
        callsign: None,
        origin_country: "Germany".to_string(),
        time_position: None,
        last_contact: 0,
        longitude: None,
        latitude: None,
        baro_altitude: None,
        on_ground: false,
        velocity: None,
        true_track: None,
        vertical_rate: None,
        geo_altitude: None,
        squawk: None,
    }];
    assert!(select_matching_state(states, "UAL123").is_none());
}

#[test]
fn test_format_time_shortens_iso_timestamps() {
    assert_eq!(format_time("2024-01-15T14:30:00+00:00"), "14:30");
    assert_eq!(format_time("14:30"), "14:30");
    assert_eq!(format_time("2024-01-15T1:3"), "2024-01-15T1:3");
    assert_eq!(format_time(""), "");
}
