//! Carrier-code normalization of public flight numbers.

use flight_tracker_tui::api::opensky::normalize_callsign;
use flight_tracker_tui::text::schedule_lookup_key;

#[test]
fn test_normalize_callsign_major_us_airlines() {
    assert_eq!(normalize_callsign("UA123"), "UAL123");
    assert_eq!(normalize_callsign("AA456"), "AAL456");
    assert_eq!(normalize_callsign("DL789"), "DAL789");
    assert_eq!(normalize_callsign("WN1234"), "SWA1234");
}

#[test]
fn test_normalize_callsign_international_airlines() {
    assert_eq!(normalize_callsign("BA285"), "BAW285");
    assert_eq!(normalize_callsign("AF007"), "AFR007");
    assert_eq!(normalize_callsign("LH400"), "DLH400");
    assert_eq!(normalize_callsign("EK215"), "UAE215");
    assert_eq!(normalize_callsign("SQ26"), "SIA26");
}

#[test]
fn test_normalize_callsign_case_insensitive() {
    assert_eq!(normalize_callsign("ua123"), "UAL123");
    assert_eq!(normalize_callsign("Ua123"), "UAL123");
    assert_eq!(normalize_callsign("ba285"), "BAW285");
}

#[test]
fn test_normalize_callsign_with_whitespace() {
    assert_eq!(normalize_callsign("  UA123  "), "UAL123");
}

#[test]
fn test_normalize_callsign_unknown_airline() {
    assert_eq!(normalize_callsign("XY123"), "XY123");
    assert_eq!(normalize_callsign("ZZ999"), "ZZ999");
}

#[test]
fn test_normalize_callsign_already_icao() {
    assert_eq!(normalize_callsign("UAL123"), "UAL123");
    assert_eq!(normalize_callsign("BAW285"), "BAW285");
}

#[test]
fn test_normalize_callsign_edge_cases() {
    assert_eq!(normalize_callsign("123"), "123");
    assert_eq!(normalize_callsign(""), "");
    assert_eq!(normalize_callsign("A1"), "A1");
}

#[test]
fn test_schedule_lookup_key_normalization() {
    assert_eq!(schedule_lookup_key("UA123"), "UA123");
    assert_eq!(schedule_lookup_key("  ua 123  "), "UA123");
    assert_eq!(schedule_lookup_key("ba 28 5"), "BA285");
    assert_eq!(schedule_lookup_key(""), "");
}
