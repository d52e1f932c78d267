//! The bounded most-recently-used history of tracked flights.

use flight_tracker_tui::history::{History, HistoryEntry, MAX_HISTORY_SIZE};

#[test]
fn test_history_add() {
    let mut history = History::default();

    history.add("UA123".to_string(), Some("SFO→LHR".to_string()));
    history.add("BA285".to_string(), None);

    assert_eq!(history.len(), 2);

    let entries = history.entries();
    assert_eq!(entries[0].flight_number, "BA285"); // Most recent first
    assert_eq!(entries[1].flight_number, "UA123");
}

#[test]
fn test_history_add_duplicate_moves_to_front() {
    let mut history = History::default();

    history.add("UA123".to_string(), None);
    history.add("BA285".to_string(), None);
    history.add("UA123".to_string(), Some("SFO→LHR".to_string())); // Re-add with route

    assert_eq!(history.len(), 2);

    let entries = history.entries();
    assert_eq!(entries[0].flight_number, "UA123");
    assert_eq!(entries[0].route, Some("SFO→LHR".to_string()));
}

#[test]
fn test_history_max_size() {
    let mut history = History::default();

    for i in 0..25 {
        history.add(format!("FL{:03}", i), None);
    }

    assert_eq!(history.len(), MAX_HISTORY_SIZE);

    // Most recent should be at front
    let entries = history.entries();
    assert_eq!(entries[0].flight_number, "FL024");
}

#[test]
fn test_history_max_size_evicts_oldest() {
    let mut history = History::default();

    for i in 0..21 {
        history.add(format!("FL{:03}", i), None);
    }

    assert_eq!(history.len(), MAX_HISTORY_SIZE);
    // FL000, the least recently added, was evicted from the back.
    let entries = history.entries();
    assert_eq!(entries[MAX_HISTORY_SIZE - 1].flight_number, "FL001");
    assert!(history.matching("FL000").is_empty());
}

#[test]
fn test_history_matching() {
    let mut history = History::default();

    history.add("UA123".to_string(), None);
    history.add("UA456".to_string(), None);
    history.add("BA285".to_string(), None);

    let matches = history.matching("UA");
    assert_eq!(matches.len(), 2);

    let matches = history.matching("ba"); // Case insensitive
    assert_eq!(matches.len(), 1);

    let matches = history.matching("XX");
    assert!(matches.is_empty());
}

#[test]
fn test_history_matching_lowercase_stored_identifier() {
    // Lookup is fully case-insensitive: a lowercase-stored identifier
    // (possible through a loaded snapshot) still matches an
    // uppercase prefix, and the other way round.
    let entries = vec![
        HistoryEntry { flight_number: "ua123".to_string(), route: None },
        HistoryEntry { flight_number: "BA285".to_string(), route: None },
    ];
    let history = History::from_entries(entries);

    assert_eq!(history.matching("UA").len(), 1);
    assert_eq!(history.matching("ua1").len(), 1);
    assert_eq!(history.matching("Ba").len(), 1);
    assert!(history.matching("XX").is_empty());
}

#[test]
fn test_history_from_entries_collapses_duplicates() {
    // A snapshot with a repeated identifier rebuilds into one entry,
    // keeping the most recent (front-most) route.
    let entries = vec![
        HistoryEntry { flight_number: "UA123".to_string(), route: Some("SFO→LHR".to_string()) },
        HistoryEntry { flight_number: "BA285".to_string(), route: None },
        HistoryEntry { flight_number: "UA123".to_string(), route: None },
    ];
    let history = History::from_entries(entries);

    assert_eq!(history.len(), 2);
    let rebuilt = history.entries();
    assert_eq!(rebuilt[0].flight_number, "UA123");
    assert_eq!(rebuilt[0].route, Some("SFO→LHR".to_string()));
    assert_eq!(rebuilt[1].flight_number, "BA285");
}
