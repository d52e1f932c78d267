//! Application state transitions: input editing, selection, refresh.

use flight_tracker_tui::app::{App, AppMode};
use flight_tracker_tui::flight::FlightStatus;

#[test]
fn test_app_default() {
    let app = App::default();

    assert_eq!(app.mode, AppMode::Input);
    assert!(!app.should_quit);
    assert!(app.input_buffer.is_empty());
    assert!(app.tracked_flights.is_empty());
    assert!(app.selected_index.is_none());
    assert!(!app.loading);
}

#[test]
fn test_input_char() {
    let mut app = App::default();

    app.input_char('U');
    app.input_char('A');
    app.input_char('1');

    assert_eq!(app.input_buffer, "UA1");
    assert_eq!(app.cursor_position, 3);
}

#[test]
fn test_input_backspace() {
    let mut app = App::default();

    app.input_char('U');
    app.input_char('A');
    app.input_backspace();

    assert_eq!(app.input_buffer, "U");
    assert_eq!(app.cursor_position, 1);

    // Backspace on empty should do nothing
    app.input_backspace();
    app.input_backspace();
    assert_eq!(app.input_buffer, "");
    assert_eq!(app.cursor_position, 0);
}

#[test]
fn test_submit_input() {
    let mut app = App::default();

    app.input_char('u');
    app.input_char('a');
    app.input_char('1');
    app.input_char('2');
    app.input_char('3');

    let result = app.submit_input();

    assert_eq!(result, Some("UA123".to_string())); // Should be uppercased
    assert!(app.input_buffer.is_empty());
    assert_eq!(app.cursor_position, 0);

    // Submit on empty should return None
    assert_eq!(app.submit_input(), None);
}

#[test]
fn test_add_flight() {
    let mut app = App::default();

    app.add_flight("UA123".to_string(), None, None);

    assert_eq!(app.tracked_flights.len(), 1);
    assert_eq!(app.tracked_flights[0].flight_number, "UA123");
    assert_eq!(app.tracked_flights[0].status, FlightStatus::NotFound);
    assert_eq!(app.selected_index, Some(0));
}

#[test]
fn test_add_duplicate_flight() {
    let mut app = App::default();

    app.add_flight("UA123".to_string(), None, None);
    app.add_flight("UA123".to_string(), None, None);

    assert_eq!(app.tracked_flights.len(), 1);
    assert!(app.status_message.is_some());
}

#[test]
fn test_select_next_previous() {
    let mut app = App::default();

    app.add_flight("UA123".to_string(), None, None);
    app.add_flight("BA285".to_string(), None, None);
    app.add_flight("AF007".to_string(), None, None);

    assert_eq!(app.selected_index, Some(2)); // Last added is selected

    app.select_previous();
    assert_eq!(app.selected_index, Some(1));

    app.select_previous();
    assert_eq!(app.selected_index, Some(0));

    app.select_previous(); // Should wrap to end
    assert_eq!(app.selected_index, Some(2));

    app.select_next(); // Should wrap to beginning
    assert_eq!(app.selected_index, Some(0));
}

#[test]
fn test_select_on_empty_list() {
    let mut app = App::default();

    app.select_next();
    app.select_previous();

    assert!(app.selected_index.is_none());
}

#[test]
fn test_remove_selected_flight() {
    let mut app = App::default();

    app.add_flight("UA123".to_string(), None, None);
    app.add_flight("BA285".to_string(), None, None);

    app.selected_index = Some(0);
    app.remove_selected_flight();

    assert_eq!(app.tracked_flights.len(), 1);
    assert_eq!(app.tracked_flights[0].flight_number, "BA285");
    assert_eq!(app.selected_index, Some(0));
}

#[test]
fn test_remove_last_flight() {
    let mut app = App::default();

    app.add_flight("UA123".to_string(), None, None);
    app.remove_selected_flight();

    assert!(app.tracked_flights.is_empty());
    assert!(app.selected_index.is_none());
}

#[test]
fn test_should_update() {
    let mut app = App::default();

    // Empty list should not update
    assert!(!app.should_update());

    app.add_flight("UA123".to_string(), None, None);

    // With flights but no last call, should update
    assert!(app.should_update());

    // While loading, should not update
    app.loading = true;
    assert!(!app.should_update());
}

#[test]
fn test_app_mode_default() {
    assert_eq!(AppMode::default(), AppMode::Input);
}

#[test]
fn test_should_update_at_interval() {
    let mut app = App::default();
    app.add_flight("UA123".to_string(), None, None);
    app.last_api_call = Some(1000);

    // Interval is 30 seconds by default.
    assert!(!app.should_update_at(1010));
    assert!(!app.should_update_at(1029));
    assert!(app.should_update_at(1030));
    assert!(app.should_update_at(2000));
}

#[test]
fn test_seconds_until_update_at() {
    let mut app = App::default();
    assert_eq!(app.seconds_until_update_at(1000), None);

    app.last_api_call = Some(1000);
    assert_eq!(app.seconds_until_update_at(1010), Some(20));
    assert_eq!(app.seconds_until_update_at(1030), Some(0));
    assert_eq!(app.seconds_until_update_at(2000), Some(0));
}

#[test]
fn test_begin_refresh_targets_skip_unknown_transponder() {
    let mut app = App::default();
    app.add_flight("UA123".to_string(), None, None);
    app.tracked_flights[0].icao24 = "a1b2c3".to_string();
    app.add_flight("BA285".to_string(), None, None);
    // BA285 has no transponder id: nothing to refresh for it.

    let targets = app.begin_refresh(5000);

    assert!(app.loading);
    assert_eq!(app.last_api_call, Some(5000));
    assert_eq!(targets.len(), 1);
    assert_eq!(targets[0].flight_number, "UA123");
    assert_eq!(targets[0].icao24, "a1b2c3");
}

#[test]
fn test_begin_search_sets_loading_and_clears_error() {
    let mut app = App::default();
    app.last_error = Some("Network error. Check your connection.".to_string());

    app.begin_search();

    assert!(app.loading);
    assert!(app.last_error.is_none());
    assert!(app.last_api_call.is_none());
}

#[test]
fn test_expire_error_after_display_window() {
    let mut app = App::default();
    app.last_error = Some("Network error. Check your connection.".to_string());
    app.last_api_call = Some(1000);

    app.expire_error(1005);
    assert!(app.last_error.is_some());

    app.expire_error(1011);
    assert!(app.last_error.is_none());
}

#[test]
fn test_history_navigation_cycles() {
    let mut app = App::default();
    app.history.add("UA123".to_string(), None);
    app.history.add("BA285".to_string(), None);

    app.history_previous();
    assert_eq!(app.input_buffer, "BA285");
    app.history_previous();
    assert_eq!(app.input_buffer, "UA123");
    app.history_previous(); // stops at the oldest
    assert_eq!(app.input_buffer, "UA123");

    app.history_next();
    assert_eq!(app.input_buffer, "BA285");
    app.history_next(); // steps past the newest: input clears
    assert_eq!(app.input_buffer, "");
    assert!(app.history_index.is_none());
}
