//! Application state and the engine around it: input editing, flight
//! selection, the reconciliation of provider data into tracked records,
//! and the decisions of the fetch orchestrator.
//!
//! Everything here is a pure state transition: time comes in as an
//! explicit seconds value or through `current_timestamp`, and all
//! network work happens outside the library, which only decides what to
//! fetch and applies what came back.

use vstd::prelude::*;
use vstd::string::*;

use crate::api::aviationstack::FlightData;
use crate::api::types::{opt_bounded, StateVector, MAX_RAW_MICRO};
use crate::cache::current_timestamp;
use crate::error::{spec_user_message, AppError};
use crate::flight::{
    spec_base_record, Airport, AirportView, Flight, FlightStatus, FlightView, spec_status_from,
};
use crate::history::{spec_add, History};
use crate::text::{push_char, spec_to_upper, str_eq, to_upper};

verus! {

/// Whether keystrokes edit the input line or steer the flight list.
#[derive(Debug, Clone, Copy, PartialEq, Eq, Structural)]
pub enum AppMode {
    Input,
    Viewing,
}

impl Default for AppMode {
    fn default() -> (r: Self)
        ensures
            r == AppMode::Input,
    {
        AppMode::Input
    }
}

/// Seconds between automatic refreshes of tracked flights.
pub const DEFAULT_UPDATE_INTERVAL_SECS: u64 = 30;

/// Seconds after which a surfaced error clears itself.
pub const ERROR_DISPLAY_SECS: u64 = 10;

/// The mathematical values of a sequence of flight records.
pub open spec fn views_of(s: Seq<Flight>) -> Seq<FlightView> {
    s.map_values(|f: Flight| f@)
}

/// The whole interactive application state.
#[derive(Debug)]
pub struct App {
    pub mode: AppMode,
    pub should_quit: bool,

    pub input_buffer: String,
    pub cursor_position: usize,

    pub tracked_flights: Vec<Flight>,
    pub selected_index: Option<usize>,

    pub loading: bool,
    pub last_error: Option<String>,
    pub status_message: Option<String>,

    /// Seconds timestamp of the last provider call, if any.
    pub last_api_call: Option<u64>,
    pub update_interval_secs: u64,

    /// Flight history for quick re-tracking.
    pub history: History,
    /// Currently selected history index, for cycling through history.
    pub history_index: Option<usize>,
}

/// Input-line fields are unchanged between two states.
pub open spec fn same_input(a: App, b: App) -> bool {
    &&& a.input_buffer@ == b.input_buffer@
    &&& a.cursor_position == b.cursor_position
    &&& a.history_index == b.history_index
}

/// Tracked flights and the selection are unchanged.
pub open spec fn same_tracking(a: App, b: App) -> bool {
    &&& views_of(a.tracked_flights@) == views_of(b.tracked_flights@)
    &&& a.selected_index == b.selected_index
}

/// Transient status fields are unchanged.
pub open spec fn same_status(a: App, b: App) -> bool {
    &&& a.loading == b.loading
    &&& a.last_error.deep_view() == b.last_error.deep_view()
    &&& a.status_message.deep_view() == b.status_message.deep_view()
    &&& a.last_api_call == b.last_api_call
}

/// Mode, quit flag and refresh interval are unchanged.
pub open spec fn same_mode(a: App, b: App) -> bool {
    &&& a.mode == b.mode
    &&& a.should_quit == b.should_quit
    &&& a.update_interval_secs == b.update_interval_secs
}

/// The history store is unchanged.
pub open spec fn same_history(a: App, b: App) -> bool {
    a.history@ == b.history@
}

impl Default for App {
    fn default() -> (r: Self)
        ensures
            r.mode == AppMode::Input,
            !r.should_quit,
            r.input_buffer@ == Seq::<char>::empty(),
            r.cursor_position == 0,
            r.tracked_flights@.len() == 0,
            r.selected_index is None,
            !r.loading,
            r.last_error is None,
            r.status_message is None,
            r.last_api_call is None,
            r.update_interval_secs == DEFAULT_UPDATE_INTERVAL_SECS,
            r.history@.len() == 0,
            r.history_index is None,
            r.wf(),
    {
        App {
            mode: AppMode::Input,
            should_quit: false,
            input_buffer: String::new(),
            cursor_position: 0,
            tracked_flights: Vec::new(),
            selected_index: None,
            loading: false,
            last_error: None,
            status_message: None,
            last_api_call: None,
            update_interval_secs: DEFAULT_UPDATE_INTERVAL_SECS,
            history: History::default(),
            history_index: None,
        }
    }
}

impl App {
    /// The cursor stays within the input line, the selection within the
    /// flight list, and the history keeps its identifiers unique.
    pub open spec fn wf(&self) -> bool {
        &&& self.cursor_position <= self.input_buffer@.len()
        &&& match self.selected_index {
            Some(i) => i < self.tracked_flights@.len(),
            None => true,
        }
        &&& self.history.wf()
    }

    /// Inserts a character at the cursor and resets history navigation.
    pub fn input_char(&mut self, c: char)
        requires
            old(self).wf(),
            old(self).input_buffer@.len() < usize::MAX,
        ensures
            final(self).input_buffer@ == old(self).input_buffer@.subrange(
                0,
                old(self).cursor_position as int,
            ) + seq![c] + old(self).input_buffer@.subrange(
                old(self).cursor_position as int,
                old(self).input_buffer@.len() as int,
            ),
            final(self).cursor_position == old(self).cursor_position + 1,
            final(self).history_index is None,
            final(self).wf(),
            same_tracking(*old(self), *final(self)),
            same_status(*old(self), *final(self)),
            same_mode(*old(self), *final(self)),
            same_history(*old(self), *final(self)),
    {
        let cur = self.cursor_position;
        let buflen = self.input_buffer.as_str().unicode_len();
        let left = self.input_buffer.as_str().substring_char(0, cur);
        let mut nb = left.to_owned();
        push_char(&mut nb, c);
        let right = self.input_buffer.as_str().substring_char(cur, buflen);
        nb.append(right);
        proof {
            assert(self.input_buffer@.subrange(0, cur as int).push(c) =~= self.input_buffer@
                .subrange(0, cur as int) + seq![c]);
        }
        self.input_buffer = nb;
        self.cursor_position = cur + 1;
        self.history_index = None;
    }

    /// Deletes the character before the cursor, if any, and resets
    /// history navigation.
    pub fn input_backspace(&mut self)
        requires
            old(self).wf(),
        ensures
            old(self).cursor_position > 0 ==> {
                &&& final(self).input_buffer@ == old(self).input_buffer@.subrange(
                    0,
                    old(self).cursor_position - 1,
                ) + old(self).input_buffer@.subrange(
                    old(self).cursor_position as int,
                    old(self).input_buffer@.len() as int,
                )
                &&& final(self).cursor_position == old(self).cursor_position - 1
            },
            old(self).cursor_position == 0 ==> {
                &&& final(self).input_buffer@ == old(self).input_buffer@
                &&& final(self).cursor_position == 0
            },
            final(self).history_index is None,
            final(self).wf(),
            same_tracking(*old(self), *final(self)),
            same_status(*old(self), *final(self)),
            same_mode(*old(self), *final(self)),
            same_history(*old(self), *final(self)),
    {
        if self.cursor_position > 0 {
            let cur = self.cursor_position - 1;
            let buflen = self.input_buffer.as_str().unicode_len();
            let left = self.input_buffer.as_str().substring_char(0, cur);
            let mut nb = left.to_owned();
            let right = self.input_buffer.as_str().substring_char(cur + 1, buflen);
            nb.append(right);
            self.input_buffer = nb;
            self.cursor_position = cur;
        }
        self.history_index = None;
    }

    /// Takes the input line, upper-cased, clearing it; an empty line
    /// yields nothing.
    pub fn submit_input(&mut self) -> (r: Option<String>)
        requires
            old(self).wf(),
        ensures
            old(self).input_buffer@.len() == 0 ==> r is None && *final(self) == *old(self),
            old(self).input_buffer@.len() > 0 ==> {
                &&& match r {
                    Some(s) => s@ == spec_to_upper(old(self).input_buffer@),
                    None => false,
                }
                &&& final(self).input_buffer@ == Seq::<char>::empty()
                &&& final(self).cursor_position == 0
                &&& final(self).history_index is None
            },
            final(self).wf(),
            same_tracking(*old(self), *final(self)),
            same_status(*old(self), *final(self)),
            same_mode(*old(self), *final(self)),
            same_history(*old(self), *final(self)),
    {
        if self.input_buffer.as_str().is_empty() {
            return None;
        }
        let input = to_upper(self.input_buffer.as_str());
        self.input_buffer = String::new();
        self.cursor_position = 0;
        self.history_index = None;
        Some(input)
    }

    /// Cycles to an older history entry (up arrow in input mode): the
    /// first press recalls the most recent flight, further presses walk
    /// towards the oldest, stopping at the end.
    pub fn history_previous(&mut self)
        requires
            old(self).wf(),
        ensures
            old(self).history@.len() == 0 ==> *final(self) == *old(self),
            old(self).history@.len() > 0 ==> {
                let n = old(self).history@.len() as int;
                let ni = match old(self).history_index {
                    Some(i) => if i + 1 < n {
                        i + 1
                    } else {
                        n - 1
                    },
                    None => 0,
                };
                &&& final(self).history_index == Some(ni as usize)
                &&& final(self).input_buffer@ == old(self).history@[ni].0
                &&& final(self).cursor_position == old(self).history@[ni].0.len()
            },
            final(self).wf(),
            same_tracking(*old(self), *final(self)),
            same_status(*old(self), *final(self)),
            same_mode(*old(self), *final(self)),
            same_history(*old(self), *final(self)),
    {
        let hlen = self.history.len();
        if hlen == 0 {
            return ;
        }
        let new_index: usize = match self.history_index {
            None => 0,
            Some(i) => if i < hlen - 1 {
                i + 1
            } else {
                hlen - 1
            },
        };
        self.history_index = Some(new_index);
        let entry = &self.history.entries()[new_index];
        self.input_buffer = entry.flight_number.clone();
        self.cursor_position = self.input_buffer.as_str().unicode_len();
    }

    /// Cycles back towards the newest history entry (down arrow in
    /// input mode); stepping past the newest clears the input line.
    pub fn history_next(&mut self)
        requires
            old(self).wf(),
        ensures
            (old(self).history@.len() == 0 || old(self).history_index is None) ==> *final(self)
                == *old(self),
            old(self).history@.len() > 0 ==> match old(self).history_index {
                Some(i) => if i == 0 {
                    &&& final(self).history_index is None
                    &&& final(self).input_buffer@ == Seq::<char>::empty()
                    &&& final(self).cursor_position == 0
                } else {
                    &&& final(self).history_index == Some((i - 1) as usize)
                    &&& if i - 1 < old(self).history@.len() {
                        &&& final(self).input_buffer@ == old(self).history@[i - 1].0
                        &&& final(self).cursor_position == old(self).history@[i - 1].0.len()
                    } else {
                        &&& final(self).input_buffer@ == old(self).input_buffer@
                        &&& final(self).cursor_position == old(self).cursor_position
                    }
                },
                None => true,
            },
            final(self).wf(),
            same_tracking(*old(self), *final(self)),
            same_status(*old(self), *final(self)),
            same_mode(*old(self), *final(self)),
            same_history(*old(self), *final(self)),
    {
        let hlen = self.history.len();
        if hlen == 0 {
            return ;
        }
        match self.history_index {
            None => {},
            Some(i) => {
                if i == 0 {
                    self.history_index = None;
                    self.input_buffer = String::new();
                    self.cursor_position = 0;
                } else {
                    self.history_index = Some(i - 1);
                    if i - 1 < hlen {
                        let entry = &self.history.entries()[i - 1];
                        self.input_buffer = entry.flight_number.clone();
                        self.cursor_position = self.input_buffer.as_str().unicode_len();
                    }
                }
            },
        }
    }

    /// Moves the selection down the flight list, wrapping at the end.
    pub fn select_next(&mut self)
        requires
            old(self).wf(),
        ensures
            old(self).tracked_flights@.len() == 0 ==> *final(self) == *old(self),
            old(self).tracked_flights@.len() > 0 ==> final(self).selected_index == Some(
                (match old(self).selected_index {
                    Some(i) => (i + 1) as int % old(self).tracked_flights@.len() as int,
                    None => 0,
                }) as usize,
            ),
            final(self).wf(),
            views_of(final(self).tracked_flights@) == views_of(old(self).tracked_flights@),
            same_input(*old(self), *final(self)),
            same_status(*old(self), *final(self)),
            same_mode(*old(self), *final(self)),
            same_history(*old(self), *final(self)),
    {
        let n = self.tracked_flights.len();
        if n == 0 {
            return ;
        }
        self.selected_index = Some(
            match self.selected_index {
                Some(i) => (i + 1) % n,
                None => 0,
            },
        );
    }

    /// Moves the selection up the flight list, wrapping at the start.
    pub fn select_previous(&mut self)
        requires
            old(self).wf(),
        ensures
            old(self).tracked_flights@.len() == 0 ==> *final(self) == *old(self),
            old(self).tracked_flights@.len() > 0 ==> final(self).selected_index == Some(
                (match old(self).selected_index {
                    Some(i) => if i == 0 {
                        old(self).tracked_flights@.len() - 1
                    } else {
                        i - 1
                    },
                    None => old(self).tracked_flights@.len() - 1,
                }) as usize,
            ),
            final(self).wf(),
            views_of(final(self).tracked_flights@) == views_of(old(self).tracked_flights@),
            same_input(*old(self), *final(self)),
            same_status(*old(self), *final(self)),
            same_mode(*old(self), *final(self)),
            same_history(*old(self), *final(self)),
    {
        let n = self.tracked_flights.len();
        if n == 0 {
            return ;
        }
        self.selected_index = Some(
            match self.selected_index {
                Some(i) => if i == 0 {
                    n - 1
                } else {
                    i - 1
                },
                None => n - 1,
            },
        );
    }

    /// Drops the selected flight; the selection moves to the new last
    /// entry when it pointed past the end, and clears on an empty list.
    pub fn remove_selected_flight(&mut self)
        requires
            old(self).wf(),
        ensures
            old(self).selected_index is None ==> *final(self) == *old(self),
            match old(self).selected_index {
                Some(i) => {
                    &&& views_of(final(self).tracked_flights@) == views_of(
                        old(self).tracked_flights@,
                    ).remove(i as int)
                    &&& final(self).selected_index == (if final(self).tracked_flights@.len()
                        == 0 {
                        Option::<usize>::None
                    } else if i >= final(self).tracked_flights@.len() {
                        Some((final(self).tracked_flights@.len() - 1) as usize)
                    } else {
                        Some(i)
                    })
                },
                None => true,
            },
            final(self).wf(),
            same_input(*old(self), *final(self)),
            same_status(*old(self), *final(self)),
            same_mode(*old(self), *final(self)),
            same_history(*old(self), *final(self)),
    {
        if let Some(index) = self.selected_index {
            if index < self.tracked_flights.len() {
                let ghost prev = self.tracked_flights@;
                self.tracked_flights.remove(index);
                proof {
                    assert(views_of(self.tracked_flights@) =~= views_of(prev).remove(
                        index as int,
                    ));
                }
                if self.tracked_flights.len() == 0 {
                    self.selected_index = None;
                } else if index >= self.tracked_flights.len() {
                    self.selected_index = Some(self.tracked_flights.len() - 1);
                }
            }
        }
    }
}

/// Fixed-point factor for meters to feet (3.28084).
pub const SCALE_M_TO_FT: u64 = 328_084;

/// Fixed-point factor for meters-per-second to feet-per-minute
/// (3.28084 times 60).
pub const SCALE_MPS_TO_FTMIN: u64 = 19_685_040;

/// Fixed-point factor for meters-per-second to knots (1.94384).
pub const SCALE_MPS_TO_KTS: u64 = 194_384;

/// Multiplies a micro-unit value by `num / 100000`, truncating towards
/// zero: exactly the unit conversions of the merge step, carried out in
/// integers.
pub open spec fn spec_scale(x: int, num: int) -> int {
    if x >= 0 {
        x * num / 100000
    } else {
        -((-x) * num / 100000)
    }
}

pub open spec fn spec_scale_opt(v: Option<i64>, num: int) -> Option<i64> {
    match v {
        Some(x) => Some(spec_scale(x as int, num) as i64),
        None => None,
    }
}

fn scale_micro(x: i64, num: u64) -> (r: i64)
    requires
        -MAX_RAW_MICRO <= x <= MAX_RAW_MICRO,
        num <= 20_000_000,
    ensures
        r == spec_scale(x as int, num as int),
{
    let neg = x < 0;
    let mag: u64 = if neg {
        (-x) as u64
    } else {
        x as u64
    };
    proof {
        assert((mag as int) * (num as int) <= 10_000_000_000_000_000_000) by (nonlinear_arith)
            requires
                mag <= 500_000_000_000,
                num <= 20_000_000,
        ;
    }
    let prod: u64 = mag * num;
    let q: u64 = prod / 100_000;
    let qi = q as i64;
    if neg {
        -qi
    } else {
        qi
    }
}

fn scale_opt(v: Option<i64>, num: u64) -> (r: Option<i64>)
    requires
        opt_bounded(v),
        num <= 20_000_000,
    ensures
        r == spec_scale_opt(v, num as int),
{
    match v {
        Some(x) => Some(scale_micro(x, num)),
        None => None,
    }
}

/// What applying live-position data to a record yields: every telemetry
/// field is replaced (converted to display units), and the status is
/// unconditionally decided by the on-ground flag — live telemetry is
/// more authoritative than schedule metadata.  Schedule fields are
/// untouched.
pub open spec fn spec_apply_position(f: FlightView, sv: StateVector) -> FlightView {
    FlightView {
        flight_number: f.flight_number,
        callsign: match sv.callsign {
            Some(c) => c@,
            None => Seq::<char>::empty(),
        },
        icao24: sv.icao24@,
        status: if sv.on_ground {
            FlightStatus::OnGround
        } else {
            FlightStatus::EnRoute
        },
        latitude: sv.latitude,
        longitude: sv.longitude,
        altitude_ft: spec_scale_opt(sv.baro_altitude, SCALE_M_TO_FT as int),
        heading: sv.true_track,
        vertical_rate: spec_scale_opt(sv.vertical_rate, SCALE_MPS_TO_FTMIN as int),
        ground_speed_kts: spec_scale_opt(sv.velocity, SCALE_MPS_TO_KTS as int),
        on_ground: sv.on_ground,
        squawk: sv.squawk.deep_view(),
        airline: f.airline,
        aircraft_type: f.aircraft_type,
        registration: f.registration,
        origin: f.origin,
        destination: f.destination,
        departure_scheduled: f.departure_scheduled,
        departure_estimated: f.departure_estimated,
        departure_actual: f.departure_actual,
        departure_delay: f.departure_delay,
        arrival_scheduled: f.arrival_scheduled,
        arrival_estimated: f.arrival_estimated,
        arrival_actual: f.arrival_actual,
        arrival_delay: f.arrival_delay,
        last_updated: f.last_updated,
    }
}

/// What applying schedule data to a record yields: the status follows
/// the provider's status string when one is present, and each group of
/// schedule fields is set independently — the absence of one group does
/// not clear another.  Position fields are untouched.
pub open spec fn spec_apply_schedule(f: FlightView, d: FlightData) -> FlightView {
    FlightView {
        flight_number: f.flight_number,
        callsign: f.callsign,
        icao24: f.icao24,
        status: match d.flight_status {
            Some(s) => spec_status_from(s@),
            None => f.status,
        },
        latitude: f.latitude,
        longitude: f.longitude,
        altitude_ft: f.altitude_ft,
        heading: f.heading,
        vertical_rate: f.vertical_rate,
        ground_speed_kts: f.ground_speed_kts,
        on_ground: f.on_ground,
        squawk: f.squawk,
        airline: match d.airline {
            Some(a) => a.name.deep_view(),
            None => f.airline,
        },
        aircraft_type: match d.aircraft {
            Some(a) => if a.iata is Some {
                a.iata.deep_view()
            } else {
                a.icao.deep_view()
            },
            None => f.aircraft_type,
        },
        registration: match d.aircraft {
            Some(a) => a.registration.deep_view(),
            None => f.registration,
        },
        origin: match d.departure {
            Some(dep) => Some(
                AirportView {
                    name: dep.airport.deep_view(),
                    iata: dep.iata.deep_view(),
                    icao: dep.icao.deep_view(),
                },
            ),
            None => f.origin,
        },
        destination: match d.arrival {
            Some(arr) => Some(
                AirportView {
                    name: arr.airport.deep_view(),
                    iata: arr.iata.deep_view(),
                    icao: arr.icao.deep_view(),
                },
            ),
            None => f.destination,
        },
        departure_scheduled: match d.departure {
            Some(dep) => dep.scheduled.deep_view(),
            None => f.departure_scheduled,
        },
        departure_estimated: match d.departure {
            Some(dep) => dep.estimated.deep_view(),
            None => f.departure_estimated,
        },
        departure_actual: match d.departure {
            Some(dep) => dep.actual.deep_view(),
            None => f.departure_actual,
        },
        departure_delay: match d.departure {
            Some(dep) => dep.delay,
            None => f.departure_delay,
        },
        arrival_scheduled: match d.arrival {
            Some(arr) => arr.scheduled.deep_view(),
            None => f.arrival_scheduled,
        },
        arrival_estimated: match d.arrival {
            Some(arr) => arr.estimated.deep_view(),
            None => f.arrival_estimated,
        },
        arrival_actual: match d.arrival {
            Some(arr) => arr.actual.deep_view(),
            None => f.arrival_actual,
        },
        arrival_delay: match d.arrival {
            Some(arr) => arr.delay,
            None => f.arrival_delay,
        },
        last_updated: f.last_updated,
    }
}

/// Applies live-position data to a record: telemetry fields are
/// replaced, units converted, and the status is decided by the
/// on-ground flag, overriding whatever was there.
pub fn apply_position_data(flight: &mut Flight, sv: StateVector)
    requires
        sv.bounded(),
    ensures
        final(flight)@ == spec_apply_position(old(flight)@, sv),
{
    flight.callsign = match sv.callsign {
        Some(c) => c,
        None => String::new(),
    };
    flight.icao24 = sv.icao24;
    flight.latitude = sv.latitude;
    flight.longitude = sv.longitude;
    flight.altitude_ft = scale_opt(sv.baro_altitude, SCALE_M_TO_FT);
    flight.heading = sv.true_track;
    flight.vertical_rate = scale_opt(sv.vertical_rate, SCALE_MPS_TO_FTMIN);
    flight.ground_speed_kts = scale_opt(sv.velocity, SCALE_MPS_TO_KTS);
    flight.on_ground = sv.on_ground;
    flight.squawk = sv.squawk;
    if sv.on_ground {
        flight.status = FlightStatus::OnGround;
    } else {
        flight.status = FlightStatus::EnRoute;
    }
}

/// Applies schedule data to a record: status, airline, aircraft, and
/// the origin and destination groups, each only when present.
pub fn apply_schedule_data(flight: &mut Flight, data: FlightData)
    ensures
        final(flight)@ == spec_apply_schedule(old(flight)@, data),
{
    let FlightData { flight_status, departure, arrival, airline, flight: _info, aircraft } = data;

    match flight_status {
        Some(s) => {
            flight.status = FlightStatus::from_api_status(s.as_str());
        },
        None => {},
    }

    match airline {
        Some(a) => {
            flight.airline = a.name;
        },
        None => {},
    }

    match aircraft {
        Some(a) => {
            flight.aircraft_type = match a.iata {
                Some(x) => Some(x),
                None => a.icao,
            };
            flight.registration = a.registration;
        },
        None => {},
    }

    match departure {
        Some(dep) => {
            flight.origin = Some(Airport { name: dep.airport, iata: dep.iata, icao: dep.icao });
            flight.departure_scheduled = dep.scheduled;
            flight.departure_estimated = dep.estimated;
            flight.departure_actual = dep.actual;
            flight.departure_delay = dep.delay;
        },
        None => {},
    }

    match arrival {
        Some(arr) => {
            flight.destination = Some(
                Airport { name: arr.airport, iata: arr.iata, icao: arr.icao },
            );
            flight.arrival_scheduled = arr.scheduled;
            flight.arrival_estimated = arr.estimated;
            flight.arrival_actual = arr.actual;
            flight.arrival_delay = arr.delay;
        },
        None => {},
    }
}

/// Law: whenever live-position data is applied after schedule data, the
/// final status comes from the on-ground flag alone — position
/// overrides schedule, whatever the schedule said.
pub proof fn lemma_position_overrides_schedule(f: FlightView, d: FlightData, sv: StateVector)
    ensures
        spec_apply_position(spec_apply_schedule(f, d), sv).status == (if sv.on_ground {
            FlightStatus::OnGround
        } else {
            FlightStatus::EnRoute
        }),
{
}

/// Law: with schedule data alone, the status is exactly the one derived
/// from the provider's status string, and the reported departure delay
/// is exactly the provider's delay field.
pub proof fn lemma_schedule_only(f: FlightView, d: FlightData)
    ensures
        match d.flight_status {
            Some(s) => spec_apply_schedule(f, d).status == spec_status_from(s@),
            None => spec_apply_schedule(f, d).status == f.status,
        },
        match d.departure {
            Some(dep) => spec_apply_schedule(f, d).departure_delay == dep.delay,
            None => spec_apply_schedule(f, d).departure_delay == f.departure_delay,
        },
{
}

/// Display code of an airport: IATA first, then ICAO, then a placeholder.
pub open spec fn spec_code_of(a: AirportView) -> Seq<char> {
    match a.iata {
        Some(x) => x,
        None => match a.icao {
            Some(y) => y,
            None => "???"@,
        },
    }
}

/// The route string remembered in history: origin code, an arrow, and
/// the destination code — only when both ends are known.
pub open spec fn spec_route_of(f: FlightView) -> Option<Seq<char>> {
    match (f.origin, f.destination) {
        (Some(o), Some(d)) => Some(spec_code_of(o) + "\u{2192}"@ + spec_code_of(d)),
        _ => None,
    }
}

fn airport_code(a: &Airport) -> (r: String)
    ensures
        r@ == spec_code_of(a@),
{
    match &a.iata {
        Some(x) => x.clone(),
        None => match &a.icao {
            Some(y) => y.clone(),
            None => String::from_str("???"),
        },
    }
}

fn route_of(flight: &Flight) -> (r: Option<String>)
    ensures
        r.deep_view() == spec_route_of(flight@),
{
    match (&flight.origin, &flight.destination) {
        (Some(o), Some(d)) => {
            let mut out = airport_code(o);
            out.append("\u{2192}");
            let dc = airport_code(d);
            out.append(dc.as_str());
            Some(out)
        },
        _ => None,
    }
}

/// The record created for a newly tracked flight at time `t`: a fresh
/// base record, schedule data applied first when present, then live
/// position data, which may override the status.
pub open spec fn spec_merged_record(
    fnum: Seq<char>,
    state: Option<StateVector>,
    schedule: Option<FlightData>,
    t: u64,
) -> FlightView {
    let base = spec_base_record(fnum, t);
    let with_sched = match schedule {
        Some(d) => spec_apply_schedule(base, d),
        None => base,
    };
    match state {
        Some(sv) => spec_apply_position(with_sched, sv),
        None => with_sched,
    }
}

/// Some tracked flight already carries this identifier.
pub open spec fn spec_is_tracked(s: Seq<Flight>, fnum: Seq<char>) -> bool {
    exists|j: int| 0 <= j < s.len() && s[j].flight_number@ == fnum
}

/// What `add_flight` does: a duplicate identifier only leaves a status
/// message; otherwise the merged record is appended and selected, and
/// the history remembers the identifier with the record's route.
pub open spec fn spec_add_flight_rel(
    o: App,
    n: App,
    fnum: Seq<char>,
    state: Option<StateVector>,
    schedule: Option<FlightData>,
) -> bool {
    if spec_is_tracked(o.tracked_flights@, fnum) {
        &&& views_of(n.tracked_flights@) == views_of(o.tracked_flights@)
        &&& n.selected_index == o.selected_index
        &&& n.history@ == o.history@
        &&& n.status_message.deep_view() == Some("Flight "@ + fnum + " is already tracked"@)
    } else {
        &&& (exists|t: u64|
            {
                let m = #[trigger] spec_merged_record(fnum, state, schedule, t);
                &&& views_of(n.tracked_flights@) == views_of(o.tracked_flights@).push(m)
                &&& n.history@ == spec_add(o.history@, fnum, spec_route_of(m))
            })
        &&& n.selected_index == Some(o.tracked_flights@.len() as usize)
        &&& n.status_message.deep_view() == o.status_message.deep_view()
    }
}

/// First tracked index carrying `fnum`, or -1 when none does.
pub open spec fn spec_find_flight(s: Seq<Flight>, fnum: Seq<char>) -> int
    decreases s.len(),
{
    if s.len() == 0 {
        -1
    } else if s.first().flight_number@ == fnum {
        0
    } else {
        let r = spec_find_flight(s.drop_first(), fnum);
        if r >= 0 {
            r + 1
        } else {
            -1
        }
    }
}

proof fn lemma_find_flight_at(s: Seq<Flight>, fnum: Seq<char>, i: int)
    requires
        0 <= i < s.len(),
        s[i].flight_number@ == fnum,
        forall|j: int| 0 <= j < i ==> s[j].flight_number@ != fnum,
    ensures
        spec_find_flight(s, fnum) == i,
    decreases i,
{
    if i > 0 {
        lemma_find_flight_at(s.drop_first(), fnum, i - 1);
    }
}

proof fn lemma_find_flight_none(s: Seq<Flight>, fnum: Seq<char>)
    requires
        forall|j: int| 0 <= j < s.len() ==> s[j].flight_number@ != fnum,
    ensures
        spec_find_flight(s, fnum) == -1,
    decreases s.len(),
{
    if s.len() > 0 {
        lemma_find_flight_none(s.drop_first(), fnum);
    }
}

/// `f` with its last-updated stamp set to `t`.
pub open spec fn spec_stamp(f: FlightView, t: u64) -> FlightView {
    FlightView {
        flight_number: f.flight_number,
        callsign: f.callsign,
        icao24: f.icao24,
        status: f.status,
        latitude: f.latitude,
        longitude: f.longitude,
        altitude_ft: f.altitude_ft,
        heading: f.heading,
        vertical_rate: f.vertical_rate,
        ground_speed_kts: f.ground_speed_kts,
        on_ground: f.on_ground,
        squawk: f.squawk,
        airline: f.airline,
        aircraft_type: f.aircraft_type,
        registration: f.registration,
        origin: f.origin,
        destination: f.destination,
        departure_scheduled: f.departure_scheduled,
        departure_estimated: f.departure_estimated,
        departure_actual: f.departure_actual,
        departure_delay: f.departure_delay,
        arrival_scheduled: f.arrival_scheduled,
        arrival_estimated: f.arrival_estimated,
        arrival_actual: f.arrival_actual,
        arrival_delay: f.arrival_delay,
        last_updated: Some(t),
    }
}

/// Position data applied when present; the record untouched otherwise.
pub open spec fn spec_apply_position_opt(f: FlightView, state: Option<StateVector>) -> FlightView {
    match state {
        Some(sv) => spec_apply_position(f, sv),
        None => f,
    }
}

/// What `update_flight` does: the first record with the identifier gets
/// position data applied and a fresh stamp; nothing else moves, and an
/// unknown identifier changes nothing.
pub open spec fn spec_update_flight_rel(
    o: App,
    n: App,
    fnum: Seq<char>,
    state: Option<StateVector>,
) -> bool {
    let fi = spec_find_flight(o.tracked_flights@, fnum);
    &&& n.selected_index == o.selected_index
    &&& n.history@ == o.history@
    &&& n.status_message.deep_view() == o.status_message.deep_view()
    &&& if fi < 0 {
        views_of(n.tracked_flights@) == views_of(o.tracked_flights@)
    } else {
        exists|t: u64|
            views_of(n.tracked_flights@) == views_of(o.tracked_flights@).update(
                fi,
                #[trigger] spec_stamp(
                    spec_apply_position_opt(views_of(o.tracked_flights@)[fi], state),
                    t,
                ),
            )
    }
}

impl App {
    fn find_tracked(&self, flight_number: &str) -> (r: Option<usize>)
        ensures
            match r {
                Some(i) => i < self.tracked_flights@.len() && self.tracked_flights@[
                    i as int
                ].flight_number@ == flight_number@ && (forall|j: int|
                    0 <= j < i ==> self.tracked_flights@[j].flight_number@ != flight_number@),
                None => forall|j: int|
                    0 <= j < self.tracked_flights@.len() ==> self.tracked_flights@[
                        j
                    ].flight_number@ != flight_number@,
            },
    {
        let n = self.tracked_flights.len();
        let mut i: usize = 0;
        while i < n
            invariant
                i <= n,
                n == self.tracked_flights@.len(),
                forall|j: int|
                    0 <= j < i ==> self.tracked_flights@[j].flight_number@ != flight_number@,
            decreases n - i,
        {
            if str_eq(self.tracked_flights[i].flight_number.as_str(), flight_number) {
                return Some(i);
            }
            i = i + 1;
        }
        None
    }

    /// Starts tracking a flight from whatever the initial dual lookup
    /// produced: schedule data is applied first, live-position data
    /// second (overriding the status), the new record is selected, and
    /// the history remembers the identifier.  A flight already tracked
    /// only produces a status message.  The caller persists the history
    /// snapshot afterwards.
    pub fn add_flight(
        &mut self,
        flight_number: String,
        state: Option<StateVector>,
        schedule: Option<FlightData>,
    )
        requires
            old(self).wf(),
            match state {
                Some(sv) => sv.bounded(),
                None => true,
            },
        ensures
            final(self).wf(),
            spec_add_flight_rel(*old(self), *final(self), flight_number@, state, schedule),
            final(self).loading == old(self).loading,
            final(self).last_api_call == old(self).last_api_call,
            final(self).last_error.deep_view() == old(self).last_error.deep_view(),
            same_input(*old(self), *final(self)),
            same_mode(*old(self), *final(self)),
    {
        let ghost st0 = state;
        let ghost sc0 = schedule;
        match self.find_tracked(flight_number.as_str()) {
            Some(i) => {
                proof {
                    assert(spec_is_tracked(self.tracked_flights@, flight_number@));
                }
                let mut msg = String::from_str("Flight ");
                msg.append(flight_number.as_str());
                msg.append(" is already tracked");
                self.status_message = Some(msg);
            },
            None => {
                let now = current_timestamp();
                let mut flight = Flight::default();
                flight.flight_number = flight_number.clone();
                flight.status = FlightStatus::NotFound;
                flight.last_updated = Some(now);
                proof {
                    assert(flight@ == spec_base_record(flight_number@, now));
                }
                match schedule {
                    Some(d) => apply_schedule_data(&mut flight, d),
                    None => {},
                }
                match state {
                    Some(sv) => apply_position_data(&mut flight, sv),
                    None => {},
                }
                proof {
                    assert(flight@ == spec_merged_record(flight_number@, st0, sc0, now));
                }
                let route = route_of(&flight);
                self.history.add(flight_number, route);
                let ghost prev = self.tracked_flights@;
                self.tracked_flights.push(flight);
                proof {
                    assert(views_of(self.tracked_flights@) =~= views_of(prev).push(
                        spec_merged_record(flight_number@, st0, sc0, now),
                    ));
                }
                self.selected_index = Some(self.tracked_flights.len() - 1);
            },
        }
    }

    /// Applies a periodic position refresh to the tracked flight with
    /// this identifier: position fields and status are updated, schedule
    /// fields never are, and the record gets a fresh stamp.
    pub fn update_flight(&mut self, flight_number: &str, state: Option<StateVector>)
        requires
            old(self).wf(),
            match state {
                Some(sv) => sv.bounded(),
                None => true,
            },
        ensures
            final(self).wf(),
            spec_update_flight_rel(*old(self), *final(self), flight_number@, state),
            final(self).loading == old(self).loading,
            final(self).last_api_call == old(self).last_api_call,
            final(self).last_error.deep_view() == old(self).last_error.deep_view(),
            same_input(*old(self), *final(self)),
            same_mode(*old(self), *final(self)),
    {
        let ghost st0 = state;
        match self.find_tracked(flight_number) {
            Some(i) => {
                proof {
                    lemma_find_flight_at(self.tracked_flights@, flight_number@, i as int);
                }
                let ghost prev = self.tracked_flights@;
                let mut f = self.tracked_flights.remove(i);
                match state {
                    Some(sv) => apply_position_data(&mut f, sv),
                    None => {},
                }
                let now = current_timestamp();
                f.last_updated = Some(now);
                proof {
                    assert(f@ == spec_stamp(
                        spec_apply_position_opt(views_of(prev)[i as int], st0),
                        now,
                    ));
                }
                self.tracked_flights.insert(i, f);
                proof {
                    assert(views_of(self.tracked_flights@) =~= views_of(prev).update(
                        i as int,
                        spec_stamp(spec_apply_position_opt(views_of(prev)[i as int], st0), now),
                    ));
                }
            },
            None => {
                proof {
                    lemma_find_flight_none(self.tracked_flights@, flight_number@);
                }
            },
        }
    }
}

/// Elapsed seconds between `last` and `now`, zero if the clock moved
/// backwards.
pub open spec fn spec_elapsed(last: u64, now: u64) -> int {
    if now >= last {
        now - last
    } else {
        0
    }
}

/// Whether an automatic refresh is due at `now`: there are flights, no
/// fetch is in flight, and the interval has passed since the last call
/// (or none was ever made).
pub open spec fn spec_should_update(app: App, now: u64) -> bool {
    if app.tracked_flights@.len() == 0 || app.loading {
        false
    } else {
        match app.last_api_call {
            Some(last) => spec_elapsed(last, now) >= app.update_interval_secs,
            None => true,
        }
    }
}

/// One periodic position lookup to issue: the flight to update and the
/// transponder id to look it up by.
#[derive(Debug, Clone)]
pub struct RefreshTarget {
    pub flight_number: String,
    pub icao24: String,
}

/// The lookups a refresh issues: one per tracked flight with a known
/// transponder id, in list order; flights without one are skipped.
pub open spec fn spec_targets(s: Seq<Flight>) -> Seq<(Seq<char>, Seq<char>)>
    decreases s.len(),
{
    if s.len() == 0 {
        Seq::empty()
    } else {
        spec_targets(s.drop_last()) + (if s.last().icao24@.len() > 0 {
            seq![(s.last().flight_number@, s.last().icao24@)]
        } else {
            Seq::<(Seq<char>, Seq<char>)>::empty()
        })
    }
}

impl App {
    /// Decides whether the periodic refresh is due at `now`.
    pub fn should_update_at(&self, now_secs: u64) -> (r: bool)
        ensures
            r == spec_should_update(*self, now_secs),
    {
        if self.tracked_flights.len() == 0 || self.loading {
            return false;
        }
        match self.last_api_call {
            Some(last) => {
                let elapsed = if now_secs >= last {
                    now_secs - last
                } else {
                    0
                };
                elapsed >= self.update_interval_secs
            },
            None => true,
        }
    }

    /// Reads the clock and decides whether the periodic refresh is due.
    /// Whatever the clock said, a refresh is only due when flights are
    /// tracked, none is loading, and a never-called provider is always
    /// due.
    pub fn should_update(&self) -> (r: bool)
        ensures
            r ==> self.tracked_flights@.len() > 0 && !self.loading,
            (self.tracked_flights@.len() > 0 && !self.loading && self.last_api_call is None)
                ==> r,
    {
        let now = current_timestamp();
        self.should_update_at(now)
    }

    /// Seconds left until the next automatic refresh at `now`, if a
    /// provider call was ever made.
    pub fn seconds_until_update_at(&self, now_secs: u64) -> (r: Option<u64>)
        ensures
            r == match self.last_api_call {
                Some(last) => Some(
                    (if self.update_interval_secs >= spec_elapsed(last, now_secs) {
                        self.update_interval_secs - spec_elapsed(last, now_secs)
                    } else {
                        0
                    }) as u64,
                ),
                None => None::<u64>,
            },
    {
        match self.last_api_call {
            Some(last) => {
                let elapsed = if now_secs >= last {
                    now_secs - last
                } else {
                    0
                };
                let left = if self.update_interval_secs >= elapsed {
                    self.update_interval_secs - elapsed
                } else {
                    0
                };
                Some(left)
            },
            None => None,
        }
    }

    /// Reads the clock and reports the seconds left until the next
    /// automatic refresh; absent exactly when no provider call was made.
    pub fn seconds_until_update(&self) -> (r: Option<u64>)
        ensures
            r is Some <==> self.last_api_call is Some,
    {
        let now = current_timestamp();
        self.seconds_until_update_at(now)
    }

    /// Marks the initial dual lookup for a new flight as started: the
    /// loading flag goes up and any stale error clears, before the two
    /// provider calls are issued concurrently.
    pub fn begin_search(&mut self)
        requires
            old(self).wf(),
        ensures
            final(self).loading,
            final(self).last_error is None,
            final(self).last_api_call == old(self).last_api_call,
            final(self).status_message.deep_view() == old(self).status_message.deep_view(),
            views_of(final(self).tracked_flights@) == views_of(old(self).tracked_flights@),
            final(self).selected_index == old(self).selected_index,
            final(self).wf(),
            same_input(*old(self), *final(self)),
            same_mode(*old(self), *final(self)),
            same_history(*old(self), *final(self)),
    {
        self.loading = true;
        self.last_error = None;
    }

    /// Marks a refresh as started at `now` and returns the lookups to
    /// issue: one per tracked flight with a known transponder id.  The
    /// caller performs the lookups and feeds each outcome back through
    /// `handle_api_response`.
    pub fn begin_refresh(&mut self, now_secs: u64) -> (targets: Vec<RefreshTarget>)
        requires
            old(self).wf(),
        ensures
            final(self).loading,
            final(self).last_api_call == Some(now_secs),
            final(self).last_error is None,
            final(self).status_message.deep_view() == old(self).status_message.deep_view(),
            views_of(final(self).tracked_flights@) == views_of(old(self).tracked_flights@),
            final(self).selected_index == old(self).selected_index,
            final(self).wf(),
            same_input(*old(self), *final(self)),
            same_mode(*old(self), *final(self)),
            same_history(*old(self), *final(self)),
            targets@.map_values(|rt: RefreshTarget| (rt.flight_number@, rt.icao24@))
                == spec_targets(old(self).tracked_flights@),
    {
        self.loading = true;
        self.last_api_call = Some(now_secs);
        self.last_error = None;
        let n = self.tracked_flights.len();
        let mut targets: Vec<RefreshTarget> = Vec::new();
        let mut i: usize = 0;
        while i < n
            invariant
                i <= n,
                n == self.tracked_flights@.len(),
                targets@.map_values(|rt: RefreshTarget| (rt.flight_number@, rt.icao24@))
                    == spec_targets(self.tracked_flights@.take(i as int)),
            decreases n - i,
        {
            proof {
                assert(self.tracked_flights@.take(i + 1).drop_last() =~= self.tracked_flights@
                    .take(i as int));
                assert(self.tracked_flights@.take(i + 1).last() == self.tracked_flights@[
                    i as int
                ]);
            }
            let f = &self.tracked_flights[i];
            let ghost prevt = targets@;
            if !f.icao24.as_str().is_empty() {
                targets.push(
                    RefreshTarget {
                        flight_number: f.flight_number.clone(),
                        icao24: f.icao24.clone(),
                    },
                );
                proof {
                    assert(targets@.map_values(|rt: RefreshTarget| (rt.flight_number@, rt.icao24@))
                        =~= prevt.map_values(|rt: RefreshTarget| (rt.flight_number@, rt.icao24@))
                        + seq![(f.flight_number@, f.icao24@)]);
                    assert(targets@.map_values(|rt: RefreshTarget| (rt.flight_number@, rt.icao24@))
                        == spec_targets(self.tracked_flights@.take(i + 1)));
                }
            } else {
                proof {
                    assert(spec_targets(self.tracked_flights@.take(i + 1)) =~= spec_targets(
                        self.tracked_flights@.take(i as int),
                    ));
                }
            }
            i = i + 1;
        }
        proof {
            assert(self.tracked_flights@.take(n as int) =~= self.tracked_flights@);
        }
        targets
    }

    /// Clears a surfaced error once it has been on screen longer than
    /// the display window, measured from the last provider call.
    pub fn expire_error(&mut self, now_secs: u64)
        requires
            old(self).wf(),
        ensures
            final(self).last_error.deep_view() == (if old(self).last_error is Some && (match old(
                self,
            ).last_api_call {
                Some(last) => spec_elapsed(last, now_secs) > ERROR_DISPLAY_SECS,
                None => false,
            }) {
                None::<Seq<char>>
            } else {
                old(self).last_error.deep_view()
            }),
            final(self).loading == old(self).loading,
            final(self).last_api_call == old(self).last_api_call,
            final(self).status_message.deep_view() == old(self).status_message.deep_view(),
            views_of(final(self).tracked_flights@) == views_of(old(self).tracked_flights@),
            final(self).selected_index == old(self).selected_index,
            final(self).wf(),
            same_input(*old(self), *final(self)),
            same_mode(*old(self), *final(self)),
            same_history(*old(self), *final(self)),
    {
        if self.last_error.is_some() {
            match self.last_api_call {
                Some(last) => {
                    let elapsed = if now_secs >= last {
                        now_secs - last
                    } else {
                        0
                    };
                    if elapsed > ERROR_DISPLAY_SECS {
                        self.last_error = None;
                    }
                },
                None => {},
            }
        }
    }
}

/// One outcome arriving on the orchestrator's result channel: either the
/// initial dual lookup for a new flight, or a periodic position update
/// for a tracked one.
#[derive(Debug)]
pub enum ApiResponse {
    FlightSearch {
        flight_number: String,
        position: Result<Option<StateVector>, AppError>,
        schedule: Option<FlightData>,
    },
    FlightUpdate(String, Result<Option<StateVector>, AppError>),
}

/// Any state vector the response carries is within the telemetry bounds.
pub open spec fn spec_response_bounded(r: ApiResponse) -> bool {
    match r {
        ApiResponse::FlightSearch { position, .. } => match position {
            Ok(Some(sv)) => sv.bounded(),
            _ => true,
        },
        ApiResponse::FlightUpdate(_, result) => match result {
            Ok(Some(sv)) => sv.bounded(),
            _ => true,
        },
    }
}

/// Applies one provider outcome to the application state, strictly one
/// at a time.  A failed position lookup does not discard a successful
/// schedule lookup: the record is still created from what succeeded.
/// Provider errors are never fatal; they only surface as a message.
pub fn handle_api_response(app: &mut App, response: ApiResponse, now_secs: u64)
    requires
        old(app).wf(),
        spec_response_bounded(response),
    ensures
        final(app).wf(),
        !final(app).loading,
        same_input(*old(app), *final(app)),
        same_mode(*old(app), *final(app)),
        match response {
            ApiResponse::FlightSearch { flight_number, position, schedule } => match position {
                Ok(state) => {
                    &&& spec_add_flight_rel(
                        *old(app),
                        *final(app),
                        flight_number@,
                        state,
                        schedule,
                    )
                    &&& final(app).last_api_call == Some(now_secs)
                    &&& final(app).last_error.deep_view() == old(app).last_error.deep_view()
                },
                Err(e) => {
                    if schedule is Some {
                        &&& spec_add_flight_rel(
                            *old(app),
                            *final(app),
                            flight_number@,
                            None::<StateVector>,
                            schedule,
                        )
                        &&& final(app).last_api_call == Some(now_secs)
                        &&& final(app).last_error.deep_view() == old(app).last_error.deep_view()
                    } else {
                        &&& final(app).last_error.deep_view() == Some(spec_user_message(e))
                        &&& final(app).last_api_call == old(app).last_api_call
                        &&& views_of(final(app).tracked_flights@) == views_of(
                            old(app).tracked_flights@,
                        )
                        &&& final(app).selected_index == old(app).selected_index
                        &&& final(app).history@ == old(app).history@
                        &&& final(app).status_message.deep_view() == old(
                            app,
                        ).status_message.deep_view()
                    }
                },
            },
            ApiResponse::FlightUpdate(flight_number, result) => match result {
                Ok(state) => {
                    &&& spec_update_flight_rel(*old(app), *final(app), flight_number@, state)
                    &&& final(app).last_api_call == old(app).last_api_call
                    &&& final(app).last_error.deep_view() == old(app).last_error.deep_view()
                },
                Err(e) => {
                    &&& final(app).last_error.deep_view() == Some(spec_user_message(e))
                    &&& final(app).last_api_call == old(app).last_api_call
                    &&& views_of(final(app).tracked_flights@) == views_of(
                        old(app).tracked_flights@,
                    )
                    &&& final(app).selected_index == old(app).selected_index
                    &&& final(app).history@ == old(app).history@
                    &&& final(app).status_message.deep_view() == old(
                        app,
                    ).status_message.deep_view()
                },
            },
        },
{
    app.loading = false;

    match response {
        ApiResponse::FlightSearch { flight_number, position, schedule } => {
            match position {
                Ok(state) => {
                    app.add_flight(flight_number, state, schedule);
                    app.last_api_call = Some(now_secs);
                },
                Err(e) => {
                    match schedule {
                        Some(d) => {
                            app.add_flight(flight_number, None, Some(d));
                            app.last_api_call = Some(now_secs);
                        },
                        None => {
                            app.last_error = Some(e.user_message());
                        },
                    }
                },
            }
        },
        ApiResponse::FlightUpdate(flight_number, result) => {
            match result {
                Ok(state) => {
                    app.update_flight(flight_number.as_str(), state);
                },
                Err(e) => {
                    app.last_error = Some(e.user_message());
                },
            }
        },
    }
}

} // verus!
