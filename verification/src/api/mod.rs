//! The shapes of the two providers' data and the pure parts of the
//! provider clients: key normalization and response selection.  The
//! HTTP transport around them lives outside the library.

pub mod aviationstack;
pub mod opensky;
pub mod types;

pub use aviationstack::FlightData;
pub use types::StateVector;
