//! Flight-state synchronization engine.
//!
//! Tracks a small set of flights by merging two independent data feeds —
//! slow-changing schedule data and fast-changing live-position data — into
//! one coherent record per flight.  The crate verifies the parts with real
//! engineering tension: the TTL caches that shield rate-limited providers,
//! the reconciliation algorithm that merges the two feeds under a
//! deterministic order, the bounded most-recently-used history store, and
//! the decision logic of the fetch orchestrator.  Network transport,
//! terminal rendering and file persistence live outside the library and
//! exchange plain values with it.

pub mod api;
pub mod app;
pub mod cache;
pub mod error;
pub mod flight;
pub mod history;
pub mod seqs;
pub mod text;

pub use text::format_time;
