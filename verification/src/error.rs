//! The error taxonomy of provider calls.
//!
//! A provider call fails in one of three ways: the provider rate-limited
//! us, the response did not match the expected schema, or the transport
//! itself failed.  None of these is fatal; each carries a short message
//! for the status bar.  The transport error arrives here already turned
//! into its display text, so the library never holds a transport type.

use vstd::prelude::*;
use vstd::string::*;

verus! {

/// Why a provider call failed.
#[derive(Debug, Clone)]
pub enum AppError {
    /// The response body did not match the expected schema.
    Parse(String),
    /// The provider answered with its rate-limit signal.
    RateLimited,
    /// Transport-level failure, described by the transport's message.
    Network(String),
}

/// The user-facing message of each error kind.
pub open spec fn spec_user_message(e: AppError) -> Seq<char> {
    match e {
        AppError::RateLimited => "API rate limit reached. Try again later."@,
        AppError::Network(_) => "Network error. Check your connection."@,
        AppError::Parse(_) => "Failed to parse flight data."@,
    }
}

impl AppError {
    /// A short message suitable for display in the status bar.
    pub fn user_message(&self) -> (r: String)
        ensures
            r@ == spec_user_message(*self),
    {
        match self {
            AppError::RateLimited => String::from_str("API rate limit reached. Try again later."),
            AppError::Network(_) => String::from_str("Network error. Check your connection."),
            AppError::Parse(_) => String::from_str("Failed to parse flight data."),
        }
    }
}

} // verus!
