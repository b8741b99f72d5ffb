//! Error values for the two request chains.

use vstd::prelude::*;

verus! {

/// Failure of the rail chain: the transit response could not be used, a
/// candidate's timestamp could not be parsed, or there was no candidate
/// at all.
#[derive(Clone, Copy, PartialEq, Eq, Structural, Debug)]
pub enum TransitError {
    /// The response held no parseable array of connections.
    InvalidResponse,
    /// A candidate connection lacked a parseable departure or arrival
    /// timestamp; the whole selection is abandoned.
    BadTimestamp,
    /// The list of candidate connections was empty.
    NoConnections,
}

impl TransitError {
    /// A user-visible message for this error.
    pub fn message(&self) -> (r: &'static str)
        ensures
            *self is InvalidResponse ==> r@ == "Invalid API response"@,
            *self is BadTimestamp ==> r@ == "Unparseable connection timestamp"@,
            *self is NoConnections ==> r@ == "No connections found"@,
    {
        match self {
            TransitError::InvalidResponse => "Invalid API response",
            TransitError::BadTimestamp => "Unparseable connection timestamp",
            TransitError::NoConnections => "No connections found",
        }
    }
}

/// Failure of the driving chain: the routing response lacked a numeric
/// route duration.
#[derive(Clone, Copy, PartialEq, Eq, Structural, Debug)]
pub struct RouteError;

impl RouteError {
    /// A user-visible message for this error.
    pub fn message(&self) -> (r: &'static str)
        ensures
            r@ == "Missing or invalid duration"@,
    {
        "Missing or invalid duration"
    }
}

} // verus!
