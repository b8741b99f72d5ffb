//! The records of the rail chain: a candidate connection, its legs, and
//! the journey descriptor of a riding leg.

use vstd::prelude::*;

verus! {

/// The journey descriptor of a riding leg: a category code (such as a
/// train class) and a line number, either of which may be empty.
#[derive(Debug)]
pub struct Journey {
    pub category: String,
    pub number: String,
}

/// One leg of a connection. Timestamps are kept as the ISO text the
/// transit service sent, since rendering reads the time of day straight
/// out of that text. A leg without a journey descriptor is a walking
/// transfer.
#[derive(Debug)]
pub struct Section {
    /// Departure timestamp text, when the service sent one.
    pub departure: Option<String>,
    /// Name of the departure station, when the service sent one.
    pub departure_station: Option<String>,
    /// Departure platform, when the service sent one.
    pub platform: Option<String>,
    /// Arrival timestamp text, when the service sent one.
    pub arrival: Option<String>,
    /// Name of the arrival station, when the service sent one.
    pub arrival_station: Option<String>,
    /// The journey descriptor; `None` marks a walking transfer.
    pub journey: Option<Journey>,
}

/// One candidate rail itinerary.
#[derive(Debug)]
pub struct Connection {
    /// Departure instant, in seconds since the Unix epoch.
    pub departure_ts: i64,
    /// Arrival instant, in seconds since the Unix epoch.
    pub arrival_ts: i64,
    /// The duration text the service reported, in the form `[Dd]HH:MM:SS`.
    pub duration: String,
    /// How many transfers the itinerary has.
    pub transfers: u32,
    /// The legs of the itinerary, in order.
    pub sections: Vec<Section>,
}

} // verus!
