//! Travel-time estimates between two named places.
//!
//! The core of the library is the rail itinerary selector: given the
//! candidate connections returned by a transit service, it picks the one
//! with the least combined waiting and riding time and renders it as a
//! multi-line itinerary. Around that sit a duration-string parser, a
//! decimal formatter, and the extraction of connection records from the
//! transit service's response body.

pub mod cost;
pub mod driving;
pub mod duration;
pub mod errors;
pub mod extract;
pub mod model;
pub mod rail;
pub mod render;
pub mod text;
pub mod timestamp;
