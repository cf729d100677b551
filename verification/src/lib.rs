//! A background monitor for aurora sightings: pollers fetch geomagnetic
//! activity and local cloud cover and persist the latest reading, and a
//! debounced evaluator classifies the activity and decides when an alert
//! email is owed.

use vstd::prelude::*;

pub mod aurora_watch;
pub mod datetime;
pub mod email;
pub mod parse;
pub mod store;
pub mod templates;
pub mod weather;

verus! {

/// A malformed or schema-mismatched payload.
#[derive(Clone, Copy, Debug, PartialEq, Eq, Structural)]
pub enum ParseError {
    /// The weather payload carries no weather-description entry.
    MissingWeatherDescription,
    /// The activity document does not hold the expected markup.
    MalformedActivityDocument,
    /// The activity document holds other than 24 hourly samples.
    WrongSampleCount,
    /// A numeric field could not be read.
    InvalidNumber,
    /// A timestamp field could not be read.
    InvalidTimestamp,
}

/// A template lookup or substitution failure.
#[derive(Clone, Copy, Debug, PartialEq, Eq, Structural)]
pub enum RenderError {
    /// The template engine could not produce the body.
    TemplateFailure,
}

} // verus!
