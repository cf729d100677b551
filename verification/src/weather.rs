//! Cloud-cover readings: the monitored locations, the fields of a weather
//! payload, and the projection into a per-location record.

use vstd::prelude::*;

use crate::ParseError;
use crate::datetime::now_epoch_seconds;

verus! {

/// The fixed set of monitored locations.
#[derive(Clone, Copy, Debug, PartialEq, Eq, Structural)]
pub enum Location {
    FortWilliam,
    SpeanBridge,
}

impl Location {
    /// The numeric identifier the weather service knows this place by.
    pub open spec fn spec_id(self) -> u32 {
        match self {
            Location::FortWilliam => 2649169,
            Location::SpeanBridge => 2637248,
        }
    }

    pub fn id(self) -> (r: u32)
        ensures
            r == self.spec_id(),
    {
        match self {
            Location::FortWilliam => 2649169,
            Location::SpeanBridge => 2637248,
        }
    }

    /// Every monitored location, each exactly once, in polling order.
    pub fn all() -> (r: Vec<Location>)
        ensures
            r@ == seq![Location::FortWilliam, Location::SpeanBridge],
    {
        let mut v: Vec<Location> = Vec::new();
        v.push(Location::FortWilliam);
        v.push(Location::SpeanBridge);
        proof {
            assert(v@ =~= seq![Location::FortWilliam, Location::SpeanBridge]);
        }
        v
    }
}

/// The fields of a weather payload that the monitor consumes: cloud cover
/// as an integer percentage, the description of each weather entry with
/// the primary conditions first, the update instant as epoch seconds, and
/// the location identifier.
pub struct WeatherBody {
    pub clouds_all: i16,
    pub descriptions: Vec<String>,
    pub dt: u32,
    pub id: u32,
}

/// A weather record as persisted, one per monitored location.
/// Timestamps are epoch seconds.
#[derive(Debug)]
pub struct Weather {
    pub location_id: u32,
    pub description: String,
    pub cloud_cover: i16,
    pub updated_at: i64,
    pub last_polled: i64,
}

impl Weather {
    /// Project a payload into the record for its location, stamped with the
    /// given poll instant. The payload's first description entry is the
    /// primary conditions; a payload without one is rejected.
    pub fn from_body(body: &WeatherBody, polled_at: i64) -> (r: Result<Weather, ParseError>)
        ensures
            match r {
                Ok(w) => {
                    &&& body.descriptions@.len() > 0
                    &&& w.location_id == body.id
                    &&& w.description@ == body.descriptions@[0]@
                    &&& w.cloud_cover == body.clouds_all
                    &&& w.updated_at == body.dt as i64
                    &&& w.last_polled == polled_at
                },
                Err(e) => body.descriptions@.len() == 0 && e
                    == ParseError::MissingWeatherDescription,
            },
    {
        if body.descriptions.len() == 0 {
            return Err(ParseError::MissingWeatherDescription);
        }
        let description = body.descriptions[0].clone();
        Ok(
            Weather {
                location_id: body.id,
                description,
                cloud_cover: body.clouds_all,
                updated_at: body.dt as i64,
                last_polled: polled_at,
            },
        )
    }

    /// Project a payload, stamped with the current wall-clock instant.
    pub fn from_body_now(body: &WeatherBody) -> (r: Result<Weather, ParseError>)
        ensures
            match r {
                Ok(w) => {
                    &&& body.descriptions@.len() > 0
                    &&& w.location_id == body.id
                    &&& w.description@ == body.descriptions@[0]@
                    &&& w.cloud_cover == body.clouds_all
                    &&& w.updated_at == body.dt as i64
                    &&& w.last_polled >= 0
                },
                Err(e) => body.descriptions@.len() == 0 && e
                    == ParseError::MissingWeatherDescription,
            },
    {
        let t = now_epoch_seconds();
        let now: i64 = if t < 0 {
            0
        } else {
            t
        };
        Weather::from_body(body, now)
    }
}

} // verus!
