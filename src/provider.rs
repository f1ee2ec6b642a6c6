//! What every provider shares: configuration values, the tick that paces
//! updates, and the values it exports.

use vstd::prelude::*;

use crate::decimal::{bounded_units, parse_decimal};
use crate::error::Error;
use crate::location::ObjectLocation;

verus! {

/// The variable that holds the tick interval, in seconds.
pub const TICK_VAR: &'static str = "FOOTPRINT_TICK_SEC";

/// Fractional digits kept of the tick interval: it is held in milliseconds.
pub const TICK_DIGITS: u32 = 3;

/// The value of the configuration variable `key`, where `raw` is what it
/// holds if it is set: a decimal in units of `10^-k` within `limit`.
pub fn env_var(key: &str, raw: Option<String>, k: u32, limit: u64) -> (r: Result<i64, Error>)
    requires
        k <= 18,
        limit <= i64::MAX,
    ensures
        match raw {
            None => r matches Err(Error::MissingVariable(n)) && n@ == key@,
            Some(t) => match bounded_units(t@, k as nat, limit as int) {
                Some(v) => r == Ok::<i64, Error>(v as i64),
                None => r matches Err(Error::InvalidVariable(n)) && n@ == key@,
            },
        },
{
    match raw {
        None => Err(Error::MissingVariable(key.to_owned())),
        Some(t) => match parse_decimal(t.as_str(), k, limit) {
            Some(v) => Ok(v),
            None => Err(Error::InvalidVariable(key.to_owned())),
        },
    }
}

/// The pace of a provider's updates.
#[derive(Clone, Copy, Debug, PartialEq, Eq, Structural)]
pub struct Tick {
    /// Time between two updates, in milliseconds.
    pub interval_ms: u64,
}

impl Tick {
    /// The tick that `TICK_VAR` sets, where `tick_sec` is what it holds: a
    /// non-negative number of seconds, kept to the millisecond.
    pub fn new(tick_sec: Option<String>) -> (r: Result<Tick, Error>)
        ensures
            match tick_sec {
                None => r matches Err(Error::MissingVariable(n)) && n@ == TICK_VAR@,
                Some(t) => match bounded_units(t@, TICK_DIGITS as nat, i64::MAX as int) {
                    Some(v) => if v >= 0 {
                        r == Ok::<Tick, Error>(Tick { interval_ms: v as u64 })
                    } else {
                        r matches Err(Error::InvalidVariable(n)) && n@ == TICK_VAR@
                    },
                    None => r matches Err(Error::InvalidVariable(n)) && n@ == TICK_VAR@,
                },
            },
    {
        let ms = env_var(TICK_VAR, tick_sec, TICK_DIGITS, i64::MAX as u64);
        match ms {
            Ok(v) => if v >= 0 {
                Ok(Tick { interval_ms: v as u64 })
            } else {
                Err(Error::InvalidVariable(TICK_VAR.to_owned()))
            },
            Err(e) => Err(e),
        }
    }
}

/// The values that a provider exports, one per series: the last location's
/// error radius (mm), latitude and longitude (nanodegrees).
#[derive(Clone, Copy, Debug, PartialEq, Eq, Structural)]
pub struct LocationGauges {
    pub error_m: u64,
    pub latitude: i64,
    pub longitude: i64,
}

impl LocationGauges {
    /// Gauges that have exported nothing yet.
    pub fn new() -> (r: LocationGauges)
        ensures
            r == (LocationGauges { error_m: 0, latitude: 0, longitude: 0 }),
    {
        LocationGauges { error_m: 0, latitude: 0, longitude: 0 }
    }
}

/// Exports the global part of `location`; the entity's id is not exported.
pub fn update(gauges: &mut LocationGauges, location: ObjectLocation)
    ensures
        *final(gauges) == (LocationGauges {
            error_m: location.location.global.error_m,
            latitude: location.location.global.latitude,
            longitude: location.location.global.longitude,
        }),
{
    gauges.error_m = location.location.global.error_m;
    gauges.latitude = location.location.global.latitude;
    gauges.longitude = location.location.global.longitude;
}

} // verus!
