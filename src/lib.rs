//! Geographic positioning of tracked assets: a calibration engine that turns
//! sensor-local readings into global coordinates, and the decision logic of the
//! transports and query client that feed it.
//!
//! All quantities are fixed-point integers:
//! - angles (latitude, longitude, degree offsets) in nanodegrees;
//! - lengths (metric offsets, error radii) in millimetres;
//! - axis scale factors in parts per million;
//! - the anchor's rotation as a unit vector in parts per billion.

pub mod consts;
pub mod decimal;
pub mod dummy;
pub mod error;
pub mod location;
pub mod provider;
pub mod query;
pub mod uwb;

pub use error::Error;
pub use location::{
    Base, GlobalLocation, LocalLocation, Location, LocationMetric, LocationVectorScale,
    ObjectLocation, Rotation,
};
pub use provider::{env_var, update, LocationGauges, Tick};
pub use query::{is_empty, DataRef, LocationData, QueryData, QueryMetric, QueryResponse, QueryResult};
