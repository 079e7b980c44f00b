//! Core logic of a command line client for a Traccar GPS tracking server:
//! device and position records, the reports that describe where a device is,
//! the live-tail state machine, the report store that detects geofence
//! movements, and the decisions taken by the interactive modes.
//!
//! Floating point values (coordinates, distances, bearings) are carried as
//! their IEEE-754 bit patterns (`u64`); the arithmetic on them happens in the
//! application crate.

pub mod arguments;
pub mod lookup;
pub mod config;
pub mod devices;
pub mod error;
pub mod positions;
pub mod time;
pub mod report;
pub mod geofences;
pub mod reporter;
pub mod mode;

pub use devices::{Device, DeviceConfig, DeviceReponse};
pub use error::TracarrError;
pub use geofences::GeoFenceResponse;
pub use positions::{Position, PositionResponse};
pub use report::Report;
pub use reporter::{Landmark, Reporter};
