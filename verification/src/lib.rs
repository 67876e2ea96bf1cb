//! Ground-station core for a rocket active-control device: the binary serial
//! protocol engine (framing, telemetry download, replay upload) and a
//! fixed-point flight-dynamics simulator with a proportional control law.
//!
//! All numeric simulation state is carried in signed 64-bit fixed-point
//! micro-units (one unit is `1/1_000_000`); wire messages carry IEEE-754
//! single-precision fields as raw 32-bit patterns, so the codec and every
//! protocol decision are exact integer computations.

pub mod download;
pub mod error;
pub mod fixed;
pub mod link;
pub mod replay;
pub mod sim;
pub mod wire;

pub use error::ProtoError;
