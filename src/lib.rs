//! Grill overheat monitor: a one-wire thermometer bus master and a rolling-average safety monitor.
mod error;
pub mod grill;
pub mod onewire;
pub mod rom;

pub use error::ProtocolError;
