//! Measurement and sensing clusters.

pub mod server;
pub mod illuminance;
pub mod occupancy;
pub mod electrical;
pub mod measurement_laws;
