//! Heating, ventilation and air conditioning clusters.

pub mod thermostat;
pub mod thermostat_laws;
