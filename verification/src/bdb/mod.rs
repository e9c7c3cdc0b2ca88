//! Base device behaviour: commissioning, device discovery, bindings and reports.

pub mod behavior;
pub mod behavior_laws;
pub mod channels;
pub mod exchange;
pub mod exchange_laws;
pub mod reports;
pub mod steering;
pub mod steering_laws;
pub mod tables;
pub mod types;
pub mod zdp;
pub mod zdp_laws;
