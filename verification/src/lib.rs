//! Zigbee cluster servers and base device behaviour.

pub mod attribute_store;
pub mod attribute_store_laws;
pub mod bdb;
pub mod bounded;
pub mod bytes;
pub mod cluster_server;
pub mod common;
pub mod context;
pub mod device;
pub mod device_laws;
pub mod dispatch;
pub mod dispatch_laws;
pub mod frame;
pub mod hvac;
pub mod lighting;
pub mod measurement;
pub mod payload;
pub mod reporting;
pub mod reporting_laws;
pub mod request_laws;
pub mod sensor;
pub mod server_report_laws;
pub mod types;
pub mod wire_laws;
pub mod write_laws;
