//! Clusters that any device may have.

pub mod answer_laws;
pub mod reply;
pub mod scenes;
pub mod scenes_laws;
pub mod groups;
pub mod groups_laws;
pub mod alarms;
pub mod alarms_laws;
pub mod identify;
pub mod identify_laws;
pub mod time;
pub mod power_config;
pub mod basic;
pub mod plain_laws;
