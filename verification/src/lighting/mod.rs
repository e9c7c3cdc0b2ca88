//! Lighting clusters.

pub mod transition;
pub mod color_control;
pub mod color_laws;
pub mod level_control;
pub mod lamp_laws;
pub mod level_laws;
pub mod on_off;
pub mod on_off_laws;
