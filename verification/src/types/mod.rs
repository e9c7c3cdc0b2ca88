//! Identifiers, data types, errors and value codecs shared by every cluster.

pub mod codec;
pub mod descriptors;
pub mod enums;
pub mod error;
pub mod ids;
pub mod value_laws;
