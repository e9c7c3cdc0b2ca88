//! Codec and attribute access errors.

use vstd::prelude::*;

use crate::frame::Status;

verus! {

/// A frame or value could not be encoded or decoded.
#[derive(Clone, Copy, Debug, PartialEq, Eq, Structural)]
pub enum ZclError {
    /// The input ended before the field did.
    InsufficientBytes,
    /// The output does not fit the buffer.
    BufferTooSmall,
    /// The input is longer than the field.
    InvalidLength,
    /// The bytes are no value of the field's type.
    InvalidValue,
    /// The byte names no enumeration variant.
    InvalidEnumValue,
    /// The bytes are the "no value" marker of a type that is not nullable here.
    NullSentinel,
}

/// An attribute could not be read or written.
#[derive(Clone, Copy, Debug, PartialEq, Eq, Structural)]
pub enum AttrError {
    UnsupportedAttribute,
    ReadOnly,
    InvalidDataType,
    InvalidValue,
    Codec(ZclError),
}

impl AttrError {
    /// The status reported to the requester, or `None` for a codec error, which
    /// aborts the whole request.
    pub open spec fn status(self) -> Option<Status> {
        match self {
            AttrError::UnsupportedAttribute => Some(Status::UnsupportedAttribute),
            AttrError::ReadOnly => Some(Status::ReadOnly),
            AttrError::InvalidDataType => Some(Status::InvalidDataType),
            AttrError::InvalidValue => Some(Status::InvalidValue),
            AttrError::Codec(_) => None,
        }
    }

    pub fn to_status(self) -> (status: Option<Status>)
        ensures
            status == self.status(),
    {
        match self {
            AttrError::UnsupportedAttribute => Some(Status::UnsupportedAttribute),
            AttrError::ReadOnly => Some(Status::ReadOnly),
            AttrError::InvalidDataType => Some(Status::InvalidDataType),
            AttrError::InvalidValue => Some(Status::InvalidValue),
            AttrError::Codec(_) => None,
        }
    }
}

} // verus!
