//! Numeric identifiers of the cluster library.

use vstd::prelude::*;

verus! {

/// Identifies an attribute within a cluster.
#[derive(Clone, Copy, Debug, PartialEq, Eq, Structural)]
pub struct AttributeId(pub u16);

impl AttributeId {
    pub fn new(raw: u16) -> (id: Self)
        ensures
            id == AttributeId(raw),
    {
        AttributeId(raw)
    }
}

/// Identifies a cluster.
#[derive(Clone, Copy, Debug, PartialEq, Eq, Structural)]
pub struct ClusterId(pub u16);

impl ClusterId {
    pub fn new(raw: u16) -> (id: Self)
        ensures
            id == ClusterId(raw),
    {
        ClusterId(raw)
    }
}

/// Identifies a cluster-specific command.
#[derive(Clone, Copy, Debug, PartialEq, Eq, Structural)]
pub struct CommandId(pub u8);

impl CommandId {
    pub fn new(raw: u8) -> (id: Self)
        ensures
            id == CommandId(raw),
    {
        CommandId(raw)
    }

    /// The list is strictly ascending.
    pub open spec fn sorted(list: Seq<CommandId>) -> bool {
        forall|i: int, j: int| 0 <= i < j < list.len() ==> #[trigger] list[i].0 < #[trigger] list[j].0
    }
}

/// Identifies a manufacturer in manufacturer-specific frames.
#[derive(Clone, Copy, Debug, PartialEq, Eq, Structural)]
pub struct ManufacturerCode(pub u16);

impl ManufacturerCode {
    pub fn new(raw: u16) -> (code: Self)
        ensures
            code == ManufacturerCode(raw),
    {
        ManufacturerCode(raw)
    }
}

/// How many bytes an encoded value of a data type takes.
#[derive(Clone, Copy, Debug, PartialEq, Eq, Structural)]
pub enum ValueWidth {
    /// Always this many bytes.
    Fixed(u8),
    /// A one-byte length followed by that many bytes.
    ShortString,
    /// A two-byte little-endian length followed by that many bytes.
    LongString,
    /// Depends on nested type information.
    Composite,
}

/// Attribute data type.
#[derive(Clone, Copy, Debug, PartialEq, Eq, Structural)]
pub enum TypeId {
    NoData,
    Data8,
    Data16,
    Data24,
    Data32,
    Data40,
    Data48,
    Data56,
    Data64,
    Boolean,
    Bitmap8,
    Bitmap16,
    Bitmap24,
    Bitmap32,
    Bitmap40,
    Bitmap48,
    Bitmap56,
    Bitmap64,
    Uint8,
    Uint16,
    Uint24,
    Uint32,
    Uint40,
    Uint48,
    Uint56,
    Uint64,
    Int8,
    Int16,
    Int24,
    Int32,
    Int40,
    Int48,
    Int56,
    Int64,
    Enum8,
    Enum16,
    SemiPrecision,
    SinglePrecision,
    DoublePrecision,
    OctetString,
    CharacterString,
    LongOctetString,
    LongCharacterString,
    Array,
    Structure,
    Collection,
    Bag,
    TimeOfDay,
    Date,
    UtcTime,
    ClusterIdentifier,
    AttributeIdentifier,
    BacnetOid,
    IeeeAddress,
    SecurityKey,
}

impl TypeId {
    /// The data type's identifier on the wire.
    pub open spec fn code(self) -> u8 {
        match self {
            TypeId::NoData => 0x00,
            TypeId::Data8 => 0x08,
            TypeId::Data16 => 0x09,
            TypeId::Data24 => 0x0a,
            TypeId::Data32 => 0x0b,
            TypeId::Data40 => 0x0c,
            TypeId::Data48 => 0x0d,
            TypeId::Data56 => 0x0e,
            TypeId::Data64 => 0x0f,
            TypeId::Boolean => 0x10,
            TypeId::Bitmap8 => 0x18,
            TypeId::Bitmap16 => 0x19,
            TypeId::Bitmap24 => 0x1a,
            TypeId::Bitmap32 => 0x1b,
            TypeId::Bitmap40 => 0x1c,
            TypeId::Bitmap48 => 0x1d,
            TypeId::Bitmap56 => 0x1e,
            TypeId::Bitmap64 => 0x1f,
            TypeId::Uint8 => 0x20,
            TypeId::Uint16 => 0x21,
            TypeId::Uint24 => 0x22,
            TypeId::Uint32 => 0x23,
            TypeId::Uint40 => 0x24,
            TypeId::Uint48 => 0x25,
            TypeId::Uint56 => 0x26,
            TypeId::Uint64 => 0x27,
            TypeId::Int8 => 0x28,
            TypeId::Int16 => 0x29,
            TypeId::Int24 => 0x2a,
            TypeId::Int32 => 0x2b,
            TypeId::Int40 => 0x2c,
            TypeId::Int48 => 0x2d,
            TypeId::Int56 => 0x2e,
            TypeId::Int64 => 0x2f,
            TypeId::Enum8 => 0x30,
            TypeId::Enum16 => 0x31,
            TypeId::SemiPrecision => 0x38,
            TypeId::SinglePrecision => 0x39,
            TypeId::DoublePrecision => 0x3a,
            TypeId::OctetString => 0x41,
            TypeId::CharacterString => 0x42,
            TypeId::LongOctetString => 0x43,
            TypeId::LongCharacterString => 0x44,
            TypeId::Array => 0x48,
            TypeId::Structure => 0x4c,
            TypeId::Collection => 0x50,
            TypeId::Bag => 0x51,
            TypeId::TimeOfDay => 0xe0,
            TypeId::Date => 0xe1,
            TypeId::UtcTime => 0xe2,
            TypeId::ClusterIdentifier => 0xe8,
            TypeId::AttributeIdentifier => 0xe9,
            TypeId::BacnetOid => 0xea,
            TypeId::IeeeAddress => 0xf0,
            TypeId::SecurityKey => 0xf1,
        }
    }

    pub fn as_u8(self) -> (raw: u8)
        ensures
            raw == self.code(),
    {
        match self {
            TypeId::NoData => 0x00,
            TypeId::Data8 => 0x08,
            TypeId::Data16 => 0x09,
            TypeId::Data24 => 0x0a,
            TypeId::Data32 => 0x0b,
            TypeId::Data40 => 0x0c,
            TypeId::Data48 => 0x0d,
            TypeId::Data56 => 0x0e,
            TypeId::Data64 => 0x0f,
            TypeId::Boolean => 0x10,
            TypeId::Bitmap8 => 0x18,
            TypeId::Bitmap16 => 0x19,
            TypeId::Bitmap24 => 0x1a,
            TypeId::Bitmap32 => 0x1b,
            TypeId::Bitmap40 => 0x1c,
            TypeId::Bitmap48 => 0x1d,
            TypeId::Bitmap56 => 0x1e,
            TypeId::Bitmap64 => 0x1f,
            TypeId::Uint8 => 0x20,
            TypeId::Uint16 => 0x21,
            TypeId::Uint24 => 0x22,
            TypeId::Uint32 => 0x23,
            TypeId::Uint40 => 0x24,
            TypeId::Uint48 => 0x25,
            TypeId::Uint56 => 0x26,
            TypeId::Uint64 => 0x27,
            TypeId::Int8 => 0x28,
            TypeId::Int16 => 0x29,
            TypeId::Int24 => 0x2a,
            TypeId::Int32 => 0x2b,
            TypeId::Int40 => 0x2c,
            TypeId::Int48 => 0x2d,
            TypeId::Int56 => 0x2e,
            TypeId::Int64 => 0x2f,
            TypeId::Enum8 => 0x30,
            TypeId::Enum16 => 0x31,
            TypeId::SemiPrecision => 0x38,
            TypeId::SinglePrecision => 0x39,
            TypeId::DoublePrecision => 0x3a,
            TypeId::OctetString => 0x41,
            TypeId::CharacterString => 0x42,
            TypeId::LongOctetString => 0x43,
            TypeId::LongCharacterString => 0x44,
            TypeId::Array => 0x48,
            TypeId::Structure => 0x4c,
            TypeId::Collection => 0x50,
            TypeId::Bag => 0x51,
            TypeId::TimeOfDay => 0xe0,
            TypeId::Date => 0xe1,
            TypeId::UtcTime => 0xe2,
            TypeId::ClusterIdentifier => 0xe8,
            TypeId::AttributeIdentifier => 0xe9,
            TypeId::BacnetOid => 0xea,
            TypeId::IeeeAddress => 0xf0,
            TypeId::SecurityKey => 0xf1,
        }
    }

    /// The data type with wire identifier `raw`, if there is one.
    pub fn from_u8(raw: u8) -> (found: Option<TypeId>)
        ensures
            match found {
                Some(type_id) => type_id.code() == raw,
                None => forall|type_id: TypeId| #[trigger] type_id.code() != raw,
            },
    {
        match raw {
            0x00 => Some(TypeId::NoData),
            0x08 => Some(TypeId::Data8),
            0x09 => Some(TypeId::Data16),
            0x0a => Some(TypeId::Data24),
            0x0b => Some(TypeId::Data32),
            0x0c => Some(TypeId::Data40),
            0x0d => Some(TypeId::Data48),
            0x0e => Some(TypeId::Data56),
            0x0f => Some(TypeId::Data64),
            0x10 => Some(TypeId::Boolean),
            0x18 => Some(TypeId::Bitmap8),
            0x19 => Some(TypeId::Bitmap16),
            0x1a => Some(TypeId::Bitmap24),
            0x1b => Some(TypeId::Bitmap32),
            0x1c => Some(TypeId::Bitmap40),
            0x1d => Some(TypeId::Bitmap48),
            0x1e => Some(TypeId::Bitmap56),
            0x1f => Some(TypeId::Bitmap64),
            0x20 => Some(TypeId::Uint8),
            0x21 => Some(TypeId::Uint16),
            0x22 => Some(TypeId::Uint24),
            0x23 => Some(TypeId::Uint32),
            0x24 => Some(TypeId::Uint40),
            0x25 => Some(TypeId::Uint48),
            0x26 => Some(TypeId::Uint56),
            0x27 => Some(TypeId::Uint64),
            0x28 => Some(TypeId::Int8),
            0x29 => Some(TypeId::Int16),
            0x2a => Some(TypeId::Int24),
            0x2b => Some(TypeId::Int32),
            0x2c => Some(TypeId::Int40),
            0x2d => Some(TypeId::Int48),
            0x2e => Some(TypeId::Int56),
            0x2f => Some(TypeId::Int64),
            0x30 => Some(TypeId::Enum8),
            0x31 => Some(TypeId::Enum16),
            0x38 => Some(TypeId::SemiPrecision),
            0x39 => Some(TypeId::SinglePrecision),
            0x3a => Some(TypeId::DoublePrecision),
            0x41 => Some(TypeId::OctetString),
            0x42 => Some(TypeId::CharacterString),
            0x43 => Some(TypeId::LongOctetString),
            0x44 => Some(TypeId::LongCharacterString),
            0x48 => Some(TypeId::Array),
            0x4c => Some(TypeId::Structure),
            0x50 => Some(TypeId::Collection),
            0x51 => Some(TypeId::Bag),
            0xe0 => Some(TypeId::TimeOfDay),
            0xe1 => Some(TypeId::Date),
            0xe2 => Some(TypeId::UtcTime),
            0xe8 => Some(TypeId::ClusterIdentifier),
            0xe9 => Some(TypeId::AttributeIdentifier),
            0xea => Some(TypeId::BacnetOid),
            0xf0 => Some(TypeId::IeeeAddress),
            0xf1 => Some(TypeId::SecurityKey),
            _ => None,
        }
    }

    /// The width of an encoded value.
    pub open spec fn width(self) -> ValueWidth {
        match self {
            TypeId::NoData => ValueWidth::Fixed(0),
            TypeId::Data8
            | TypeId::Boolean
            | TypeId::Bitmap8
            | TypeId::Uint8
            | TypeId::Int8
            | TypeId::Enum8 => ValueWidth::Fixed(1),
            TypeId::Data16
            | TypeId::Bitmap16
            | TypeId::Uint16
            | TypeId::Int16
            | TypeId::Enum16
            | TypeId::SemiPrecision
            | TypeId::ClusterIdentifier
            | TypeId::AttributeIdentifier => ValueWidth::Fixed(2),
            TypeId::Data24
            | TypeId::Bitmap24
            | TypeId::Uint24
            | TypeId::Int24 => ValueWidth::Fixed(3),
            TypeId::Data32
            | TypeId::Bitmap32
            | TypeId::Uint32
            | TypeId::Int32
            | TypeId::SinglePrecision
            | TypeId::TimeOfDay
            | TypeId::Date
            | TypeId::UtcTime
            | TypeId::BacnetOid => ValueWidth::Fixed(4),
            TypeId::Data40
            | TypeId::Bitmap40
            | TypeId::Uint40
            | TypeId::Int40 => ValueWidth::Fixed(5),
            TypeId::Data48
            | TypeId::Bitmap48
            | TypeId::Uint48
            | TypeId::Int48 => ValueWidth::Fixed(6),
            TypeId::Data56
            | TypeId::Bitmap56
            | TypeId::Uint56
            | TypeId::Int56 => ValueWidth::Fixed(7),
            TypeId::Data64
            | TypeId::Bitmap64
            | TypeId::Uint64
            | TypeId::Int64
            | TypeId::DoublePrecision
            | TypeId::IeeeAddress => ValueWidth::Fixed(8),
            TypeId::OctetString
            | TypeId::CharacterString => ValueWidth::ShortString,
            TypeId::LongOctetString
            | TypeId::LongCharacterString => ValueWidth::LongString,
            TypeId::Array
            | TypeId::Structure
            | TypeId::Collection
            | TypeId::Bag => ValueWidth::Composite,
            TypeId::SecurityKey => ValueWidth::Fixed(16),
        }
    }

    pub fn value_width(self) -> (width: ValueWidth)
        ensures
            width == self.width(),
    {
        match self {
            TypeId::NoData => ValueWidth::Fixed(0),
            TypeId::Data8
            | TypeId::Boolean
            | TypeId::Bitmap8
            | TypeId::Uint8
            | TypeId::Int8
            | TypeId::Enum8 => ValueWidth::Fixed(1),
            TypeId::Data16
            | TypeId::Bitmap16
            | TypeId::Uint16
            | TypeId::Int16
            | TypeId::Enum16
            | TypeId::SemiPrecision
            | TypeId::ClusterIdentifier
            | TypeId::AttributeIdentifier => ValueWidth::Fixed(2),
            TypeId::Data24
            | TypeId::Bitmap24
            | TypeId::Uint24
            | TypeId::Int24 => ValueWidth::Fixed(3),
            TypeId::Data32
            | TypeId::Bitmap32
            | TypeId::Uint32
            | TypeId::Int32
            | TypeId::SinglePrecision
            | TypeId::TimeOfDay
            | TypeId::Date
            | TypeId::UtcTime
            | TypeId::BacnetOid => ValueWidth::Fixed(4),
            TypeId::Data40
            | TypeId::Bitmap40
            | TypeId::Uint40
            | TypeId::Int40 => ValueWidth::Fixed(5),
            TypeId::Data48
            | TypeId::Bitmap48
            | TypeId::Uint48
            | TypeId::Int48 => ValueWidth::Fixed(6),
            TypeId::Data56
            | TypeId::Bitmap56
            | TypeId::Uint56
            | TypeId::Int56 => ValueWidth::Fixed(7),
            TypeId::Data64
            | TypeId::Bitmap64
            | TypeId::Uint64
            | TypeId::Int64
            | TypeId::DoublePrecision
            | TypeId::IeeeAddress => ValueWidth::Fixed(8),
            TypeId::OctetString
            | TypeId::CharacterString => ValueWidth::ShortString,
            TypeId::LongOctetString
            | TypeId::LongCharacterString => ValueWidth::LongString,
            TypeId::Array
            | TypeId::Structure
            | TypeId::Collection
            | TypeId::Bag => ValueWidth::Composite,
            TypeId::SecurityKey => ValueWidth::Fixed(16),
        }
    }
}

/// Two data types with one wire identifier are the same type.
pub proof fn lemma_type_codes_distinct(a: TypeId, b: TypeId)
    requires
        a.code() == b.code(),
    ensures
        a == b,
{
}

} // verus!
