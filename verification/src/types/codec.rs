//! Encoding and decoding of attribute values.

use vstd::prelude::*;

use crate::bytes::i16_bits;
use crate::bytes::i16_from_bits;
use crate::bytes::i32_bits;
use crate::bytes::i32_from_bits;
use crate::bytes::i8_bits;
use crate::bytes::read_u16;
use crate::bytes::read_u32;
use crate::bytes::Le;
use crate::types::error::AttrError;
use crate::types::error::ZclError;
use crate::types::ids::TypeId;

verus! {

/// An attribute value together with its data type.
///
/// Each integer type sets one bit pattern aside for "no value". The plain
/// variants refuse it; the nullable ones write it for `None`.
#[derive(Clone, Copy, Debug, PartialEq, Eq)]
pub enum AttrValue {
    Boolean(bool),
    Uint8(u8),
    Uint16(u16),
    Uint32(u32),
    Int16(i16),
    Int32(i32),
    Enum8(u8),
    Bitmap8(u8),
    Bitmap16(u16),
    Bitmap32(u32),
    NullableUint8(Option<u8>),
    NullableUint16(Option<u16>),
    NullableInt8(Option<i8>),
    NullableInt16(Option<i16>),
    NullableEnum8(Option<u8>),
}

/// What reading an attribute gives: its data type and encoded bytes, or why not.
pub type ReadSpec = Result<(TypeId, Seq<u8>), AttrError>;

impl AttrValue {
    pub open spec fn type_id(self) -> TypeId {
        match self {
            AttrValue::Boolean(_) => TypeId::Boolean,
            AttrValue::Uint8(_) | AttrValue::NullableUint8(_) => TypeId::Uint8,
            AttrValue::Uint16(_) | AttrValue::NullableUint16(_) => TypeId::Uint16,
            AttrValue::Uint32(_) => TypeId::Uint32,
            AttrValue::NullableInt8(_) => TypeId::Int8,
            AttrValue::Int16(_) | AttrValue::NullableInt16(_) => TypeId::Int16,
            AttrValue::Int32(_) => TypeId::Int32,
            AttrValue::Enum8(_) | AttrValue::NullableEnum8(_) => TypeId::Enum8,
            AttrValue::Bitmap8(_) => TypeId::Bitmap8,
            AttrValue::Bitmap16(_) => TypeId::Bitmap16,
            AttrValue::Bitmap32(_) => TypeId::Bitmap32,
        }
    }

    /// The encoded value.
    pub open spec fn bytes(self) -> Seq<u8> {
        match self {
            AttrValue::Boolean(v) => seq![if v { 1u8 } else { 0u8 }],
            AttrValue::Uint8(v) | AttrValue::Enum8(v) | AttrValue::Bitmap8(v) => seq![v],
            AttrValue::Uint16(v) | AttrValue::Bitmap16(v) => Le::u16(v),
            AttrValue::Uint32(v) | AttrValue::Bitmap32(v) => Le::u32(v),
            AttrValue::Int16(v) => Le::u16(Le::bits16(v)),
            AttrValue::Int32(v) => Le::u32(Le::bits32(v)),
            AttrValue::NullableUint8(v) | AttrValue::NullableEnum8(v) => seq![
                match v {
                    Some(x) => x,
                    None => 0xff,
                },
            ],
            AttrValue::NullableUint16(v) => Le::u16(
                match v {
                    Some(x) => x,
                    None => 0xffff,
                },
            ),
            AttrValue::NullableInt8(v) => seq![
                match v {
                    Some(x) => Le::bits8(x),
                    None => 0x80,
                },
            ],
            AttrValue::NullableInt16(v) => Le::u16(
                match v {
                    Some(x) => Le::bits16(x),
                    None => 0x8000,
                },
            ),
        }
    }

    /// The value carries the bit pattern that is set aside for "no value".
    pub open spec fn is_sentinel(self) -> bool {
        match self {
            AttrValue::Boolean(_)
            | AttrValue::Bitmap8(_)
            | AttrValue::Bitmap16(_)
            | AttrValue::Bitmap32(_) => false,
            AttrValue::Uint8(v) | AttrValue::Enum8(v) => v == 0xff,
            AttrValue::Uint16(v) => v == 0xffff,
            AttrValue::Uint32(v) => v == 0xffff_ffff,
            AttrValue::Int16(v) => v == i16::MIN,
            AttrValue::Int32(v) => v == i32::MIN,
            AttrValue::NullableUint8(v) | AttrValue::NullableEnum8(v) => v == Some(0xffu8),
            AttrValue::NullableUint16(v) => v == Some(0xffffu16),
            AttrValue::NullableInt8(v) => v == Some(i8::MIN),
            AttrValue::NullableInt16(v) => v == Some(i16::MIN),
        }
    }

    /// The outcome of reading this value into a buffer of `cap` bytes.
    pub open spec fn read(self, cap: nat) -> ReadSpec {
        if self.is_sentinel() {
            Err(AttrError::Codec(ZclError::NullSentinel))
        } else if cap < self.bytes().len() {
            Err(AttrError::Codec(ZclError::BufferTooSmall))
        } else {
            Ok((self.type_id(), self.bytes()))
        }
    }
}

/// `n` bytes were read into `after`, a buffer that held `before`, as `spec` says.
pub open spec fn read_into_matches(
    spec: ReadSpec,
    before: Seq<u8>,
    after: Seq<u8>,
    r: Result<(TypeId, usize), AttrError>,
) -> bool {
    match spec {
        Ok((type_id, bytes)) => {
            &&& bytes.len() <= before.len()
            &&& r == Ok::<(TypeId, usize), AttrError>((type_id, bytes.len() as usize))
            &&& after == bytes + before.skip(bytes.len() as int)
        },
        Err(e) => r == Err::<(TypeId, usize), AttrError>(e) && after == before,
    }
}

/// The raw bits, byte width and data type of a value, unless it is a sentinel.
fn parts(value: AttrValue) -> (r: Option<(TypeId, usize, u32)>)
    ensures
        match r {
            Some((type_id, n, raw)) => {
                &&& !value.is_sentinel()
                &&& type_id == value.type_id()
                &&& n == 1 || n == 2 || n == 4
                &&& value.bytes() == Le::u32(raw).take(n as int)
            },
            None => value.is_sentinel(),
        },
{
    let parts: (TypeId, usize, u32) = match value {
        AttrValue::Boolean(v) => (TypeId::Boolean, 1, if v { 1 } else { 0 }),
        AttrValue::Uint8(v) => {
            if v == 0xff {
                return None;
            }
            (TypeId::Uint8, 1, v as u32)
        },
        AttrValue::Uint16(v) => {
            if v == 0xffff {
                return None;
            }
            (TypeId::Uint16, 2, v as u32)
        },
        AttrValue::Uint32(v) => {
            if v == 0xffff_ffff {
                return None;
            }
            (TypeId::Uint32, 4, v)
        },
        AttrValue::Int16(v) => {
            if v == i16::MIN {
                return None;
            }
            (TypeId::Int16, 2, i16_bits(v) as u32)
        },
        AttrValue::Int32(v) => {
            if v == i32::MIN {
                return None;
            }
            (TypeId::Int32, 4, i32_bits(v))
        },
        AttrValue::Enum8(v) => {
            if v == 0xff {
                return None;
            }
            (TypeId::Enum8, 1, v as u32)
        },
        AttrValue::Bitmap8(v) => (TypeId::Bitmap8, 1, v as u32),
        AttrValue::Bitmap16(v) => (TypeId::Bitmap16, 2, v as u32),
        AttrValue::Bitmap32(v) => (TypeId::Bitmap32, 4, v),
        AttrValue::NullableUint8(Some(v)) => {
            if v == 0xff {
                return None;
            }
            (TypeId::Uint8, 1, v as u32)
        },
        AttrValue::NullableUint8(None) => (TypeId::Uint8, 1, 0xff),
        AttrValue::NullableUint16(Some(v)) => {
            if v == 0xffff {
                return None;
            }
            (TypeId::Uint16, 2, v as u32)
        },
        AttrValue::NullableUint16(None) => (TypeId::Uint16, 2, 0xffff),
        AttrValue::NullableInt8(Some(v)) => {
            if v == i8::MIN {
                return None;
            }
            (TypeId::Int8, 1, i8_bits(v) as u32)
        },
        AttrValue::NullableInt8(None) => (TypeId::Int8, 1, 0x80),
        AttrValue::NullableInt16(Some(v)) => {
            if v == i16::MIN {
                return None;
            }
            (TypeId::Int16, 2, i16_bits(v) as u32)
        },
        AttrValue::NullableInt16(None) => (TypeId::Int16, 2, 0x8000),
        AttrValue::NullableEnum8(Some(v)) => {
            if v == 0xff {
                return None;
            }
            (TypeId::Enum8, 1, v as u32)
        },
        AttrValue::NullableEnum8(None) => (TypeId::Enum8, 1, 0xff),
    };
    assert(value.bytes() =~= Le::u32(parts.2).take(parts.1 as int));
    Some(parts)
}

/// Write the encoded value to the front of `buf`.
pub fn encode_attr(value: AttrValue, buf: &mut [u8]) -> (r: Result<(TypeId, usize), AttrError>)
    ensures
        read_into_matches(value.read(old(buf)@.len()), old(buf)@, final(buf)@, r),
{
    match parts(value) {
        None => Err(AttrError::Codec(ZclError::NullSentinel)),
        Some((type_id, n, raw)) => {
            if buf.len() < n {
                return Err(AttrError::Codec(ZclError::BufferTooSmall));
            }
            let ghost before = buf@;
            buf[0] = (raw % 256) as u8;
            if n >= 2 {
                buf[1] = (raw / 256 % 256) as u8;
            }
            if n >= 4 {
                buf[2] = (raw / 65536 % 256) as u8;
                buf[3] = (raw / 16777216) as u8;
            }
            assert(buf@ =~= value.bytes() + before.skip(n as int));
            Ok((type_id, n))
        },
    }
}

/// What decoding a fixed-width value gives before its bits are looked at.
pub open spec fn checked_width(
    expected: TypeId,
    width: nat,
    type_id: TypeId,
    data: Seq<u8>,
) -> Result<(), AttrError> {
    if type_id != expected {
        Err(AttrError::InvalidDataType)
    } else if data.len() < width {
        Err(AttrError::Codec(ZclError::InsufficientBytes))
    } else if data.len() > width {
        Err(AttrError::Codec(ZclError::InvalidLength))
    } else {
        Ok(())
    }
}

fn check_width(expected: TypeId, width: usize, type_id: TypeId, data: &[u8]) -> (r: Result<
    (),
    AttrError,
>)
    ensures
        r == checked_width(expected, width as nat, type_id, data@),
{
    if type_id != expected {
        Err(AttrError::InvalidDataType)
    } else if data.len() < width {
        Err(AttrError::Codec(ZclError::InsufficientBytes))
    } else if data.len() > width {
        Err(AttrError::Codec(ZclError::InvalidLength))
    } else {
        Ok(())
    }
}

impl AttrValue {
    /// Decoding of an unsigned 32-bit integer.
    pub open spec fn decoded_u32(type_id: TypeId, data: Seq<u8>) -> Result<u32, AttrError> {
        match checked_width(TypeId::Uint32, 4, type_id, data) {
            Err(e) => Err(e),
            Ok(()) => if Le::u32_at(data, 0) == 0xffff_ffff {
                Err(AttrError::Codec(ZclError::NullSentinel))
            } else {
                Ok(Le::u32_at(data, 0))
            },
        }
    }

    /// Decoding of a signed 32-bit integer.
    pub open spec fn decoded_i32(type_id: TypeId, data: Seq<u8>) -> Result<i32, AttrError> {
        match checked_width(TypeId::Int32, 4, type_id, data) {
            Err(e) => Err(e),
            Ok(()) => if Le::signed32(Le::u32_at(data, 0)) == i32::MIN {
                Err(AttrError::Codec(ZclError::NullSentinel))
            } else {
                Ok(Le::signed32(Le::u32_at(data, 0)))
            },
        }
    }

    /// Decoding of a signed 16-bit integer.
    pub open spec fn decoded_i16(type_id: TypeId, data: Seq<u8>) -> Result<i16, AttrError> {
        match checked_width(TypeId::Int16, 2, type_id, data) {
            Err(e) => Err(e),
            Ok(()) => if Le::signed16(Le::u16_at(data, 0)) == i16::MIN {
                Err(AttrError::Codec(ZclError::NullSentinel))
            } else {
                Ok(Le::signed16(Le::u16_at(data, 0)))
            },
        }
    }

    /// Decoding of an eight-bit bitmap.
    pub open spec fn decoded_bitmap8(type_id: TypeId, data: Seq<u8>) -> Result<u8, AttrError> {
        match checked_width(TypeId::Bitmap8, 1, type_id, data) {
            Err(e) => Err(e),
            Ok(()) => Ok(data[0]),
        }
    }

    /// Decoding of an enumeration byte.
    pub open spec fn decoded_enum8(type_id: TypeId, data: Seq<u8>) -> Result<u8, AttrError> {
        match checked_width(TypeId::Enum8, 1, type_id, data) {
            Err(e) => Err(e),
            Ok(()) => if data[0] == 0xff {
                Err(AttrError::Codec(ZclError::NullSentinel))
            } else {
                Ok(data[0])
            },
        }
    }
}

pub fn decode_u32(type_id: TypeId, data: &[u8]) -> (r: Result<u32, AttrError>)
    ensures
        r == AttrValue::decoded_u32(type_id, data@),
{
    match check_width(TypeId::Uint32, 4, type_id, data) {
        Err(e) => Err(e),
        Ok(()) => {
            let v: u32 = read_u32(data, 0);
            if v == 0xffff_ffff {
                Err(AttrError::Codec(ZclError::NullSentinel))
            } else {
                Ok(v)
            }
        },
    }
}

pub fn decode_i32(type_id: TypeId, data: &[u8]) -> (r: Result<i32, AttrError>)
    ensures
        r == AttrValue::decoded_i32(type_id, data@),
{
    match check_width(TypeId::Int32, 4, type_id, data) {
        Err(e) => Err(e),
        Ok(()) => {
            let v: i32 = i32_from_bits(read_u32(data, 0));
            if v == i32::MIN {
                Err(AttrError::Codec(ZclError::NullSentinel))
            } else {
                Ok(v)
            }
        },
    }
}

pub fn decode_i16(type_id: TypeId, data: &[u8]) -> (r: Result<i16, AttrError>)
    ensures
        r == AttrValue::decoded_i16(type_id, data@),
{
    match check_width(TypeId::Int16, 2, type_id, data) {
        Err(e) => Err(e),
        Ok(()) => {
            let v: i16 = i16_from_bits(read_u16(data, 0));
            if v == i16::MIN {
                Err(AttrError::Codec(ZclError::NullSentinel))
            } else {
                Ok(v)
            }
        },
    }
}

pub fn decode_bitmap8(type_id: TypeId, data: &[u8]) -> (r: Result<u8, AttrError>)
    ensures
        r == AttrValue::decoded_bitmap8(type_id, data@),
{
    match check_width(TypeId::Bitmap8, 1, type_id, data) {
        Err(e) => Err(e),
        Ok(()) => Ok(data[0]),
    }
}

pub fn decode_enum8(type_id: TypeId, data: &[u8]) -> (r: Result<u8, AttrError>)
    ensures
        r == AttrValue::decoded_enum8(type_id, data@),
{
    match check_width(TypeId::Enum8, 1, type_id, data) {
        Err(e) => Err(e),
        Ok(()) => if data[0] == 0xff {
            Err(AttrError::Codec(ZclError::NullSentinel))
        } else {
            Ok(data[0])
        },
    }
}

/// What is read of a signed 16-bit attribute decodes to the value it holds.
pub proof fn lemma_i16_read_decodes(v: i16, cap: nat)
    requires
        AttrValue::Int16(v).read(cap) is Ok,
    ensures
        AttrValue::decoded_i16(
            AttrValue::Int16(v).read(cap)->Ok_0.0,
            AttrValue::Int16(v).read(cap)->Ok_0.1,
        ) == Ok::<i16, AttrError>(v),
{
    crate::bytes::lemma_u16_round_trip(Le::bits16(v));
    crate::bytes::lemma_signed16_round_trip(v);
}

/// What is read of an unsigned 32-bit attribute decodes to the value it holds.
pub proof fn lemma_u32_read_decodes(v: u32, cap: nat)
    requires
        AttrValue::Uint32(v).read(cap) is Ok,
    ensures
        AttrValue::decoded_u32(
            AttrValue::Uint32(v).read(cap)->Ok_0.0,
            AttrValue::Uint32(v).read(cap)->Ok_0.1,
        ) == Ok::<u32, AttrError>(v),
{
    crate::bytes::lemma_u32_round_trip(v);
}

/// What is read of a signed 32-bit attribute decodes to the value it holds.
pub proof fn lemma_i32_read_decodes(v: i32, cap: nat)
    requires
        AttrValue::Int32(v).read(cap) is Ok,
    ensures
        AttrValue::decoded_i32(
            AttrValue::Int32(v).read(cap)->Ok_0.0,
            AttrValue::Int32(v).read(cap)->Ok_0.1,
        ) == Ok::<i32, AttrError>(v),
{
    crate::bytes::lemma_u32_round_trip(Le::bits32(v));
}

} // verus!
