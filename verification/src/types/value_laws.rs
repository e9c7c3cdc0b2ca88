//! How attribute values stand in bytes.

use vstd::prelude::*;

use crate::types::codec::AttrValue;
use crate::types::codec::ReadSpec;
use crate::types::descriptors::AttrInfo;
use crate::types::error::AttrError;
use crate::types::error::ZclError;
use crate::types::ids::TypeId;

verus! {

/// The number that one, two or four bytes hold, the lowest first.
pub open spec fn little(b: Seq<u8>) -> int {
    if b.len() == 1 {
        b[0] as int
    } else if b.len() == 2 {
        b[0] + 0x100 * b[1]
    } else {
        b[0] + 0x100 * b[1] + 0x1_0000 * b[2] + 0x100_0000 * b[3]
    }
}

/// How many numbers `width` bytes tell apart.
pub open spec fn span(width: nat) -> int {
    if width == 1 {
        0x100
    } else if width == 2 {
        0x1_0000
    } else {
        0x1_0000_0000
    }
}

/// What was read is number `v` in `width` bytes, under the data type with byte `code`;
/// a negative number stands in two's complement.
pub open spec fn reads(read: ReadSpec, code: u8, width: nat, v: int) -> bool {
    read matches Ok((type_id, b)) && {
        &&& type_id.code() == code
        &&& b.len() == width
        &&& little(b) == if v < 0 {
            v + span(width)
        } else {
            v
        }
    }
}

/// The attribute is not there.
pub open spec fn missing(read: ReadSpec) -> bool {
    read == Err::<(TypeId, Seq<u8>), AttrError>(AttrError::UnsupportedAttribute)
}

/// The value cannot be told from "no value", and is not handed out.
pub open spec fn withheld(read: ReadSpec) -> bool {
    read == Err::<(TypeId, Seq<u8>), AttrError>(AttrError::Codec(ZclError::NullSentinel))
}

/// The entry is of attribute `id`, with the data type of byte `code`, readable, and
/// writable and reportable as said.
pub open spec fn entry(info: AttrInfo, id: u16, code: u8, writable: bool, reportable: bool) -> bool {
    &&& info.id.0 == id
    &&& info.type_id.code() == code
    &&& info.access.readable
    &&& info.access.writable == writable
    &&& info.access.reportable == reportable
}

/// Every kind of value is encoded under its data type, in as many bytes as the type has;
/// all ones, or the lowest number of a signed type, mean that there is no value.
pub proof fn law_values_are_encoded(
    b: bool,
    v8: u8,
    v16: u16,
    v32: u32,
    s8: i8,
    s16: i16,
    s32: i32,
    cap: nat,
)
    requires
        cap >= 4,
    ensures
        reads(AttrValue::Boolean(b).read(cap), 0x10, 1, if b {
            1
        } else {
            0
        }),
        reads(AttrValue::Bitmap8(v8).read(cap), 0x18, 1, v8 as int),
        reads(AttrValue::Bitmap16(v16).read(cap), 0x19, 2, v16 as int),
        reads(AttrValue::Bitmap32(v32).read(cap), 0x1b, 4, v32 as int),
        v8 != 0xff ==> reads(AttrValue::Uint8(v8).read(cap), 0x20, 1, v8 as int),
        v16 != 0xffff ==> reads(AttrValue::Uint16(v16).read(cap), 0x21, 2, v16 as int),
        v32 != 0xffff_ffff ==> reads(AttrValue::Uint32(v32).read(cap), 0x23, 4, v32 as int),
        s16 != -0x8000 ==> reads(AttrValue::Int16(s16).read(cap), 0x29, 2, s16 as int),
        s32 != -0x8000_0000 ==> reads(AttrValue::Int32(s32).read(cap), 0x2b, 4, s32 as int),
        v8 != 0xff ==> reads(AttrValue::Enum8(v8).read(cap), 0x30, 1, v8 as int),
        v8 != 0xff ==> reads(AttrValue::NullableUint8(Some(v8)).read(cap), 0x20, 1, v8 as int),
        v16 != 0xffff ==> reads(AttrValue::NullableUint16(Some(v16)).read(cap), 0x21, 2, v16 as int),
        s8 != -0x80 ==> reads(AttrValue::NullableInt8(Some(s8)).read(cap), 0x28, 1, s8 as int),
        s16 != -0x8000 ==> reads(AttrValue::NullableInt16(Some(s16)).read(cap), 0x29, 2, s16 as int),
        v8 != 0xff ==> reads(AttrValue::NullableEnum8(Some(v8)).read(cap), 0x30, 1, v8 as int),
        reads(AttrValue::NullableUint8(None).read(cap), 0x20, 1, 0xff),
        reads(AttrValue::NullableUint16(None).read(cap), 0x21, 2, 0xffff),
        reads(AttrValue::NullableInt8(None).read(cap), 0x28, 1, -0x80),
        reads(AttrValue::NullableInt16(None).read(cap), 0x29, 2, -0x8000),
        reads(AttrValue::NullableEnum8(None).read(cap), 0x30, 1, 0xff),
        withheld(AttrValue::Uint8(0xff).read(cap)),
        withheld(AttrValue::Uint16(0xffff).read(cap)),
        withheld(AttrValue::Uint32(0xffff_ffff).read(cap)),
        withheld(AttrValue::Int16(i16::MIN).read(cap)),
        withheld(AttrValue::Int32(i32::MIN).read(cap)),
        withheld(AttrValue::Enum8(0xff).read(cap)),
        withheld(AttrValue::NullableUint8(Some(0xff)).read(cap)),
        withheld(AttrValue::NullableUint16(Some(0xffff)).read(cap)),
        withheld(AttrValue::NullableInt8(Some(i8::MIN)).read(cap)),
        withheld(AttrValue::NullableInt16(Some(i16::MIN)).read(cap)),
        withheld(AttrValue::NullableEnum8(Some(0xff)).read(cap)),
{
}

/// A value goes into any buffer that has room for its bytes, and into no smaller one.
pub proof fn law_value_needs_its_width(value: AttrValue, cap: nat)
    requires
        value.read(4) is Ok,
    ensures
        ({
            let b = value.read(4)->Ok_0.1;
            if b.len() <= cap {
                value.read(cap) == value.read(4)
            } else {
                value.read(cap) == Err::<(TypeId, Seq<u8>), AttrError>(
                    AttrError::Codec(ZclError::BufferTooSmall),
                )
            }
        }),
{
}

/// A value decodes from exactly its bytes under exactly its type, to the number that they
/// hold; and the pattern of "no value" does not decode.
pub proof fn law_values_are_decoded(t: TypeId, d: Seq<u8>)
    ensures
        t.code() != 0x23 ==> AttrValue::decoded_u32(t, d) == Err::<u32, AttrError>(
            AttrError::InvalidDataType,
        ),
        t.code() == 0x23 && d.len() == 4 ==> (if little(d) == 0xffff_ffff {
            AttrValue::decoded_u32(t, d) == Err::<u32, AttrError>(
                AttrError::Codec(ZclError::NullSentinel),
            )
        } else {
            AttrValue::decoded_u32(t, d) is Ok && AttrValue::decoded_u32(t, d)->Ok_0 == little(d)
        }),
        t.code() != 0x2b ==> AttrValue::decoded_i32(t, d) == Err::<i32, AttrError>(
            AttrError::InvalidDataType,
        ),
        t.code() == 0x2b && d.len() == 4 ==> (if little(d) == 0x8000_0000 {
            AttrValue::decoded_i32(t, d) == Err::<i32, AttrError>(
                AttrError::Codec(ZclError::NullSentinel),
            )
        } else {
            AttrValue::decoded_i32(t, d) is Ok && AttrValue::decoded_i32(t, d)->Ok_0 == if little(d)
                < 0x8000_0000 {
                little(d)
            } else {
                little(d) - 0x1_0000_0000
            }
        }),
        t.code() != 0x29 ==> AttrValue::decoded_i16(t, d) == Err::<i16, AttrError>(
            AttrError::InvalidDataType,
        ),
        t.code() == 0x29 && d.len() == 2 ==> (if little(d) == 0x8000 {
            AttrValue::decoded_i16(t, d) == Err::<i16, AttrError>(
                AttrError::Codec(ZclError::NullSentinel),
            )
        } else {
            AttrValue::decoded_i16(t, d) is Ok && AttrValue::decoded_i16(t, d)->Ok_0 == if little(d)
                < 0x8000 {
                little(d)
            } else {
                little(d) - 0x1_0000
            }
        }),
        t.code() != 0x18 ==> AttrValue::decoded_bitmap8(t, d) == Err::<u8, AttrError>(
            AttrError::InvalidDataType,
        ),
        t.code() == 0x18 && d.len() == 1 ==> AttrValue::decoded_bitmap8(t, d) == Ok::<u8, AttrError>(
            d[0],
        ),
        t.code() != 0x30 ==> AttrValue::decoded_enum8(t, d) == Err::<u8, AttrError>(
            AttrError::InvalidDataType,
        ),
        t.code() == 0x30 && d.len() == 1 ==> AttrValue::decoded_enum8(t, d) == (if d[0] == 0xff {
            Err::<u8, AttrError>(AttrError::Codec(ZclError::NullSentinel))
        } else {
            Ok::<u8, AttrError>(d[0])
        }),
{
}

/// Too few bytes and too many are told apart.
pub proof fn law_value_length_is_exact(t: TypeId, d: Seq<u8>)
    ensures
        t.code() == 0x23 && d.len() < 4 ==> AttrValue::decoded_u32(t, d) == Err::<u32, AttrError>(
            AttrError::Codec(ZclError::InsufficientBytes),
        ),
        t.code() == 0x23 && d.len() > 4 ==> AttrValue::decoded_u32(t, d) == Err::<u32, AttrError>(
            AttrError::Codec(ZclError::InvalidLength),
        ),
        t.code() == 0x2b && d.len() < 4 ==> AttrValue::decoded_i32(t, d) == Err::<i32, AttrError>(
            AttrError::Codec(ZclError::InsufficientBytes),
        ),
        t.code() == 0x2b && d.len() > 4 ==> AttrValue::decoded_i32(t, d) == Err::<i32, AttrError>(
            AttrError::Codec(ZclError::InvalidLength),
        ),
        t.code() == 0x29 && d.len() < 2 ==> AttrValue::decoded_i16(t, d) == Err::<i16, AttrError>(
            AttrError::Codec(ZclError::InsufficientBytes),
        ),
        t.code() == 0x29 && d.len() > 2 ==> AttrValue::decoded_i16(t, d) == Err::<i16, AttrError>(
            AttrError::Codec(ZclError::InvalidLength),
        ),
        t.code() == 0x18 && d.len() < 1 ==> AttrValue::decoded_bitmap8(t, d) == Err::<u8, AttrError>(
            AttrError::Codec(ZclError::InsufficientBytes),
        ),
        t.code() == 0x18 && d.len() > 1 ==> AttrValue::decoded_bitmap8(t, d) == Err::<u8, AttrError>(
            AttrError::Codec(ZclError::InvalidLength),
        ),
        t.code() == 0x30 && d.len() < 1 ==> AttrValue::decoded_enum8(t, d) == Err::<u8, AttrError>(
            AttrError::Codec(ZclError::InsufficientBytes),
        ),
        t.code() == 0x30 && d.len() > 1 ==> AttrValue::decoded_enum8(t, d) == Err::<u8, AttrError>(
            AttrError::Codec(ZclError::InvalidLength),
        ),
{
}

} // verus!
