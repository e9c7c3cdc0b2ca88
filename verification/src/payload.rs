//! Payloads of attribute write commands.

use vstd::prelude::*;

use crate::bytes::read_u16;
use crate::bytes::Le;
use crate::types::ids::AttributeId;
use crate::types::ids::TypeId;
use crate::types::ids::ValueWidth;

verus! {

/// The payload of a write command: records of attribute identifier, data type
/// and value, one after the other.
#[derive(Clone, Copy)]
pub struct WriteAttributesPayload<'a> {
    pub data: &'a [u8],
}

/// One record of a write command.
#[derive(Clone, Copy)]
pub struct WriteRecord<'a> {
    pub attr_id: AttributeId,
    pub type_id: TypeId,
    pub value: &'a [u8],
}

/// What stands at a position of a write command's payload.
pub enum WriteStep<'a> {
    /// The payload is used up.
    End,
    /// A record, and the position after it.
    Record(WriteRecord<'a>, usize),
    /// A record whose data type does not say how long the value is.
    UnknownType(AttributeId),
    /// A record that the payload ends within.
    Truncated,
}

/// What a write command's remaining payload starts with.
pub enum WriteItem {
    End,
    Record { attr_id: AttributeId, type_id: TypeId, value: Seq<u8> },
    UnknownType(AttributeId),
    Truncated,
}

impl WriteItem {
    /// The number of bytes of the value that `rest` starts with, by its data
    /// type's width. `None` where `rest` is too short to tell.
    pub open spec fn value_len(width: ValueWidth, rest: Seq<u8>) -> Option<nat> {
        match width {
            ValueWidth::Fixed(n) => Some(n as nat),
            ValueWidth::ShortString => if rest.len() < 1 {
                None
            } else {
                Some((1 + rest[0]) as nat)
            },
            ValueWidth::LongString => if rest.len() < 2 {
                None
            } else {
                Some((2 + Le::u16_at(rest, 0)) as nat)
            },
            ValueWidth::Composite => None,
        }
    }

    /// The first item of `rest`.
    pub open spec fn first(rest: Seq<u8>) -> WriteItem {
        if rest.len() == 0 {
            WriteItem::End
        } else if rest.len() < 3 {
            WriteItem::Truncated
        } else if exists|t: TypeId| #[trigger] t.code() == rest[2] {
            let t = choose|t: TypeId| #[trigger] t.code() == rest[2];
            if t.width() == ValueWidth::Composite {
                WriteItem::UnknownType(AttributeId(Le::u16_at(rest, 0)))
            } else {
                match Self::value_len(t.width(), rest.skip(3)) {
                    None => WriteItem::Truncated,
                    Some(n) => if rest.len() < 3 + n {
                        WriteItem::Truncated
                    } else {
                        WriteItem::Record {
                            attr_id: AttributeId(Le::u16_at(rest, 0)),
                            type_id: t,
                            value: rest.subrange(3, (3 + n) as int),
                        }
                    },
                }
            }
        } else {
            WriteItem::UnknownType(AttributeId(Le::u16_at(rest, 0)))
        }
    }

    /// What follows the record that `rest` starts with.
    pub open spec fn after(rest: Seq<u8>) -> Seq<u8> {
        match Self::first(rest) {
            WriteItem::Record { value, .. } => rest.skip((3 + value.len()) as int),
            _ => Seq::empty(),
        }
    }
}

impl<'a> WriteStep<'a> {
    /// The step is what the payload `data` holds at `pos`.
    pub open spec fn is_at(self, data: Seq<u8>, pos: int) -> bool {
        let rest = data.skip(pos);
        match self {
            WriteStep::End => WriteItem::first(rest) == WriteItem::End,
            WriteStep::Record(record, next) => {
                &&& WriteItem::first(rest) == (WriteItem::Record {
                    attr_id: record.attr_id,
                    type_id: record.type_id,
                    value: record.value@,
                })
                &&& pos < next <= data.len()
                &&& WriteItem::after(rest) == data.skip(next as int)
            },
            WriteStep::UnknownType(id) => WriteItem::first(rest) == WriteItem::UnknownType(id),
            WriteStep::Truncated => WriteItem::first(rest) == WriteItem::Truncated,
        }
    }
}

impl<'a> WriteAttributesPayload<'a> {
    /// What stands at `pos`.
    pub fn step(&self, pos: usize) -> (step: WriteStep<'a>)
        requires
            pos <= self.data@.len(),
        ensures
            step.is_at(self.data@, pos as int),
    {
        let data: &'a [u8] = self.data;
        let ghost rest = data@.skip(pos as int);
        let left: usize = data.len() - pos;
        if left == 0 {
            return WriteStep::End;
        }
        if left < 3 {
            return WriteStep::Truncated;
        }
        let attr_id: AttributeId = AttributeId(read_u16(data, pos));
        let type_id: TypeId = match TypeId::from_u8(data[pos + 2]) {
            Some(type_id) => type_id,
            None => {
                return WriteStep::UnknownType(attr_id);
            },
        };
        proof {
            assert(type_id.code() == rest[2]);
            let chosen = choose|t: TypeId| #[trigger] t.code() == rest[2];
            crate::types::ids::lemma_type_codes_distinct(type_id, chosen);
        }
        let avail: usize = left - 3;
        let n: usize = match type_id.value_width() {
            ValueWidth::Fixed(n) => n as usize,
            ValueWidth::ShortString => {
                if avail < 1 {
                    return WriteStep::Truncated;
                }
                1 + data[pos + 3] as usize
            },
            ValueWidth::LongString => {
                if avail < 2 {
                    return WriteStep::Truncated;
                }
                2 + read_u16(data, pos + 3) as usize
            },
            ValueWidth::Composite => {
                return WriteStep::UnknownType(attr_id);
            },
        };
        if avail < n {
            return WriteStep::Truncated;
        }
        let value: &'a [u8] = &data[pos + 3..pos + 3 + n];
        assert(value@ =~= rest.subrange(3, 3 + n as int));
        assert(rest.skip(3 + n as int) =~= data@.skip(pos + 3 + n as int));
        WriteStep::Record(WriteRecord { attr_id, type_id, value }, pos + 3 + n)
    }
}

} // verus!
