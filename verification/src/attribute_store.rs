//! Attributes described by a table, with constant and mutable storage.

use vstd::prelude::*;

use crate::bytes::copy_at;
use crate::bytes::le_number;
use crate::bytes::put_le;
use crate::bytes::Le;
use crate::types::codec::ReadSpec;
use crate::types::descriptors::AccessFlags;
use crate::types::error::AttrError;
use crate::types::error::ZclError;
use crate::types::ids::AttributeId;
use crate::types::ids::TypeId;
use crate::types::ids::ValueWidth;

verus! {

/// A string fixed at compile time.
#[derive(Clone, Copy, Debug)]
pub enum StaticStringValue {
    Text(&'static str),
}

impl StaticStringValue {
    /// The string's bytes.
    pub open spec fn raw(self) -> Seq<u8> {
        match self {
            StaticStringValue::Text(s) => vstd::utf8::encode_utf8(s@),
        }
    }
}

/// Where an attribute's value is kept.
#[derive(Clone, Copy, Debug)]
pub enum StorageKind {
    /// A scalar fixed at compile time.
    ConstScalar(u64),
    /// The scalar in slot `index`.
    MutableScalar { index: usize },
    /// A string fixed at compile time.
    StaticString(StaticStringValue),
}

/// One attribute of a store.
#[derive(Clone, Copy, Debug)]
pub struct AttrDescriptor {
    pub attr: AttributeId,
    pub access: AccessFlags,
    pub type_id: TypeId,
    pub storage: StorageKind,
}

impl AttrDescriptor {
    /// How many bytes a scalar of the attribute's type takes.
    pub open spec fn scalar_width(self) -> nat {
        match self.type_id.width() {
            ValueWidth::Fixed(n) => n as nat,
            _ => 0,
        }
    }

    /// The storage fits the type, and its slot is one of `slots`.
    pub open spec fn wf(self, slots: nat) -> bool {
        match self.storage {
            StorageKind::ConstScalar(_) => 1 <= self.scalar_width() <= 8,
            StorageKind::MutableScalar { index } => 1 <= self.scalar_width() <= 8 && index < slots,
            StorageKind::StaticString(_) => self.type_id == TypeId::CharacterString,
        }
    }

    /// The attributes are ascending.
    pub open spec fn sorted(attrs: Seq<AttrDescriptor>) -> bool {
        forall|i: int, j: int|
            0 <= i < j < attrs.len() ==> (#[trigger] attrs[i]).attr.0 <= (
            #[trigger] attrs[j]).attr.0
    }

    /// No attribute is described twice.
    pub open spec fn unique(attrs: Seq<AttrDescriptor>) -> bool {
        forall|i: int, j: int|
            0 <= i < j < attrs.len() ==> (#[trigger] attrs[i]).attr != (#[trigger] attrs[j]).attr
    }
}

/// The attributes are ascending.
pub fn is_sorted(attrs: &Vec<AttrDescriptor>) -> (yes: bool)
    ensures
        yes == AttrDescriptor::sorted(attrs@),
{
    let mut i: usize = 1;
    while i < attrs.len()
        invariant
            1 <= i,
            i <= attrs@.len() || attrs@.len() == 0,
            forall|a: int, b: int|
                0 <= a < b < i && b < attrs@.len() ==> (#[trigger] attrs@[a]).attr.0 <= (
                #[trigger] attrs@[b]).attr.0,
        decreases attrs@.len() - i,
    {
        if attrs[i - 1].attr.0 > attrs[i].attr.0 {
            assert(attrs@[i - 1].attr.0 > attrs@[i as int].attr.0);
            return false;
        }
        i = i + 1;
    }
    true
}

/// No attribute is described twice.
pub fn has_no_duplicate_keys(attrs: &Vec<AttrDescriptor>) -> (yes: bool)
    ensures
        yes == AttrDescriptor::unique(attrs@),
{
    let mut i: usize = 0;
    while i < attrs.len()
        invariant
            i <= attrs@.len(),
            forall|a: int, b: int|
                0 <= a < i && a < b < attrs@.len() ==> (#[trigger] attrs@[a]).attr != (
                #[trigger] attrs@[b]).attr,
        decreases attrs@.len() - i,
    {
        let mut j: usize = i + 1;
        while j < attrs.len()
            invariant
                i < j <= attrs@.len(),
                forall|b: int| i < b < j ==> attrs@[i as int].attr != (#[trigger] attrs@[b]).attr,
            decreases attrs@.len() - j,
        {
            if attrs[i].attr == attrs[j].attr {
                assert(attrs@[i as int].attr == attrs@[j as int].attr);
                return false;
            }
            j = j + 1;
        }
        i = i + 1;
    }
    true
}

/// What reading a short string gives: its length byte and its bytes.
pub open spec fn short_text(raw: Seq<u8>, cap: nat) -> ReadSpec {
    if raw.len() > 254 {
        Err(AttrError::Codec(ZclError::InvalidLength))
    } else if cap < 1 + raw.len() {
        Err(AttrError::Codec(ZclError::BufferTooSmall))
    } else {
        Ok((TypeId::CharacterString, seq![raw.len() as u8] + raw))
    }
}

/// Encode a short string to the front of `buf`.
pub fn encode_short_text(s: &str, buf: &mut [u8]) -> (r: Result<(TypeId, usize), AttrError>)
    ensures
        crate::types::codec::read_into_matches(
            short_text(vstd::utf8::encode_utf8(s@), old(buf)@.len()),
            old(buf)@,
            final(buf)@,
            r,
        ),
{
    let ghost before = buf@;
    let raw = s.as_bytes();
    let len: usize = raw.len();
    if len > 254 {
        return Err(AttrError::Codec(ZclError::InvalidLength));
    }
    let total: usize = 1 + len;
    if buf.len() < total {
        return Err(AttrError::Codec(ZclError::BufferTooSmall));
    }
    buf[0] = len as u8;
    copy_at(buf, 1, raw);
    assert(buf@ =~= (seq![len as u8] + raw@) + before.skip(total as int));
    Ok((TypeId::CharacterString, total))
}

/// A table of attributes with `N` mutable scalars.
pub struct SplitAttributeStore<const N: usize> {
    attrs: Vec<AttrDescriptor>,
    scalars: Vec<u64>,
}

/// The attributes of a store and the values of its slots.
pub struct StoreState {
    pub attrs: Seq<AttrDescriptor>,
    pub scalars: Seq<u64>,
}

impl<const N: usize> View for SplitAttributeStore<N> {
    type V = StoreState;

    closed spec fn view(&self) -> StoreState {
        StoreState { attrs: self.attrs@, scalars: self.scalars@ }
    }
}

impl StoreState {
    /// The table is sorted without duplicates, and its entries are well-formed.
    pub open spec fn wf(self) -> bool {
        &&& AttrDescriptor::sorted(self.attrs)
        &&& AttrDescriptor::unique(self.attrs)
        &&& forall|i: int|
            0 <= i < self.attrs.len() ==> (#[trigger] self.attrs[i]).wf(self.scalars.len())
    }

    pub open spec fn is_at(self, id: AttributeId, i: int) -> bool {
        0 <= i < self.attrs.len() && self.attrs[i].attr == id
    }

    /// The attribute's description.
    pub open spec fn find(self, id: AttributeId) -> Option<AttrDescriptor> {
        if exists|i: int| self.is_at(id, i) {
            Some(self.attrs[choose|i: int| self.is_at(id, i)])
        } else {
            None
        }
    }

    /// What reading a scalar gives.
    pub open spec fn scalar(d: AttrDescriptor, v: u64, cap: nat) -> ReadSpec {
        if cap < d.scalar_width() {
            Err(AttrError::Codec(ZclError::BufferTooSmall))
        } else {
            Ok((d.type_id, Le::bytes(v as nat, d.scalar_width())))
        }
    }

    /// What reading an attribute gives.
    pub open spec fn read(self, id: AttributeId, cap: nat) -> ReadSpec {
        match self.find(id) {
            None => Err(AttrError::UnsupportedAttribute),
            Some(d) => match d.storage {
                StorageKind::ConstScalar(v) => Self::scalar(d, v, cap),
                StorageKind::MutableScalar { index } => Self::scalar(
                    d,
                    self.scalars[index as int],
                    cap,
                ),
                StorageKind::StaticString(s) => short_text(s.raw(), cap),
            },
        }
    }

    /// The slot and value that a write sets, or why it sets none.
    pub open spec fn write(self, id: AttributeId, type_id: TypeId, data: Seq<u8>) -> Result<
        (usize, u64),
        AttrError,
    > {
        match self.find(id) {
            None => Err(AttrError::UnsupportedAttribute),
            Some(d) => if !d.access.writable {
                Err(AttrError::ReadOnly)
            } else if d.type_id != type_id {
                Err(AttrError::InvalidDataType)
            } else {
                match d.storage {
                    StorageKind::MutableScalar { index } => if data.len() < d.scalar_width() {
                        Err(AttrError::Codec(ZclError::InsufficientBytes))
                    } else if data.len() > d.scalar_width() {
                        Err(AttrError::Codec(ZclError::InvalidLength))
                    } else if type_id == TypeId::Boolean && data[0] > 1 {
                        Err(AttrError::Codec(ZclError::InvalidValue))
                    } else {
                        Ok((index, Le::value(data) as u64))
                    },
                    _ => Err(AttrError::ReadOnly),
                }
            },
        }
    }

    /// The store after a write that sets a slot.
    pub open spec fn stored(self, slot: (usize, u64)) -> Self {
        StoreState { scalars: self.scalars.update(slot.0 as int, slot.1), ..self }
    }
}

fn width_of(type_id: TypeId) -> (n: usize)
    ensures
        n == match type_id.width() {
            ValueWidth::Fixed(n) => n as nat,
            _ => 0,
        },
{
    match type_id.value_width() {
        ValueWidth::Fixed(n) => n as usize,
        _ => 0,
    }
}

fn read_scalar(d: AttrDescriptor, v: u64, buf: &mut [u8]) -> (r: Result<(TypeId, usize), AttrError>)
    ensures
        crate::types::codec::read_into_matches(
            StoreState::scalar(d, v, old(buf)@.len()),
            old(buf)@,
            final(buf)@,
            r,
        ),
{
    let n: usize = width_of(d.type_id);
    if buf.len() < n {
        return Err(AttrError::Codec(ZclError::BufferTooSmall));
    }
    put_le(buf, v, n);
    Ok((d.type_id, n))
}

impl<const N: usize> SplitAttributeStore<N> {
    pub open spec fn wf(&self) -> bool {
        self@.wf()
    }

    /// A store of the attributes given, which are sorted without duplicates.
    pub fn new(attrs: Vec<AttrDescriptor>, scalars: [u64; N]) -> (store: Self)
        requires
            (StoreState { attrs: attrs@, scalars: scalars@ }).wf(),
        ensures
            store.wf(),
            store@ == (StoreState { attrs: attrs@, scalars: scalars@ }),
    {
        let mut slots: Vec<u64> = Vec::new();
        let mut i: usize = 0;
        while i < N
            invariant
                i <= N,
                slots@ == scalars@.take(i as int),
            decreases N - i,
        {
            slots.push(scalars[i]);
            assert(scalars@.take(i + 1) =~= scalars@.take(i as int).push(scalars@[i as int]));
            i = i + 1;
        }
        assert(scalars@.take(i as int) =~= scalars@);
        SplitAttributeStore { attrs, scalars: slots }
    }

    fn lookup(&self, id: AttributeId) -> (found: Option<AttrDescriptor>)
        requires
            self.wf(),
        ensures
            found == self@.find(id),
            found matches Some(d) ==> d.wf(self@.scalars.len()),
    {
        let mut i: usize = 0;
        while i < self.attrs.len()
            invariant
                self.wf(),
                i <= self.attrs@.len(),
                forall|k: int| 0 <= k < i ==> !#[trigger] self@.is_at(id, k),
            decreases self.attrs@.len() - i,
        {
            if self.attrs[i].attr == id {
                proof {
                    assert(self@.is_at(id, i as int));
                    let k = choose|k: int| self@.is_at(id, k);
                    assert(self@.is_at(id, k));
                    assert(self@.attrs[k].attr == self@.attrs[i as int].attr);
                    assert(k == i);
                }
                return Some(self.attrs[i]);
            }
            i = i + 1;
        }
        assert forall|k: int| !self@.is_at(id, k) by {}
        None
    }

    /// Encode an attribute's value to the front of `buf`.
    pub fn read_into(&self, id: AttributeId, buf: &mut [u8]) -> (r: Result<
        (TypeId, usize),
        AttrError,
    >)
        requires
            self.wf(),
        ensures
            crate::types::codec::read_into_matches(
                self@.read(id, old(buf)@.len()),
                old(buf)@,
                final(buf)@,
                r,
            ),
    {
        match self.lookup(id) {
            None => Err(AttrError::UnsupportedAttribute),
            Some(d) => match d.storage {
                StorageKind::ConstScalar(v) => read_scalar(d, v, buf),
                StorageKind::MutableScalar { index } => read_scalar(d, self.scalars[index], buf),
                StorageKind::StaticString(StaticStringValue::Text(s)) => encode_short_text(s, buf),
            },
        }
    }

    fn validate(&self, id: AttributeId, type_id: TypeId, data: &[u8]) -> (r: Result<
        (usize, u64),
        AttrError,
    >)
        requires
            self.wf(),
        ensures
            r == self@.write(id, type_id, data@),
            r matches Ok(slot) ==> slot.0 < self@.scalars.len(),
    {
        match self.lookup(id) {
            None => Err(AttrError::UnsupportedAttribute),
            Some(d) => {
                if !d.access.is_writable() {
                    return Err(AttrError::ReadOnly);
                }
                if d.type_id != type_id {
                    return Err(AttrError::InvalidDataType);
                }
                match d.storage {
                    StorageKind::MutableScalar { index } => {
                        let n: usize = width_of(d.type_id);
                        if data.len() < n {
                            Err(AttrError::Codec(ZclError::InsufficientBytes))
                        } else if data.len() > n {
                            Err(AttrError::Codec(ZclError::InvalidLength))
                        } else if type_id == TypeId::Boolean && data[0] > 1 {
                            Err(AttrError::Codec(ZclError::InvalidValue))
                        } else {
                            Ok((index, le_number(data)))
                        }
                    },
                    _ => Err(AttrError::ReadOnly),
                }
            },
        }
    }

    /// Validate a write without storing it.
    pub fn check_write_from(&self, id: AttributeId, type_id: TypeId, data: &[u8]) -> (r: Result<
        (),
        AttrError,
    >)
        requires
            self.wf(),
        ensures
            r == match self@.write(id, type_id, data@) {
                Ok(_) => Ok::<(), AttrError>(()),
                Err(e) => Err::<(), AttrError>(e),
            },
    {
        match self.validate(id, type_id, data) {
            Ok(_) => Ok(()),
            Err(e) => Err(e),
        }
    }

    /// Store an attribute's value.
    pub fn write_from(&mut self, id: AttributeId, type_id: TypeId, data: &[u8]) -> (r: Result<
        (),
        AttrError,
    >)
        requires
            old(self).wf(),
        ensures
            final(self).wf(),
            match old(self)@.write(id, type_id, data@) {
                Ok(slot) => r == Ok::<(), AttrError>(()) && final(self)@ == old(self)@.stored(slot),
                Err(e) => r == Err::<(), AttrError>(e) && final(self)@ == old(self)@,
            },
    {
        match self.validate(id, type_id, data) {
            Ok((index, value)) => {
                self.scalars.set(index, value);
                Ok(())
            },
            Err(e) => Err(e),
        }
    }
}

/// What is written of an attribute is what is read of it afterwards.
pub proof fn law_written_value_is_read(
    s: StoreState,
    id: AttributeId,
    type_id: TypeId,
    data: Seq<u8>,
    cap: nat,
)
    requires
        s.wf(),
        s.write(id, type_id, data) is Ok,
        cap >= data.len(),
    ensures
        s.stored(s.write(id, type_id, data)->Ok_0).read(id, cap) == Ok::<
            (TypeId, Seq<u8>),
            AttrError,
        >((type_id, data)),
{
    let t = s.stored(s.write(id, type_id, data)->Ok_0);
    assert forall|i: int| s.is_at(id, i) <==> t.is_at(id, i) by {}
    assert(t.find(id) == s.find(id)) by {
        let k = choose|i: int| s.is_at(id, i);
        let m = choose|i: int| t.is_at(id, i);
        assert(s.is_at(id, k));
        assert(t.is_at(id, k));
        assert(t.is_at(id, m));
        assert(s.is_at(id, m));
        assert(s.attrs[k].attr == s.attrs[m].attr);
        assert(k == m);
    }
    let d = s.find(id)->0;
    let k = choose|i: int| s.is_at(id, i);
    assert(s.is_at(id, k));
    assert(d.wf(s.scalars.len()));
    crate::bytes::lemma_le_value_bound(data);
    crate::bytes::lemma_pow256_small();
    crate::bytes::lemma_pow256_monotonic(data.len(), 8);
    crate::bytes::lemma_value_round_trip(data);
}

} // verus!
