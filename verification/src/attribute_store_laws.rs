//! What an attribute store hands out, and what it takes.

use vstd::prelude::*;

use crate::attribute_store::StorageKind;
use crate::attribute_store::StoreState;
use crate::bytes::Le;
use crate::types::codec::ReadSpec;
use crate::types::error::AttrError;
use crate::types::error::ZclError;
use crate::types::ids::AttributeId;
use crate::types::ids::TypeId;
use crate::types::ids::ValueWidth;

verus! {

proof fn lemma_found(s: StoreState, i: int)
    requires
        s.wf(),
        0 <= i < s.attrs.len(),
    ensures
        s.find(s.attrs[i].attr) == Some(s.attrs[i]),
{
    let id = s.attrs[i].attr;
    assert(s.is_at(id, i));
    let k = choose|k: int| s.is_at(id, k);
    assert(s.is_at(id, k));
    if k < i {
        assert(s.attrs[k].attr != s.attrs[i].attr);
    } else if i < k {
        assert(s.attrs[i].attr != s.attrs[k].attr);
    }
}

/// What was read is the scalar `v` in `width` bytes, the lowest first.
pub open spec fn hands_out(read: ReadSpec, t: TypeId, width: nat, v: u64) -> bool {
    read matches Ok((type_id, b)) && {
        &&& type_id == t
        &&& b.len() == width
        &&& width >= 1 ==> b[0] == v % 0x100
        &&& width >= 2 ==> b[1] == v / 0x100 % 0x100
        &&& width >= 3 ==> b[2] == v / 0x1_0000 % 0x100
        &&& width >= 4 ==> b[3] == v / 0x100_0000 % 0x100
    }
}

proof fn lemma_length(v: nat, n: nat)
    ensures
        Le::bytes(v, n).len() == n,
    decreases n,
{
    if n > 0 {
        lemma_length(v / 256, (n - 1) as nat);
    }
}

proof fn lemma_scalar_bytes(v: u64, n: nat)
    requires
        1 <= n <= 8,
    ensures
        ({
            let b = Le::bytes(v as nat, n);
            &&& b.len() == n
            &&& b[0] == v % 0x100
            &&& n >= 2 ==> b[1] == v / 0x100 % 0x100
            &&& n >= 3 ==> b[2] == v / 0x1_0000 % 0x100
            &&& n >= 4 ==> b[3] == v / 0x100_0000 % 0x100
        }),
{
    let a = v as nat;
    lemma_length(a, n);
    let t1 = Le::bytes(a / 256, (n - 1) as nat);
    assert(Le::bytes(a, n) == seq![(a % 256) as u8] + t1);
    if n >= 2 {
        let t2 = Le::bytes(a / 256 / 256, (n - 2) as nat);
        assert(t1 == seq![(a / 256 % 256) as u8] + t2);
        if n >= 3 {
            let t3 = Le::bytes(a / 256 / 256 / 256, (n - 3) as nat);
            assert(t2 == seq![(a / 256 / 256 % 256) as u8] + t3);
            if n >= 4 {
                let t4 = Le::bytes(a / 256 / 256 / 256 / 256, (n - 4) as nat);
                assert(t3 == seq![(a / 256 / 256 / 256 % 256) as u8] + t4);
            }
        }
    }
}

/// An attribute of the store reads as its scalar, fixed or in its slot, in as many bytes as
/// its type has; a string, as its length and its text; any other attribute is not there.
pub proof fn law_store_reads(s: StoreState, i: int, id: AttributeId, cap: nat)
    requires
        s.wf(),
        0 <= i < s.attrs.len(),
        cap >= 255,
    ensures
        ({
            let d = s.attrs[i];
            match d.storage {
                StorageKind::ConstScalar(v) => hands_out(
                    s.read(d.attr, cap),
                    d.type_id,
                    d.type_id.width()->Fixed_0 as nat,
                    v,
                ),
                StorageKind::MutableScalar { index } => hands_out(
                    s.read(d.attr, cap),
                    d.type_id,
                    d.type_id.width()->Fixed_0 as nat,
                    s.scalars[index as int],
                ),
                StorageKind::StaticString(text) => crate::common::plain_laws::shows_text(
                    s.read(d.attr, cap),
                    text.raw(),
                ),
            }
        }),
        (forall|k: int| 0 <= k < s.attrs.len() ==> (#[trigger] s.attrs[k]).attr != id) ==> s.read(
            id,
            cap,
        ) == Err::<(TypeId, Seq<u8>), AttrError>(AttrError::UnsupportedAttribute),
{
    let d = s.attrs[i];
    assert(d.wf(s.scalars.len()));
    lemma_found(s, i);
    match d.storage {
        StorageKind::ConstScalar(v) => {
            lemma_scalar_bytes(v, d.scalar_width());
        },
        StorageKind::MutableScalar { index } => {
            lemma_scalar_bytes(s.scalars[index as int], d.scalar_width());
        },
        StorageKind::StaticString(text) => {},
    }
    if forall|k: int| 0 <= k < s.attrs.len() ==> (#[trigger] s.attrs[k]).attr != id {
        assert forall|k: int| !s.is_at(id, k) by {
            if 0 <= k < s.attrs.len() {
                assert(s.attrs[k].attr != id);
            }
        }
    }
}

/// A write is taken exactly if the attribute is writable and kept in a slot, and the value
/// has its type and exactly its length, a boolean being 0 or 1; it sets that slot to the
/// number that the bytes hold.
pub proof fn law_store_writes(s: StoreState, i: int, t: TypeId, data: Seq<u8>)
    requires
        s.wf(),
        0 <= i < s.attrs.len(),
    ensures
        ({
            let d = s.attrs[i];
            let r = s.write(d.attr, t, data);
            let slot = d.storage matches StorageKind::MutableScalar { .. };
            let whole = d.type_id.width() matches ValueWidth::Fixed(n) && data.len() == n;
            &&& r is Ok <==> d.access.writable && d.type_id == t && slot && whole && !(t
                == TypeId::Boolean && data[0] > 1)
            &&& !d.access.writable ==> r == Err::<(usize, u64), AttrError>(AttrError::ReadOnly)
            &&& d.access.writable && d.type_id != t ==> r == Err::<(usize, u64), AttrError>(
                AttrError::InvalidDataType,
            )
            &&& d.access.writable && d.type_id == t && !slot ==> r == Err::<(usize, u64), AttrError>(
                AttrError::ReadOnly,
            )
            &&& d.access.writable && d.type_id == t && slot && data.len()
                < d.type_id.width()->Fixed_0 ==> r == Err::<(usize, u64), AttrError>(
                AttrError::Codec(ZclError::InsufficientBytes),
            )
            &&& d.access.writable && d.type_id == t && slot && data.len()
                > d.type_id.width()->Fixed_0 ==> r == Err::<(usize, u64), AttrError>(
                AttrError::Codec(ZclError::InvalidLength),
            )
            &&& r is Ok ==> (d.storage matches StorageKind::MutableScalar { index } && r->Ok_0.0
                == index)
            &&& r is Ok && data.len() == 1 ==> r->Ok_0.1 == data[0]
            &&& r is Ok && data.len() == 2 ==> r->Ok_0.1 == data[0] + 256 * data[1]
        }),
{
    let d = s.attrs[i];
    assert(d.wf(s.scalars.len()));
    lemma_found(s, i);
    if data.len() == 1 {
        assert(Le::value(data.skip(1)) == 0);
    }
    if data.len() == 2 {
        assert(Le::value(data.skip(1).skip(1)) == 0);
        assert(Le::value(data.skip(1)) == data[1]);
    }
}

} // verus!
