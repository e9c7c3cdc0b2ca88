//! Attribute metadata.

use vstd::prelude::*;

use crate::types::ids::AttributeId;
use crate::types::ids::ClusterId;
use crate::types::ids::ManufacturerCode;
use crate::types::ids::TypeId;

verus! {

/// Access rights of an attribute, as the access byte of an extended discovery
/// record: bit 0 read, bit 1 write, bit 2 report.
#[derive(Clone, Copy, Debug, PartialEq, Eq, Structural)]
pub struct AccessFlags {
    pub readable: bool,
    pub writable: bool,
    pub reportable: bool,
}

impl AccessFlags {
    pub open spec fn bits(self) -> u8 {
        ((if self.readable { 1int } else { 0 }) + (if self.writable { 2int } else { 0 }) + (
        if self.reportable { 4int } else { 0 })) as u8
    }

    pub fn read() -> (flags: Self)
        ensures
            flags == (AccessFlags { readable: true, writable: false, reportable: false }),
    {
        AccessFlags { readable: true, writable: false, reportable: false }
    }

    pub fn write() -> (flags: Self)
        ensures
            flags == (AccessFlags { readable: false, writable: true, reportable: false }),
    {
        AccessFlags { readable: false, writable: true, reportable: false }
    }

    pub fn read_write() -> (flags: Self)
        ensures
            flags == (AccessFlags { readable: true, writable: true, reportable: false }),
    {
        AccessFlags { readable: true, writable: true, reportable: false }
    }

    pub fn reportable() -> (flags: Self)
        ensures
            flags == (AccessFlags { readable: false, writable: false, reportable: true }),
    {
        AccessFlags { readable: false, writable: false, reportable: true }
    }

    /// The rights that either side grants.
    pub fn union(self, other: Self) -> (flags: Self)
        ensures
            flags == (AccessFlags {
                readable: self.readable || other.readable,
                writable: self.writable || other.writable,
                reportable: self.reportable || other.reportable,
            }),
    {
        AccessFlags {
            readable: self.readable || other.readable,
            writable: self.writable || other.writable,
            reportable: self.reportable || other.reportable,
        }
    }

    pub fn is_readable(self) -> (yes: bool)
        ensures
            yes == self.readable,
    {
        self.readable
    }

    pub fn is_writable(self) -> (yes: bool)
        ensures
            yes == self.writable,
    {
        self.writable
    }

    pub fn is_reportable(self) -> (yes: bool)
        ensures
            yes == self.reportable,
    {
        self.reportable
    }

    pub fn as_u8(self) -> (raw: u8)
        ensures
            raw == self.bits(),
    {
        let r: u8 = if self.readable { 1 } else { 0 };
        let w: u8 = if self.writable { 2 } else { 0 };
        let p: u8 = if self.reportable { 4 } else { 0 };
        r + w + p
    }
}

/// One attribute of a cluster: its identifier, data type and access rights.
#[derive(Clone, Copy, Debug, PartialEq, Eq, Structural)]
pub struct AttrInfo {
    pub id: AttributeId,
    pub type_id: TypeId,
    pub access: AccessFlags,
}

impl AttrInfo {
    /// A read-only attribute, as a specification value.
    pub open spec fn ro(id: u16, type_id: TypeId) -> AttrInfo {
        AttrInfo {
            id: AttributeId(id),
            type_id,
            access: AccessFlags { readable: true, writable: false, reportable: false },
        }
    }

    /// A readable and writable attribute, as a specification value.
    pub open spec fn rw(id: u16, type_id: TypeId) -> AttrInfo {
        AttrInfo {
            id: AttributeId(id),
            type_id,
            access: AccessFlags { readable: true, writable: true, reportable: false },
        }
    }

    /// A readable and reportable attribute, as a specification value.
    pub open spec fn rp(id: u16, type_id: TypeId) -> AttrInfo {
        AttrInfo {
            id: AttributeId(id),
            type_id,
            access: AccessFlags { readable: true, writable: false, reportable: true },
        }
    }

    /// An attribute that peers may only read.
    pub fn read_only(id: u16, type_id: TypeId) -> (info: Self)
        ensures
            info == Self::ro(id, type_id),
    {
        AttrInfo { id: AttributeId(id), type_id, access: AccessFlags::read() }
    }

    /// An attribute that peers may read and write.
    pub fn read_write(id: u16, type_id: TypeId) -> (info: Self)
        ensures
            info == Self::rw(id, type_id),
    {
        AttrInfo {
            id: AttributeId(id),
            type_id,
            access: AccessFlags::read().union(AccessFlags::write()),
        }
    }

    /// An attribute that peers may read and have reported to them.
    pub fn read_report(id: u16, type_id: TypeId) -> (info: Self)
        ensures
            info == Self::rp(id, type_id),
    {
        AttrInfo {
            id: AttributeId(id),
            type_id,
            access: AccessFlags::read().union(AccessFlags::reportable()),
        }
    }

    /// The list is strictly ascending by attribute identifier.
    pub open spec fn sorted(list: Seq<AttrInfo>) -> bool {
        forall|i: int, j: int| 0 <= i < j < list.len() ==> #[trigger] list[i].id.0 < #[trigger] list[j].id.0
    }
}

/// Identifies a cluster, with the manufacturer code of a manufacturer-specific one.
#[derive(Clone, Copy, Debug, PartialEq, Eq, Structural)]
pub struct ClusterKey {
    pub id: ClusterId,
    pub manufacturer_code: Option<ManufacturerCode>,
}

impl ClusterKey {
    pub fn new(id: ClusterId, manufacturer_code: Option<ManufacturerCode>) -> (key: Self)
        ensures
            key == (ClusterKey { id, manufacturer_code }),
    {
        ClusterKey { id, manufacturer_code }
    }
}

} // verus!
