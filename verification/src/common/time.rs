//! The time cluster.

use vstd::prelude::*;

use crate::bytes::Le;
use crate::cluster_server::ClusterServer;
use crate::context::ClusterReportReady;
use crate::context::ClusterTick;
use crate::context::CommandResult;
use crate::context::ConfigureReportingRecord;
use crate::context::DispatchContext;
use crate::context::DispatchEffects;
use crate::context::ReportDeliveryResult;
use crate::context::ReportToken;
use crate::context::ReportingDiagnostics;
use crate::frame::Status;
use crate::reporting::ReportPayloadWriter;
use crate::types::codec::encode_attr;
use crate::types::codec::AttrValue;
use crate::types::codec::ReadSpec;
use crate::types::descriptors::AttrInfo;
use crate::types::error::AttrError;
use crate::types::error::ZclError;
use crate::types::ids::AttributeId;
use crate::types::ids::CommandId;
use crate::types::ids::TypeId;
use crate::types::codec::decode_bitmap8;
use crate::types::codec::decode_i32;
use crate::types::codec::decode_u32;

verus! {

/// Time, cluster 0x000A. Peers may write the time as well as read it.
pub struct TimeServer {
    /// Attribute 0x0000: UTC time in seconds since 2000-01-01.
    pub time: u32,
    /// Attribute 0x0001. Bit 0: master; bit 1: synchronized.
    pub time_status: u8,
    /// Attribute 0x0002: offset in seconds from UTC.
    pub time_zone: i32,
}

impl TimeServer {
    /// The attribute's value.
    pub open spec fn value(self, id: AttributeId) -> Option<AttrValue> {
        match id.0 {
            0x0000 => Some(AttrValue::Uint32(self.time)),
            0x0001 => Some(AttrValue::Bitmap8(self.time_status)),
            0x0002 => Some(AttrValue::Int32(self.time_zone)),
            0xFFFD => Some(AttrValue::Uint16(2)),
            _ => None,
        }
    }

    /// The server after a write, or why there is none.
    pub open spec fn written(self, id: AttributeId, type_id: TypeId, data: Seq<u8>) -> Result<
        Self,
        AttrError,
    > {
        match id.0 {
            0x0000 => match AttrValue::decoded_u32(type_id, data) {
                Ok(time) => Ok(TimeServer { time, ..self }),
                Err(e) => Err(e),
            },
            0x0001 => match AttrValue::decoded_bitmap8(type_id, data) {
                Ok(time_status) => Ok(TimeServer { time_status, ..self }),
                Err(e) => Err(e),
            },
            0x0002 => match AttrValue::decoded_i32(type_id, data) {
                Ok(time_zone) => Ok(TimeServer { time_zone, ..self }),
                Err(e) => Err(e),
            },
            0xFFFD => Err(AttrError::ReadOnly),
            _ => Err(AttrError::UnsupportedAttribute),
        }
    }

    pub fn new() -> (server: Self)
        ensures
            server == (TimeServer { time: 0, time_status: 0, time_zone: 0 }),
    {
        TimeServer { time: 0, time_status: 0, time_zone: 0 }
    }

    pub fn set_time(&mut self, v: u32)
        ensures
            *final(self) == (TimeServer { time: v, ..*old(self) }),
    {
        self.time = v;
    }

    pub fn set_time_status(&mut self, v: u8)
        ensures
            *final(self) == (TimeServer { time_status: v, ..*old(self) }),
    {
        self.time_status = v;
    }

    pub fn set_time_zone(&mut self, v: i32)
        ensures
            *final(self) == (TimeServer { time_zone: v, ..*old(self) }),
    {
        self.time_zone = v;
    }
}

impl Default for TimeServer {
    fn default() -> (server: Self)
        ensures
            server == (TimeServer { time: 0, time_status: 0, time_zone: 0 }),
    {
        Self::new()
    }
}

impl ClusterServer for TimeServer {
    const CLUSTER_ID: u16 = 0x000A;

    open spec fn attr(&self, id: AttributeId, cap: nat) -> ReadSpec {
        match self.value(id) {
            Some(v) => v.read(cap),
            None => Err(AttrError::UnsupportedAttribute),
        }
    }

    open spec fn write_check(&self, id: AttributeId, type_id: TypeId, data: Seq<u8>) -> Result<
        (),
        AttrError,
    > {
        match self.written(id, type_id, data) {
            Ok(_) => Ok(()),
            Err(e) => Err(e),
        }
    }

    open spec fn wrote(
        pre: Self,
        id: AttributeId,
        type_id: TypeId,
        data: Seq<u8>,
        post: Self,
        r: Result<(), AttrError>,
    ) -> bool {
        match pre.written(id, type_id, data) {
            Ok(next) => post == next && r == Ok::<(), AttrError>(()),
            Err(e) => post == pre && r == Err::<(), AttrError>(e),
        }
    }

    open spec fn attribute_infos() -> Seq<AttrInfo> {
        seq![
            AttrInfo::rw(0x0000, TypeId::Uint32),
            AttrInfo::rw(0x0001, TypeId::Bitmap8),
            AttrInfo::rw(0x0002, TypeId::Int32),
            AttrInfo::ro(0xFFFD, TypeId::Uint16),
        ]
    }

    fn read_attribute(&self, id: AttributeId, buf: &mut [u8]) -> (r: Result<
        (TypeId, usize),
        AttrError,
    >) {
        match id.0 {
            0x0000 => encode_attr(AttrValue::Uint32(self.time), buf),
            0x0001 => encode_attr(AttrValue::Bitmap8(self.time_status), buf),
            0x0002 => encode_attr(AttrValue::Int32(self.time_zone), buf),
            0xFFFD => encode_attr(AttrValue::Uint16(2), buf),
            _ => Err(AttrError::UnsupportedAttribute),
        }
    }

    fn check_write_attribute(&self, id: AttributeId, type_id: TypeId, data: &[u8]) -> (r: Result<
        (),
        AttrError,
    >) {
        match id.0 {
            0x0000 => match decode_u32(type_id, data) {
                Ok(_) => Ok(()),
                Err(e) => Err(e),
            },
            0x0001 => match decode_bitmap8(type_id, data) {
                Ok(_) => Ok(()),
                Err(e) => Err(e),
            },
            0x0002 => match decode_i32(type_id, data) {
                Ok(_) => Ok(()),
                Err(e) => Err(e),
            },
            0xFFFD => Err(AttrError::ReadOnly),
            _ => Err(AttrError::UnsupportedAttribute),
        }
    }

    fn write_attribute(&mut self, id: AttributeId, type_id: TypeId, data: &[u8]) -> (r: Result<
        (),
        AttrError,
    >) {
        match id.0 {
            0x0000 => match decode_u32(type_id, data) {
                Ok(time) => {
                    self.time = time;
                    Ok(())
                },
                Err(e) => Err(e),
            },
            0x0001 => match decode_bitmap8(type_id, data) {
                Ok(time_status) => {
                    self.time_status = time_status;
                    Ok(())
                },
                Err(e) => Err(e),
            },
            0x0002 => match decode_i32(type_id, data) {
                Ok(time_zone) => {
                    self.time_zone = time_zone;
                    Ok(())
                },
                Err(e) => Err(e),
            },
            0xFFFD => Err(AttrError::ReadOnly),
            _ => Err(AttrError::UnsupportedAttribute),
        }
    }

    fn handle_command(
        &mut self,
        id: CommandId,
        payload: &[u8],
        ctx: DispatchContext,
        buf: &mut [u8],
    ) -> (r: Result<CommandResult, ZclError>) {
        Ok(CommandResult::DefaultResponse(Status::UnsupCommand))
    }

    fn tick(&mut self, now_ms: u32) -> (r: ClusterTick) {
        ClusterTick::idle()
    }

    fn take_dispatch_effects(&mut self) -> (r: DispatchEffects) {
        DispatchEffects::none()
    }

    fn snapshot(&self, buf: &mut [u8]) -> (n: usize) {
        assert(buf@ =~= Seq::<u8>::empty() + buf@.skip(0));
        0
    }

    fn restore_snapshot(&mut self, buf: &[u8]) {
    }

    fn configure_reporting(
        &mut self,
        record: ConfigureReportingRecord<'_>,
        ctx: DispatchContext,
    ) -> (r: Status) {
        Status::UnreportableAttribute
    }

    fn collect_reports(&mut self, now_ms: u32, out: &mut ReportPayloadWriter<'_>) -> (r: Result<
        Option<ClusterReportReady>,
        ZclError,
    >) {
        Ok(None)
    }

    fn report_delivery_result(
        &mut self,
        token: ReportToken,
        result: ReportDeliveryResult,
        now_ms: u32,
    ) {
    }

    fn take_reporting_diagnostics(&mut self) -> (r: ReportingDiagnostics) {
        ReportingDiagnostics::none()
    }

    fn read_reporting_config(&self, attr_id: AttributeId, direction: u8, buf: &mut [u8]) -> (n:
        usize) {
        crate::reporting::write_not_found(attr_id, direction, buf)
    }

    fn attribute_list() -> (list: Vec<AttrInfo>) {
        vec![
            AttrInfo::read_write(0x0000, TypeId::Uint32),
            AttrInfo::read_write(0x0001, TypeId::Bitmap8),
            AttrInfo::read_write(0x0002, TypeId::Int32),
            AttrInfo::read_only(0xFFFD, TypeId::Uint16),
        ]
    }

    fn commands_received() -> (list: Vec<CommandId>) {
        Vec::new()
    }

    fn commands_generated() -> (list: Vec<CommandId>) {
        Vec::new()
    }
}

/// A write that passes the check succeeds, and one that fails it is refused with
/// the same error.
pub proof fn law_check_foretells_write(
    s: TimeServer,
    id: AttributeId,
    type_id: TypeId,
    data: Seq<u8>,
    post: TimeServer,
    r: Result<(), AttrError>,
)
    requires
        TimeServer::wrote(s, id, type_id, data, post, r),
    ensures
        r == s.write_check(id, type_id, data),
{
}

/// Writing back what an attribute reads changes nothing.
pub proof fn law_write_of_read_changes_nothing(s: TimeServer, id: AttributeId, cap: nat)
    requires
        id.0 != 0xFFFD,
        s.attr(id, cap) is Ok,
    ensures
        s.written(id, s.attr(id, cap)->Ok_0.0, s.attr(id, cap)->Ok_0.1) == Ok::<
            TimeServer,
            AttrError,
        >(s),
{
    if id.0 == 0x0000 {
        crate::types::codec::lemma_u32_read_decodes(s.time, cap);
    } else if id.0 == 0x0002 {
        crate::types::codec::lemma_i32_read_decodes(s.time_zone, cap);
    }
}

/// A value that was written is read back, and no other attribute changes.
pub proof fn law_written_value_is_read(
    pre: TimeServer,
    id: AttributeId,
    type_id: TypeId,
    data: Seq<u8>,
    post: TimeServer,
    other: AttributeId,
    cap: nat,
)
    requires
        TimeServer::wrote(pre, id, type_id, data, post, Ok(())),
        cap >= data.len(),
    ensures
        post.attr(id, cap) == Ok::<(TypeId, Seq<u8>), AttrError>((type_id, data)),
        other != id ==> post.attr(other, cap) == pre.attr(other, cap),
{
    if id.0 == 0x0001 {
        assert(seq![data[0]] =~= data);
    } else {
        let raw = Le::u32_at(data, 0);
        crate::bytes::lemma_u32_bytes(data[0], data[1], data[2], data[3]);
        assert(Le::u32(raw) =~= data);
        assert(Le::bits32(Le::signed32(raw)) == raw);
    }
}

} // verus!
