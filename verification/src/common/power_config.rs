//! The power configuration cluster.

use vstd::prelude::*;

use crate::cluster_server::ClusterServer;
use crate::context::ClusterReportReady;
use crate::context::ClusterTick;
use crate::context::CommandResult;
use crate::context::ConfigureReportingRecord;
use crate::context::DispatchContext;
use crate::context::DispatchEffects;
use crate::context::RecordFields;
use crate::context::ReportDeliveryResult;
use crate::context::ReportToken;
use crate::context::ReportingDiagnostics;
use crate::frame::Status;
use crate::reporting::LatestReportingTable;
use crate::reporting::ReportPayloadWriter;
use crate::reporting::TableState;
use crate::types::codec::encode_attr;
use crate::types::codec::AttrValue;
use crate::types::codec::ReadSpec;
use crate::types::descriptors::AttrInfo;
use crate::types::error::AttrError;
use crate::types::error::ZclError;
use crate::types::ids::AttributeId;
use crate::types::ids::CommandId;
use crate::types::ids::TypeId;

verus! {

/// Power configuration, cluster 0x0001.
///
/// Peers may only read; the application sets values. The remaining battery
/// percentage is reportable.
pub struct PowerConfigServer {
    /// Attribute 0x0000, in units of 100 mV.
    pub mains_voltage: u16,
    /// Attribute 0x0020, in units of 100 mV; 0xff where it is unknown.
    pub battery_voltage: u8,
    /// Attribute 0x0021, in units of 0.5%; 0xff where it is unknown.
    pub battery_percentage_remaining: u8,
    pub reporting: LatestReportingTable<1, 1>,
}

/// The state of a power configuration server.
pub struct PowerState {
    pub mains_voltage: u16,
    pub battery_voltage: u8,
    pub battery_percentage_remaining: u8,
    pub reporting: TableState,
}

impl View for PowerConfigServer {
    type V = PowerState;

    open spec fn view(&self) -> PowerState {
        PowerState {
            mains_voltage: self.mains_voltage,
            battery_voltage: self.battery_voltage,
            battery_percentage_remaining: self.battery_percentage_remaining,
            reporting: self.reporting@,
        }
    }
}

impl PowerState {
    pub open spec fn initial() -> Self {
        PowerState {
            mains_voltage: 0,
            battery_voltage: 0xFF,
            battery_percentage_remaining: 0xFF,
            reporting: TableState::empty(),
        }
    }

    /// A byte that reads as it is, 0xff meaning "unknown".
    pub open spec fn byte_or_unknown(v: u8) -> AttrValue {
        AttrValue::NullableUint8(
            if v == 0xFF {
                None
            } else {
                Some(v)
            },
        )
    }

    /// The attribute's value.
    pub open spec fn value(self, id: AttributeId) -> Option<AttrValue> {
        match id.0 {
            0x0000 => Some(AttrValue::Uint16(self.mains_voltage)),
            0x0020 => Some(Self::byte_or_unknown(self.battery_voltage)),
            0x0021 => Some(Self::byte_or_unknown(self.battery_percentage_remaining)),
            0xFFFD => Some(AttrValue::Uint16(2)),
            _ => None,
        }
    }
}

fn byte_or_unknown(v: u8) -> (value: AttrValue)
    ensures
        value == PowerState::byte_or_unknown(v),
{
    if v == 0xFF {
        AttrValue::NullableUint8(None)
    } else {
        AttrValue::NullableUint8(Some(v))
    }
}

impl PowerConfigServer {
    pub fn new() -> (server: Self)
        ensures
            server.wf(),
            server@ == PowerState::initial(),
    {
        PowerConfigServer {
            mains_voltage: 0,
            battery_voltage: 0xFF,
            battery_percentage_remaining: 0xFF,
            reporting: LatestReportingTable::new(),
        }
    }

    pub fn set_mains_voltage(&mut self, v: u16)
        ensures
            old(self).wf() ==> final(self).wf(),
            final(self)@ == (PowerState { mains_voltage: v, ..old(self)@ }),
    {
        self.mains_voltage = v;
    }

    pub fn set_battery_voltage(&mut self, v: u8)
        ensures
            old(self).wf() ==> final(self).wf(),
            final(self)@ == (PowerState { battery_voltage: v, ..old(self)@ }),
    {
        self.battery_voltage = v;
    }

    pub fn set_battery_percentage_remaining(&mut self, v: u8)
        requires
            old(self).wf(),
        ensures
            final(self).wf(),
            final(self)@ == (PowerState {
                battery_percentage_remaining: v,
                reporting: old(self)@.reporting.noted(AttributeId(0x0021)),
                ..old(self)@
            }),
    {
        self.battery_percentage_remaining = v;
        self.reporting.note_value_update(AttributeId::new(0x0021));
    }
}

impl Default for PowerConfigServer {
    fn default() -> (server: Self)
        ensures
            server.wf(),
            server@ == PowerState::initial(),
    {
        Self::new()
    }
}

impl ClusterServer for PowerConfigServer {
    const CLUSTER_ID: u16 = 0x0001;

    open spec fn wf(&self) -> bool {
        self.reporting.wf()
    }

    open spec fn attr(&self, id: AttributeId, cap: nat) -> ReadSpec {
        match self@.value(id) {
            Some(v) => v.read(cap),
            None => Err(AttrError::UnsupportedAttribute),
        }
    }

    open spec fn write_check(&self, id: AttributeId, type_id: TypeId, data: Seq<u8>) -> Result<
        (),
        AttrError,
    > {
        if self@.value(id) is None {
            Err(AttrError::UnsupportedAttribute)
        } else {
            Err(AttrError::ReadOnly)
        }
    }

    open spec fn wrote(
        pre: Self,
        id: AttributeId,
        type_id: TypeId,
        data: Seq<u8>,
        post: Self,
        r: Result<(), AttrError>,
    ) -> bool {
        post@ == pre@ && r == pre.write_check(id, type_id, data)
    }

    open spec fn handled(
        pre: Self,
        id: CommandId,
        payload: Seq<u8>,
        ctx: DispatchContext,
        before: Seq<u8>,
        post: Self,
        body: Seq<u8>,
        r: Result<CommandResult, ZclError>,
    ) -> bool {
        post@ == pre@ && body == before && r == Ok::<CommandResult, ZclError>(
            CommandResult::DefaultResponse(Status::UnsupCommand),
        )
    }

    open spec fn reporting_set(
        pre: Self,
        record: RecordFields,
        ctx: DispatchContext,
        post: Self,
        r: Status,
    ) -> bool {
        let (table, status) = LatestReportingTable::<1, 1>::configured_by(
            pre@.reporting,
            record,
            ctx,
            Self::attribute_infos(),
        );
        r == status && post@ == (PowerState { reporting: table, ..pre@ })
    }

    open spec fn collected(
        pre: Self,
        now_ms: u32,
        out: Seq<u8>,
        cap: nat,
        post: Self,
        sent: Seq<u8>,
        r: Result<Option<ClusterReportReady>, ZclError>,
    ) -> bool {
        let (table, bytes, result) = pre@.reporting.collected(
            now_ms,
            |id: AttributeId| pre.attr(id, 1),
            out,
            cap,
        );
        sent == bytes && r == result && post@ == (PowerState { reporting: table, ..pre@ })
    }

    open spec fn delivered(
        pre: Self,
        token: ReportToken,
        result: ReportDeliveryResult,
        now_ms: u32,
        post: Self,
    ) -> bool {
        post@ == (PowerState {
            reporting: pre@.reporting.completed(token, result, now_ms),
            ..pre@
        })
    }

    open spec fn diagnosed(pre: Self, post: Self, r: ReportingDiagnostics) -> bool {
        r == pre@.reporting.diagnostics && post@ == (PowerState {
            reporting: pre@.reporting.drained(),
            ..pre@
        })
    }

    open spec fn reporting_answer(&self, attr_id: AttributeId, direction: u8, cap: nat) -> Seq<
        u8,
    > {
        self@.reporting.answer(attr_id, direction, cap)
    }

    open spec fn attribute_infos() -> Seq<AttrInfo> {
        seq![
            AttrInfo::ro(0x0000, TypeId::Uint16),
            AttrInfo::ro(0x0020, TypeId::Uint8),
            AttrInfo::rp(0x0021, TypeId::Uint8),
            AttrInfo::ro(0xFFFD, TypeId::Uint16),
        ]
    }

    fn read_attribute(&self, id: AttributeId, buf: &mut [u8]) -> (r: Result<
        (TypeId, usize),
        AttrError,
    >) {
        match id.0 {
            0x0000 => encode_attr(AttrValue::Uint16(self.mains_voltage), buf),
            0x0020 => encode_attr(byte_or_unknown(self.battery_voltage), buf),
            0x0021 => encode_attr(byte_or_unknown(self.battery_percentage_remaining), buf),
            0xFFFD => encode_attr(AttrValue::Uint16(2), buf),
            _ => Err(AttrError::UnsupportedAttribute),
        }
    }

    fn check_write_attribute(&self, id: AttributeId, type_id: TypeId, data: &[u8]) -> (r: Result<
        (),
        AttrError,
    >) {
        match id.0 {
            0x0000 | 0x0020 | 0x0021 | 0xFFFD => Err(AttrError::ReadOnly),
            _ => Err(AttrError::UnsupportedAttribute),
        }
    }

    fn write_attribute(&mut self, id: AttributeId, type_id: TypeId, data: &[u8]) -> (r: Result<
        (),
        AttrError,
    >) {
        self.check_write_attribute(id, type_id, data)
    }

    fn handle_command(
        &mut self,
        id: CommandId,
        payload: &[u8],
        ctx: DispatchContext,
        buf: &mut [u8],
    ) -> (r: Result<CommandResult, ZclError>) {
        Ok(CommandResult::DefaultResponse(Status::UnsupCommand))
    }

    fn tick(&mut self, now_ms: u32) -> (r: ClusterTick) {
        ClusterTick::idle()
    }

    fn take_dispatch_effects(&mut self) -> (r: DispatchEffects) {
        DispatchEffects::none()
    }

    fn snapshot(&self, buf: &mut [u8]) -> (n: usize) {
        assert(buf@ =~= Seq::<u8>::empty() + buf@.skip(0));
        0
    }

    fn restore_snapshot(&mut self, buf: &[u8]) {
    }

    fn configure_reporting(
        &mut self,
        record: ConfigureReportingRecord<'_>,
        ctx: DispatchContext,
    ) -> (r: Status) {
        self.reporting.configure(record, ctx, &Self::attribute_list())
    }

    fn collect_reports(&mut self, now_ms: u32, out: &mut ReportPayloadWriter<'_>) -> (r: Result<
        Option<ClusterReportReady>,
        ZclError,
    >) {
        match self.reporting.next_due(now_ms) {
            None => Ok(None),
            Some(candidate) => {
                let mut tmp: [u8; 1] = [0];
                match self.read_attribute(candidate.attr_id, &mut tmp) {
                    Err(_) => Ok(None),
                    Ok((type_id, n)) => {
                        assert(tmp@.take(n as int) =~= self.attr(candidate.attr_id, 1)->Ok_0.1);
                        self.reporting.emit(candidate, type_id, &tmp[0..n], out)
                    },
                }
            },
        }
    }

    fn report_delivery_result(
        &mut self,
        token: ReportToken,
        result: ReportDeliveryResult,
        now_ms: u32,
    ) {
        self.reporting.complete(token, result, now_ms);
    }

    fn take_reporting_diagnostics(&mut self) -> (r: ReportingDiagnostics) {
        self.reporting.take_diagnostics()
    }

    fn read_reporting_config(&self, attr_id: AttributeId, direction: u8, buf: &mut [u8]) -> (n:
        usize) {
        self.reporting.write_read_response_record(attr_id, direction, buf)
    }

    fn attribute_list() -> (list: Vec<AttrInfo>) {
        vec![
            AttrInfo::read_only(0x0000, TypeId::Uint16),
            AttrInfo::read_only(0x0020, TypeId::Uint8),
            AttrInfo::read_report(0x0021, TypeId::Uint8),
            AttrInfo::read_only(0xFFFD, TypeId::Uint16),
        ]
    }

    fn commands_received() -> (list: Vec<CommandId>) {
        Vec::new()
    }

    fn commands_generated() -> (list: Vec<CommandId>) {
        Vec::new()
    }
}

/// No attribute can be written from the network: every write is refused and changes
/// nothing.
pub proof fn law_attributes_are_read_only(
    pre: PowerConfigServer,
    id: AttributeId,
    type_id: TypeId,
    data: Seq<u8>,
    post: PowerConfigServer,
    r: Result<(), AttrError>,
)
    requires
        PowerConfigServer::wrote(pre, id, type_id, data, post, r),
    ensures
        r is Err,
        post@ == pre@,
{
}

} // verus!
