//! The illuminance measurement cluster.

use vstd::prelude::*;

use crate::cluster_server::ClusterServer;
use crate::context::ClusterReportReady;
use crate::context::ClusterTick;
use crate::context::CommandResult;
use crate::context::ConfigureReportingRecord;
use crate::context::DispatchContext;
use crate::context::DispatchEffects;
use crate::context::RecordFields;
use crate::context::ReportDeliveryResult;
use crate::context::ReportToken;
use crate::context::ReportingDiagnostics;
use crate::frame::Status;
use crate::reporting::LatestReportingTable;
use crate::reporting::ReportPayloadWriter;
use crate::reporting::TableState;
use crate::types::codec::encode_attr;
use crate::types::codec::AttrValue;
use crate::types::codec::ReadSpec;
use crate::types::descriptors::AttrInfo;
use crate::types::error::AttrError;
use crate::types::error::ZclError;
use crate::types::ids::AttributeId;
use crate::types::ids::CommandId;
use crate::types::ids::TypeId;
use crate::types::enums::LightSensorType;

verus! {

/// Illuminance measurement, cluster 0x0400.
///
/// Peers may only read; the application sets values. `None` reads as the null
/// sentinel of the attribute's data type.
pub struct IlluminanceMeasurementServer {
    /// Attribute 0x0000.
    pub measured_value: Option<u16>,
    /// Attribute 0x0001.
    pub min_measured_value: Option<u16>,
    /// Attribute 0x0002.
    pub max_measured_value: Option<u16>,
    /// Attribute 0x0003.
    pub tolerance: u16,
    /// Attribute 0x0004.
    pub light_sensor_type: Option<LightSensorType>,
    pub reporting: LatestReportingTable<1, 2>,
}

/// The state of an illuminance measurement server.
pub struct IlluminanceState {
    pub measured: Option<u16>,
    pub min: Option<u16>,
    pub max: Option<u16>,
    pub tolerance: u16,
    pub sensor: Option<LightSensorType>,
    pub reporting: TableState,
}

impl View for IlluminanceMeasurementServer {
    type V = IlluminanceState;

    open spec fn view(&self) -> IlluminanceState {
        IlluminanceState {
            measured: self.measured_value,
            min: self.min_measured_value,
            max: self.max_measured_value,
            tolerance: self.tolerance,
            sensor: self.light_sensor_type,
            reporting: self.reporting@,
        }
    }
}

impl IlluminanceState {
    pub open spec fn initial() -> Self {
        IlluminanceState {
            measured: None,
            min: None,
            max: None,
            tolerance: 0,
            sensor: None,
            reporting: TableState::empty(),
        }
    }

    /// The attribute's value.
    pub open spec fn value(self, id: AttributeId) -> Option<AttrValue> {
        match id.0 {
            0x0000 => Some(AttrValue::NullableUint16(self.measured)),
            0x0001 => Some(AttrValue::NullableUint16(self.min)),
            0x0002 => Some(AttrValue::NullableUint16(self.max)),
            0x0003 => Some(AttrValue::Uint16(self.tolerance)),
            0x0004 => Some(
                AttrValue::NullableEnum8(
                    match self.sensor {
                        Some(sensor) => Some(sensor.raw()),
                        None => None,
                    },
                ),
            ),
            0xFFFD => Some(AttrValue::Uint16(1)),
            _ => None,
        }
    }
}

impl IlluminanceMeasurementServer {
    pub fn new() -> (server: Self)
        ensures
            server.wf(),
            server@ == IlluminanceState::initial(),
    {
        IlluminanceMeasurementServer {
            measured_value: None,
            min_measured_value: None,
            max_measured_value: None,
            tolerance: 0,
            light_sensor_type: None,
            reporting: LatestReportingTable::new(),
        }
    }

    pub fn set_measured_value(&mut self, v: Option<u16>)
        requires
            old(self).wf(),
        ensures
            final(self).wf(),
            final(self)@ == (IlluminanceState {
                measured: v,
                reporting: old(self)@.reporting.noted(AttributeId(0x0000)),
                ..old(self)@
            }),
    {
        self.measured_value = v;
        self.reporting.note_value_update(AttributeId::new(0x0000));
    }

    pub fn set_min_measured_value(&mut self, v: Option<u16>)
        ensures
            old(self).wf() ==> final(self).wf(),
            final(self)@ == (IlluminanceState { min: v, ..old(self)@ }),
    {
        self.min_measured_value = v;
    }

    pub fn set_max_measured_value(&mut self, v: Option<u16>)
        ensures
            old(self).wf() ==> final(self).wf(),
            final(self)@ == (IlluminanceState { max: v, ..old(self)@ }),
    {
        self.max_measured_value = v;
    }

    pub fn set_tolerance(&mut self, v: u16)
        ensures
            old(self).wf() ==> final(self).wf(),
            final(self)@ == (IlluminanceState { tolerance: v, ..old(self)@ }),
    {
        self.tolerance = v;
    }

    pub fn set_light_sensor_type(&mut self, v: Option<LightSensorType>)
        ensures
            old(self).wf() ==> final(self).wf(),
            final(self)@ == (IlluminanceState { sensor: v, ..old(self)@ }),
    {
        self.light_sensor_type = v;
    }
}

impl Default for IlluminanceMeasurementServer {
    fn default() -> (server: Self)
        ensures
            server.wf(),
            server@ == IlluminanceState::initial(),
    {
        Self::new()
    }
}

impl ClusterServer for IlluminanceMeasurementServer {
    const CLUSTER_ID: u16 = 0x0400;

    open spec fn wf(&self) -> bool {
        self.reporting.wf()
    }

    open spec fn attr(&self, id: AttributeId, cap: nat) -> ReadSpec {
        match self@.value(id) {
            Some(v) => v.read(cap),
            None => Err(AttrError::UnsupportedAttribute),
        }
    }

    open spec fn write_check(&self, id: AttributeId, type_id: TypeId, data: Seq<u8>) -> Result<
        (),
        AttrError,
    > {
        if self@.value(id) is None {
            Err(AttrError::UnsupportedAttribute)
        } else {
            Err(AttrError::ReadOnly)
        }
    }

    open spec fn wrote(
        pre: Self,
        id: AttributeId,
        type_id: TypeId,
        data: Seq<u8>,
        post: Self,
        r: Result<(), AttrError>,
    ) -> bool {
        post@ == pre@ && r == pre.write_check(id, type_id, data)
    }

    open spec fn handled(
        pre: Self,
        id: CommandId,
        payload: Seq<u8>,
        ctx: DispatchContext,
        before: Seq<u8>,
        post: Self,
        body: Seq<u8>,
        r: Result<CommandResult, ZclError>,
    ) -> bool {
        post@ == pre@ && body == before && r == Ok::<CommandResult, ZclError>(
            CommandResult::DefaultResponse(Status::UnsupCommand),
        )
    }

    open spec fn reporting_set(
        pre: Self,
        record: RecordFields,
        ctx: DispatchContext,
        post: Self,
        r: Status,
    ) -> bool {
        let (table, status) = LatestReportingTable::<1, 2>::configured_by(
            pre@.reporting,
            record,
            ctx,
            Self::attribute_infos(),
        );
        r == status && post@ == (IlluminanceState { reporting: table, ..pre@ })
    }

    open spec fn collected(
        pre: Self,
        now_ms: u32,
        out: Seq<u8>,
        cap: nat,
        post: Self,
        sent: Seq<u8>,
        r: Result<Option<ClusterReportReady>, ZclError>,
    ) -> bool {
        let (table, bytes, result) = pre@.reporting.collected(
            now_ms,
            |id: AttributeId| pre.attr(id, 2),
            out,
            cap,
        );
        sent == bytes && r == result && post@ == (IlluminanceState { reporting: table, ..pre@ })
    }

    open spec fn delivered(
        pre: Self,
        token: ReportToken,
        result: ReportDeliveryResult,
        now_ms: u32,
        post: Self,
    ) -> bool {
        post@ == (IlluminanceState {
            reporting: pre@.reporting.completed(token, result, now_ms),
            ..pre@
        })
    }

    open spec fn diagnosed(pre: Self, post: Self, r: ReportingDiagnostics) -> bool {
        r == pre@.reporting.diagnostics && post@ == (IlluminanceState {
            reporting: pre@.reporting.drained(),
            ..pre@
        })
    }

    open spec fn reporting_answer(&self, attr_id: AttributeId, direction: u8, cap: nat) -> Seq<
        u8,
    > {
        self@.reporting.answer(attr_id, direction, cap)
    }

    open spec fn attribute_infos() -> Seq<AttrInfo> {
        seq![
            AttrInfo::rp(0x0000, TypeId::Uint16),
            AttrInfo::ro(0x0001, TypeId::Uint16),
            AttrInfo::ro(0x0002, TypeId::Uint16),
            AttrInfo::ro(0x0003, TypeId::Uint16),
            AttrInfo::ro(0x0004, TypeId::Enum8),
            AttrInfo::ro(0xFFFD, TypeId::Uint16),
        ]
    }

    fn read_attribute(&self, id: AttributeId, buf: &mut [u8]) -> (r: Result<
        (TypeId, usize),
        AttrError,
    >) {
        match id.0 {
            0x0000 => encode_attr(AttrValue::NullableUint16(self.measured_value), buf),
            0x0001 => encode_attr(AttrValue::NullableUint16(self.min_measured_value), buf),
            0x0002 => encode_attr(AttrValue::NullableUint16(self.max_measured_value), buf),
            0x0003 => encode_attr(AttrValue::Uint16(self.tolerance), buf),
            0x0004 => {
                let raw: Option<u8> = match self.light_sensor_type {
                    Some(sensor) => Some(sensor.into_raw()),
                    None => None,
                };
                encode_attr(AttrValue::NullableEnum8(raw), buf)
            },
            0xFFFD => encode_attr(AttrValue::Uint16(1), buf),
            _ => Err(AttrError::UnsupportedAttribute),
        }
    }

    fn check_write_attribute(&self, id: AttributeId, type_id: TypeId, data: &[u8]) -> (r: Result<
        (),
        AttrError,
    >) {
        match id.0 {
            0x0000..=0x0004 | 0xFFFD => Err(AttrError::ReadOnly),
            _ => Err(AttrError::UnsupportedAttribute),
        }
    }

    fn write_attribute(&mut self, id: AttributeId, type_id: TypeId, data: &[u8]) -> (r: Result<
        (),
        AttrError,
    >) {
        self.check_write_attribute(id, type_id, data)
    }

    fn handle_command(
        &mut self,
        id: CommandId,
        payload: &[u8],
        ctx: DispatchContext,
        buf: &mut [u8],
    ) -> (r: Result<CommandResult, ZclError>) {
        Ok(CommandResult::DefaultResponse(Status::UnsupCommand))
    }

    fn tick(&mut self, now_ms: u32) -> (r: ClusterTick) {
        ClusterTick::idle()
    }

    fn take_dispatch_effects(&mut self) -> (r: DispatchEffects) {
        DispatchEffects::none()
    }

    fn snapshot(&self, buf: &mut [u8]) -> (n: usize) {
        assert(buf@ =~= Seq::<u8>::empty() + buf@.skip(0));
        0
    }

    fn restore_snapshot(&mut self, buf: &[u8]) {
    }

    fn configure_reporting(
        &mut self,
        record: ConfigureReportingRecord<'_>,
        ctx: DispatchContext,
    ) -> (r: Status) {
        self.reporting.configure(record, ctx, &Self::attribute_list())
    }

    fn collect_reports(&mut self, now_ms: u32, out: &mut ReportPayloadWriter<'_>) -> (r: Result<
        Option<ClusterReportReady>,
        ZclError,
    >) {
        match self.reporting.next_due(now_ms) {
            None => Ok(None),
            Some(candidate) => {
                let mut tmp: [u8; 2] = [0, 0];
                match self.read_attribute(candidate.attr_id, &mut tmp) {
                    Err(_) => Ok(None),
                    Ok((type_id, n)) => {
                        assert(tmp@.take(n as int) =~= self.attr(candidate.attr_id, 2)->Ok_0.1);
                        self.reporting.emit(candidate, type_id, &tmp[0..n], out)
                    },
                }
            },
        }
    }

    fn report_delivery_result(
        &mut self,
        token: ReportToken,
        result: ReportDeliveryResult,
        now_ms: u32,
    ) {
        self.reporting.complete(token, result, now_ms);
    }

    fn take_reporting_diagnostics(&mut self) -> (r: ReportingDiagnostics) {
        self.reporting.take_diagnostics()
    }

    fn read_reporting_config(&self, attr_id: AttributeId, direction: u8, buf: &mut [u8]) -> (n:
        usize) {
        self.reporting.write_read_response_record(attr_id, direction, buf)
    }

    fn attribute_list() -> (list: Vec<AttrInfo>) {
        vec![
            AttrInfo::read_report(0x0000, TypeId::Uint16),
            AttrInfo::read_only(0x0001, TypeId::Uint16),
            AttrInfo::read_only(0x0002, TypeId::Uint16),
            AttrInfo::read_only(0x0003, TypeId::Uint16),
            AttrInfo::read_only(0x0004, TypeId::Enum8),
            AttrInfo::read_only(0xFFFD, TypeId::Uint16),
        ]
    }

    fn commands_received() -> (list: Vec<CommandId>) {
        Vec::new()
    }

    fn commands_generated() -> (list: Vec<CommandId>) {
        Vec::new()
    }
}

/// No attribute can be written from the network: every write is refused and changes
/// nothing.
pub proof fn law_attributes_are_read_only(
    pre: IlluminanceMeasurementServer,
    id: AttributeId,
    type_id: TypeId,
    data: Seq<u8>,
    post: IlluminanceMeasurementServer,
    r: Result<(), AttrError>,
)
    requires
        IlluminanceMeasurementServer::wrote(pre, id, type_id, data, post, r),
    ensures
        r is Err,
        post@ == pre@,
{
}

} // verus!
