//! The occupancy sensing cluster.

use vstd::prelude::*;

use crate::cluster_server::ClusterServer;
use crate::context::ClusterReportReady;
use crate::context::ClusterTick;
use crate::context::CommandResult;
use crate::context::ConfigureReportingRecord;
use crate::context::DispatchContext;
use crate::context::DispatchEffects;
use crate::context::RecordFields;
use crate::context::ReportDeliveryResult;
use crate::context::ReportToken;
use crate::context::ReportingDiagnostics;
use crate::frame::Status;
use crate::reporting::LatestReportingTable;
use crate::reporting::ReportPayloadWriter;
use crate::reporting::TableState;
use crate::types::codec::encode_attr;
use crate::types::codec::AttrValue;
use crate::types::codec::ReadSpec;
use crate::types::descriptors::AttrInfo;
use crate::types::error::AttrError;
use crate::types::error::ZclError;
use crate::types::ids::AttributeId;
use crate::types::ids::CommandId;
use crate::types::ids::TypeId;
use crate::types::enums::OccupancySensorType;

verus! {

/// Occupancy sensing, cluster 0x0406.
///
/// Peers may only read; the application sets the occupancy. Bits 0 to 2 of the
/// sensor type bitmap stand for passive infrared, ultrasonic and physical contact
/// sensors.
pub struct OccupancySensingServer {
    /// Attribute 0x0000. Bit 0: occupied.
    occupancy: u8,
    /// Attribute 0x0001.
    occupancy_sensor_type: OccupancySensorType,
    /// Attribute 0x0002.
    occupancy_sensor_type_bitmap: u8,
    reporting: LatestReportingTable<1, 1>,
}

/// The state of an occupancy sensing server.
pub struct OccupancyState {
    pub occupied: bool,
    pub sensor: OccupancySensorType,
    pub sensor_bitmap: u8,
    pub reporting: TableState,
}

impl View for OccupancySensingServer {
    type V = OccupancyState;

    closed spec fn view(&self) -> OccupancyState {
        OccupancyState {
            occupied: self.occupancy == 1,
            sensor: self.occupancy_sensor_type,
            sensor_bitmap: self.occupancy_sensor_type_bitmap,
            reporting: self.reporting@,
        }
    }
}

impl OccupancyState {
    pub open spec fn initial(sensor: OccupancySensorType, type_bitmap: u8) -> Self {
        OccupancyState {
            occupied: false,
            sensor,
            sensor_bitmap: type_bitmap & 0x07,
            reporting: TableState::empty(),
        }
    }

    /// The occupancy bitmap.
    pub open spec fn bitmap(self) -> u8 {
        if self.occupied {
            1
        } else {
            0
        }
    }

    /// The attribute's value.
    pub open spec fn value(self, id: AttributeId) -> Option<AttrValue> {
        match id.0 {
            0x0000 => Some(AttrValue::Bitmap8(self.bitmap())),
            0x0001 => Some(AttrValue::Enum8(self.sensor.raw())),
            0x0002 => Some(AttrValue::Bitmap8(self.sensor_bitmap)),
            0xFFFD => Some(AttrValue::Uint16(1)),
            _ => None,
        }
    }

    /// The state after an observation. A report becomes pending only where it
    /// changes the occupancy.
    pub open spec fn observed(self, occupied: bool) -> Self {
        if occupied == self.occupied {
            self
        } else {
            OccupancyState {
                occupied,
                reporting: self.reporting.noted(AttributeId(0x0000)),
                ..self
            }
        }
    }
}

impl OccupancySensingServer {
    pub fn new(sensor_type: OccupancySensorType, type_bitmap: u8) -> (server: Self)
        ensures
            server.wf(),
            server@ == OccupancyState::initial(sensor_type, type_bitmap),
    {
        OccupancySensingServer {
            occupancy: 0,
            occupancy_sensor_type: sensor_type,
            occupancy_sensor_type_bitmap: type_bitmap & 0x07,
            reporting: LatestReportingTable::new(),
        }
    }

    pub fn set_occupied(&mut self, occupied: bool)
        requires
            old(self).wf(),
        ensures
            final(self).wf(),
            final(self)@ == old(self)@.observed(occupied),
    {
        let new_val: u8 = if occupied {
            1
        } else {
            0
        };
        if new_val != self.occupancy {
            self.occupancy = new_val;
            self.reporting.note_value_update(AttributeId::new(0x0000));
        }
    }

    pub fn occupancy(&self) -> (bitmap: u8)
        requires
            self.wf(),
        ensures
            bitmap == self@.bitmap(),
    {
        self.occupancy
    }

    pub fn occupancy_sensor_type(&self) -> (sensor: OccupancySensorType)
        ensures
            sensor == self@.sensor,
    {
        self.occupancy_sensor_type
    }

    pub fn occupancy_sensor_type_bitmap(&self) -> (bitmap: u8)
        ensures
            bitmap == self@.sensor_bitmap,
    {
        self.occupancy_sensor_type_bitmap
    }

    pub fn is_occupied(&self) -> (yes: bool)
        requires
            self.wf(),
        ensures
            yes == self@.occupied,
    {
        self.occupancy % 2 != 0
    }
}

impl Default for OccupancySensingServer {
    fn default() -> (server: Self)
        ensures
            server.wf(),
            server@ == OccupancyState::initial(OccupancySensorType::Pir, 0x01),
    {
        Self::new(OccupancySensorType::Pir, 0x01)
    }
}

impl ClusterServer for OccupancySensingServer {
    const CLUSTER_ID: u16 = 0x0406;

    closed spec fn wf(&self) -> bool {
        self.occupancy <= 1 && self.reporting.wf()
    }

    open spec fn attr(&self, id: AttributeId, cap: nat) -> ReadSpec {
        match self@.value(id) {
            Some(v) => v.read(cap),
            None => Err(AttrError::UnsupportedAttribute),
        }
    }

    open spec fn write_check(&self, id: AttributeId, type_id: TypeId, data: Seq<u8>) -> Result<
        (),
        AttrError,
    > {
        if self@.value(id) is None {
            Err(AttrError::UnsupportedAttribute)
        } else {
            Err(AttrError::ReadOnly)
        }
    }

    open spec fn wrote(
        pre: Self,
        id: AttributeId,
        type_id: TypeId,
        data: Seq<u8>,
        post: Self,
        r: Result<(), AttrError>,
    ) -> bool {
        post@ == pre@ && r == pre.write_check(id, type_id, data)
    }

    open spec fn handled(
        pre: Self,
        id: CommandId,
        payload: Seq<u8>,
        ctx: DispatchContext,
        before: Seq<u8>,
        post: Self,
        body: Seq<u8>,
        r: Result<CommandResult, ZclError>,
    ) -> bool {
        post@ == pre@ && body == before && r == Ok::<CommandResult, ZclError>(
            CommandResult::DefaultResponse(Status::UnsupCommand),
        )
    }

    open spec fn reporting_set(
        pre: Self,
        record: RecordFields,
        ctx: DispatchContext,
        post: Self,
        r: Status,
    ) -> bool {
        let (table, status) = LatestReportingTable::<1, 1>::configured_by(
            pre@.reporting,
            record,
            ctx,
            Self::attribute_infos(),
        );
        r == status && post@ == (OccupancyState { reporting: table, ..pre@ })
    }

    open spec fn collected(
        pre: Self,
        now_ms: u32,
        out: Seq<u8>,
        cap: nat,
        post: Self,
        sent: Seq<u8>,
        r: Result<Option<ClusterReportReady>, ZclError>,
    ) -> bool {
        let (table, bytes, result) = pre@.reporting.collected(
            now_ms,
            |id: AttributeId| pre.attr(id, 1),
            out,
            cap,
        );
        sent == bytes && r == result && post@ == (OccupancyState { reporting: table, ..pre@ })
    }

    open spec fn delivered(
        pre: Self,
        token: ReportToken,
        result: ReportDeliveryResult,
        now_ms: u32,
        post: Self,
    ) -> bool {
        post@ == (OccupancyState {
            reporting: pre@.reporting.completed(token, result, now_ms),
            ..pre@
        })
    }

    open spec fn diagnosed(pre: Self, post: Self, r: ReportingDiagnostics) -> bool {
        r == pre@.reporting.diagnostics && post@ == (OccupancyState {
            reporting: pre@.reporting.drained(),
            ..pre@
        })
    }

    open spec fn reporting_answer(&self, attr_id: AttributeId, direction: u8, cap: nat) -> Seq<
        u8,
    > {
        self@.reporting.answer(attr_id, direction, cap)
    }

    open spec fn attribute_infos() -> Seq<AttrInfo> {
        seq![
            AttrInfo::rp(0x0000, TypeId::Bitmap8),
            AttrInfo::ro(0x0001, TypeId::Enum8),
            AttrInfo::ro(0x0002, TypeId::Bitmap8),
            AttrInfo::ro(0xFFFD, TypeId::Uint16),
        ]
    }

    fn read_attribute(&self, id: AttributeId, buf: &mut [u8]) -> (r: Result<
        (TypeId, usize),
        AttrError,
    >) {
        match id.0 {
            0x0000 => encode_attr(AttrValue::Bitmap8(self.occupancy), buf),
            0x0001 => encode_attr(AttrValue::Enum8(self.occupancy_sensor_type.into_raw()), buf),
            0x0002 => encode_attr(AttrValue::Bitmap8(self.occupancy_sensor_type_bitmap), buf),
            0xFFFD => encode_attr(AttrValue::Uint16(1), buf),
            _ => Err(AttrError::UnsupportedAttribute),
        }
    }

    fn check_write_attribute(&self, id: AttributeId, type_id: TypeId, data: &[u8]) -> (r: Result<
        (),
        AttrError,
    >) {
        match id.0 {
            0x0000..=0x0002 | 0xFFFD => Err(AttrError::ReadOnly),
            _ => Err(AttrError::UnsupportedAttribute),
        }
    }

    fn write_attribute(&mut self, id: AttributeId, type_id: TypeId, data: &[u8]) -> (r: Result<
        (),
        AttrError,
    >) {
        self.check_write_attribute(id, type_id, data)
    }

    fn handle_command(
        &mut self,
        id: CommandId,
        payload: &[u8],
        ctx: DispatchContext,
        buf: &mut [u8],
    ) -> (r: Result<CommandResult, ZclError>) {
        Ok(CommandResult::DefaultResponse(Status::UnsupCommand))
    }

    fn tick(&mut self, now_ms: u32) -> (r: ClusterTick) {
        ClusterTick::idle()
    }

    fn take_dispatch_effects(&mut self) -> (r: DispatchEffects) {
        DispatchEffects::none()
    }

    fn snapshot(&self, buf: &mut [u8]) -> (n: usize) {
        assert(buf@ =~= Seq::<u8>::empty() + buf@.skip(0));
        0
    }

    fn restore_snapshot(&mut self, buf: &[u8]) {
    }

    fn configure_reporting(
        &mut self,
        record: ConfigureReportingRecord<'_>,
        ctx: DispatchContext,
    ) -> (r: Status) {
        self.reporting.configure(record, ctx, &Self::attribute_list())
    }

    fn collect_reports(&mut self, now_ms: u32, out: &mut ReportPayloadWriter<'_>) -> (r: Result<
        Option<ClusterReportReady>,
        ZclError,
    >) {
        match self.reporting.next_due(now_ms) {
            None => Ok(None),
            Some(candidate) => {
                let mut tmp: [u8; 1] = [0];
                match self.read_attribute(candidate.attr_id, &mut tmp) {
                    Err(_) => Ok(None),
                    Ok((type_id, n)) => {
                        assert(tmp@.take(n as int) =~= self.attr(candidate.attr_id, 1)->Ok_0.1);
                        self.reporting.emit(candidate, type_id, &tmp[0..n], out)
                    },
                }
            },
        }
    }

    fn report_delivery_result(
        &mut self,
        token: ReportToken,
        result: ReportDeliveryResult,
        now_ms: u32,
    ) {
        self.reporting.complete(token, result, now_ms);
    }

    fn take_reporting_diagnostics(&mut self) -> (r: ReportingDiagnostics) {
        self.reporting.take_diagnostics()
    }

    fn read_reporting_config(&self, attr_id: AttributeId, direction: u8, buf: &mut [u8]) -> (n:
        usize) {
        self.reporting.write_read_response_record(attr_id, direction, buf)
    }

    fn attribute_list() -> (list: Vec<AttrInfo>) {
        vec![
            AttrInfo::read_report(0x0000, TypeId::Bitmap8),
            AttrInfo::read_only(0x0001, TypeId::Enum8),
            AttrInfo::read_only(0x0002, TypeId::Bitmap8),
            AttrInfo::read_only(0xFFFD, TypeId::Uint16),
        ]
    }

    fn commands_received() -> (list: Vec<CommandId>) {
        Vec::new()
    }

    fn commands_generated() -> (list: Vec<CommandId>) {
        Vec::new()
    }
}

/// No attribute can be written from the network: every write is refused and changes
/// nothing.
pub proof fn law_attributes_are_read_only(
    pre: OccupancySensingServer,
    id: AttributeId,
    type_id: TypeId,
    data: Seq<u8>,
    post: OccupancySensingServer,
    r: Result<(), AttrError>,
)
    requires
        OccupancySensingServer::wrote(pre, id, type_id, data, post, r),
    ensures
        r is Err,
        post@ == pre@,
{
}

} // verus!
