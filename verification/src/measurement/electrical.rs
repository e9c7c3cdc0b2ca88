//! The electrical measurement cluster.

use vstd::prelude::*;

use crate::cluster_server::ClusterServer;
use crate::context::ClusterReportReady;
use crate::context::ClusterTick;
use crate::context::CommandResult;
use crate::context::ConfigureReportingRecord;
use crate::context::DispatchContext;
use crate::context::DispatchEffects;
use crate::context::RecordFields;
use crate::context::ReportDeliveryResult;
use crate::context::ReportToken;
use crate::context::ReportingDiagnostics;
use crate::frame::Status;
use crate::reporting::LatestReportingTable;
use crate::reporting::ReportPayloadWriter;
use crate::reporting::TableState;
use crate::types::codec::encode_attr;
use crate::types::codec::AttrValue;
use crate::types::codec::ReadSpec;
use crate::types::descriptors::AttrInfo;
use crate::types::error::AttrError;
use crate::types::error::ZclError;
use crate::types::ids::AttributeId;
use crate::types::ids::CommandId;
use crate::types::ids::TypeId;

verus! {

/// Electrical measurement, cluster 0x0B04.
///
/// Peers may only read; the application sets values. Active power is reportable.
/// The null sentinel of an attribute's data type stands for "unknown".
pub struct ElectricalMeasurementServer {
    /// Attribute 0x0000: which kinds of measurement there are.
    measurement_type: u32,
    /// Attribute 0x0505, in V.
    rms_voltage: u16,
    /// Attribute 0x0508, in mA.
    rms_current: u16,
    /// Attribute 0x050B, in W.
    active_power: i16,
    /// Attribute 0x0510, from -100 to 100.
    power_factor: i8,
    reporting: LatestReportingTable<1, 2>,
}

/// The state of an electrical measurement server.
pub struct ElectricalState {
    pub measurement_type: u32,
    pub rms_voltage: Option<u16>,
    pub rms_current: Option<u16>,
    pub active_power: Option<i16>,
    pub power_factor: Option<i8>,
    pub reporting: TableState,
}

/// A 16-bit unsigned reading that may be unknown.
pub trait NullableU16Input: Sized {
    spec fn reading(self) -> Option<u16>;

    fn into_nullable_u16(self) -> (v: Option<u16>)
        ensures
            v == self.reading(),
    ;
}

impl NullableU16Input for u16 {
    open spec fn reading(self) -> Option<u16> {
        Some(self)
    }

    fn into_nullable_u16(self) -> (v: Option<u16>) {
        Some(self)
    }
}

impl NullableU16Input for Option<u16> {
    open spec fn reading(self) -> Option<u16> {
        self
    }

    fn into_nullable_u16(self) -> (v: Option<u16>) {
        self
    }
}

/// A 16-bit signed reading that may be unknown.
pub trait NullableI16Input: Sized {
    spec fn reading(self) -> Option<i16>;

    fn into_nullable_i16(self) -> (v: Option<i16>)
        ensures
            v == self.reading(),
    ;
}

impl NullableI16Input for i16 {
    open spec fn reading(self) -> Option<i16> {
        Some(self)
    }

    fn into_nullable_i16(self) -> (v: Option<i16>) {
        Some(self)
    }
}

impl NullableI16Input for Option<i16> {
    open spec fn reading(self) -> Option<i16> {
        self
    }

    fn into_nullable_i16(self) -> (v: Option<i16>) {
        self
    }
}

/// An eight-bit signed reading that may be unknown.
pub trait NullableI8Input: Sized {
    spec fn reading(self) -> Option<i8>;

    fn into_nullable_i8(self) -> (v: Option<i8>)
        ensures
            v == self.reading(),
    ;
}

impl NullableI8Input for i8 {
    open spec fn reading(self) -> Option<i8> {
        Some(self)
    }

    fn into_nullable_i8(self) -> (v: Option<i8>) {
        Some(self)
    }
}

impl NullableI8Input for Option<i8> {
    open spec fn reading(self) -> Option<i8> {
        self
    }

    fn into_nullable_i8(self) -> (v: Option<i8>) {
        self
    }
}

impl View for ElectricalMeasurementServer {
    type V = ElectricalState;

    closed spec fn view(&self) -> ElectricalState {
        ElectricalState {
            measurement_type: self.measurement_type,
            rms_voltage: ElectricalState::known_u16(Some(self.rms_voltage)),
            rms_current: ElectricalState::known_u16(Some(self.rms_current)),
            active_power: ElectricalState::known_i16(Some(self.active_power)),
            power_factor: ElectricalState::known_i8(Some(self.power_factor)),
            reporting: self.reporting@,
        }
    }
}

impl ElectricalState {
    pub open spec fn initial() -> Self {
        ElectricalState {
            measurement_type: 0x0000_0008,
            rms_voltage: None,
            rms_current: None,
            active_power: None,
            power_factor: None,
            reporting: TableState::empty(),
        }
    }

    /// A reading, unless it is the null sentinel.
    pub open spec fn known_u16(v: Option<u16>) -> Option<u16> {
        if v == Some(0xFFFFu16) {
            None
        } else {
            v
        }
    }

    /// A reading, unless it is the null sentinel.
    pub open spec fn known_i16(v: Option<i16>) -> Option<i16> {
        if v == Some(i16::MIN) {
            None
        } else {
            v
        }
    }

    /// A reading, unless it is the null sentinel.
    pub open spec fn known_i8(v: Option<i8>) -> Option<i8> {
        if v == Some(i8::MIN) {
            None
        } else {
            v
        }
    }

    /// The attribute's value.
    pub open spec fn value(self, id: AttributeId) -> Option<AttrValue> {
        match id.0 {
            0x0000 => Some(AttrValue::Bitmap32(self.measurement_type)),
            0x0505 => Some(AttrValue::NullableUint16(self.rms_voltage)),
            0x0508 => Some(AttrValue::NullableUint16(self.rms_current)),
            0x050B => Some(AttrValue::NullableInt16(self.active_power)),
            0x0510 => Some(AttrValue::NullableInt8(self.power_factor)),
            0xFFFD => Some(AttrValue::Uint16(1)),
            _ => None,
        }
    }
}

impl ElectricalMeasurementServer {
    pub fn new() -> (server: Self)
        ensures
            server.wf(),
            server@ == ElectricalState::initial(),
    {
        ElectricalMeasurementServer {
            measurement_type: 0x0000_0008,
            rms_voltage: 0xFFFF,
            rms_current: 0xFFFF,
            active_power: i16::MIN,
            power_factor: i8::MIN,
            reporting: LatestReportingTable::new(),
        }
    }

    pub fn measurement_type(&self) -> (v: u32)
        ensures
            v == self@.measurement_type,
    {
        self.measurement_type
    }

    pub fn rms_voltage(&self) -> (v: Option<u16>)
        ensures
            v == self@.rms_voltage,
    {
        if self.rms_voltage == 0xFFFF {
            None
        } else {
            Some(self.rms_voltage)
        }
    }

    pub fn rms_current(&self) -> (v: Option<u16>)
        ensures
            v == self@.rms_current,
    {
        if self.rms_current == 0xFFFF {
            None
        } else {
            Some(self.rms_current)
        }
    }

    pub fn active_power(&self) -> (v: Option<i16>)
        ensures
            v == self@.active_power,
    {
        if self.active_power == i16::MIN {
            None
        } else {
            Some(self.active_power)
        }
    }

    pub fn power_factor(&self) -> (v: Option<i8>)
        ensures
            v == self@.power_factor,
    {
        if self.power_factor == i8::MIN {
            None
        } else {
            Some(self.power_factor)
        }
    }

    pub fn set_measurement_type(&mut self, v: u32)
        ensures
            old(self).wf() ==> final(self).wf(),
            final(self)@ == (ElectricalState { measurement_type: v, ..old(self)@ }),
    {
        self.measurement_type = v;
    }

    pub fn set_rms_voltage<T: NullableU16Input>(&mut self, v: T)
        ensures
            old(self).wf() ==> final(self).wf(),
            final(self)@ == (ElectricalState {
                rms_voltage: ElectricalState::known_u16(v.reading()),
                ..old(self)@
            }),
    {
        self.rms_voltage = match v.into_nullable_u16() {
            Some(x) => x,
            None => 0xFFFF,
        };
    }

    pub fn set_rms_current<T: NullableU16Input>(&mut self, v: T)
        ensures
            old(self).wf() ==> final(self).wf(),
            final(self)@ == (ElectricalState {
                rms_current: ElectricalState::known_u16(v.reading()),
                ..old(self)@
            }),
    {
        self.rms_current = match v.into_nullable_u16() {
            Some(x) => x,
            None => 0xFFFF,
        };
    }

    pub fn set_active_power<T: NullableI16Input>(&mut self, v: T)
        requires
            old(self).wf(),
        ensures
            final(self).wf(),
            final(self)@ == (ElectricalState {
                active_power: ElectricalState::known_i16(v.reading()),
                reporting: old(self)@.reporting.noted(AttributeId(0x050B)),
                ..old(self)@
            }),
    {
        self.active_power = match v.into_nullable_i16() {
            Some(x) => x,
            None => i16::MIN,
        };
        self.reporting.note_value_update(AttributeId::new(0x050B));
    }

    pub fn set_power_factor<T: NullableI8Input>(&mut self, v: T)
        ensures
            old(self).wf() ==> final(self).wf(),
            final(self)@ == (ElectricalState {
                power_factor: ElectricalState::known_i8(v.reading()),
                ..old(self)@
            }),
    {
        self.power_factor = match v.into_nullable_i8() {
            Some(x) => x,
            None => i8::MIN,
        };
    }
}

impl Default for ElectricalMeasurementServer {
    fn default() -> (server: Self)
        ensures
            server.wf(),
            server@ == ElectricalState::initial(),
    {
        Self::new()
    }
}

impl ClusterServer for ElectricalMeasurementServer {
    const CLUSTER_ID: u16 = 0x0B04;

    closed spec fn wf(&self) -> bool {
        self.reporting.wf()
    }

    open spec fn attr(&self, id: AttributeId, cap: nat) -> ReadSpec {
        match self@.value(id) {
            Some(v) => v.read(cap),
            None => Err(AttrError::UnsupportedAttribute),
        }
    }

    open spec fn write_check(&self, id: AttributeId, type_id: TypeId, data: Seq<u8>) -> Result<
        (),
        AttrError,
    > {
        if self@.value(id) is None {
            Err(AttrError::UnsupportedAttribute)
        } else {
            Err(AttrError::ReadOnly)
        }
    }

    open spec fn wrote(
        pre: Self,
        id: AttributeId,
        type_id: TypeId,
        data: Seq<u8>,
        post: Self,
        r: Result<(), AttrError>,
    ) -> bool {
        post@ == pre@ && r == pre.write_check(id, type_id, data)
    }

    open spec fn handled(
        pre: Self,
        id: CommandId,
        payload: Seq<u8>,
        ctx: DispatchContext,
        before: Seq<u8>,
        post: Self,
        body: Seq<u8>,
        r: Result<CommandResult, ZclError>,
    ) -> bool {
        post@ == pre@ && body == before && r == Ok::<CommandResult, ZclError>(
            CommandResult::DefaultResponse(Status::UnsupCommand),
        )
    }

    open spec fn reporting_set(
        pre: Self,
        record: RecordFields,
        ctx: DispatchContext,
        post: Self,
        r: Status,
    ) -> bool {
        let (table, status) = LatestReportingTable::<1, 2>::configured_by(
            pre@.reporting,
            record,
            ctx,
            Self::attribute_infos(),
        );
        r == status && post@ == (ElectricalState { reporting: table, ..pre@ })
    }

    open spec fn collected(
        pre: Self,
        now_ms: u32,
        out: Seq<u8>,
        cap: nat,
        post: Self,
        sent: Seq<u8>,
        r: Result<Option<ClusterReportReady>, ZclError>,
    ) -> bool {
        let (table, bytes, result) = pre@.reporting.collected(
            now_ms,
            |id: AttributeId| pre.attr(id, 2),
            out,
            cap,
        );
        sent == bytes && r == result && post@ == (ElectricalState { reporting: table, ..pre@ })
    }

    open spec fn delivered(
        pre: Self,
        token: ReportToken,
        result: ReportDeliveryResult,
        now_ms: u32,
        post: Self,
    ) -> bool {
        post@ == (ElectricalState {
            reporting: pre@.reporting.completed(token, result, now_ms),
            ..pre@
        })
    }

    open spec fn diagnosed(pre: Self, post: Self, r: ReportingDiagnostics) -> bool {
        r == pre@.reporting.diagnostics && post@ == (ElectricalState {
            reporting: pre@.reporting.drained(),
            ..pre@
        })
    }

    open spec fn reporting_answer(&self, attr_id: AttributeId, direction: u8, cap: nat) -> Seq<
        u8,
    > {
        self@.reporting.answer(attr_id, direction, cap)
    }

    open spec fn attribute_infos() -> Seq<AttrInfo> {
        seq![
            AttrInfo::ro(0x0000, TypeId::Bitmap32),
            AttrInfo::ro(0x0505, TypeId::Uint16),
            AttrInfo::ro(0x0508, TypeId::Uint16),
            AttrInfo::rp(0x050B, TypeId::Int16),
            AttrInfo::ro(0x0510, TypeId::Int8),
            AttrInfo::ro(0xFFFD, TypeId::Uint16),
        ]
    }

    fn read_attribute(&self, id: AttributeId, buf: &mut [u8]) -> (r: Result<
        (TypeId, usize),
        AttrError,
    >) {
        match id.0 {
            0x0000 => encode_attr(AttrValue::Bitmap32(self.measurement_type), buf),
            0x0505 => encode_attr(AttrValue::NullableUint16(self.rms_voltage()), buf),
            0x0508 => encode_attr(AttrValue::NullableUint16(self.rms_current()), buf),
            0x050B => encode_attr(AttrValue::NullableInt16(self.active_power()), buf),
            0x0510 => encode_attr(AttrValue::NullableInt8(self.power_factor()), buf),
            0xFFFD => encode_attr(AttrValue::Uint16(1), buf),
            _ => Err(AttrError::UnsupportedAttribute),
        }
    }

    fn check_write_attribute(&self, id: AttributeId, type_id: TypeId, data: &[u8]) -> (r: Result<
        (),
        AttrError,
    >) {
        match id.0 {
            0x0000 | 0x0505 | 0x0508 | 0x050B | 0x0510 | 0xFFFD => Err(AttrError::ReadOnly),
            _ => Err(AttrError::UnsupportedAttribute),
        }
    }

    fn write_attribute(&mut self, id: AttributeId, type_id: TypeId, data: &[u8]) -> (r: Result<
        (),
        AttrError,
    >) {
        self.check_write_attribute(id, type_id, data)
    }

    fn handle_command(
        &mut self,
        id: CommandId,
        payload: &[u8],
        ctx: DispatchContext,
        buf: &mut [u8],
    ) -> (r: Result<CommandResult, ZclError>) {
        Ok(CommandResult::DefaultResponse(Status::UnsupCommand))
    }

    fn tick(&mut self, now_ms: u32) -> (r: ClusterTick) {
        ClusterTick::idle()
    }

    fn take_dispatch_effects(&mut self) -> (r: DispatchEffects) {
        DispatchEffects::none()
    }

    fn snapshot(&self, buf: &mut [u8]) -> (n: usize) {
        assert(buf@ =~= Seq::<u8>::empty() + buf@.skip(0));
        0
    }

    fn restore_snapshot(&mut self, buf: &[u8]) {
    }

    fn configure_reporting(
        &mut self,
        record: ConfigureReportingRecord<'_>,
        ctx: DispatchContext,
    ) -> (r: Status) {
        self.reporting.configure(record, ctx, &Self::attribute_list())
    }

    fn collect_reports(&mut self, now_ms: u32, out: &mut ReportPayloadWriter<'_>) -> (r: Result<
        Option<ClusterReportReady>,
        ZclError,
    >) {
        match self.reporting.next_due(now_ms) {
            None => Ok(None),
            Some(candidate) => {
                let mut tmp: [u8; 2] = [0, 0];
                match self.read_attribute(candidate.attr_id, &mut tmp) {
                    Err(_) => Ok(None),
                    Ok((type_id, n)) => {
                        assert(tmp@.take(n as int) =~= self.attr(candidate.attr_id, 2)->Ok_0.1);
                        self.reporting.emit(candidate, type_id, &tmp[0..n], out)
                    },
                }
            },
        }
    }

    fn report_delivery_result(
        &mut self,
        token: ReportToken,
        result: ReportDeliveryResult,
        now_ms: u32,
    ) {
        self.reporting.complete(token, result, now_ms);
    }

    fn take_reporting_diagnostics(&mut self) -> (r: ReportingDiagnostics) {
        self.reporting.take_diagnostics()
    }

    fn read_reporting_config(&self, attr_id: AttributeId, direction: u8, buf: &mut [u8]) -> (n:
        usize) {
        self.reporting.write_read_response_record(attr_id, direction, buf)
    }

    fn attribute_list() -> (list: Vec<AttrInfo>) {
        vec![
            AttrInfo::read_only(0x0000, TypeId::Bitmap32),
            AttrInfo::read_only(0x0505, TypeId::Uint16),
            AttrInfo::read_only(0x0508, TypeId::Uint16),
            AttrInfo::read_report(0x050B, TypeId::Int16),
            AttrInfo::read_only(0x0510, TypeId::Int8),
            AttrInfo::read_only(0xFFFD, TypeId::Uint16),
        ]
    }

    fn commands_received() -> (list: Vec<CommandId>) {
        Vec::new()
    }

    fn commands_generated() -> (list: Vec<CommandId>) {
        Vec::new()
    }
}

/// No attribute can be written from the network: every write is refused and changes
/// nothing.
pub proof fn law_attributes_are_read_only(
    pre: ElectricalMeasurementServer,
    id: AttributeId,
    type_id: TypeId,
    data: Seq<u8>,
    post: ElectricalMeasurementServer,
    r: Result<(), AttrError>,
)
    requires
        ElectricalMeasurementServer::wrote(pre, id, type_id, data, post, r),
    ensures
        r is Err,
        post@ == pre@,
{
}

} // verus!
