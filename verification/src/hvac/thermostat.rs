//! The thermostat cluster.

use vstd::prelude::*;

use crate::cluster_server::ClusterServer;
use crate::context::ClusterReportReady;
use crate::context::ClusterTick;
use crate::context::CommandResult;
use crate::context::ConfigureReportingRecord;
use crate::context::DispatchContext;
use crate::context::DispatchEffects;
use crate::context::RecordFields;
use crate::context::ReportDeliveryResult;
use crate::context::ReportToken;
use crate::context::ReportingDiagnostics;
use crate::frame::Status;
use crate::reporting::LatestReportingTable;
use crate::reporting::ReportPayloadWriter;
use crate::reporting::TableState;
use crate::types::codec::encode_attr;
use crate::types::codec::AttrValue;
use crate::types::codec::ReadSpec;
use crate::types::descriptors::AttrInfo;
use crate::types::error::AttrError;
use crate::types::error::ZclError;
use crate::types::ids::AttributeId;
use crate::types::ids::CommandId;
use crate::types::ids::TypeId;
use crate::bytes::high_byte;
use crate::bytes::i16_bits;
use crate::bytes::i16_from_bits;
use crate::bytes::i8_from_bits;
use crate::bytes::low_byte;
use crate::bytes::read_u16;
use crate::bytes::Le;
use crate::common::reply::Reply;
use crate::types::codec::decode_enum8;
use crate::types::codec::decode_i16;
use crate::types::enums::ThermostatControlSequence;
use crate::types::enums::ThermostatSystemMode;

verus! {

/// Thermostat, cluster 0x0201.
///
/// The application updates the local temperature. Peers may write setpoints and
/// operating mode, and raise or lower setpoints in steps of 0.1 degrees.
pub struct ThermostatServer {
    /// Attribute 0x0000, in hundredths of a degree.
    pub local_temperature: Option<i16>,
    /// Attribute 0x0011, in hundredths of a degree.
    pub occupied_cooling_setpoint: i16,
    /// Attribute 0x0012, in hundredths of a degree.
    pub occupied_heating_setpoint: i16,
    /// Attribute 0x001B.
    pub control_sequence: ThermostatControlSequence,
    /// Attribute 0x001C.
    pub system_mode: ThermostatSystemMode,
    pub reporting: LatestReportingTable<1, 2>,
}

/// The state of a thermostat server.
pub struct ThermostatState {
    pub local_temperature: Option<i16>,
    pub cooling: i16,
    pub heating: i16,
    pub control_sequence: ThermostatControlSequence,
    pub system_mode: ThermostatSystemMode,
    pub reporting: TableState,
}

impl View for ThermostatServer {
    type V = ThermostatState;

    open spec fn view(&self) -> ThermostatState {
        ThermostatState {
            local_temperature: self.local_temperature,
            cooling: self.occupied_cooling_setpoint,
            heating: self.occupied_heating_setpoint,
            control_sequence: self.control_sequence,
            system_mode: self.system_mode,
            reporting: self.reporting@,
        }
    }
}

impl ThermostatState {
    pub open spec fn initial() -> Self {
        ThermostatState {
            local_temperature: None,
            cooling: 2600,
            heating: 2000,
            control_sequence: ThermostatControlSequence::CoolingAndHeating,
            system_mode: ThermostatSystemMode::Off,
            reporting: TableState::empty(),
        }
    }

    /// The attribute's value.
    pub open spec fn value(self, id: AttributeId) -> Option<AttrValue> {
        match id.0 {
            0x0000 => Some(AttrValue::NullableInt16(self.local_temperature)),
            0x0011 => Some(AttrValue::Int16(self.cooling)),
            0x0012 => Some(AttrValue::Int16(self.heating)),
            0x001B => Some(AttrValue::Enum8(self.control_sequence.raw())),
            0x001C => Some(AttrValue::Enum8(self.system_mode.raw())),
            0xFFFD => Some(AttrValue::Uint16(3)),
            _ => None,
        }
    }

    pub open spec fn can_cool(sequence: ThermostatControlSequence) -> bool {
        sequence != ThermostatControlSequence::HeatingOnly && sequence
            != ThermostatControlSequence::HeatingWithReheat
    }

    pub open spec fn can_heat(sequence: ThermostatControlSequence) -> bool {
        sequence != ThermostatControlSequence::CoolingOnly && sequence
            != ThermostatControlSequence::CoolingWithReheat
    }

    /// The mode is one that a system with this control sequence can be in.
    pub open spec fn compatible(
        sequence: ThermostatControlSequence,
        mode: ThermostatSystemMode,
    ) -> bool {
        match mode {
            ThermostatSystemMode::Off => true,
            ThermostatSystemMode::Auto => Self::can_cool(sequence) && Self::can_heat(sequence),
            ThermostatSystemMode::Cool => Self::can_cool(sequence),
            ThermostatSystemMode::Heat | ThermostatSystemMode::EmergencyHeating => Self::can_heat(
                sequence,
            ),
            _ => false,
        }
    }

    /// What decoding an enumeration byte gives, where a byte without a meaning is
    /// an invalid value.
    pub open spec fn decoded_byte(type_id: TypeId, data: Seq<u8>) -> Result<u8, AttrError> {
        match AttrValue::decoded_enum8(type_id, data) {
            Err(AttrError::Codec(ZclError::NullSentinel)) => Err(AttrError::InvalidValue),
            other => other,
        }
    }

    /// The state after a write, or why there is none. Control sequence and system
    /// mode have to be compatible with each other.
    pub open spec fn written(self, id: AttributeId, type_id: TypeId, data: Seq<u8>) -> Result<
        Self,
        AttrError,
    > {
        match id.0 {
            0x0011 => match AttrValue::decoded_i16(type_id, data) {
                Ok(cooling) => Ok(ThermostatState { cooling, ..self }),
                Err(e) => Err(e),
            },
            0x0012 => match AttrValue::decoded_i16(type_id, data) {
                Ok(heating) => Ok(ThermostatState { heating, ..self }),
                Err(e) => Err(e),
            },
            0x001B => match Self::decoded_byte(type_id, data) {
                Ok(raw) => match ThermostatControlSequence::of(raw) {
                    Some(s) if Self::compatible(s, self.system_mode) => Ok(
                        ThermostatState { control_sequence: s, ..self },
                    ),
                    _ => Err(AttrError::InvalidValue),
                },
                Err(e) => Err(e),
            },
            0x001C => match Self::decoded_byte(type_id, data) {
                Ok(raw) => match ThermostatSystemMode::of(raw) {
                    Some(m) if Self::compatible(self.control_sequence, m) => Ok(
                        ThermostatState { system_mode: m, ..self },
                    ),
                    _ => Err(AttrError::InvalidValue),
                },
                Err(e) => Err(e),
            },
            0x0000 | 0xFFFD => Err(AttrError::ReadOnly),
            _ => Err(AttrError::UnsupportedAttribute),
        }
    }

    /// A setpoint moved by `tenths` of a degree, within what 16 bits hold.
    pub open spec fn shifted(setpoint: i16, tenths: i8) -> i16 {
        let moved = setpoint + tenths * 10;
        if moved > i16::MAX {
            i16::MAX
        } else if moved < i16::MIN {
            i16::MIN
        } else {
            moved as i16
        }
    }

    /// The state after moving setpoints: mode 0 heating, 1 cooling, 2 both.
    pub open spec fn raised(self, mode: u8, tenths: i8) -> Self {
        ThermostatState {
            heating: if mode == 0 || mode == 2 {
                Self::shifted(self.heating, tenths)
            } else {
                self.heating
            },
            cooling: if mode == 1 || mode == 2 {
                Self::shifted(self.cooling, tenths)
            } else {
                self.cooling
            },
            ..self
        }
    }

    pub open spec fn snapshot(self) -> Seq<u8> {
        Le::u16(Le::bits16(self.cooling)) + Le::u16(Le::bits16(self.heating)) + seq![
            self.control_sequence.raw(),
            self.system_mode.raw(),
        ]
    }

    /// The state after restoring snapshot `data`. Short data changes nothing, and
    /// an unknown control sequence or mode leaves that as it is.
    pub open spec fn restored(self, data: Seq<u8>) -> Self {
        if data.len() < 6 {
            self
        } else {
            ThermostatState {
                cooling: Le::signed16(Le::u16_at(data, 0)),
                heating: Le::signed16(Le::u16_at(data, 2)),
                control_sequence: match ThermostatControlSequence::of(data[4]) {
                    Some(v) => v,
                    None => self.control_sequence,
                },
                system_mode: match ThermostatSystemMode::of(data[5]) {
                    Some(v) => v,
                    None => self.system_mode,
                },
                ..self
            }
        }
    }
}

/// A write that was checked.
enum ThermostatWrite {
    OccupiedCoolingSetpoint(i16),
    OccupiedHeatingSetpoint(i16),
    ControlSequence(ThermostatControlSequence),
    SystemMode(ThermostatSystemMode),
}

impl ThermostatWrite {
    spec fn applied(self, s: ThermostatState) -> ThermostatState {
        match self {
            ThermostatWrite::OccupiedCoolingSetpoint(cooling) => ThermostatState { cooling, ..s },
            ThermostatWrite::OccupiedHeatingSetpoint(heating) => ThermostatState { heating, ..s },
            ThermostatWrite::ControlSequence(control_sequence) => ThermostatState {
                control_sequence,
                ..s
            },
            ThermostatWrite::SystemMode(system_mode) => ThermostatState { system_mode, ..s },
        }
    }
}

fn decode_byte(type_id: TypeId, data: &[u8]) -> (r: Result<u8, AttrError>)
    ensures
        r == ThermostatState::decoded_byte(type_id, data@),
{
    match decode_enum8(type_id, data) {
        Err(AttrError::Codec(ZclError::NullSentinel)) => Err(AttrError::InvalidValue),
        other => other,
    }
}

fn shift(setpoint: i16, tenths: i8) -> (moved: i16)
    ensures
        moved == ThermostatState::shifted(setpoint, tenths),
{
    let moved: i32 = setpoint as i32 + tenths as i32 * 10;
    if moved > 32767 {
        32767
    } else if moved < -32768 {
        -32768
    } else {
        moved as i16
    }
}

impl ThermostatServer {
    pub fn new() -> (server: Self)
        ensures
            server.wf(),
            server@ == ThermostatState::initial(),
    {
        ThermostatServer {
            local_temperature: None,
            occupied_cooling_setpoint: 2600,
            occupied_heating_setpoint: 2000,
            control_sequence: ThermostatControlSequence::CoolingAndHeating,
            system_mode: ThermostatSystemMode::Off,
            reporting: LatestReportingTable::new(),
        }
    }

    pub fn set_local_temperature(&mut self, v: Option<i16>)
        requires
            old(self).wf(),
        ensures
            final(self).wf(),
            final(self)@ == (ThermostatState {
                local_temperature: v,
                reporting: old(self)@.reporting.noted(AttributeId(0x0000)),
                ..old(self)@
            }),
    {
        self.local_temperature = v;
        self.reporting.note_value_update(AttributeId::new(0x0000));
    }

    pub fn local_temperature(&self) -> (v: Option<i16>)
        ensures
            v == self@.local_temperature,
    {
        self.local_temperature
    }

    fn is_system_mode_compatible(
        control_sequence: ThermostatControlSequence,
        system_mode: ThermostatSystemMode,
    ) -> (yes: bool)
        ensures
            yes == ThermostatState::compatible(control_sequence, system_mode),
    {
        match control_sequence {
            ThermostatControlSequence::CoolingOnly
            | ThermostatControlSequence::CoolingWithReheat => matches!(
                system_mode,
                ThermostatSystemMode::Off | ThermostatSystemMode::Cool
            ),
            ThermostatControlSequence::HeatingOnly
            | ThermostatControlSequence::HeatingWithReheat => matches!(
                system_mode,
                ThermostatSystemMode::Off
                | ThermostatSystemMode::Heat
                | ThermostatSystemMode::EmergencyHeating
            ),
            ThermostatControlSequence::CoolingAndHeating
            | ThermostatControlSequence::CoolingAndHeatingWithReheat => matches!(
                system_mode,
                ThermostatSystemMode::Off
                | ThermostatSystemMode::Auto
                | ThermostatSystemMode::Cool
                | ThermostatSystemMode::Heat
                | ThermostatSystemMode::EmergencyHeating
            ),
        }
    }

    fn validate_write(&self, id: AttributeId, type_id: TypeId, data: &[u8]) -> (r: Result<
        ThermostatWrite,
        AttrError,
    >)
        ensures
            match r {
                Ok(w) => self@.written(id, type_id, data@) == Ok::<ThermostatState, AttrError>(
                    w.applied(self@),
                ),
                Err(e) => self@.written(id, type_id, data@) == Err::<ThermostatState, AttrError>(e),
            },
    {
        match id.0 {
            0x0011 => match decode_i16(type_id, data) {
                Ok(v) => Ok(ThermostatWrite::OccupiedCoolingSetpoint(v)),
                Err(e) => Err(e),
            },
            0x0012 => match decode_i16(type_id, data) {
                Ok(v) => Ok(ThermostatWrite::OccupiedHeatingSetpoint(v)),
                Err(e) => Err(e),
            },
            0x001B => match decode_byte(type_id, data) {
                Ok(raw) => match ThermostatControlSequence::from_raw(raw) {
                    Ok(v) => if Self::is_system_mode_compatible(v, self.system_mode) {
                        Ok(ThermostatWrite::ControlSequence(v))
                    } else {
                        Err(AttrError::InvalidValue)
                    },
                    Err(_) => Err(AttrError::InvalidValue),
                },
                Err(e) => Err(e),
            },
            0x001C => match decode_byte(type_id, data) {
                Ok(raw) => match ThermostatSystemMode::from_raw(raw) {
                    Ok(v) => if Self::is_system_mode_compatible(self.control_sequence, v) {
                        Ok(ThermostatWrite::SystemMode(v))
                    } else {
                        Err(AttrError::InvalidValue)
                    },
                    Err(_) => Err(AttrError::InvalidValue),
                },
                Err(e) => Err(e),
            },
            0x0000 | 0xFFFD => Err(AttrError::ReadOnly),
            _ => Err(AttrError::UnsupportedAttribute),
        }
    }
}

impl Default for ThermostatServer {
    fn default() -> (server: Self)
        ensures
            server.wf(),
            server@ == ThermostatState::initial(),
    {
        Self::new()
    }
}

impl ClusterServer for ThermostatServer {
    const CLUSTER_ID: u16 = 0x0201;

    open spec fn wf(&self) -> bool {
        self.reporting.wf()
    }

    open spec fn attr(&self, id: AttributeId, cap: nat) -> ReadSpec {
        match self@.value(id) {
            Some(v) => v.read(cap),
            None => Err(AttrError::UnsupportedAttribute),
        }
    }

    open spec fn write_check(&self, id: AttributeId, type_id: TypeId, data: Seq<u8>) -> Result<
        (),
        AttrError,
    > {
        match self@.written(id, type_id, data) {
            Ok(_) => Ok(()),
            Err(e) => Err(e),
        }
    }

    open spec fn wrote(
        pre: Self,
        id: AttributeId,
        type_id: TypeId,
        data: Seq<u8>,
        post: Self,
        r: Result<(), AttrError>,
    ) -> bool {
        match pre@.written(id, type_id, data) {
            Ok(next) => post@ == next && r == Ok::<(), AttrError>(()),
            Err(e) => post@ == pre@ && r == Err::<(), AttrError>(e),
        }
    }

    open spec fn handled(
        pre: Self,
        id: CommandId,
        payload: Seq<u8>,
        ctx: DispatchContext,
        before: Seq<u8>,
        post: Self,
        body: Seq<u8>,
        r: Result<CommandResult, ZclError>,
    ) -> bool {
        if id.0 != 0x00 {
            post@ == pre@ && Reply::status(before, body, r, Status::UnsupCommand)
        } else if payload.len() < 2 {
            post@ == pre@ && Reply::failed(before, body, r, ZclError::InsufficientBytes)
        } else if payload[0] > 2 {
            post@ == pre@ && Reply::status(before, body, r, Status::InvalidField)
        } else {
            post@ == pre@.raised(payload[0], Le::signed8(payload[1])) && Reply::status(before, body, r,
                Status::Success,
            )
        }
    }

    open spec fn snapshot_bytes(&self, cap: nat) -> Seq<u8> {
        if cap < 6 {
            Seq::empty()
        } else {
            self@.snapshot()
        }
    }

    open spec fn restored(pre: Self, data: Seq<u8>, post: Self) -> bool {
        post@ == pre@.restored(data)
    }

    open spec fn reporting_set(
        pre: Self,
        record: RecordFields,
        ctx: DispatchContext,
        post: Self,
        r: Status,
    ) -> bool {
        let (table, status) = LatestReportingTable::<1, 2>::configured_by(
            pre@.reporting,
            record,
            ctx,
            Self::attribute_infos(),
        );
        r == status && post@ == (ThermostatState { reporting: table, ..pre@ })
    }

    open spec fn collected(
        pre: Self,
        now_ms: u32,
        out: Seq<u8>,
        cap: nat,
        post: Self,
        sent: Seq<u8>,
        r: Result<Option<ClusterReportReady>, ZclError>,
    ) -> bool {
        let (table, bytes, result) = pre@.reporting.collected(
            now_ms,
            |id: AttributeId| pre.attr(id, 2),
            out,
            cap,
        );
        sent == bytes && r == result && post@ == (ThermostatState { reporting: table, ..pre@ })
    }

    open spec fn delivered(
        pre: Self,
        token: ReportToken,
        result: ReportDeliveryResult,
        now_ms: u32,
        post: Self,
    ) -> bool {
        post@ == (ThermostatState {
            reporting: pre@.reporting.completed(token, result, now_ms),
            ..pre@
        })
    }

    open spec fn diagnosed(pre: Self, post: Self, r: ReportingDiagnostics) -> bool {
        r == pre@.reporting.diagnostics && post@ == (ThermostatState {
            reporting: pre@.reporting.drained(),
            ..pre@
        })
    }

    open spec fn reporting_answer(&self, attr_id: AttributeId, direction: u8, cap: nat) -> Seq<
        u8,
    > {
        self@.reporting.answer(attr_id, direction, cap)
    }

    open spec fn attribute_infos() -> Seq<AttrInfo> {
        seq![
            AttrInfo::rp(0x0000, TypeId::Int16),
            AttrInfo::rw(0x0011, TypeId::Int16),
            AttrInfo::rw(0x0012, TypeId::Int16),
            AttrInfo::rw(0x001B, TypeId::Enum8),
            AttrInfo::rw(0x001C, TypeId::Enum8),
            AttrInfo::ro(0xFFFD, TypeId::Uint16),
        ]
    }

    fn read_attribute(&self, id: AttributeId, buf: &mut [u8]) -> (r: Result<
        (TypeId, usize),
        AttrError,
    >) {
        match id.0 {
            0x0000 => encode_attr(AttrValue::NullableInt16(self.local_temperature), buf),
            0x0011 => encode_attr(AttrValue::Int16(self.occupied_cooling_setpoint), buf),
            0x0012 => encode_attr(AttrValue::Int16(self.occupied_heating_setpoint), buf),
            0x001B => encode_attr(AttrValue::Enum8(self.control_sequence.into_raw()), buf),
            0x001C => encode_attr(AttrValue::Enum8(self.system_mode.into_raw()), buf),
            0xFFFD => encode_attr(AttrValue::Uint16(3), buf),
            _ => Err(AttrError::UnsupportedAttribute),
        }
    }

    fn check_write_attribute(&self, id: AttributeId, type_id: TypeId, data: &[u8]) -> (r: Result<
        (),
        AttrError,
    >) {
        match self.validate_write(id, type_id, data) {
            Ok(_) => Ok(()),
            Err(e) => Err(e),
        }
    }

    fn write_attribute(&mut self, id: AttributeId, type_id: TypeId, data: &[u8]) -> (r: Result<
        (),
        AttrError,
    >) {
        match self.validate_write(id, type_id, data) {
            Ok(write) => {
                match write {
                    ThermostatWrite::OccupiedCoolingSetpoint(v) => {
                        self.occupied_cooling_setpoint = v;
                    },
                    ThermostatWrite::OccupiedHeatingSetpoint(v) => {
                        self.occupied_heating_setpoint = v;
                    },
                    ThermostatWrite::ControlSequence(v) => {
                        self.control_sequence = v;
                    },
                    ThermostatWrite::SystemMode(v) => {
                        self.system_mode = v;
                    },
                }
                Ok(())
            },
            Err(e) => Err(e),
        }
    }

    fn handle_command(
        &mut self,
        id: CommandId,
        payload: &[u8],
        ctx: DispatchContext,
        buf: &mut [u8],
    ) -> (r: Result<CommandResult, ZclError>) {
        if id.0 != 0x00 {
            return Ok(CommandResult::DefaultResponse(Status::UnsupCommand));
        }
        // SetpointRaiseLower: mode, amount (i8, 1/10 degree)
        if payload.len() < 2 {
            return Err(ZclError::InsufficientBytes);
        }
        let mode: u8 = payload[0];
        let tenths: i8 = i8_from_bits(payload[1]);
        if mode > 0x02 {
            return Ok(CommandResult::DefaultResponse(Status::InvalidField));
        }
        if mode != 0x01 {
            self.occupied_heating_setpoint = shift(self.occupied_heating_setpoint, tenths);
        }
        if mode != 0x00 {
            self.occupied_cooling_setpoint = shift(self.occupied_cooling_setpoint, tenths);
        }
        Ok(CommandResult::DefaultResponse(Status::Success))
    }

    fn tick(&mut self, now_ms: u32) -> (r: ClusterTick) {
        ClusterTick::idle()
    }

    fn take_dispatch_effects(&mut self) -> (r: DispatchEffects) {
        DispatchEffects::none()
    }

    fn snapshot(&self, buf: &mut [u8]) -> (n: usize) {
        let ghost before = buf@;
        if buf.len() < 6 {
            assert(buf@ =~= Seq::<u8>::empty() + buf@.skip(0));
            return 0;
        }
        let cooling: u16 = i16_bits(self.occupied_cooling_setpoint);
        let heating: u16 = i16_bits(self.occupied_heating_setpoint);
        buf[0] = low_byte(cooling);
        buf[1] = high_byte(cooling);
        buf[2] = low_byte(heating);
        buf[3] = high_byte(heating);
        buf[4] = self.control_sequence.into_raw();
        buf[5] = self.system_mode.into_raw();
        assert(buf@ =~= self@.snapshot() + before.skip(6));
        6
    }

    fn restore_snapshot(&mut self, buf: &[u8]) {
        if buf.len() < 6 {
            return;
        }
        self.occupied_cooling_setpoint = i16_from_bits(read_u16(buf, 0));
        self.occupied_heating_setpoint = i16_from_bits(read_u16(buf, 2));
        if let Ok(v) = ThermostatControlSequence::from_raw(buf[4]) {
            self.control_sequence = v;
        }
        if let Ok(v) = ThermostatSystemMode::from_raw(buf[5]) {
            self.system_mode = v;
        }
    }

    fn configure_reporting(
        &mut self,
        record: ConfigureReportingRecord<'_>,
        ctx: DispatchContext,
    ) -> (r: Status) {
        self.reporting.configure(record, ctx, &Self::attribute_list())
    }

    fn collect_reports(&mut self, now_ms: u32, out: &mut ReportPayloadWriter<'_>) -> (r: Result<
        Option<ClusterReportReady>,
        ZclError,
    >) {
        match self.reporting.next_due(now_ms) {
            None => Ok(None),
            Some(candidate) => {
                let mut tmp: [u8; 2] = [0, 0];
                match self.read_attribute(candidate.attr_id, &mut tmp) {
                    Err(_) => Ok(None),
                    Ok((type_id, n)) => {
                        assert(tmp@.take(n as int) =~= self.attr(candidate.attr_id, 2)->Ok_0.1);
                        self.reporting.emit(candidate, type_id, &tmp[0..n], out)
                    },
                }
            },
        }
    }

    fn report_delivery_result(
        &mut self,
        token: ReportToken,
        result: ReportDeliveryResult,
        now_ms: u32,
    ) {
        self.reporting.complete(token, result, now_ms);
    }

    fn take_reporting_diagnostics(&mut self) -> (r: ReportingDiagnostics) {
        self.reporting.take_diagnostics()
    }

    fn read_reporting_config(&self, attr_id: AttributeId, direction: u8, buf: &mut [u8]) -> (n:
        usize) {
        self.reporting.write_read_response_record(attr_id, direction, buf)
    }

    fn attribute_list() -> (list: Vec<AttrInfo>) {
        vec![
            AttrInfo::read_report(0x0000, TypeId::Int16),
            AttrInfo::read_write(0x0011, TypeId::Int16),
            AttrInfo::read_write(0x0012, TypeId::Int16),
            AttrInfo::read_write(0x001B, TypeId::Enum8),
            AttrInfo::read_write(0x001C, TypeId::Enum8),
            AttrInfo::read_only(0xFFFD, TypeId::Uint16),
        ]
    }

    fn commands_received() -> (list: Vec<CommandId>) {
        Vec::new()
    }

    fn commands_generated() -> (list: Vec<CommandId>) {
        Vec::new()
    }
}

/// What a snapshot holds comes back when it is restored, whatever the state then is.
pub proof fn law_snapshot_restores(saved: ThermostatState, other: ThermostatState)
    ensures
        other.restored(saved.snapshot()) == (ThermostatState {
            local_temperature: other.local_temperature,
            reporting: other.reporting,
            ..saved
        }),
{
    crate::bytes::lemma_u16_round_trip(Le::bits16(saved.cooling));
    crate::bytes::lemma_u16_round_trip(Le::bits16(saved.heating));
    crate::bytes::lemma_signed16_round_trip(saved.cooling);
    crate::bytes::lemma_signed16_round_trip(saved.heating);
    ThermostatControlSequence::law_raw_round_trip(saved.control_sequence, 0);
    ThermostatSystemMode::law_raw_round_trip(saved.system_mode, 0);
}

/// No write makes control sequence and system mode incompatible.
pub proof fn law_writes_keep_mode_compatible(
    s: ThermostatState,
    id: AttributeId,
    type_id: TypeId,
    data: Seq<u8>,
)
    requires
        ThermostatState::compatible(s.control_sequence, s.system_mode),
        s.written(id, type_id, data) is Ok,
    ensures
        ({
            let t = s.written(id, type_id, data)->Ok_0;
            ThermostatState::compatible(t.control_sequence, t.system_mode)
        }),
{
}

/// A value that was written is read back, and no other attribute changes.
pub proof fn law_written_value_is_read(
    pre: ThermostatServer,
    id: AttributeId,
    type_id: TypeId,
    data: Seq<u8>,
    post: ThermostatServer,
    other: AttributeId,
    cap: nat,
)
    requires
        ThermostatServer::wrote(pre, id, type_id, data, post, Ok(())),
        cap >= data.len(),
    ensures
        post.attr(id, cap) == Ok::<(TypeId, Seq<u8>), AttrError>((type_id, data)),
        other != id ==> post.attr(other, cap) == pre.attr(other, cap),
{
    match id.0 {
        0x0011 | 0x0012 => {
            let raw = Le::u16_at(data, 0);
            assert(Le::u16(raw) =~= data);
            assert(Le::bits16(Le::signed16(raw)) == raw);
        },
        0x001B => {
            assert(seq![data[0]] =~= data);
            ThermostatControlSequence::law_raw_round_trip(post@.control_sequence, data[0]);
        },
        _ => {
            assert(seq![data[0]] =~= data);
            ThermostatSystemMode::law_raw_round_trip(post@.system_mode, data[0]);
        },
    }
}

/// Writing back what a setpoint reads changes nothing.
pub proof fn law_write_of_read_changes_nothing(s: ThermostatState, id: AttributeId, cap: nat)
    requires
        id.0 == 0x0011 || id.0 == 0x0012,
        s.value(id)->0.read(cap) is Ok,
    ensures
        s.written(id, s.value(id)->0.read(cap)->Ok_0.0, s.value(id)->0.read(cap)->Ok_0.1) == Ok::<
            ThermostatState,
            AttrError,
        >(s),
{
    crate::types::codec::lemma_i16_read_decodes(
        if id.0 == 0x0011 {
            s.cooling
        } else {
            s.heating
        },
        cap,
    );
}

} // verus!
