//! Measurement clusters with a measured value, its bounds and a tolerance.

use vstd::prelude::*;

use crate::cluster_server::ClusterServer;
use crate::context::ClusterReportReady;
use crate::context::ClusterTick;
use crate::context::CommandResult;
use crate::context::ConfigureReportingRecord;
use crate::context::DispatchContext;
use crate::context::DispatchEffects;
use crate::context::RecordFields;
use crate::context::ReportDeliveryResult;
use crate::context::ReportToken;
use crate::context::ReportingDiagnostics;
use crate::frame::Status;
use crate::reporting::LatestReportingTable;
use crate::reporting::ReportPayloadWriter;
use crate::reporting::TableState;
use crate::types::codec::encode_attr;
use crate::types::codec::AttrValue;
use crate::types::codec::ReadSpec;
use crate::types::descriptors::AttrInfo;
use crate::types::error::AttrError;
use crate::types::error::ZclError;
use crate::types::ids::AttributeId;
use crate::types::ids::CommandId;
use crate::types::ids::TypeId;
use crate::bytes::high_byte;
use crate::bytes::i16_bits;
use crate::bytes::i16_from_bits;
use crate::bytes::low_byte;
use crate::bytes::read_u16;
use crate::bytes::Le;

verus! {

/// A number that a measurement cluster measures, two bytes wide.
pub trait MeasurementValue: Copy + Sized {
    /// The number.
    spec fn num(self) -> int;

    /// The two's complement bits.
    spec fn bits(self) -> u16;

    spec fn of_bits(raw: u16) -> Self;

    /// The attribute that holds the number, or no number.
    spec fn attr_value(v: Option<Self>) -> AttrValue;

    /// The data type of that attribute.
    spec fn data_type() -> TypeId;

    proof fn law_bits_round_trip(v: Self)
        ensures
            Self::of_bits(v.bits()) == v,
    ;

    fn less_than(self, other: Self) -> (yes: bool)
        ensures
            yes == (self.num() < other.num()),
    ;

    fn to_bits(self) -> (raw: u16)
        ensures
            raw == self.bits(),
    ;

    fn from_bits(raw: u16) -> (v: Self)
        ensures
            v == Self::of_bits(raw),
    ;

    fn to_attr(v: Option<Self>) -> (value: AttrValue)
        ensures
            value == Self::attr_value(v),
    ;

    fn type_id() -> (t: TypeId)
        ensures
            t == Self::data_type(),
    ;
}

impl MeasurementValue for i16 {
    open spec fn num(self) -> int {
        self as int
    }

    open spec fn bits(self) -> u16 {
        Le::bits16(self)
    }

    open spec fn of_bits(raw: u16) -> i16 {
        Le::signed16(raw)
    }

    open spec fn attr_value(v: Option<i16>) -> AttrValue {
        AttrValue::NullableInt16(v)
    }

    open spec fn data_type() -> TypeId {
        TypeId::Int16
    }

    proof fn law_bits_round_trip(v: i16) {
        crate::bytes::lemma_signed16_round_trip(v);
    }

    fn less_than(self, other: i16) -> (yes: bool) {
        self < other
    }

    fn to_bits(self) -> (raw: u16) {
        i16_bits(self)
    }

    fn from_bits(raw: u16) -> (v: i16) {
        i16_from_bits(raw)
    }

    fn to_attr(v: Option<i16>) -> (value: AttrValue) {
        AttrValue::NullableInt16(v)
    }

    fn type_id() -> (t: TypeId) {
        TypeId::Int16
    }
}

impl MeasurementValue for u16 {
    open spec fn num(self) -> int {
        self as int
    }

    open spec fn bits(self) -> u16 {
        self
    }

    open spec fn of_bits(raw: u16) -> u16 {
        raw
    }

    open spec fn attr_value(v: Option<u16>) -> AttrValue {
        AttrValue::NullableUint16(v)
    }

    open spec fn data_type() -> TypeId {
        TypeId::Uint16
    }

    proof fn law_bits_round_trip(v: u16) {
    }

    fn less_than(self, other: u16) -> (yes: bool) {
        self < other
    }

    fn to_bits(self) -> (raw: u16) {
        self
    }

    fn from_bits(raw: u16) -> (v: u16) {
        raw
    }

    fn to_attr(v: Option<u16>) -> (value: AttrValue) {
        AttrValue::NullableUint16(v)
    }

    fn type_id() -> (t: TypeId) {
        TypeId::Uint16
    }
}

/// A measurement cluster with identifier `CLUSTER`.
///
/// Peers may only read; the application sets values. `None` reads as the null
/// sentinel of the value's data type.
pub struct MeasurementServer<V: MeasurementValue, const CLUSTER: u16> {
    /// Attribute 0x0000.
    measured_value: Option<V>,
    /// Attribute 0x0001.
    min_measured_value: Option<V>,
    /// Attribute 0x0002.
    max_measured_value: Option<V>,
    /// Attribute 0x0003.
    tolerance: u16,
    reporting: LatestReportingTable<1, 2>,
}

/// Temperature, cluster 0x0402. Values are in units of 0.01 degrees Celsius.
pub type TemperatureMeasurementServer = MeasurementServer<i16, 0x0402>;

/// Pressure, cluster 0x0403. Values are in units of 0.1 kPa.
pub type PressureMeasurementServer = MeasurementServer<i16, 0x0403>;

/// Flow, cluster 0x0404. Values are in units of 0.1 cubic metres an hour.
pub type FlowMeasurementServer = MeasurementServer<u16, 0x0404>;

/// Relative humidity, cluster 0x0405. Values are in units of 0.01%.
pub type RelativeHumidityMeasurementServer = MeasurementServer<u16, 0x0405>;

/// The state of a measurement server.
pub struct MeasurementState<V: MeasurementValue> {
    pub measured: Option<V>,
    pub min: Option<V>,
    pub max: Option<V>,
    pub tolerance: u16,
    pub reporting: TableState,
}

impl<V: MeasurementValue, const CLUSTER: u16> View for MeasurementServer<V, CLUSTER> {
    type V = MeasurementState<V>;

    closed spec fn view(&self) -> MeasurementState<V> {
        MeasurementState {
            measured: self.measured_value,
            min: self.min_measured_value,
            max: self.max_measured_value,
            tolerance: self.tolerance,
            reporting: self.reporting@,
        }
    }
}

impl<V: MeasurementValue> MeasurementState<V> {
    pub open spec fn initial() -> Self {
        MeasurementState {
            measured: None,
            min: None,
            max: None,
            tolerance: 0,
            reporting: TableState::empty(),
        }
    }

    /// Where both are known, the first is at most the second.
    pub open spec fn ordered(a: Option<V>, b: Option<V>) -> bool {
        match (a, b) {
            (Some(x), Some(y)) => x.num() <= y.num(),
            _ => true,
        }
    }

    /// What is known of value and bounds is consistent.
    pub open spec fn consistent(self) -> bool {
        Self::ordered(self.min, self.max) && Self::ordered(self.min, self.measured)
            && Self::ordered(self.measured, self.max)
    }

    /// The attribute's value.
    pub open spec fn value(self, id: AttributeId) -> Option<AttrValue> {
        match id.0 {
            0x0000 => Some(V::attr_value(self.measured)),
            0x0001 => Some(V::attr_value(self.min)),
            0x0002 => Some(V::attr_value(self.max)),
            0x0003 => Some(AttrValue::Uint16(self.tolerance)),
            0xFFFD => Some(AttrValue::Uint16(1)),
            _ => None,
        }
    }

    /// Setting took this state to `post` with result `r`: `next`, where that is
    /// consistent.
    pub open spec fn set(self, next: Self, post: Self, r: Result<(), AttrError>) -> bool {
        if next.consistent() {
            post == next && r == Ok::<(), AttrError>(())
        } else {
            post == self && r == Err::<(), AttrError>(AttrError::InvalidValue)
        }
    }

    /// The state with a new measured value. A report of it becomes pending.
    pub open spec fn with_measured(self, v: Option<V>) -> Self {
        MeasurementState {
            measured: v,
            reporting: self.reporting.noted(AttributeId(0x0000)),
            ..self
        }
    }

    /// A value in a snapshot: a presence byte and two value bytes.
    pub open spec fn optional_bytes(v: Option<V>) -> Seq<u8> {
        match v {
            Some(x) => seq![1u8] + Le::u16(x.bits()),
            None => seq![0u8, 0u8, 0u8],
        }
    }

    pub open spec fn optional_at(data: Seq<u8>, at: int) -> Option<V> {
        if data[at] != 0 {
            Some(V::of_bits(Le::u16_at(data, at + 1)))
        } else {
            None
        }
    }

    pub open spec fn snapshot(self) -> Seq<u8> {
        Self::optional_bytes(self.measured) + Self::optional_bytes(self.min)
            + Self::optional_bytes(self.max) + Le::u16(self.tolerance)
    }

    /// The state after restoring snapshot `data`. Short data changes nothing.
    pub open spec fn restored(self, data: Seq<u8>) -> Self {
        if data.len() < 11 {
            self
        } else {
            MeasurementState {
                measured: Self::optional_at(data, 0),
                min: Self::optional_at(data, 3),
                max: Self::optional_at(data, 6),
                tolerance: Le::u16_at(data, 9),
                ..self
            }
        }
    }
}

/// Where both are known, the first is at most the second.
fn ordered<V: MeasurementValue>(a: Option<V>, b: Option<V>) -> (yes: bool)
    ensures
        yes == MeasurementState::ordered(a, b),
{
    match (a, b) {
        (Some(x), Some(y)) => !y.less_than(x),
        _ => true,
    }
}

fn put_optional<V: MeasurementValue>(v: Option<V>, buf: &mut [u8], at: usize)
    requires
        at + 3 <= old(buf)@.len(),
    ensures
        final(buf)@ == old(buf)@.take(at as int) + MeasurementState::optional_bytes(v) + old(
            buf)@.skip(at + 3),
{
    let ghost before = buf@;
    match v {
        Some(x) => {
            let raw: u16 = x.to_bits();
            buf[at] = 1;
            buf[at + 1] = low_byte(raw);
            buf[at + 2] = high_byte(raw);
        },
        None => {
            buf[at] = 0;
            buf[at + 1] = 0;
            buf[at + 2] = 0;
        },
    }
    assert(buf@ =~= before.take(at as int) + MeasurementState::optional_bytes(v) + before.skip(
        at + 3,
    ));
}

fn take_optional<V: MeasurementValue>(data: &[u8], at: usize) -> (v: Option<V>)
    requires
        at + 3 <= data@.len(),
    ensures
        v == MeasurementState::<V>::optional_at(data@, at as int),
{
    if data[at] != 0 {
        Some(V::from_bits(read_u16(data, at + 1)))
    } else {
        None
    }
}

impl<V: MeasurementValue, const CLUSTER: u16> MeasurementServer<V, CLUSTER> {
    pub fn new() -> (server: Self)
        ensures
            server.wf(),
            server@ == MeasurementState::<V>::initial(),
    {
        MeasurementServer {
            measured_value: None,
            min_measured_value: None,
            max_measured_value: None,
            tolerance: 0,
            reporting: LatestReportingTable::new(),
        }
    }

    fn validate_measurement_bounds(measured: Option<V>, min: Option<V>, max: Option<V>) -> (r:
        Result<(), AttrError>)
        ensures
            r == if MeasurementState::ordered(min, max) && MeasurementState::ordered(min, measured)
                && MeasurementState::ordered(measured, max) {
                Ok::<(), AttrError>(())
            } else {
                Err::<(), AttrError>(AttrError::InvalidValue)
            },
    {
        if !ordered(min, max) || !ordered(min, measured) || !ordered(measured, max) {
            return Err(AttrError::InvalidValue);
        }
        Ok(())
    }

    pub fn measured_value(&self) -> (v: Option<V>)
        ensures
            v == self@.measured,
    {
        self.measured_value
    }

    pub fn min_measured_value(&self) -> (v: Option<V>)
        ensures
            v == self@.min,
    {
        self.min_measured_value
    }

    pub fn max_measured_value(&self) -> (v: Option<V>)
        ensures
            v == self@.max,
    {
        self.max_measured_value
    }

    pub fn tolerance(&self) -> (v: u16)
        ensures
            v == self@.tolerance,
    {
        self.tolerance
    }

    /// Set the measured value, unless it is out of the known bounds.
    pub fn set_measured_value(&mut self, v: Option<V>) -> (r: Result<(), AttrError>)
        requires
            old(self).wf(),
        ensures
            final(self).wf(),
            old(self)@.set(old(self)@.with_measured(v), final(self)@, r),
    {
        match Self::validate_measurement_bounds(
            v,
            self.min_measured_value,
            self.max_measured_value,
        ) {
            Ok(()) => {
                self.measured_value = v;
                self.reporting.note_value_update(AttributeId::new(0x0000));
                Ok(())
            },
            Err(e) => Err(e),
        }
    }

    /// Set the lower bound, unless it is above what is known.
    pub fn set_min_measured_value(&mut self, v: Option<V>) -> (r: Result<(), AttrError>)
        requires
            old(self).wf(),
        ensures
            final(self).wf(),
            old(self)@.set(MeasurementState { min: v, ..old(self)@ }, final(self)@, r),
    {
        match Self::validate_measurement_bounds(self.measured_value, v, self.max_measured_value) {
            Ok(()) => {
                self.min_measured_value = v;
                Ok(())
            },
            Err(e) => Err(e),
        }
    }

    /// Set the upper bound, unless it is below what is known.
    pub fn set_max_measured_value(&mut self, v: Option<V>) -> (r: Result<(), AttrError>)
        requires
            old(self).wf(),
        ensures
            final(self).wf(),
            old(self)@.set(MeasurementState { max: v, ..old(self)@ }, final(self)@, r),
    {
        match Self::validate_measurement_bounds(self.measured_value, self.min_measured_value, v) {
            Ok(()) => {
                self.max_measured_value = v;
                Ok(())
            },
            Err(e) => Err(e),
        }
    }

    pub fn set_tolerance(&mut self, v: u16) -> (r: Result<(), AttrError>)
        requires
            old(self).wf(),
        ensures
            final(self).wf(),
            r == Ok::<(), AttrError>(()),
            final(self)@ == (MeasurementState { tolerance: v, ..old(self)@ }),
    {
        self.tolerance = v;
        Ok(())
    }
}

impl<V: MeasurementValue, const CLUSTER: u16> Default for MeasurementServer<V, CLUSTER> {
    fn default() -> (server: Self)
        ensures
            server.wf(),
            server@ == MeasurementState::<V>::initial(),
    {
        Self::new()
    }
}

impl<V: MeasurementValue, const CLUSTER: u16> ClusterServer for MeasurementServer<V, CLUSTER> {
    const CLUSTER_ID: u16 = CLUSTER;

    closed spec fn wf(&self) -> bool {
        self.reporting.wf()
    }

    open spec fn attr(&self, id: AttributeId, cap: nat) -> ReadSpec {
        match self@.value(id) {
            Some(v) => v.read(cap),
            None => Err(AttrError::UnsupportedAttribute),
        }
    }

    open spec fn write_check(&self, id: AttributeId, type_id: TypeId, data: Seq<u8>) -> Result<
        (),
        AttrError,
    > {
        if self@.value(id) is None {
            Err(AttrError::UnsupportedAttribute)
        } else {
            Err(AttrError::ReadOnly)
        }
    }

    open spec fn wrote(
        pre: Self,
        id: AttributeId,
        type_id: TypeId,
        data: Seq<u8>,
        post: Self,
        r: Result<(), AttrError>,
    ) -> bool {
        post@ == pre@ && r == pre.write_check(id, type_id, data)
    }

    open spec fn handled(
        pre: Self,
        id: CommandId,
        payload: Seq<u8>,
        ctx: DispatchContext,
        before: Seq<u8>,
        post: Self,
        body: Seq<u8>,
        r: Result<CommandResult, ZclError>,
    ) -> bool {
        post@ == pre@ && body == before && r == Ok::<CommandResult, ZclError>(
            CommandResult::DefaultResponse(Status::UnsupCommand),
        )
    }

    open spec fn snapshot_bytes(&self, cap: nat) -> Seq<u8> {
        if cap < 11 {
            Seq::empty()
        } else {
            self@.snapshot()
        }
    }

    open spec fn restored(pre: Self, data: Seq<u8>, post: Self) -> bool {
        post@ == pre@.restored(data)
    }

    open spec fn reporting_set(
        pre: Self,
        record: RecordFields,
        ctx: DispatchContext,
        post: Self,
        r: Status,
    ) -> bool {
        let (table, status) = LatestReportingTable::<1, 2>::configured_by(
            pre@.reporting,
            record,
            ctx,
            Self::attribute_infos(),
        );
        r == status && post@ == (MeasurementState { reporting: table, ..pre@ })
    }

    open spec fn collected(
        pre: Self,
        now_ms: u32,
        out: Seq<u8>,
        cap: nat,
        post: Self,
        sent: Seq<u8>,
        r: Result<Option<ClusterReportReady>, ZclError>,
    ) -> bool {
        let (table, bytes, result) = pre@.reporting.collected(
            now_ms,
            |id: AttributeId| pre.attr(id, 2),
            out,
            cap,
        );
        sent == bytes && r == result && post@ == (MeasurementState { reporting: table, ..pre@ })
    }

    open spec fn delivered(
        pre: Self,
        token: ReportToken,
        result: ReportDeliveryResult,
        now_ms: u32,
        post: Self,
    ) -> bool {
        post@ == (MeasurementState {
            reporting: pre@.reporting.completed(token, result, now_ms),
            ..pre@
        })
    }

    open spec fn diagnosed(pre: Self, post: Self, r: ReportingDiagnostics) -> bool {
        r == pre@.reporting.diagnostics && post@ == (MeasurementState {
            reporting: pre@.reporting.drained(),
            ..pre@
        })
    }

    open spec fn reporting_answer(&self, attr_id: AttributeId, direction: u8, cap: nat) -> Seq<
        u8,
    > {
        self@.reporting.answer(attr_id, direction, cap)
    }

    open spec fn attribute_infos() -> Seq<AttrInfo> {
        seq![
            AttrInfo::rp(0x0000, V::data_type()),
            AttrInfo::ro(0x0001, V::data_type()),
            AttrInfo::ro(0x0002, V::data_type()),
            AttrInfo::ro(0x0003, TypeId::Uint16),
            AttrInfo::ro(0xFFFD, TypeId::Uint16),
        ]
    }

    fn read_attribute(&self, id: AttributeId, buf: &mut [u8]) -> (r: Result<
        (TypeId, usize),
        AttrError,
    >) {
        match id.0 {
            0x0000 => encode_attr(V::to_attr(self.measured_value), buf),
            0x0001 => encode_attr(V::to_attr(self.min_measured_value), buf),
            0x0002 => encode_attr(V::to_attr(self.max_measured_value), buf),
            0x0003 => encode_attr(AttrValue::Uint16(self.tolerance), buf),
            0xFFFD => encode_attr(AttrValue::Uint16(1), buf),
            _ => Err(AttrError::UnsupportedAttribute),
        }
    }

    fn check_write_attribute(&self, id: AttributeId, type_id: TypeId, data: &[u8]) -> (r: Result<
        (),
        AttrError,
    >) {
        match id.0 {
            0x0000..=0x0003 | 0xFFFD => Err(AttrError::ReadOnly),
            _ => Err(AttrError::UnsupportedAttribute),
        }
    }

    fn write_attribute(&mut self, id: AttributeId, type_id: TypeId, data: &[u8]) -> (r: Result<
        (),
        AttrError,
    >) {
        self.check_write_attribute(id, type_id, data)
    }

    fn handle_command(
        &mut self,
        id: CommandId,
        payload: &[u8],
        ctx: DispatchContext,
        buf: &mut [u8],
    ) -> (r: Result<CommandResult, ZclError>) {
        Ok(CommandResult::DefaultResponse(Status::UnsupCommand))
    }

    fn tick(&mut self, now_ms: u32) -> (r: ClusterTick) {
        ClusterTick::idle()
    }

    fn take_dispatch_effects(&mut self) -> (r: DispatchEffects) {
        DispatchEffects::none()
    }

    fn snapshot(&self, buf: &mut [u8]) -> (n: usize) {
        let ghost before = buf@;
        if buf.len() < 11 {
            assert(buf@ =~= Seq::<u8>::empty() + buf@.skip(0));
            return 0;
        }
        put_optional(self.measured_value, buf, 0);
        put_optional(self.min_measured_value, buf, 3);
        put_optional(self.max_measured_value, buf, 6);
        buf[9] = low_byte(self.tolerance);
        buf[10] = high_byte(self.tolerance);
        assert(buf@ =~= self@.snapshot() + before.skip(11));
        11
    }

    fn restore_snapshot(&mut self, buf: &[u8]) {
        if buf.len() < 11 {
            return;
        }
        self.measured_value = take_optional(buf, 0);
        self.min_measured_value = take_optional(buf, 3);
        self.max_measured_value = take_optional(buf, 6);
        self.tolerance = read_u16(buf, 9);
    }

    fn configure_reporting(
        &mut self,
        record: ConfigureReportingRecord<'_>,
        ctx: DispatchContext,
    ) -> (r: Status) {
        self.reporting.configure(record, ctx, &Self::attribute_list())
    }

    fn collect_reports(&mut self, now_ms: u32, out: &mut ReportPayloadWriter<'_>) -> (r: Result<
        Option<ClusterReportReady>,
        ZclError,
    >) {
        match self.reporting.next_due(now_ms) {
            None => Ok(None),
            Some(candidate) => {
                let mut tmp: [u8; 2] = [0, 0];
                match self.read_attribute(candidate.attr_id, &mut tmp) {
                    Err(_) => Ok(None),
                    Ok((type_id, n)) => {
                        assert(tmp@.take(n as int) =~= self.attr(candidate.attr_id, 2)->Ok_0.1);
                        self.reporting.emit(candidate, type_id, &tmp[0..n], out)
                    },
                }
            },
        }
    }

    fn report_delivery_result(
        &mut self,
        token: ReportToken,
        result: ReportDeliveryResult,
        now_ms: u32,
    ) {
        self.reporting.complete(token, result, now_ms);
    }

    fn take_reporting_diagnostics(&mut self) -> (r: ReportingDiagnostics) {
        self.reporting.take_diagnostics()
    }

    fn read_reporting_config(&self, attr_id: AttributeId, direction: u8, buf: &mut [u8]) -> (n:
        usize) {
        self.reporting.write_read_response_record(attr_id, direction, buf)
    }

    fn attribute_list() -> (list: Vec<AttrInfo>) {
        vec![
            AttrInfo::read_report(0x0000, V::type_id()),
            AttrInfo::read_only(0x0001, V::type_id()),
            AttrInfo::read_only(0x0002, V::type_id()),
            AttrInfo::read_only(0x0003, TypeId::Uint16),
            AttrInfo::read_only(0xFFFD, TypeId::Uint16),
        ]
    }

    fn commands_received() -> (list: Vec<CommandId>) {
        Vec::new()
    }

    fn commands_generated() -> (list: Vec<CommandId>) {
        Vec::new()
    }
}

/// What a snapshot holds comes back when it is restored, whatever the state then is.
pub proof fn law_snapshot_restores<V: MeasurementValue>(
    saved: MeasurementState<V>,
    other: MeasurementState<V>,
)
    ensures
        other.restored(saved.snapshot()) == (MeasurementState {
            reporting: other.reporting,
            ..saved
        }),
{
    let s = saved.snapshot();
    lemma_optional_at(saved.measured, s, 0);
    lemma_optional_at(saved.min, s, 3);
    lemma_optional_at(saved.max, s, 6);
    crate::bytes::lemma_u16_round_trip(saved.tolerance);
}

proof fn lemma_optional_at<V: MeasurementValue>(v: Option<V>, data: Seq<u8>, at: int)
    requires
        0 <= at,
        at + 3 <= data.len(),
        data[at] == MeasurementState::optional_bytes(v)[0],
        data[at + 1] == MeasurementState::optional_bytes(v)[1],
        data[at + 2] == MeasurementState::optional_bytes(v)[2],
    ensures
        MeasurementState::<V>::optional_at(data, at) == v,
{
    if let Some(x) = v {
        crate::bytes::lemma_u16_round_trip(x.bits());
        V::law_bits_round_trip(x);
    }
}

/// Whatever is set, a consistent measurement stays consistent.
pub proof fn law_setting_keeps_consistency<V: MeasurementValue>(
    s: MeasurementState<V>,
    next: MeasurementState<V>,
    post: MeasurementState<V>,
    r: Result<(), AttrError>,
)
    requires
        s.consistent(),
        s.set(next, post, r),
    ensures
        post.consistent(),
{
}

/// No attribute can be written from the network: every write is refused and changes
/// nothing.
pub proof fn law_attributes_are_read_only<V: MeasurementValue, const CLUSTER: u16>(
    pre: MeasurementServer<V, CLUSTER>,
    id: AttributeId,
    type_id: TypeId,
    data: Seq<u8>,
    post: MeasurementServer<V, CLUSTER>,
    r: Result<(), AttrError>,
)
    requires
        MeasurementServer::<V, CLUSTER>::wrote(pre, id, type_id, data, post, r),
    ensures
        r is Err,
        post@ == pre@,
{
}

} // verus!
