//! The on/off cluster.

use vstd::prelude::*;

use crate::cluster_server::ClusterServer;
use crate::context::ClusterReportReady;
use crate::context::ClusterTick;
use crate::context::CommandResult;
use crate::context::ConfigureReportingRecord;
use crate::context::DispatchContext;
use crate::context::DispatchEffects;
use crate::context::RecordFields;
use crate::context::ReportDeliveryResult;
use crate::context::ReportToken;
use crate::context::ReportingDiagnostics;
use crate::frame::Status;
use crate::reporting::LatestReportingTable;
use crate::reporting::ReportPayloadWriter;
use crate::reporting::TableState;
use crate::types::codec::encode_attr;
use crate::types::codec::AttrValue;
use crate::types::codec::ReadSpec;
use crate::types::descriptors::AttrInfo;
use crate::types::error::AttrError;
use crate::types::error::ZclError;
use crate::types::ids::AttributeId;
use crate::types::ids::CommandId;
use crate::types::ids::TypeId;
use crate::bytes::high_byte;
use crate::bytes::low_byte;
use crate::bytes::read_u16;
use crate::bytes::Le;
use crate::common::reply::Reply;

verus! {

/// On/off, cluster 0x0006.
///
/// Commands change the state; peers may only read the attribute that shows it.
///
/// The attributes 0x4000 to 0x4002 are stored and discoverable, but the commands
/// that consume them are not implemented; applications can read and set them.
pub struct OnOffServer {
    /// Attribute 0x0000.
    pub on_off: bool,
    /// Attribute 0x4000.
    pub global_scene_control: bool,
    /// Attribute 0x4001, in 1/10 s.
    pub on_time: u16,
    /// Attribute 0x4002, in 1/10 s.
    pub off_wait_time: u16,
    pub reporting: LatestReportingTable<1, 1>,
}

/// The state of an on/off server.
pub struct OnOffState {
    pub on_off: bool,
    pub global_scene_control: bool,
    pub on_time: u16,
    pub off_wait_time: u16,
    pub reporting: TableState,
}

impl View for OnOffServer {
    type V = OnOffState;

    open spec fn view(&self) -> OnOffState {
        OnOffState {
            on_off: self.on_off,
            global_scene_control: self.global_scene_control,
            on_time: self.on_time,
            off_wait_time: self.off_wait_time,
            reporting: self.reporting@,
        }
    }
}

impl OnOffState {
    pub open spec fn initial(on_off: bool) -> Self {
        OnOffState {
            on_off,
            global_scene_control: true,
            on_time: 0,
            off_wait_time: 0,
            reporting: TableState::empty(),
        }
    }

    /// The attribute's value.
    pub open spec fn value(self, id: AttributeId) -> Option<AttrValue> {
        match id.0 {
            0x0000 => Some(AttrValue::Boolean(self.on_off)),
            0x4000 => Some(AttrValue::Boolean(self.global_scene_control)),
            0x4001 => Some(AttrValue::Uint16(self.on_time)),
            0x4002 => Some(AttrValue::Uint16(self.off_wait_time)),
            0xFFFD => Some(AttrValue::Uint16(2)),
            _ => None,
        }
    }

    /// The state after switching. A report of it becomes pending.
    pub open spec fn switched(self, on_off: bool) -> Self {
        OnOffState { on_off, reporting: self.reporting.noted(AttributeId(0x0000)), ..self }
    }

    /// The state and status after a command: off, on or toggle.
    pub open spec fn commanded(self, id: CommandId) -> (Self, Status) {
        match id.0 {
            0x00 => (self.switched(false), Status::Success),
            0x01 => (self.switched(true), Status::Success),
            0x02 => (self.switched(!self.on_off), Status::Success),
            _ => (self, Status::UnsupCommand),
        }
    }

    pub open spec fn snapshot(self) -> Seq<u8> {
        seq![
            if self.on_off {
                1u8
            } else {
                0u8
            },
            if self.global_scene_control {
                1u8
            } else {
                0u8
            },
        ] + Le::u16(self.on_time) + Le::u16(self.off_wait_time)
    }

    /// The state after restoring snapshot `data`. Short data changes nothing.
    pub open spec fn restored(self, data: Seq<u8>) -> Self {
        if data.len() < 6 {
            self
        } else {
            OnOffState {
                on_off: data[0] != 0,
                global_scene_control: data[1] != 0,
                on_time: Le::u16_at(data, 2),
                off_wait_time: Le::u16_at(data, 4),
                ..self
            }
        }
    }
}

impl OnOffServer {
    pub fn new(initial: bool) -> (server: Self)
        ensures
            server.wf(),
            server@ == OnOffState::initial(initial),
    {
        OnOffServer {
            on_off: initial,
            global_scene_control: true,
            on_time: 0,
            off_wait_time: 0,
            reporting: LatestReportingTable::new(),
        }
    }

    pub fn on_off(&self) -> (on: bool)
        ensures
            on == self@.on_off,
    {
        self.on_off
    }

    pub fn set_on_off(&mut self, val: bool)
        requires
            old(self).wf(),
        ensures
            final(self).wf(),
            final(self)@ == old(self)@.switched(val),
    {
        self.on_off = val;
        self.reporting.note_value_update(AttributeId::new(0x0000));
    }

    pub fn global_scene_control(&self) -> (v: bool)
        ensures
            v == self@.global_scene_control,
    {
        self.global_scene_control
    }

    pub fn set_global_scene_control(&mut self, val: bool)
        ensures
            old(self).wf() ==> final(self).wf(),
            final(self)@ == (OnOffState { global_scene_control: val, ..old(self)@ }),
    {
        self.global_scene_control = val;
    }

    pub fn on_time(&self) -> (v: u16)
        ensures
            v == self@.on_time,
    {
        self.on_time
    }

    pub fn set_on_time(&mut self, val: u16)
        ensures
            old(self).wf() ==> final(self).wf(),
            final(self)@ == (OnOffState { on_time: val, ..old(self)@ }),
    {
        self.on_time = val;
    }

    pub fn off_wait_time(&self) -> (v: u16)
        ensures
            v == self@.off_wait_time,
    {
        self.off_wait_time
    }

    pub fn set_off_wait_time(&mut self, val: u16)
        ensures
            old(self).wf() ==> final(self).wf(),
            final(self)@ == (OnOffState { off_wait_time: val, ..old(self)@ }),
    {
        self.off_wait_time = val;
    }

    /// Configure reporting to bound peers.
    pub fn configure_bound_reporting(
        &mut self,
        min_interval: u16,
        max_interval: u16,
        now_ms: u32,
    ) -> (status: Status)
        requires
            old(self).wf(),
        ensures
            final(self).wf(),
            ({
                let (table, result) = old(self)@.reporting.configured(
                    1,
                    1,
                    LatestReportingTable::<1, 1>::bound_request(
                        AttributeId(0x0000),
                        TypeId::Boolean,
                        min_interval,
                        max_interval,
                        now_ms,
                    ),
                    Self::attribute_infos(),
                );
                status == result && final(self)@ == (OnOffState {
                    reporting: table,
                    ..old(self)@
                })
            }),
    {
        self.reporting.configure_bound(
            AttributeId::new(0x0000),
            TypeId::Boolean,
            min_interval,
            max_interval,
            now_ms,
            &Self::attribute_list(),
        )
    }
}

impl Default for OnOffServer {
    fn default() -> (server: Self)
        ensures
            server.wf(),
            server@ == OnOffState::initial(false),
    {
        Self::new(false)
    }
}

impl ClusterServer for OnOffServer {
    const CLUSTER_ID: u16 = 0x0006;

    open spec fn wf(&self) -> bool {
        self.reporting.wf()
    }

    open spec fn attr(&self, id: AttributeId, cap: nat) -> ReadSpec {
        match self@.value(id) {
            Some(v) => v.read(cap),
            None => Err(AttrError::UnsupportedAttribute),
        }
    }

    open spec fn write_check(&self, id: AttributeId, type_id: TypeId, data: Seq<u8>) -> Result<
        (),
        AttrError,
    > {
        if self@.value(id) is None {
            Err(AttrError::UnsupportedAttribute)
        } else if id.0 != 0x4001 && id.0 != 0x4002 {
            Err(AttrError::ReadOnly)
        } else if type_id != TypeId::Uint16 {
            Err(AttrError::InvalidDataType)
        } else {
            Ok(())
        }
    }

    open spec fn wrote(
        pre: Self,
        id: AttributeId,
        type_id: TypeId,
        data: Seq<u8>,
        post: Self,
        r: Result<(), AttrError>,
    ) -> bool {
        if pre.write_check(id, type_id, data) is Err {
            post@ == pre@ && r == pre.write_check(id, type_id, data)
        } else if data.len() < 2 {
            post@ == pre@ && r == Err::<(), AttrError>(AttrError::InvalidValue)
        } else if id.0 == 0x4001 {
            r is Ok && post@ == (OnOffState { on_time: Le::u16_at(data, 0), ..pre@ })
        } else {
            r is Ok && post@ == (OnOffState { off_wait_time: Le::u16_at(data, 0), ..pre@ })
        }
    }

    open spec fn handled(
        pre: Self,
        id: CommandId,
        payload: Seq<u8>,
        ctx: DispatchContext,
        before: Seq<u8>,
        post: Self,
        body: Seq<u8>,
        r: Result<CommandResult, ZclError>,
    ) -> bool {
        let (next, status) = pre@.commanded(id);
        post@ == next && Reply::status(before, body, r, status)
    }

    open spec fn snapshot_bytes(&self, cap: nat) -> Seq<u8> {
        if cap < 6 {
            Seq::empty()
        } else {
            self@.snapshot()
        }
    }

    open spec fn restored(pre: Self, data: Seq<u8>, post: Self) -> bool {
        post@ == pre@.restored(data)
    }

    open spec fn reporting_set(
        pre: Self,
        record: RecordFields,
        ctx: DispatchContext,
        post: Self,
        r: Status,
    ) -> bool {
        let (table, status) = LatestReportingTable::<1, 1>::configured_by(
            pre@.reporting,
            record,
            ctx,
            Self::attribute_infos(),
        );
        r == status && post@ == (OnOffState { reporting: table, ..pre@ })
    }

    open spec fn collected(
        pre: Self,
        now_ms: u32,
        out: Seq<u8>,
        cap: nat,
        post: Self,
        sent: Seq<u8>,
        r: Result<Option<ClusterReportReady>, ZclError>,
    ) -> bool {
        let (table, bytes, result) = pre@.reporting.collected(
            now_ms,
            |id: AttributeId| pre.attr(id, 1),
            out,
            cap,
        );
        sent == bytes && r == result && post@ == (OnOffState { reporting: table, ..pre@ })
    }

    open spec fn delivered(
        pre: Self,
        token: ReportToken,
        result: ReportDeliveryResult,
        now_ms: u32,
        post: Self,
    ) -> bool {
        post@ == (OnOffState {
            reporting: pre@.reporting.completed(token, result, now_ms),
            ..pre@
        })
    }

    open spec fn diagnosed(pre: Self, post: Self, r: ReportingDiagnostics) -> bool {
        r == pre@.reporting.diagnostics && post@ == (OnOffState {
            reporting: pre@.reporting.drained(),
            ..pre@
        })
    }

    open spec fn reporting_answer(&self, attr_id: AttributeId, direction: u8, cap: nat) -> Seq<
        u8,
    > {
        self@.reporting.answer(attr_id, direction, cap)
    }

    open spec fn attribute_infos() -> Seq<AttrInfo> {
        seq![
            AttrInfo::rp(0x0000, TypeId::Boolean),
            AttrInfo::ro(0x4000, TypeId::Boolean),
            AttrInfo::rw(0x4001, TypeId::Uint16),
            AttrInfo::rw(0x4002, TypeId::Uint16),
            AttrInfo::ro(0xFFFD, TypeId::Uint16),
        ]
    }

    open spec fn received_ids() -> Seq<CommandId> {
        seq![CommandId(0x00), CommandId(0x01), CommandId(0x02)]
    }

    fn read_attribute(&self, id: AttributeId, buf: &mut [u8]) -> (r: Result<
        (TypeId, usize),
        AttrError,
    >) {
        match id.0 {
            0x0000 => encode_attr(AttrValue::Boolean(self.on_off), buf),
            0x4000 => encode_attr(AttrValue::Boolean(self.global_scene_control), buf),
            0x4001 => encode_attr(AttrValue::Uint16(self.on_time), buf),
            0x4002 => encode_attr(AttrValue::Uint16(self.off_wait_time), buf),
            0xFFFD => encode_attr(AttrValue::Uint16(2), buf),
            _ => Err(AttrError::UnsupportedAttribute),
        }
    }

    fn check_write_attribute(&self, id: AttributeId, type_id: TypeId, data: &[u8]) -> (r: Result<
        (),
        AttrError,
    >) {
        match id.0 {
            0x0000 | 0x4000 | 0xFFFD => Err(AttrError::ReadOnly),
            0x4001 | 0x4002 => if type_id == TypeId::Uint16 {
                Ok(())
            } else {
                Err(AttrError::InvalidDataType)
            },
            _ => Err(AttrError::UnsupportedAttribute),
        }
    }

    fn write_attribute(&mut self, id: AttributeId, type_id: TypeId, data: &[u8]) -> (r: Result<
        (),
        AttrError,
    >) {
        match self.check_write_attribute(id, type_id, data) {
            Ok(()) => {
                if data.len() < 2 {
                    return Err(AttrError::InvalidValue);
                }
                if id.0 == 0x4001 {
                    self.on_time = read_u16(data, 0);
                } else {
                    self.off_wait_time = read_u16(data, 0);
                }
                Ok(())
            },
            Err(e) => Err(e),
        }
    }

    fn handle_command(
        &mut self,
        id: CommandId,
        payload: &[u8],
        ctx: DispatchContext,
        buf: &mut [u8],
    ) -> (r: Result<CommandResult, ZclError>) {
        match id.0 {
            0x00 => self.set_on_off(false),
            0x01 => self.set_on_off(true),
            0x02 => {
                let toggled: bool = !self.on_off;
                self.set_on_off(toggled);
            },
            _ => {
                return Ok(CommandResult::DefaultResponse(Status::UnsupCommand));
            },
        }
        Ok(CommandResult::DefaultResponse(Status::Success))
    }

    fn tick(&mut self, now_ms: u32) -> (r: ClusterTick) {
        ClusterTick::idle()
    }

    fn take_dispatch_effects(&mut self) -> (r: DispatchEffects) {
        DispatchEffects::none()
    }

    fn snapshot(&self, buf: &mut [u8]) -> (n: usize) {
        let ghost before = buf@;
        if buf.len() < 6 {
            assert(buf@ =~= Seq::<u8>::empty() + buf@.skip(0));
            return 0;
        }
        buf[0] = if self.on_off {
            1
        } else {
            0
        };
        buf[1] = if self.global_scene_control {
            1
        } else {
            0
        };
        buf[2] = low_byte(self.on_time);
        buf[3] = high_byte(self.on_time);
        buf[4] = low_byte(self.off_wait_time);
        buf[5] = high_byte(self.off_wait_time);
        assert(buf@ =~= self@.snapshot() + before.skip(6));
        6
    }

    fn restore_snapshot(&mut self, buf: &[u8]) {
        if buf.len() < 6 {
            return;
        }
        self.on_off = buf[0] != 0;
        self.global_scene_control = buf[1] != 0;
        self.on_time = read_u16(buf, 2);
        self.off_wait_time = read_u16(buf, 4);
    }

    fn configure_reporting(
        &mut self,
        record: ConfigureReportingRecord<'_>,
        ctx: DispatchContext,
    ) -> (r: Status) {
        self.reporting.configure(record, ctx, &Self::attribute_list())
    }

    fn collect_reports(&mut self, now_ms: u32, out: &mut ReportPayloadWriter<'_>) -> (r: Result<
        Option<ClusterReportReady>,
        ZclError,
    >) {
        match self.reporting.next_due(now_ms) {
            None => Ok(None),
            Some(candidate) => {
                let mut tmp: [u8; 1] = [0];
                match self.read_attribute(candidate.attr_id, &mut tmp) {
                    Err(_) => Ok(None),
                    Ok((type_id, n)) => {
                        assert(tmp@.take(n as int) =~= self.attr(candidate.attr_id, 1)->Ok_0.1);
                        self.reporting.emit(candidate, type_id, &tmp[0..n], out)
                    },
                }
            },
        }
    }

    fn report_delivery_result(
        &mut self,
        token: ReportToken,
        result: ReportDeliveryResult,
        now_ms: u32,
    ) {
        self.reporting.complete(token, result, now_ms);
    }

    fn take_reporting_diagnostics(&mut self) -> (r: ReportingDiagnostics) {
        self.reporting.take_diagnostics()
    }

    fn read_reporting_config(&self, attr_id: AttributeId, direction: u8, buf: &mut [u8]) -> (n:
        usize) {
        self.reporting.write_read_response_record(attr_id, direction, buf)
    }

    fn attribute_list() -> (list: Vec<AttrInfo>) {
        vec![
            AttrInfo::read_report(0x0000, TypeId::Boolean),
            AttrInfo::read_only(0x4000, TypeId::Boolean),
            AttrInfo::read_write(0x4001, TypeId::Uint16),
            AttrInfo::read_write(0x4002, TypeId::Uint16),
            AttrInfo::read_only(0xFFFD, TypeId::Uint16),
        ]
    }

    fn commands_received() -> (list: Vec<CommandId>) {
        vec![CommandId(0x00), CommandId(0x01), CommandId(0x02)]
    }

    fn commands_generated() -> (list: Vec<CommandId>) {
        Vec::new()
    }
}

/// What a snapshot holds comes back when it is restored, whatever the state then is.
pub proof fn law_snapshot_restores(saved: OnOffState, other: OnOffState)
    ensures
        other.restored(saved.snapshot()) == (OnOffState { reporting: other.reporting, ..saved }),
{
    crate::bytes::lemma_u16_round_trip(saved.on_time);
    crate::bytes::lemma_u16_round_trip(saved.off_wait_time);
}

/// Toggling twice switches back.
pub proof fn law_toggling_twice_switches_back(s: OnOffState)
    ensures
        s.commanded(CommandId(0x02)).0.commanded(CommandId(0x02)).0.on_off == s.on_off,
{
}

/// A value that was written is read back, and no other attribute changes.
pub proof fn law_written_value_is_read(
    pre: OnOffServer,
    id: AttributeId,
    type_id: TypeId,
    data: Seq<u8>,
    post: OnOffServer,
    other: AttributeId,
    cap: nat,
)
    requires
        OnOffServer::wrote(pre, id, type_id, data, post, Ok(())),
    ensures
        post.attr(id, cap) == AttrValue::Uint16(Le::u16_at(data, 0)).read(cap),
        other != id ==> post.attr(other, cap) == pre.attr(other, cap),
{
}

} // verus!
