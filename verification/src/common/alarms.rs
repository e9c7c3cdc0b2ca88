//! The alarms cluster.

use vstd::prelude::*;

use crate::cluster_server::ClusterServer;
use crate::context::ClusterReportReady;
use crate::context::ClusterTick;
use crate::context::CommandResult;
use crate::context::ConfigureReportingRecord;
use crate::context::DispatchContext;
use crate::context::DispatchEffects;
use crate::context::ReportDeliveryResult;
use crate::context::ReportToken;
use crate::context::ReportingDiagnostics;
use crate::frame::Status;
use crate::reporting::ReportPayloadWriter;
use crate::types::codec::encode_attr;
use crate::types::codec::AttrValue;
use crate::types::codec::ReadSpec;
use crate::types::descriptors::AttrInfo;
use crate::types::error::AttrError;
use crate::types::error::ZclError;
use crate::types::ids::AttributeId;
use crate::types::ids::CommandId;
use crate::types::ids::TypeId;
use crate::bytes::high_byte;
use crate::bytes::low_byte;
use crate::bytes::read_u16;
use crate::bytes::Le;
use crate::common::reply::Reply;

verus! {

/// One entry of the alarm log.
#[derive(Clone, Copy, Debug, PartialEq, Eq, Structural)]
pub struct AlarmEntry {
    pub cluster_id: u16,
    pub alarm_code: u8,
}

/// Alarms, cluster 0x0009.
///
/// `N` is the maximum number of alarms retained in the log. When the log is full
/// and a new alarm is added, the oldest entry is dropped.
pub struct AlarmsServer<const N: usize> {
    alarms: Vec<AlarmEntry>,
}

impl<const N: usize> View for AlarmsServer<N> {
    type V = Seq<AlarmEntry>;

    /// The log, oldest alarm first.
    closed spec fn view(&self) -> Seq<AlarmEntry> {
        self.alarms@
    }
}

/// Specification functions of an alarm log.
pub struct AlarmLog;

impl AlarmLog {
    /// The log of at most `n` alarms with one more.
    pub open spec fn with(log: Seq<AlarmEntry>, n: nat, entry: AlarmEntry) -> Seq<AlarmEntry> {
        if n == 0 {
            log
        } else if log.len() >= n {
            log.skip(1).push(entry)
        } else {
            log.push(entry)
        }
    }

    /// The oldest alarm equal to `entry` stands at `i`.
    pub open spec fn is_first(log: Seq<AlarmEntry>, entry: AlarmEntry, i: int) -> bool {
        &&& 0 <= i < log.len()
        &&& log[i] == entry
        &&& forall|k: int| 0 <= k < i ==> #[trigger] log[k] != entry
    }

    /// The log without its oldest alarm equal to `entry`.
    pub open spec fn without(log: Seq<AlarmEntry>, entry: AlarmEntry) -> Seq<AlarmEntry> {
        log.remove(choose|i: int| Self::is_first(log, entry, i))
    }

    /// The number of alarms, as far as two bytes hold it.
    pub open spec fn count(log: Seq<AlarmEntry>) -> u16 {
        if log.len() > 0xffff {
            0xffff
        } else {
            log.len() as u16
        }
    }

    /// The attribute's value.
    pub open spec fn value(log: Seq<AlarmEntry>, id: AttributeId) -> Option<AttrValue> {
        match id.0 {
            0x0000 => Some(AttrValue::Uint16(Self::count(log))),
            0xFFFD => Some(AttrValue::Uint16(1)),
            _ => None,
        }
    }

    /// The reply that hands out the oldest alarm. No time of the alarm is kept.
    pub open spec fn oldest_reply(log: Seq<AlarmEntry>) -> Seq<u8> {
        if log.len() == 0 {
            seq![Status::NotFound.code()]
        } else {
            seq![Status::Success.code(), log[0].alarm_code] + Le::u16(log[0].cluster_id) + seq![
                0u8,
                0u8,
                0u8,
                0u8,
            ]
        }
    }

    /// A command took the log from `log` to `post` with result `r`, and a
    /// buffer from `before` to `body`.
    pub open spec fn handled(
        log: Seq<AlarmEntry>,
        id: CommandId,
        p: Seq<u8>,
        before: Seq<u8>,
        post: Seq<AlarmEntry>,
        body: Seq<u8>,
        r: Result<CommandResult, ZclError>,
    ) -> bool {
        let named = AlarmEntry { cluster_id: Le::u16_at(p, 1), alarm_code: p[0] };
        match id.0 {
            0x00 => if p.len() < 3 {
                post == log && Reply::failed(before, body, r, ZclError::InsufficientBytes)
            } else if log.contains(named) {
                post == Self::without(log, named) && Reply::status(before, body, r, Status::Success)
            } else {
                post == log && Reply::status(before, body, r, Status::NotFound)
            },
            0x01 | 0x03 => post.len() == 0 && Reply::status(before, body, r, Status::Success),
            0x02 => {
                &&& Reply::is(0x01, Self::oldest_reply(log), before, body, r)
                &&& post == if log.len() > 0 && r is Ok {
                    log.skip(1)
                } else {
                    log
                }
            },
            _ => post == log && Reply::status(before, body, r, Status::UnsupCommand),
        }
    }
}

impl<const N: usize> AlarmsServer<N> {
    pub fn new() -> (server: Self)
        ensures
            server.wf(),
            server@ == Seq::<AlarmEntry>::empty(),
    {
        AlarmsServer { alarms: Vec::new() }
    }

    /// Add an alarm to the log. Drops the oldest entry if the log is full.
    pub fn add_alarm(&mut self, entry: AlarmEntry)
        requires
            old(self).wf(),
        ensures
            final(self).wf(),
            final(self)@ == AlarmLog::with(old(self)@, N as nat, entry),
    {
        if N == 0 {
            return;
        }
        if self.alarms.len() >= N {
            let _oldest = self.alarms.remove(0);
            assert(self.alarms@ =~= old(self)@.skip(1));
        }
        self.alarms.push(entry);
    }

    pub fn alarm_count(&self) -> (count: u16)
        ensures
            count == AlarmLog::count(self@),
    {
        if self.alarms.len() > 0xffff {
            0xffff
        } else {
            self.alarms.len() as u16
        }
    }

    pub fn alarms(&self) -> (alarms: &[AlarmEntry])
        ensures
            alarms@ == self@,
    {
        self.alarms.as_slice()
    }

    pub fn is_empty(&self) -> (yes: bool)
        ensures
            yes == (self@.len() == 0),
    {
        self.alarms.len() == 0
    }

    /// Remove the oldest alarm equal to `entry`.
    fn reset(&mut self, entry: AlarmEntry) -> (status: Status)
        requires
            old(self).wf(),
        ensures
            final(self).wf(),
            if old(self)@.contains(entry) {
                status == Status::Success && final(self)@ == AlarmLog::without(old(self)@, entry)
            } else {
                status == Status::NotFound && final(self)@ == old(self)@
            },
    {
        let ghost log = self@;
        let mut i: usize = 0;
        while i < self.alarms.len()
            invariant
                i <= self.alarms@.len(),
                self.wf(),
                self@ == log,
                log == old(self)@,
                forall|k: int| 0 <= k < i ==> #[trigger] log[k] != entry,
            decreases self.alarms@.len() - i,
        {
            if self.alarms[i] == entry {
                let _gone = self.alarms.remove(i);
                proof {
                    assert(AlarmLog::is_first(log, entry, i as int));
                    let f = choose|f: int| AlarmLog::is_first(log, entry, f);
                    assert(AlarmLog::is_first(log, entry, f));
                    assert(f == i);
                    assert(log.contains(entry));
                }
                return Status::Success;
            }
            i = i + 1;
        }
        Status::NotFound
    }

    /// Hand out the oldest alarm and remove it from the log.
    fn pop_oldest(&mut self, buf: &mut [u8]) -> (r: Result<CommandResult, ZclError>)
        requires
            old(self).wf(),
        ensures
            final(self).wf(),
            final(buf)@.len() == old(buf)@.len(),
            Reply::is(0x01, AlarmLog::oldest_reply(old(self)@), old(buf)@, final(buf)@, r),
            final(self)@ == if old(self)@.len() > 0 && r is Ok {
                old(self)@.skip(1)
            } else {
                old(self)@
            },
    {
        if self.alarms.len() == 0 {
            if buf.len() == 0 {
                return Err(ZclError::BufferTooSmall);
            }
            buf[0] = Status::NotFound.as_u8();
            assert(buf@ =~= AlarmLog::oldest_reply(old(self)@) + old(buf)@.skip(1));
            return Ok(CommandResult::Payload { command_id: CommandId::new(0x01), len: 1 });
        }
        if buf.len() < 8 {
            return Err(ZclError::BufferTooSmall);
        }
        let entry: AlarmEntry = self.alarms.remove(0);
        assert(self@ =~= old(self)@.skip(1));
        buf[0] = Status::Success.as_u8();
        buf[1] = entry.alarm_code;
        buf[2] = low_byte(entry.cluster_id);
        buf[3] = high_byte(entry.cluster_id);
        buf[4] = 0;
        buf[5] = 0;
        buf[6] = 0;
        buf[7] = 0;
        assert(buf@ =~= AlarmLog::oldest_reply(old(self)@) + old(buf)@.skip(8));
        Ok(CommandResult::Payload { command_id: CommandId::new(0x01), len: 8 })
    }
}

impl<const N: usize> Default for AlarmsServer<N> {
    fn default() -> (server: Self)
        ensures
            server.wf(),
            server@ == Seq::<AlarmEntry>::empty(),
    {
        Self::new()
    }
}

impl<const N: usize> ClusterServer for AlarmsServer<N> {
    const CLUSTER_ID: u16 = 0x0009;

    open spec fn wf(&self) -> bool {
        self@.len() <= N
    }

    open spec fn attr(&self, id: AttributeId, cap: nat) -> ReadSpec {
        match AlarmLog::value(self@, id) {
            Some(v) => v.read(cap),
            None => Err(AttrError::UnsupportedAttribute),
        }
    }

    open spec fn write_check(&self, id: AttributeId, type_id: TypeId, data: Seq<u8>) -> Result<
        (),
        AttrError,
    > {
        if AlarmLog::value(self@, id) is None {
            Err(AttrError::UnsupportedAttribute)
        } else {
            Err(AttrError::ReadOnly)
        }
    }

    open spec fn wrote(
        pre: Self,
        id: AttributeId,
        type_id: TypeId,
        data: Seq<u8>,
        post: Self,
        r: Result<(), AttrError>,
    ) -> bool {
        post@ == pre@ && r == pre.write_check(id, type_id, data)
    }

    open spec fn handled(
        pre: Self,
        id: CommandId,
        payload: Seq<u8>,
        ctx: DispatchContext,
        before: Seq<u8>,
        post: Self,
        body: Seq<u8>,
        r: Result<CommandResult, ZclError>,
    ) -> bool {
        AlarmLog::handled(pre@, id, payload, before, post@, body, r)
    }

    open spec fn attribute_infos() -> Seq<AttrInfo> {
        seq![
            AttrInfo::ro(0x0000, TypeId::Uint16),
            AttrInfo::ro(0xFFFD, TypeId::Uint16),
        ]
    }

    open spec fn received_ids() -> Seq<CommandId> {
        seq![CommandId(0x00), CommandId(0x01), CommandId(0x02), CommandId(0x03)]
    }

    fn read_attribute(&self, id: AttributeId, buf: &mut [u8]) -> (r: Result<
        (TypeId, usize),
        AttrError,
    >) {
        match id.0 {
            0x0000 => encode_attr(AttrValue::Uint16(self.alarm_count()), buf),
            0xFFFD => encode_attr(AttrValue::Uint16(1), buf),
            _ => Err(AttrError::UnsupportedAttribute),
        }
    }

    fn check_write_attribute(&self, id: AttributeId, type_id: TypeId, data: &[u8]) -> (r: Result<
        (),
        AttrError,
    >) {
        match id.0 {
            0x0000 | 0xFFFD => Err(AttrError::ReadOnly),
            _ => Err(AttrError::UnsupportedAttribute),
        }
    }

    fn write_attribute(&mut self, id: AttributeId, type_id: TypeId, data: &[u8]) -> (r: Result<
        (),
        AttrError,
    >) {
        self.check_write_attribute(id, type_id, data)
    }

    fn handle_command(
        &mut self,
        id: CommandId,
        payload: &[u8],
        ctx: DispatchContext,
        buf: &mut [u8],
    ) -> (r: Result<CommandResult, ZclError>) {
        match id.0 {
            // ResetAlarm: alarm code, cluster
            0x00 => {
                if payload.len() < 3 {
                    return Err(ZclError::InsufficientBytes);
                }
                let entry = AlarmEntry {
                    cluster_id: read_u16(payload, 1),
                    alarm_code: payload[0],
                };
                Ok(CommandResult::DefaultResponse(self.reset(entry)))
            },
            // ResetAllAlarms, ResetAlarmLog
            0x01 | 0x03 => {
                self.alarms.clear();
                Ok(CommandResult::DefaultResponse(Status::Success))
            },
            // GetAlarm
            0x02 => self.pop_oldest(buf),
            _ => Ok(CommandResult::DefaultResponse(Status::UnsupCommand)),
        }
    }

    fn tick(&mut self, now_ms: u32) -> (r: ClusterTick) {
        ClusterTick::idle()
    }

    fn take_dispatch_effects(&mut self) -> (r: DispatchEffects) {
        DispatchEffects::none()
    }

    fn snapshot(&self, buf: &mut [u8]) -> (n: usize) {
        assert(buf@ =~= Seq::<u8>::empty() + buf@.skip(0));
        0
    }

    fn restore_snapshot(&mut self, buf: &[u8]) {
    }

    fn configure_reporting(
        &mut self,
        record: ConfigureReportingRecord<'_>,
        ctx: DispatchContext,
    ) -> (r: Status) {
        Status::UnreportableAttribute
    }

    fn collect_reports(&mut self, now_ms: u32, out: &mut ReportPayloadWriter<'_>) -> (r: Result<
        Option<ClusterReportReady>,
        ZclError,
    >) {
        Ok(None)
    }

    fn report_delivery_result(
        &mut self,
        token: ReportToken,
        result: ReportDeliveryResult,
        now_ms: u32,
    ) {
    }

    fn take_reporting_diagnostics(&mut self) -> (r: ReportingDiagnostics) {
        ReportingDiagnostics::none()
    }

    fn read_reporting_config(&self, attr_id: AttributeId, direction: u8, buf: &mut [u8]) -> (n:
        usize) {
        crate::reporting::write_not_found(attr_id, direction, buf)
    }

    fn attribute_list() -> (list: Vec<AttrInfo>) {
        vec![
            AttrInfo::read_only(0x0000, TypeId::Uint16),
            AttrInfo::read_only(0xFFFD, TypeId::Uint16),
        ]
    }

    fn commands_received() -> (list: Vec<CommandId>) {
        vec![CommandId(0x00), CommandId(0x01), CommandId(0x02), CommandId(0x03)]
    }

    fn commands_generated() -> (list: Vec<CommandId>) {
        Vec::new()
    }
}

/// The newest alarm is always in the log, and the log never outgrows its room.
pub proof fn law_newest_alarm_is_logged(log: Seq<AlarmEntry>, n: nat, entry: AlarmEntry)
    requires
        0 < n,
        log.len() <= n,
    ensures
        AlarmLog::with(log, n, entry).last() == entry,
        AlarmLog::with(log, n, entry).len() <= n,
{
}

/// Alarms leave the log in the order in which they came.
pub proof fn law_alarms_keep_their_order(log: Seq<AlarmEntry>, n: nat, entry: AlarmEntry, k: int)
    requires
        log.len() <= n,
        0 <= k < AlarmLog::with(log, n, entry).len() - 1,
    ensures
        AlarmLog::with(log, n, entry)[k] == log[if log.len() >= n {
            k + 1
        } else {
            k
        }],
{
}

/// No attribute can be written from the network: every write is refused and changes
/// nothing.
pub proof fn law_attributes_are_read_only<const N: usize>(
    pre: AlarmsServer<N>,
    id: AttributeId,
    type_id: TypeId,
    data: Seq<u8>,
    post: AlarmsServer<N>,
    r: Result<(), AttrError>,
)
    requires
        AlarmsServer::<N>::wrote(pre, id, type_id, data, post, r),
    ensures
        r is Err,
        post@ == pre@,
{
}

} // verus!
