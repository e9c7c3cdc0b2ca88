//! The identify cluster.

use vstd::prelude::*;

use crate::cluster_server::ClusterServer;
use crate::context::ClusterReportReady;
use crate::context::ClusterTick;
use crate::context::CommandResult;
use crate::context::ConfigureReportingRecord;
use crate::context::DispatchContext;
use crate::context::DispatchEffects;
use crate::context::ReportDeliveryResult;
use crate::context::ReportToken;
use crate::context::ReportingDiagnostics;
use crate::frame::Status;
use crate::reporting::ReportPayloadWriter;
use crate::types::codec::encode_attr;
use crate::types::codec::AttrValue;
use crate::types::codec::ReadSpec;
use crate::types::descriptors::AttrInfo;
use crate::types::error::AttrError;
use crate::types::error::ZclError;
use crate::types::ids::AttributeId;
use crate::types::ids::CommandId;
use crate::types::ids::TypeId;
use crate::bytes::high_byte;
use crate::bytes::low_byte;
use crate::bytes::read_u16;
use crate::bytes::Le;
use crate::common::reply::Reply;

verus! {

/// Identify, cluster 0x0003.
///
/// Time is tracked as an absolute monotonic deadline. The remaining seconds are
/// updated on each tick and are what attribute 0x0000 reads.
///
/// A device starts identifying through the identify command, which sets the
/// deadline at once, or through a write of attribute 0x0000, after which the first
/// tick sets the deadline. A query computes the remaining time live, so it is
/// accurate even between ticks.
pub struct IdentifyServer {
    identify_until_ms: Option<u32>,
    cached_remaining: u16,
}

/// The state of an identify server.
pub struct IdentifyState {
    /// The deadline, once it is set.
    pub until_ms: Option<u32>,
    /// Seconds.
    pub remaining: u16,
}

impl View for IdentifyServer {
    type V = IdentifyState;

    closed spec fn view(&self) -> IdentifyState {
        IdentifyState { until_ms: self.identify_until_ms, remaining: self.cached_remaining }
    }
}

impl IdentifyState {
    pub open spec fn idle() -> Self {
        IdentifyState { until_ms: None, remaining: 0 }
    }

    /// The deadline has passed at `now_ms`, on a clock that wraps.
    pub open spec fn passed(deadline: u32, now_ms: u32) -> bool {
        now_ms.wrapping_sub(deadline) < 0x8000_0000
    }

    /// Whole seconds from `now_ms` to the deadline, rounded up, as far as two bytes
    /// hold them.
    pub open spec fn seconds_to(deadline: u32, now_ms: u32) -> u16 {
        let seconds = (deadline.wrapping_sub(now_ms) + 999) / 1000;
        if Self::passed(deadline, now_ms) {
            0
        } else if seconds > 0xffff {
            0xffff
        } else {
            seconds as u16
        }
    }

    /// Seconds that remain at `now_ms`.
    pub open spec fn remaining_at(self, now_ms: u32) -> u16 {
        match self.until_ms {
            Some(deadline) => Self::seconds_to(deadline, now_ms),
            None => self.remaining,
        }
    }

    /// When the seconds that remain to the deadline become less than `remaining`.
    pub open spec fn next_change(deadline: u32, remaining: u16) -> u32 {
        deadline.wrapping_sub(((remaining - 1) * 1000) as u32)
    }

    /// The deadline `seconds` from `now_ms`.
    pub open spec fn deadline(now_ms: u32, seconds: u16) -> u32 {
        now_ms.wrapping_add((seconds * 1000) as u32)
    }

    /// The state after the command to identify for `seconds`.
    pub open spec fn started(now_ms: u32, seconds: u16) -> Self {
        IdentifyState {
            until_ms: if seconds == 0 {
                None
            } else {
                Some(Self::deadline(now_ms, seconds))
            },
            remaining: seconds,
        }
    }

    /// The state advanced to `now_ms`.
    pub open spec fn advanced(self, now_ms: u32) -> Self {
        match self.until_ms {
            None => if self.remaining == 0 {
                self
            } else {
                IdentifyState { until_ms: Some(Self::deadline(now_ms, self.remaining)), ..self }
            },
            Some(deadline) => if Self::passed(deadline, now_ms) {
                Self::idle()
            } else {
                IdentifyState { remaining: Self::seconds_to(deadline, now_ms), ..self }
            },
        }
    }

    /// The attribute's value.
    pub open spec fn value(self, id: AttributeId) -> Option<AttrValue> {
        match id.0 {
            0x0000 => Some(AttrValue::Uint16(self.remaining)),
            0xFFFD => Some(AttrValue::Uint16(2)),
            _ => None,
        }
    }
}

impl IdentifyServer {
    pub fn new() -> (server: Self)
        ensures
            server@ == IdentifyState::idle(),
    {
        IdentifyServer { identify_until_ms: None, cached_remaining: 0 }
    }

    pub fn is_identifying(&self) -> (yes: bool)
        ensures
            yes == (self@.remaining > 0),
    {
        self.cached_remaining > 0
    }

    /// Remaining seconds as of the last tick.
    pub fn remaining(&self) -> (seconds: u16)
        ensures
            seconds == self@.remaining,
    {
        self.cached_remaining
    }

    fn seconds_to(deadline: u32, now_ms: u32) -> (seconds: u16)
        ensures
            seconds == IdentifyState::seconds_to(deadline, now_ms),
    {
        if now_ms.wrapping_sub(deadline) < 0x8000_0000 {
            return 0;
        }
        let left: u32 = deadline.wrapping_sub(now_ms);
        let seconds: u32 = left / 1000 + if left % 1000 == 0 {
            0
        } else {
            1
        };
        if seconds > 0xffff {
            0xffff
        } else {
            seconds as u16
        }
    }

    /// Remaining seconds at `now_ms`.
    fn remaining_at(&self, now_ms: u32) -> (seconds: u16)
        ensures
            seconds == self@.remaining_at(now_ms),
    {
        match self.identify_until_ms {
            Some(deadline) => Self::seconds_to(deadline, now_ms),
            None => self.cached_remaining,
        }
    }
}

impl Default for IdentifyServer {
    fn default() -> (server: Self)
        ensures
            server@ == IdentifyState::idle(),
    {
        Self::new()
    }
}

impl ClusterServer for IdentifyServer {
    const CLUSTER_ID: u16 = 0x0003;

    open spec fn attr(&self, id: AttributeId, cap: nat) -> ReadSpec {
        match self@.value(id) {
            Some(v) => v.read(cap),
            None => Err(AttrError::UnsupportedAttribute),
        }
    }

    open spec fn write_check(&self, id: AttributeId, type_id: TypeId, data: Seq<u8>) -> Result<
        (),
        AttrError,
    > {
        match id.0 {
            0x0000 => if type_id == TypeId::Uint16 {
                Ok(())
            } else {
                Err(AttrError::InvalidDataType)
            },
            0xFFFD => Err(AttrError::ReadOnly),
            _ => Err(AttrError::UnsupportedAttribute),
        }
    }

    open spec fn wrote(
        pre: Self,
        id: AttributeId,
        type_id: TypeId,
        data: Seq<u8>,
        post: Self,
        r: Result<(), AttrError>,
    ) -> bool {
        match id.0 {
            0x0000 => if data.len() >= 2 {
                r is Ok && post@ == (IdentifyState {
                    until_ms: None,
                    remaining: Le::u16_at(data, 0),
                })
            } else {
                post@ == pre@ && r == Err::<(), AttrError>(
                    AttrError::Codec(ZclError::InsufficientBytes),
                )
            },
            0xFFFD => post@ == pre@ && r == Err::<(), AttrError>(AttrError::ReadOnly),
            _ => post@ == pre@ && r == Err::<(), AttrError>(AttrError::UnsupportedAttribute),
        }
    }

    open spec fn handled(
        pre: Self,
        id: CommandId,
        payload: Seq<u8>,
        ctx: DispatchContext,
        before: Seq<u8>,
        post: Self,
        body: Seq<u8>,
        r: Result<CommandResult, ZclError>,
    ) -> bool {
        match id.0 {
            0x00 => if payload.len() < 2 {
                post@ == pre@ && Reply::failed(before, body, r, ZclError::InsufficientBytes)
            } else {
                post@ == IdentifyState::started(ctx.now_ms, Le::u16_at(payload, 0))
                    && Reply::status(before, body, r, Status::Success)
            },
            0x01 => post@ == pre@ && Reply::is(
                0x00,
                Le::u16(pre@.remaining_at(ctx.now_ms)),
                before,
                body,
                r,
            ),
            _ => post@ == pre@ && Reply::status(before, body, r, Status::UnsupCommand),
        }
    }

    open spec fn ticked(pre: Self, now_ms: u32, post: Self, r: ClusterTick) -> bool {
        &&& post@ == pre@.advanced(now_ms)
        &&& r.changed == (post@.remaining != pre@.remaining)
        &&& r.next_tick_ms == match post@.until_ms {
            Some(deadline) => Some(IdentifyState::next_change(deadline, post@.remaining)),
            None => None,
        }
    }

    open spec fn attribute_infos() -> Seq<AttrInfo> {
        seq![
            AttrInfo::rw(0x0000, TypeId::Uint16),
            AttrInfo::ro(0xFFFD, TypeId::Uint16),
        ]
    }

    fn read_attribute(&self, id: AttributeId, buf: &mut [u8]) -> (r: Result<
        (TypeId, usize),
        AttrError,
    >) {
        match id.0 {
            0x0000 => encode_attr(AttrValue::Uint16(self.cached_remaining), buf),
            0xFFFD => encode_attr(AttrValue::Uint16(2), buf),
            _ => Err(AttrError::UnsupportedAttribute),
        }
    }

    fn check_write_attribute(&self, id: AttributeId, type_id: TypeId, data: &[u8]) -> (r: Result<
        (),
        AttrError,
    >) {
        match id.0 {
            0x0000 => if type_id == TypeId::Uint16 {
                Ok(())
            } else {
                Err(AttrError::InvalidDataType)
            },
            0xFFFD => Err(AttrError::ReadOnly),
            _ => Err(AttrError::UnsupportedAttribute),
        }
    }

    fn write_attribute(&mut self, id: AttributeId, type_id: TypeId, data: &[u8]) -> (r: Result<
        (),
        AttrError,
    >) {
        match id.0 {
            0x0000 => {
                if data.len() < 2 {
                    return Err(AttrError::Codec(ZclError::InsufficientBytes));
                }
                self.cached_remaining = read_u16(data, 0);
                // The next tick sets the deadline.
                self.identify_until_ms = None;
                Ok(())
            },
            0xFFFD => Err(AttrError::ReadOnly),
            _ => Err(AttrError::UnsupportedAttribute),
        }
    }

    fn handle_command(
        &mut self,
        id: CommandId,
        payload: &[u8],
        ctx: DispatchContext,
        buf: &mut [u8],
    ) -> (r: Result<CommandResult, ZclError>) {
        match id.0 {
            // Identify: seconds
            0x00 => {
                if payload.len() < 2 {
                    return Err(ZclError::InsufficientBytes);
                }
                let seconds: u16 = read_u16(payload, 0);
                self.cached_remaining = seconds;
                self.identify_until_ms = if seconds == 0 {
                    None
                } else {
                    Some(ctx.now_ms.wrapping_add(seconds as u32 * 1000))
                };
                Ok(CommandResult::DefaultResponse(Status::Success))
            },
            // IdentifyQuery
            0x01 => {
                if buf.len() < 2 {
                    return Err(ZclError::BufferTooSmall);
                }
                let timeout: u16 = self.remaining_at(ctx.now_ms);
                buf[0] = low_byte(timeout);
                buf[1] = high_byte(timeout);
                assert(buf@ =~= Le::u16(timeout) + old(buf)@.skip(2));
                Ok(CommandResult::Payload { command_id: CommandId::new(0x00), len: 2 })
            },
            _ => Ok(CommandResult::DefaultResponse(Status::UnsupCommand)),
        }
    }

    fn tick(&mut self, now_ms: u32) -> (r: ClusterTick) {
        match self.identify_until_ms {
            None => {
                if self.cached_remaining == 0 {
                    return ClusterTick::idle();
                }
                let deadline: u32 = now_ms.wrapping_add(self.cached_remaining as u32 * 1000);
                self.identify_until_ms = Some(deadline);
                ClusterTick {
                    changed: false,
                    next_tick_ms: Some(
                        deadline.wrapping_sub((self.cached_remaining as u32 - 1) * 1000),
                    ),
                }
            },
            Some(deadline) => {
                let seconds: u16 = Self::seconds_to(deadline, now_ms);
                let changed: bool = seconds != self.cached_remaining;
                self.cached_remaining = seconds;
                if now_ms.wrapping_sub(deadline) < 0x8000_0000 {
                    self.identify_until_ms = None;
                    ClusterTick { changed, next_tick_ms: None }
                } else {
                    ClusterTick {
                        changed,
                        next_tick_ms: Some(deadline.wrapping_sub((seconds as u32 - 1) * 1000)),
                    }
                }
            },
        }
    }

    fn take_dispatch_effects(&mut self) -> (r: DispatchEffects) {
        DispatchEffects::none()
    }

    fn snapshot(&self, buf: &mut [u8]) -> (n: usize) {
        assert(buf@ =~= Seq::<u8>::empty() + buf@.skip(0));
        0
    }

    fn restore_snapshot(&mut self, buf: &[u8]) {
    }

    fn configure_reporting(
        &mut self,
        record: ConfigureReportingRecord<'_>,
        ctx: DispatchContext,
    ) -> (r: Status) {
        Status::UnreportableAttribute
    }

    fn collect_reports(&mut self, now_ms: u32, out: &mut ReportPayloadWriter<'_>) -> (r: Result<
        Option<ClusterReportReady>,
        ZclError,
    >) {
        Ok(None)
    }

    fn report_delivery_result(
        &mut self,
        token: ReportToken,
        result: ReportDeliveryResult,
        now_ms: u32,
    ) {
    }

    fn take_reporting_diagnostics(&mut self) -> (r: ReportingDiagnostics) {
        ReportingDiagnostics::none()
    }

    fn read_reporting_config(&self, attr_id: AttributeId, direction: u8, buf: &mut [u8]) -> (n:
        usize) {
        crate::reporting::write_not_found(attr_id, direction, buf)
    }

    fn attribute_list() -> (list: Vec<AttrInfo>) {
        vec![
            AttrInfo::read_write(0x0000, TypeId::Uint16),
            AttrInfo::read_only(0xFFFD, TypeId::Uint16),
        ]
    }

    fn commands_received() -> (list: Vec<CommandId>) {
        Vec::new()
    }

    fn commands_generated() -> (list: Vec<CommandId>) {
        Vec::new()
    }
}

/// A device told to identify for some seconds identifies itself until they have
/// passed, and then no longer.
pub proof fn law_identifying_lasts_as_long_as_asked(now_ms: u32, seconds: u16, later_ms: u32)
    requires
        seconds > 0,
        later_ms.wrapping_sub(now_ms) < 0x8000_0000,
    ensures
        IdentifyState::started(now_ms, seconds).advanced(later_ms).remaining == 0 <==> later_ms
            .wrapping_sub(now_ms) >= seconds * 1000,
{
}

/// While the deadline is ahead, ticking and querying agree.
pub proof fn law_query_agrees_with_tick(s: IdentifyState, now_ms: u32)
    requires
        s.until_ms is Some,
    ensures
        s.remaining_at(now_ms) == s.advanced(now_ms).remaining,
{
}

/// A value that was written is read back, and no other attribute changes.
pub proof fn law_written_value_is_read(
    pre: IdentifyServer,
    id: AttributeId,
    type_id: TypeId,
    data: Seq<u8>,
    post: IdentifyServer,
    other: AttributeId,
    cap: nat,
)
    requires
        IdentifyServer::wrote(pre, id, type_id, data, post, Ok(())),
    ensures
        post.attr(id, cap) == AttrValue::Uint16(Le::u16_at(data, 0)).read(cap),
        other != id ==> post.attr(other, cap) == pre.attr(other, cap),
{
}

/// A tick asks to be repeated just when the seconds that remain change next: not
/// before, and at that time they do.
pub proof fn law_deadline_is_exact(deadline: u32, now_ms: u32, between_ms: u32)
    requires
        !IdentifyState::passed(deadline, now_ms),
    ensures
        ({
            let seconds = IdentifyState::seconds_to(deadline, now_ms);
            let next = IdentifyState::next_change(deadline, seconds);
            &&& 0 < next.wrapping_sub(now_ms) <= deadline.wrapping_sub(now_ms)
            &&& between_ms.wrapping_sub(now_ms) < next.wrapping_sub(now_ms)
                ==> IdentifyState::seconds_to(deadline, between_ms) == seconds
            &&& IdentifyState::seconds_to(deadline, next) < seconds
        }),
{
    let seconds = IdentifyState::seconds_to(deadline, now_ms);
    let next = IdentifyState::next_change(deadline, seconds);
    let left = deadline.wrapping_sub(now_ms);
    assert(seconds >= 1);
    assert((seconds - 1) * 1000 < left);
    assert(next.wrapping_sub(now_ms) == left - (seconds - 1) * 1000);
    assert(deadline.wrapping_sub(next) == (seconds - 1) * 1000);
    if between_ms.wrapping_sub(now_ms) < next.wrapping_sub(now_ms) {
        let rest = deadline.wrapping_sub(between_ms);
        assert(rest == left - between_ms.wrapping_sub(now_ms));
    }
}

} // verus!
