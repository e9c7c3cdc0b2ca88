//! What a request arrives with, and what handling it leaves behind.

use vstd::prelude::*;

use crate::bytes::same_from;
use crate::frame::Status;
use crate::types::descriptors::ClusterKey;
use crate::types::ids::AttributeId;
use crate::types::ids::CommandId;

verus! {

#[derive(Clone, Copy, Debug, PartialEq, Eq, Structural)]
pub enum DeliveryMode {
    Unicast,
    BroadcastOrMulticast,
}

#[derive(Clone, Copy, Debug, PartialEq, Eq, Structural)]
pub struct ApsPeer {
    pub short_addr: u16,
    pub endpoint: u8,
}

#[derive(Clone, Copy, Debug, PartialEq, Eq)]
pub struct DispatchContext {
    pub delivery: DeliveryMode,
    pub now_ms: u32,
    pub source: Option<ApsPeer>,
}

impl DispatchContext {
    /// Creates a unicast dispatch context.
    ///
    /// Pass `source: None` only when there is no peer to associate, as for a
    /// locally generated command. A reporting configuration that arrives without
    /// a source records no destination, so its reports are never delivered.
    pub fn unicast(now_ms: u32, source: Option<ApsPeer>) -> (ctx: Self)
        ensures
            ctx == (DispatchContext { delivery: DeliveryMode::Unicast, now_ms, source }),
    {
        DispatchContext { delivery: DeliveryMode::Unicast, now_ms, source }
    }

    pub fn broadcast(now_ms: u32) -> (ctx: Self)
        ensures
            ctx == (DispatchContext {
                delivery: DeliveryMode::BroadcastOrMulticast,
                now_ms,
                source: None,
            }),
    {
        DispatchContext { delivery: DeliveryMode::BroadcastOrMulticast, now_ms, source: None }
    }

    pub open spec fn is_unicast(self) -> bool {
        self.delivery == DeliveryMode::Unicast
    }

    pub fn allows_default_response(self) -> (yes: bool)
        ensures
            yes == self.is_unicast(),
    {
        match self.delivery {
            DeliveryMode::Unicast => true,
            DeliveryMode::BroadcastOrMulticast => false,
        }
    }
}

#[derive(Clone, Copy, Debug, PartialEq, Eq, Structural)]
pub struct ConfigureReportingEffect {
    pub accepted_send_records: u8,
}

#[derive(Clone, Copy, Debug, PartialEq, Eq, Structural)]
pub enum GroupEffect {
    Nothing,
    /// Group was added successfully; carries the group ID.
    Added(u16),
    /// Group was removed successfully; carries the group ID.
    Removed(u16),
    /// All groups removed (`RemoveAllGroups` command succeeded).
    AllRemoved,
}

#[derive(Clone, Copy, Debug, PartialEq, Eq)]
pub struct DispatchEffects {
    pub configure_reporting: Option<ConfigureReportingEffect>,
    pub group: GroupEffect,
}

impl DispatchEffects {
    pub open spec fn nothing() -> Self {
        DispatchEffects { configure_reporting: None, group: GroupEffect::Nothing }
    }

    /// No effect at all.
    pub fn none() -> (effects: Self)
        ensures
            effects == Self::nothing(),
    {
        DispatchEffects { configure_reporting: None, group: GroupEffect::Nothing }
    }
}

impl Default for DispatchEffects {
    fn default() -> (effects: Self)
        ensures
            effects == Self::nothing(),
    {
        DispatchEffects::none()
    }
}

#[derive(Clone, Copy, Debug, PartialEq, Eq)]
pub struct DispatchOutcome {
    pub response_len: usize,
    pub effects: DispatchEffects,
}

impl DispatchOutcome {
    pub open spec fn of_len(len: usize) -> Self {
        DispatchOutcome { response_len: len, effects: DispatchEffects::nothing() }
    }

    /// A response of `len` bytes without further effects.
    pub fn response(len: usize) -> (outcome: Self)
        ensures
            outcome == Self::of_len(len),
    {
        DispatchOutcome { response_len: len, effects: DispatchEffects::none() }
    }
}

/// One parsed record from a `ConfigureReporting` (0x06) payload.
#[derive(Clone, Copy, Debug)]
pub struct ConfigureReportingRecord<'a> {
    /// 0 = server sends reports to client; 1 = client sets receive timeout.
    pub direction: u8,
    pub attr_id: AttributeId,
    /// Data type of the attribute. Only meaningful when `direction == 0`.
    pub attr_type: u8,
    /// Min reporting interval (seconds). Only meaningful when `direction == 0`.
    pub min_interval: u16,
    /// Max reporting interval (seconds). Only meaningful when `direction == 0`.
    pub max_interval: u16,
    /// Reportable-change value bytes. Empty for discrete types or `direction ==
    /// 1`.
    pub reportable_change: &'a [u8],
    /// Timeout period (tenths of seconds). Only meaningful when `direction ==
    /// 1`.
    pub timeout_period: u16,
}

/// The contents of a `ConfigureReporting` record.
pub struct RecordFields {
    pub direction: u8,
    pub attr_id: AttributeId,
    pub attr_type: u8,
    pub min_interval: u16,
    pub max_interval: u16,
    pub reportable_change: Seq<u8>,
    pub timeout_period: u16,
}

impl<'a> ConfigureReportingRecord<'a> {
    pub open spec fn fields(self) -> RecordFields {
        RecordFields {
            direction: self.direction,
            attr_id: self.attr_id,
            attr_type: self.attr_type,
            min_interval: self.min_interval,
            max_interval: self.max_interval,
            reportable_change: self.reportable_change@,
            timeout_period: self.timeout_period,
        }
    }
}

#[derive(Clone, Copy, Debug, PartialEq, Eq, Structural)]
pub enum ReportDestination {
    Unicast(ApsPeer),
    Bound,
}

#[derive(Clone, Copy, Debug, PartialEq, Eq, Structural)]
pub struct ReportToken(pub u16);

impl ReportToken {
    pub fn new(value: u16) -> (token: Self)
        ensures
            token == ReportToken(value),
    {
        ReportToken(value)
    }
}

#[derive(Clone, Copy, Debug, PartialEq, Eq, Structural)]
pub struct ClusterReportReady {
    pub destination: ReportDestination,
    pub token: ReportToken,
}

#[derive(Clone, Copy, Debug, PartialEq, Eq, Structural)]
pub enum ReportDeliveryResult {
    Sent,
    Deferred,
    Failed,
}

#[derive(Clone, Copy, Debug, PartialEq, Eq)]
pub struct ReportReady {
    pub destination: ReportDestination,
    pub token: ReportToken,
    pub endpoint: u8,
    pub profile_id: u16,
    pub cluster: ClusterKey,
    pub len: usize,
}

#[derive(Clone, Copy, Debug, PartialEq, Eq, Structural)]
pub struct ReportingDiagnostics {
    pub coalesced_updates: u16,
    pub dropped_reports: u16,
    pub buffer_too_small: bool,
}

impl ReportingDiagnostics {
    pub open spec fn nothing() -> Self {
        ReportingDiagnostics {
            coalesced_updates: 0,
            dropped_reports: 0,
            buffer_too_small: false,
        }
    }

    /// Nothing to report.
    pub fn none() -> (d: Self)
        ensures
            d == Self::nothing(),
    {
        ReportingDiagnostics { coalesced_updates: 0, dropped_reports: 0, buffer_too_small: false }
    }

    pub fn is_empty(self) -> (yes: bool)
        ensures
            yes == (self == Self::nothing()),
    {
        self.coalesced_updates == 0 && self.dropped_reports == 0 && !self.buffer_too_small
    }

    /// The sum of two counts, held at the largest count.
    pub open spec fn count_sum(a: u16, b: u16) -> u16 {
        (if a + b > u16::MAX { u16::MAX as int } else { a + b }) as u16
    }

    /// What both diagnostics say together.
    pub open spec fn merged(self, other: Self) -> Self {
        ReportingDiagnostics {
            coalesced_updates: Self::count_sum(self.coalesced_updates, other.coalesced_updates),
            dropped_reports: Self::count_sum(self.dropped_reports, other.dropped_reports),
            buffer_too_small: self.buffer_too_small || other.buffer_too_small,
        }
    }

    pub fn merge(self, other: Self) -> (d: Self)
        ensures
            d == self.merged(other),
    {
        ReportingDiagnostics {
            coalesced_updates: self.coalesced_updates.saturating_add(other.coalesced_updates),
            dropped_reports: self.dropped_reports.saturating_add(other.dropped_reports),
            buffer_too_small: self.buffer_too_small || other.buffer_too_small,
        }
    }
}

impl Default for ReportingDiagnostics {
    fn default() -> (d: Self)
        ensures
            d == Self::nothing(),
    {
        ReportingDiagnostics::none()
    }
}

#[derive(Clone, Copy, Debug, PartialEq, Eq)]
pub struct ClusterTick {
    pub changed: bool,
    pub next_tick_ms: Option<u32>,
}

impl ClusterTick {
    pub open spec fn idle_tick() -> Self {
        ClusterTick { changed: false, next_tick_ms: None }
    }

    /// Nothing changed and nothing will.
    pub fn idle() -> (tick: Self)
        ensures
            tick == Self::idle_tick(),
    {
        ClusterTick { changed: false, next_tick_ms: None }
    }
}

impl Default for ClusterTick {
    fn default() -> (tick: Self)
        ensures
            tick == Self::idle_tick(),
    {
        ClusterTick::idle()
    }
}

#[derive(Clone, Copy, Debug, PartialEq, Eq)]
pub struct DeviceTick {
    pub changed: bool,
    pub next_tick_ms: Option<u32>,
}

impl DeviceTick {
    /// Milliseconds from `now_ms` forward to `at`, on a clock that wraps.
    pub open spec fn distance(at: u32, now_ms: u32) -> int {
        if at >= now_ms {
            at - now_ms
        } else {
            at - now_ms + 0x1_0000_0000
        }
    }

    /// The tick after a cluster's tick: something changed if it did in either,
    /// and the deadline that comes first after `now_ms` stands.
    pub open spec fn after(self, tick: ClusterTick, now_ms: u32) -> Self {
        DeviceTick {
            changed: self.changed || tick.changed,
            next_tick_ms: match (self.next_tick_ms, tick.next_tick_ms) {
                (None, other) => other,
                (mine, None) => mine,
                (Some(a), Some(b)) => if Self::distance(b, now_ms) < Self::distance(a, now_ms) {
                    Some(b)
                } else {
                    Some(a)
                },
            },
        }
    }

    pub fn absorb(self, tick: ClusterTick, now_ms: u32) -> (merged: Self)
        ensures
            merged == self.after(tick, now_ms),
    {
        let next_tick_ms: Option<u32> = match (self.next_tick_ms, tick.next_tick_ms) {
            (None, other) => other,
            (Some(a), None) => Some(a),
            (Some(a), Some(b)) => if b.wrapping_sub(now_ms) < a.wrapping_sub(now_ms) {
                Some(b)
            } else {
                Some(a)
            },
        };
        DeviceTick { changed: self.changed || tick.changed, next_tick_ms }
    }
}

impl Default for DeviceTick {
    fn default() -> (tick: Self)
        ensures
            tick == (DeviceTick { changed: false, next_tick_ms: None }),
    {
        DeviceTick { changed: false, next_tick_ms: None }
    }
}

#[derive(Clone, Copy)]
pub enum CommandResult {
    /// The server returns a status; the dispatcher builds a `DefaultResponse`.
    DefaultResponse(Status),
    /// The server wrote `len` bytes of payload into the buffer; the dispatcher
    /// puts the header in front.
    Payload { command_id: CommandId, len: usize },
    /// Unconditionally suppress any response.
    Suppress,
}

impl CommandResult {
    /// Handling a command with this result put nothing but the payload, if there is
    /// one, into a buffer that held `before`.
    pub open spec fn leaves(self, before: Seq<u8>, after: Seq<u8>) -> bool {
        match self {
            CommandResult::Payload { len, .. } => same_from(before, after, len as int),
            _ => after == before,
        }
    }
}

} // verus!
