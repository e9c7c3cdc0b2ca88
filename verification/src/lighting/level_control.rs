//! The level control cluster.

use vstd::prelude::*;

use crate::cluster_server::ClusterServer;
use crate::context::ClusterReportReady;
use crate::context::ClusterTick;
use crate::context::CommandResult;
use crate::context::ConfigureReportingRecord;
use crate::context::DispatchContext;
use crate::context::DispatchEffects;
use crate::context::RecordFields;
use crate::context::ReportDeliveryResult;
use crate::context::ReportToken;
use crate::context::ReportingDiagnostics;
use crate::frame::Status;
use crate::reporting::LatestReportingTable;
use crate::reporting::ReportPayloadWriter;
use crate::reporting::TableState;
use crate::types::codec::encode_attr;
use crate::types::codec::AttrValue;
use crate::types::codec::ReadSpec;
use crate::types::descriptors::AttrInfo;
use crate::types::error::AttrError;
use crate::types::error::ZclError;
use crate::types::ids::AttributeId;
use crate::types::ids::CommandId;
use crate::types::ids::TypeId;
use crate::bytes::read_u16;
use crate::bytes::Le;
use crate::lighting::transition::distance;
use crate::lighting::transition::interpolate_linear;
use crate::lighting::transition::next_elapsed;
use crate::lighting::transition::remaining_tenths;
use crate::lighting::transition::Transition;
use crate::lighting::transition::MAX_DURATION_MS;

verus! {

/// Level control, cluster 0x0008.
///
/// Transitions use absolute monotonic time: start and duration are set when a
/// timed move begins, and `tick` interpolates. The remaining time is updated on
/// each tick. `take_pending_level` returns the new level when hardware needs an
/// update.
pub struct LevelControlServer {
    /// Attribute 0x0000.
    pub current_level: Option<u8>,
    /// Attribute 0x0002.
    pub min_level: u8,
    /// Attribute 0x0003.
    pub max_level: u8,
    /// Attribute 0x000F. Bit 0 = `ExecuteIfOff`.
    pub options: u8,
    /// A timed transition is in progress.
    pub moving: bool,
    /// Transition time of a command that leaves it to the device, in 1/10 s.
    pub default_transition_tenths: u16,
    /// Attribute 0x0001.
    pub cached_remaining_time: u16,
    pub target_level: u8,
    pub start_level: u8,
    pub transition_start_ms: u32,
    pub transition_duration_ms: u32,
    pub dirty: bool,
    pub reporting: LatestReportingTable<1, 4>,
}

/// The state of a level control server.
pub struct LevelState {
    pub current_level: Option<u8>,
    pub min_level: u8,
    pub max_level: u8,
    pub options: u8,
    pub moving: bool,
    pub default_tenths: u16,
    pub remaining_time: u16,
    pub target_level: u8,
    pub start_level: u8,
    pub start_ms: u32,
    pub duration_ms: u32,
    /// The level changed since it was last taken.
    pub dirty: bool,
    pub reporting: TableState,
}

impl View for LevelControlServer {
    type V = LevelState;

    open spec fn view(&self) -> LevelState {
        LevelState {
            current_level: self.current_level,
            min_level: self.min_level,
            max_level: self.max_level,
            options: self.options,
            moving: self.moving,
            default_tenths: self.default_transition_tenths,
            remaining_time: self.cached_remaining_time,
            target_level: self.target_level,
            start_level: self.start_level,
            start_ms: self.transition_start_ms,
            duration_ms: self.transition_duration_ms,
            dirty: self.dirty,
            reporting: self.reporting@,
        }
    }
}

impl LevelState {
    pub open spec fn initial(level: Option<u8>) -> Self {
        let origin = match level {
            Some(l) => l,
            None => 0,
        };
        LevelState {
            current_level: level,
            min_level: 0x01,
            max_level: 0xFE,
            options: 0,
            moving: false,
            default_tenths: 0,
            remaining_time: 0,
            target_level: origin,
            start_level: origin,
            start_ms: 0,
            duration_ms: 0,
            dirty: false,
            reporting: TableState::empty(),
        }
    }

    /// The attribute's value.
    pub open spec fn value(self, id: AttributeId) -> Option<AttrValue> {
        match id.0 {
            0x0000 => Some(AttrValue::NullableUint8(self.current_level)),
            0x0001 => Some(AttrValue::Uint16(self.remaining_time)),
            0x0002 => Some(AttrValue::Uint8(self.min_level)),
            0x0003 => Some(AttrValue::Uint8(self.max_level)),
            0x000F => Some(AttrValue::Bitmap8(self.options)),
            0xFFFD => Some(AttrValue::Uint16(3)),
            _ => None,
        }
    }

    /// The state at `level`, of which a report becomes pending.
    pub open spec fn at(self, level: u8) -> Self {
        LevelState {
            current_level: Some(level),
            dirty: self.dirty || self.current_level != Some(level),
            reporting: self.reporting.noted(AttributeId(0x0000)),
            ..self
        }
    }

    /// The state on the way to `level`, or there already where the way takes no
    /// time or has no origin.
    pub open spec fn moved(self, now_ms: u32, level: u8, tenths: u16) -> Self {
        if self.current_level is None || tenths == 0 {
            LevelState {
                start_level: level,
                target_level: level,
                start_ms: now_ms,
                duration_ms: 0,
                remaining_time: 0,
                moving: false,
                ..self.at(level)
            }
        } else {
            LevelState {
                start_level: self.current_level->0,
                target_level: level,
                start_ms: now_ms,
                duration_ms: (tenths * 100) as u32,
                remaining_time: tenths,
                moving: true,
                ..self
            }
        }
    }

    /// The level at `now_ms` of a transition.
    pub open spec fn level_at(self, now_ms: u32) -> u8 {
        let elapsed = now_ms.wrapping_sub(self.start_ms);
        if elapsed >= self.duration_ms {
            self.target_level
        } else {
            Transition::linear(
                self.start_level,
                self.target_level,
                elapsed as int,
                self.duration_ms as int,
            )
        }
    }

    /// The transition is over at `now_ms`.
    pub open spec fn over(self, now_ms: u32) -> bool {
        now_ms.wrapping_sub(self.start_ms) >= self.duration_ms
    }

    pub open spec fn clamped(self, level: u8) -> u8 {
        if level < self.min_level {
            self.min_level
        } else if level > self.max_level {
            self.max_level
        } else {
            level
        }
    }

    /// The transition time that a command asks for, in tenths of a second.
    pub open spec fn tenths(self, raw: u16) -> u16 {
        if raw == 0xFFFF {
            self.default_tenths
        } else {
            raw
        }
    }

    /// The current level, or the lowest where there is none.
    pub open spec fn origin(self) -> u8 {
        match self.current_level {
            Some(level) => level,
            None => self.min_level,
        }
    }

    /// The target and distance of a continuous move.
    pub open spec fn run(self, up: bool) -> (u8, int) {
        let current = self.origin();
        if up {
            (self.max_level, if self.max_level > current { self.max_level - current } else { 0 })
        } else {
            (self.min_level, if current > self.min_level { current - self.min_level } else { 0 })
        }
    }

    /// The target of a step.
    pub open spec fn stepped(self, up: bool, size: u8) -> u8 {
        let current = self.origin();
        if up {
            if current + size < self.max_level {
                (current + size) as u8
            } else {
                self.max_level
            }
        } else if current - size > self.min_level {
            (current - size) as u8
        } else {
            self.min_level
        }
    }

    /// The state with the transition halted where it is at `now_ms`.
    pub open spec fn stopped(self, now_ms: u32) -> Self {
        if self.moving {
            let level = self.level_at(now_ms);
            LevelState {
                target_level: level,
                moving: false,
                remaining_time: 0,
                ..self.at(level)
            }
        } else {
            self
        }
    }

    pub open spec fn reply(status: Status) -> Result<CommandResult, ZclError> {
        Ok(CommandResult::DefaultResponse(status))
    }

    /// The state and result after a command. Commands 4 to 7 are 0 to 3 "with
    /// on/off".
    pub open spec fn handled(self, id: CommandId, p: Seq<u8>, now_ms: u32) -> (
        Self,
        Result<CommandResult, ZclError>,
    ) {
        match id.0 {
            0x00 | 0x04 => if p.len() < 3 {
                (self, Err(ZclError::InsufficientBytes))
            } else if p[0] > 0xFE {
                (self, Self::reply(Status::InvalidValue))
            } else {
                (
                    self.moved(now_ms, self.clamped(p[0]), self.tenths(Le::u16_at(p, 1))),
                    Self::reply(Status::Success),
                )
            },
            0x01 | 0x05 => if p.len() < 2 {
                (self, Err(ZclError::InsufficientBytes))
            } else if p[1] == 0 {
                (self, Self::reply(Status::InvalidValue))
            } else if p[0] > 1 {
                (self, Err(ZclError::InvalidValue))
            } else {
                let (target, span) = self.run(p[0] == 0);
                (
                    if span == 0 {
                        self
                    } else {
                        self.moved(now_ms, target, (span * 10 / p[1] as int) as u16)
                    },
                    Self::reply(Status::Success),
                )
            },
            0x02 | 0x06 => if p.len() < 4 {
                (self, Err(ZclError::InsufficientBytes))
            } else if p[0] > 1 {
                (self, Err(ZclError::InvalidValue))
            } else {
                (
                    self.moved(
                        now_ms,
                        self.stepped(p[0] == 0, p[1]),
                        self.tenths(Le::u16_at(p, 2)),
                    ),
                    Self::reply(Status::Success),
                )
            },
            0x03 | 0x07 => (self.stopped(now_ms), Self::reply(Status::Success)),
            _ => (self, Self::reply(Status::UnsupCommand)),
        }
    }

    /// The state advanced to `now_ms`.
    pub open spec fn advanced(self, now_ms: u32) -> Self {
        if !self.moving {
            self
        } else {
            let s = LevelState {
                moving: !self.over(now_ms),
                remaining_time: Transition::remaining(
                    self.start_ms,
                    self.duration_ms,
                    now_ms,
                ) as u16,
                ..self
            };
            if self.current_level == Some(self.level_at(now_ms)) {
                s
            } else {
                s.at(self.level_at(now_ms))
            }
        }
    }

    /// When the level next changes.
    pub open spec fn next_change(self, now_ms: u32) -> Option<u32> {
        if !self.moving || self.over(now_ms) {
            None
        } else {
            Some(
                self.start_ms.wrapping_add(
                    Transition::next(
                        Transition::distance(self.start_level, self.target_level),
                        now_ms.wrapping_sub(self.start_ms) as int,
                        self.duration_ms as int,
                    ),
                ),
            )
        }
    }

    pub open spec fn snapshot(self) -> Seq<u8> {
        seq![
            match self.current_level {
                Some(level) => level,
                None => 0xFF,
            },
            self.options,
        ]
    }

    /// The state after restoring snapshot `data`. Short data changes nothing.
    pub open spec fn restored(self, data: Seq<u8>) -> Self {
        if data.len() < 2 {
            self
        } else {
            let level = Self::stored(data[0]);
            LevelState {
                current_level: level,
                options: data[1],
                dirty: self.dirty || self.current_level != level,
                ..self
            }
        }
    }

    /// The level that a byte of a snapshot stands for.
    pub open spec fn stored(raw: u8) -> Option<u8> {
        if raw == 0xFF {
            None
        } else {
            Some(raw)
        }
    }

    /// `taken` is the level that was last handed out, and any other one will be.
    pub open spec fn owes(self, taken: Option<u8>) -> bool {
        self.current_level != taken ==> self.dirty
    }
}

impl LevelControlServer {
    pub fn new(initial_level: Option<u8>) -> (server: Self)
        ensures
            server.wf(),
            server@ == LevelState::initial(initial_level),
    {
        let level: u8 = match initial_level {
            Some(l) => l,
            None => 0,
        };
        LevelControlServer {
            current_level: initial_level,
            min_level: 0x01,
            max_level: 0xFE,
            options: 0,
            moving: false,
            default_transition_tenths: 0,
            cached_remaining_time: 0,
            target_level: level,
            start_level: level,
            transition_start_ms: 0,
            transition_duration_ms: 0,
            dirty: false,
            reporting: LatestReportingTable::new(),
        }
    }

    /// Sets the transition time (in 1/10 s units) used when a command specifies
    /// `0xFFFF` ("use device default").
    #[must_use]
    pub fn with_default_transition(self, tenths: u16) -> (server: Self)
        ensures
            self.wf() ==> server.wf(),
            server@ == (LevelState { default_tenths: tenths, ..self@ }),
    {
        let mut server = self;
        server.default_transition_tenths = tenths;
        server
    }

    pub fn min_level(&self) -> (level: u8)
        ensures
            level == self@.min_level,
    {
        self.min_level
    }

    pub fn set_min_level(&mut self, val: u8)
        ensures
            old(self).wf() ==> final(self).wf(),
            final(self)@ == (LevelState { min_level: val, ..old(self)@ }),
    {
        self.min_level = val;
    }

    pub fn max_level(&self) -> (level: u8)
        ensures
            level == self@.max_level,
    {
        self.max_level
    }

    pub fn set_max_level(&mut self, val: u8)
        ensures
            old(self).wf() ==> final(self).wf(),
            final(self)@ == (LevelState { max_level: val, ..old(self)@ }),
    {
        self.max_level = val;
    }

    pub fn options(&self) -> (options: u8)
        ensures
            options == self@.options,
    {
        self.options
    }

    pub fn set_options(&mut self, val: u8)
        requires
            old(self).wf(),
        ensures
            final(self).wf(),
            final(self)@ == (LevelState {
                options: val,
                reporting: old(self)@.reporting.noted(AttributeId(0x000F)),
                ..old(self)@
            }),
    {
        self.options = val;
        self.reporting.note_value_update(AttributeId::new(0x000F));
    }

    /// Returns the new level when it has changed since the last call. Use this to
    /// drive hardware (PWM, relay, etc.).
    pub fn take_pending_level(&mut self) -> (level: Option<u8>)
        ensures
            old(self).wf() ==> final(self).wf(),
            final(self)@ == (LevelState { dirty: false, ..old(self)@ }),
            level == if old(self)@.dirty {
                old(self)@.current_level
            } else {
                None
            },
            final(self)@.owes(final(self)@.current_level),
    {
        if self.dirty {
            self.dirty = false;
            self.current_level
        } else {
            None
        }
    }

    fn move_to_level(&mut self, now_ms: u32, level: u8, transition_tenths: u16)
        requires
            old(self).wf(),
        ensures
            final(self).wf(),
            final(self)@ == old(self)@.moved(now_ms, level, transition_tenths),
    {
        match self.current_level {
            Some(start) if transition_tenths != 0 => {
                self.start_level = start;
                self.target_level = level;
                self.transition_start_ms = now_ms;
                self.transition_duration_ms = transition_tenths as u32 * 100;
                self.cached_remaining_time = transition_tenths;
                self.moving = true;
            },
            _ => {
                self.set_level(level);
                self.start_level = level;
                self.target_level = level;
                self.transition_start_ms = now_ms;
                self.transition_duration_ms = 0;
                self.cached_remaining_time = 0;
                self.moving = false;
            },
        }
    }

    /// Take up `level`. It is handed out next where it is another one.
    fn set_level(&mut self, level: u8)
        requires
            old(self).wf(),
        ensures
            final(self).wf(),
            final(self)@ == old(self)@.at(level),
    {
        if self.current_level != Some(level) {
            self.dirty = true;
        }
        self.current_level = Some(level);
        self.reporting.note_value_update(AttributeId::new(0x0000));
    }

    /// The level of the transition at `now_ms`.
    fn interpolated(&self, now_ms: u32) -> (level: u8)
        requires
            self.wf(),
        ensures
            level == self@.level_at(now_ms),
    {
        let elapsed: u32 = now_ms.wrapping_sub(self.transition_start_ms);
        if elapsed >= self.transition_duration_ms {
            self.target_level
        } else {
            interpolate_linear(
                self.start_level,
                self.target_level,
                elapsed,
                self.transition_duration_ms,
            )
        }
    }

    fn transition_tenths(&self, raw: u16) -> (tenths: u16)
        ensures
            tenths == self@.tenths(raw),
    {
        if raw == 0xFFFF {
            self.default_transition_tenths
        } else {
            raw
        }
    }

    fn level_or_min(&self) -> (level: u8)
        ensures
            level == self@.origin(),
    {
        match self.current_level {
            Some(level) => level,
            None => self.min_level,
        }
    }

    /// Level, transition time (u16, 1/10 s).
    fn handle_move_to_level(&mut self, payload: &[u8], now_ms: u32) -> (r: Result<
        CommandResult,
        ZclError,
    >)
        requires
            old(self).wf(),
        ensures
            final(self).wf(),
            (final(self)@, r) == old(self)@.handled(CommandId(0x00), payload@, now_ms),
    {
        if payload.len() < 3 {
            return Err(ZclError::InsufficientBytes);
        }
        let raw: u8 = payload[0];
        if raw > 0xFE {
            return Ok(CommandResult::DefaultResponse(Status::InvalidValue));
        }
        let level: u8 = if raw < self.min_level {
            self.min_level
        } else if raw > self.max_level {
            self.max_level
        } else {
            raw
        };
        let transition: u16 = self.transition_tenths(read_u16(payload, 1));
        self.move_to_level(now_ms, level, transition);
        Ok(CommandResult::DefaultResponse(Status::Success))
    }

    /// Mode, rate (units/s). Moves continuously toward the highest or lowest
    /// level. A rate of 0 is reserved.
    fn handle_move(&mut self, payload: &[u8], now_ms: u32) -> (r: Result<CommandResult, ZclError>)
        requires
            old(self).wf(),
        ensures
            final(self).wf(),
            (final(self)@, r) == old(self)@.handled(CommandId(0x01), payload@, now_ms),
    {
        if payload.len() < 2 {
            return Err(ZclError::InsufficientBytes);
        }
        let mode: u8 = payload[0];
        let rate: u8 = payload[1];
        if rate == 0 {
            return Ok(CommandResult::DefaultResponse(Status::InvalidValue));
        }
        let current: u8 = self.level_or_min();
        let target: u8 = match mode {
            0x00 => self.max_level,
            0x01 => self.min_level,
            _ => {
                return Err(ZclError::InvalidValue);
            },
        };
        let span: u32 = if mode == 0x00 {
            target.saturating_sub(current) as u32
        } else {
            current.saturating_sub(target) as u32
        };
        if span > 0 {
            let tenths: u32 = span * 10 / rate as u32;
            assert(tenths <= 2550) by (nonlinear_arith)
                requires
                    tenths == (span * 10) as u32 / rate as u32,
                    rate > 0,
                    span <= 255,
            ;
            self.move_to_level(now_ms, target, tenths as u16);
        }
        Ok(CommandResult::DefaultResponse(Status::Success))
    }

    /// Mode, step size, transition time (u16, 1/10 s).
    fn handle_step(&mut self, payload: &[u8], now_ms: u32) -> (r: Result<CommandResult, ZclError>)
        requires
            old(self).wf(),
        ensures
            final(self).wf(),
            (final(self)@, r) == old(self)@.handled(CommandId(0x02), payload@, now_ms),
    {
        if payload.len() < 4 {
            return Err(ZclError::InsufficientBytes);
        }
        let mode: u8 = payload[0];
        let size: u8 = payload[1];
        let transition: u16 = self.transition_tenths(read_u16(payload, 2));
        let current: u8 = self.level_or_min();
        let target: u8 = match mode {
            0x00 => {
                let up: u8 = current.saturating_add(size);
                if up < self.max_level {
                    up
                } else {
                    self.max_level
                }
            },
            0x01 => {
                let down: u8 = current.saturating_sub(size);
                if down > self.min_level {
                    down
                } else {
                    self.min_level
                }
            },
            _ => {
                return Err(ZclError::InvalidValue);
            },
        };
        self.move_to_level(now_ms, target, transition);
        Ok(CommandResult::DefaultResponse(Status::Success))
    }

    /// Halt any active transition at the level that it has reached.
    fn handle_stop(&mut self, now_ms: u32)
        requires
            old(self).wf(),
        ensures
            final(self).wf(),
            final(self)@ == old(self)@.stopped(now_ms),
    {
        if self.moving {
            let snapped: u8 = self.interpolated(now_ms);
            self.set_level(snapped);
            self.target_level = snapped;
            self.moving = false;
            self.cached_remaining_time = 0;
        }
    }
}

impl Default for LevelControlServer {
    fn default() -> (server: Self)
        ensures
            server.wf(),
            server@ == LevelState::initial(None),
    {
        Self::new(None)
    }
}

impl ClusterServer for LevelControlServer {
    const CLUSTER_ID: u16 = 0x0008;

    open spec fn wf(&self) -> bool {
        &&& self.transition_duration_ms <= MAX_DURATION_MS
        &&& self.reporting.wf()
    }

    open spec fn attr(&self, id: AttributeId, cap: nat) -> ReadSpec {
        match self@.value(id) {
            Some(v) => v.read(cap),
            None => Err(AttrError::UnsupportedAttribute),
        }
    }

    open spec fn write_check(&self, id: AttributeId, type_id: TypeId, data: Seq<u8>) -> Result<
        (),
        AttrError,
    > {
        if self@.value(id) is None {
            Err(AttrError::UnsupportedAttribute)
        } else if id.0 != 0x000F {
            Err(AttrError::ReadOnly)
        } else if type_id != TypeId::Bitmap8 {
            Err(AttrError::InvalidDataType)
        } else {
            Ok(())
        }
    }

    open spec fn wrote(
        pre: Self,
        id: AttributeId,
        type_id: TypeId,
        data: Seq<u8>,
        post: Self,
        r: Result<(), AttrError>,
    ) -> bool {
        if pre.write_check(id, type_id, data) is Ok {
            if data.len() == 0 {
                post@ == pre@ && r == Err::<(), AttrError>(AttrError::InvalidValue)
            } else {
                post@ == (LevelState { options: data[0], ..pre@ }) && r is Ok
            }
        } else {
            post@ == pre@ && r == pre.write_check(id, type_id, data)
        }
    }

    open spec fn handled(
        pre: Self,
        id: CommandId,
        payload: Seq<u8>,
        ctx: DispatchContext,
        before: Seq<u8>,
        post: Self,
        body: Seq<u8>,
        r: Result<CommandResult, ZclError>,
    ) -> bool {
        body == before && (post@, r) == pre@.handled(id, payload, ctx.now_ms)
    }

    open spec fn ticked(pre: Self, now_ms: u32, post: Self, r: ClusterTick) -> bool {
        &&& post@ == pre@.advanced(now_ms)
        &&& r.changed == (post@.current_level != pre@.current_level)
        &&& r.next_tick_ms == pre@.next_change(now_ms)
    }

    open spec fn snapshot_bytes(&self, cap: nat) -> Seq<u8> {
        if cap < 2 {
            Seq::empty()
        } else {
            self@.snapshot()
        }
    }

    open spec fn restored(pre: Self, data: Seq<u8>, post: Self) -> bool {
        post@ == pre@.restored(data)
    }

    open spec fn reporting_set(
        pre: Self,
        record: RecordFields,
        ctx: DispatchContext,
        post: Self,
        r: Status,
    ) -> bool {
        let (table, status) = LatestReportingTable::<1, 4>::configured_by(
            pre@.reporting,
            record,
            ctx,
            Self::attribute_infos(),
        );
        r == status && post@ == (LevelState { reporting: table, ..pre@ })
    }

    open spec fn collected(
        pre: Self,
        now_ms: u32,
        out: Seq<u8>,
        cap: nat,
        post: Self,
        sent: Seq<u8>,
        r: Result<Option<ClusterReportReady>, ZclError>,
    ) -> bool {
        let (table, bytes, result) = pre@.reporting.collected(
            now_ms,
            |id: AttributeId| pre.attr(id, 4),
            out,
            cap,
        );
        sent == bytes && r == result && post@ == (LevelState { reporting: table, ..pre@ })
    }

    open spec fn delivered(
        pre: Self,
        token: ReportToken,
        result: ReportDeliveryResult,
        now_ms: u32,
        post: Self,
    ) -> bool {
        post@ == (LevelState {
            reporting: pre@.reporting.completed(token, result, now_ms),
            ..pre@
        })
    }

    open spec fn diagnosed(pre: Self, post: Self, r: ReportingDiagnostics) -> bool {
        r == pre@.reporting.diagnostics && post@ == (LevelState {
            reporting: pre@.reporting.drained(),
            ..pre@
        })
    }

    open spec fn reporting_answer(&self, attr_id: AttributeId, direction: u8, cap: nat) -> Seq<
        u8,
    > {
        self@.reporting.answer(attr_id, direction, cap)
    }

    open spec fn attribute_infos() -> Seq<AttrInfo> {
        seq![
            AttrInfo::rp(0x0000, TypeId::Uint8),
            AttrInfo::ro(0x0001, TypeId::Uint16),
            AttrInfo::ro(0x0002, TypeId::Uint8),
            AttrInfo::ro(0x0003, TypeId::Uint8),
            AttrInfo::rw(0x000F, TypeId::Bitmap8),
            AttrInfo::ro(0xFFFD, TypeId::Uint16),
        ]
    }

    open spec fn received_ids() -> Seq<CommandId> {
        seq![CommandId(0x00), CommandId(0x01), CommandId(0x02), CommandId(0x03), CommandId(0x04), CommandId(0x05), CommandId(0x06), CommandId(0x07)]
    }

    fn read_attribute(&self, id: AttributeId, buf: &mut [u8]) -> (r: Result<
        (TypeId, usize),
        AttrError,
    >) {
        match id.0 {
            0x0000 => encode_attr(AttrValue::NullableUint8(self.current_level), buf),
            0x0001 => encode_attr(AttrValue::Uint16(self.cached_remaining_time), buf),
            0x0002 => encode_attr(AttrValue::Uint8(self.min_level), buf),
            0x0003 => encode_attr(AttrValue::Uint8(self.max_level), buf),
            0x000F => encode_attr(AttrValue::Bitmap8(self.options), buf),
            0xFFFD => encode_attr(AttrValue::Uint16(3), buf),
            _ => Err(AttrError::UnsupportedAttribute),
        }
    }

    fn check_write_attribute(&self, id: AttributeId, type_id: TypeId, data: &[u8]) -> (r: Result<
        (),
        AttrError,
    >) {
        match id.0 {
            0x000F => {
                if type_id != TypeId::Bitmap8 {
                    return Err(AttrError::InvalidDataType);
                }
                Ok(())
            },
            0x0000 | 0x0001 | 0x0002 | 0x0003 | 0xFFFD => Err(AttrError::ReadOnly),
            _ => Err(AttrError::UnsupportedAttribute),
        }
    }

    fn write_attribute(&mut self, id: AttributeId, type_id: TypeId, data: &[u8]) -> (r: Result<
        (),
        AttrError,
    >) {
        match self.check_write_attribute(id, type_id, data) {
            Ok(()) => {
                if data.len() == 0 {
                    return Err(AttrError::InvalidValue);
                }
                self.options = data[0];
                Ok(())
            },
            Err(e) => Err(e),
        }
    }

    fn handle_command(
        &mut self,
        id: CommandId,
        payload: &[u8],
        ctx: DispatchContext,
        buf: &mut [u8],
    ) -> (r: Result<CommandResult, ZclError>) {
        match id.0 {
            0x00 | 0x04 => self.handle_move_to_level(payload, ctx.now_ms),
            0x01 | 0x05 => self.handle_move(payload, ctx.now_ms),
            0x02 | 0x06 => self.handle_step(payload, ctx.now_ms),
            0x03 | 0x07 => {
                self.handle_stop(ctx.now_ms);
                Ok(CommandResult::DefaultResponse(Status::Success))
            },
            _ => Ok(CommandResult::DefaultResponse(Status::UnsupCommand)),
        }
    }

    fn tick(&mut self, now_ms: u32) -> (r: ClusterTick) {
        if !self.moving {
            return ClusterTick::idle();
        }
        let elapsed: u32 = now_ms.wrapping_sub(self.transition_start_ms);
        let level: u8 = self.interpolated(now_ms);
        let changed: bool = match self.current_level {
            Some(current) => current != level,
            None => true,
        };
        if changed {
            self.set_level(level);
        }
        self.cached_remaining_time =
        remaining_tenths(self.transition_start_ms, self.transition_duration_ms, now_ms) as u16;
        if elapsed >= self.transition_duration_ms {
            self.moving = false;
            return ClusterTick { changed, next_tick_ms: None };
        }
        let span: u32 = distance(self.start_level, self.target_level);
        let next: u32 = next_elapsed(span, elapsed, self.transition_duration_ms);
        ClusterTick { changed, next_tick_ms: Some(self.transition_start_ms.wrapping_add(next)) }
    }

    fn take_dispatch_effects(&mut self) -> (r: DispatchEffects) {
        DispatchEffects::none()
    }

    fn snapshot(&self, buf: &mut [u8]) -> (n: usize) {
        let ghost before = buf@;
        if buf.len() < 2 {
            assert(buf@ =~= Seq::<u8>::empty() + buf@.skip(0));
            return 0;
        }
        buf[0] = match self.current_level {
            Some(level) => level,
            None => 0xFF,
        };
        buf[1] = self.options;
        assert(buf@ =~= self@.snapshot() + before.skip(2));
        2
    }

    fn restore_snapshot(&mut self, buf: &[u8]) {
        if buf.len() < 2 {
            return;
        }
        let level: Option<u8> = if buf[0] == 0xFF {
            None
        } else {
            Some(buf[0])
        };
        if self.current_level != level {
            self.dirty = true;
        }
        self.current_level = level;
        self.options = buf[1];
    }

    fn configure_reporting(
        &mut self,
        record: ConfigureReportingRecord<'_>,
        ctx: DispatchContext,
    ) -> (r: Status) {
        self.reporting.configure(record, ctx, &Self::attribute_list())
    }

    fn collect_reports(&mut self, now_ms: u32, out: &mut ReportPayloadWriter<'_>) -> (r: Result<
        Option<ClusterReportReady>,
        ZclError,
    >) {
        match self.reporting.next_due(now_ms) {
            None => Ok(None),
            Some(candidate) => {
                let mut tmp: [u8; 4] = [0, 0, 0, 0];
                match self.read_attribute(candidate.attr_id, &mut tmp) {
                    Err(_) => Ok(None),
                    Ok((type_id, n)) => {
                        assert(tmp@.take(n as int) =~= self.attr(candidate.attr_id, 4)->Ok_0.1);
                        self.reporting.emit(candidate, type_id, &tmp[0..n], out)
                    },
                }
            },
        }
    }

    fn report_delivery_result(
        &mut self,
        token: ReportToken,
        result: ReportDeliveryResult,
        now_ms: u32,
    ) {
        self.reporting.complete(token, result, now_ms);
    }

    fn take_reporting_diagnostics(&mut self) -> (r: ReportingDiagnostics) {
        self.reporting.take_diagnostics()
    }

    fn read_reporting_config(&self, attr_id: AttributeId, direction: u8, buf: &mut [u8]) -> (n:
        usize) {
        self.reporting.write_read_response_record(attr_id, direction, buf)
    }

    fn attribute_list() -> (list: Vec<AttrInfo>) {
        vec![
            AttrInfo::read_report(0x0000, TypeId::Uint8),
            AttrInfo::read_only(0x0001, TypeId::Uint16),
            AttrInfo::read_only(0x0002, TypeId::Uint8),
            AttrInfo::read_only(0x0003, TypeId::Uint8),
            AttrInfo::read_write(0x000F, TypeId::Bitmap8),
            AttrInfo::read_only(0xFFFD, TypeId::Uint16),
        ]
    }

    fn commands_received() -> (list: Vec<CommandId>) {
        vec![CommandId(0x00), CommandId(0x01), CommandId(0x02), CommandId(0x03), CommandId(0x04), CommandId(0x05), CommandId(0x06), CommandId(0x07)]
    }

    fn commands_generated() -> (list: Vec<CommandId>) {
        Vec::new()
    }
}

/// What a snapshot holds comes back when it is restored, whatever the state then
/// is. The level 0xff stands for "no level".
pub proof fn law_snapshot_restores(saved: LevelState, other: LevelState)
    requires
        saved.current_level != Some(0xFFu8),
    ensures
        other.restored(saved.snapshot()) == (LevelState {
            current_level: saved.current_level,
            options: saved.options,
            dirty: other.dirty || other.current_level != saved.current_level,
            ..other
        }),
{
}

/// Whatever a command, a tick or a snapshot does, a level other than the one last
/// handed out is handed out next: it is never lost.
pub proof fn law_changed_level_is_handed_out(
    s: LevelState,
    taken: Option<u8>,
    id: CommandId,
    p: Seq<u8>,
    now_ms: u32,
)
    requires
        s.owes(taken),
    ensures
        s.handled(id, p, now_ms).0.owes(taken),
        s.advanced(now_ms).owes(taken),
        s.restored(p).owes(taken),
{
}

/// A level that was handed out is not handed out again before another one is taken
/// up.
pub proof fn law_unchanged_level_is_not_handed_out(
    s: LevelState,
    id: CommandId,
    p: Seq<u8>,
    now_ms: u32,
)
    requires
        !s.dirty,
    ensures
        s.handled(id, p, now_ms).0.dirty ==> s.handled(id, p, now_ms).0.current_level
            != s.current_level,
        s.advanced(now_ms).dirty ==> s.advanced(now_ms).current_level != s.current_level,
{
}

/// A move to a level has arrived there once its time has passed, and then rests.
pub proof fn law_move_arrives(s: LevelState, now_ms: u32, level: u8, tenths: u16, later_ms: u32)
    requires
        later_ms.wrapping_sub(now_ms) >= tenths * 100,
    ensures
        ({
            let end = s.moved(now_ms, level, tenths).advanced(later_ms);
            end.current_level == Some(level) && !end.moving && end.remaining_time == 0
        }),
{
}

/// Advancing twice to one time is advancing once.
pub proof fn law_advancing_is_idempotent(s: LevelState, now_ms: u32)
    ensures
        s.advanced(now_ms).advanced(now_ms) == s.advanced(now_ms),
{
}

/// Stopping leaves the level where advancing to that time would, and at rest.
pub proof fn law_stop_freezes_the_level(s: LevelState, now_ms: u32, later_ms: u32)
    requires
        s.moving,
    ensures
        s.stopped(now_ms).current_level == s.advanced(now_ms).current_level,
        s.stopped(now_ms).advanced(later_ms) == s.stopped(now_ms),
{
}

/// Every command that moves the level aims within the limits.
pub proof fn law_commands_stay_within_limits(s: LevelState, id: CommandId, p: Seq<u8>, now_ms: u32)
    requires
        s.min_level <= s.max_level,
        s.current_level matches Some(level) ==> s.min_level <= level <= s.max_level,
        id.0 != 0x03 && id.0 != 0x07,
    ensures
        ({
            let t = s.handled(id, p, now_ms).0;
            t == s || s.min_level <= t.target_level <= s.max_level
        }),
{
}

/// The deadline that a tick returns is in the future, and there is one exactly
/// while the level moves.
pub proof fn law_deadline_is_ahead(server: LevelControlServer, now_ms: u32)
    requires
        server.wf(),
    ensures
        server@.next_change(now_ms) matches Some(at) ==> 0 < at.wrapping_sub(now_ms)
            <= MAX_DURATION_MS + 1,
        server@.next_change(now_ms) is Some <==> server@.advanced(now_ms).moving,
{
    let s = server@;
    if s.next_change(now_ms) is Some && s.start_level != s.target_level {
        crate::lighting::transition::law_wake_is_ahead(
            Transition::distance(s.start_level, s.target_level),
            now_ms.wrapping_sub(s.start_ms) as int,
            s.duration_ms as int,
        );
    }
}

/// A value that was written is read back, and no other attribute changes.
pub proof fn law_written_value_is_read(
    pre: LevelControlServer,
    id: AttributeId,
    type_id: TypeId,
    data: Seq<u8>,
    post: LevelControlServer,
    other: AttributeId,
    cap: nat,
)
    requires
        LevelControlServer::wrote(pre, id, type_id, data, post, Ok(())),
    ensures
        post.attr(id, cap) == AttrValue::Bitmap8(data[0]).read(cap),
        other != id ==> post.attr(other, cap) == pre.attr(other, cap),
{
}

} // verus!
