//! The colour control cluster: hue and saturation.

use vstd::prelude::*;

use crate::cluster_server::ClusterServer;
use crate::context::ClusterReportReady;
use crate::context::ClusterTick;
use crate::context::CommandResult;
use crate::context::ConfigureReportingRecord;
use crate::context::DispatchContext;
use crate::context::DispatchEffects;
use crate::context::RecordFields;
use crate::context::ReportDeliveryResult;
use crate::context::ReportToken;
use crate::context::ReportingDiagnostics;
use crate::frame::Status;
use crate::reporting::LatestReportingTable;
use crate::reporting::ReportPayloadWriter;
use crate::reporting::TableState;
use crate::types::codec::encode_attr;
use crate::types::codec::AttrValue;
use crate::types::codec::ReadSpec;
use crate::types::descriptors::AttrInfo;
use crate::types::error::AttrError;
use crate::types::error::ZclError;
use crate::types::ids::AttributeId;
use crate::types::ids::CommandId;
use crate::types::ids::TypeId;
use crate::bytes::read_u16;
use crate::bytes::Le;
use crate::lighting::transition::distance;
use crate::lighting::transition::interpolate_linear;
use crate::lighting::transition::next_elapsed;
use crate::lighting::transition::progress;
use crate::lighting::transition::remaining_tenths;
use crate::lighting::transition::Transition;
use crate::lighting::transition::MAX_DURATION_MS;
use crate::types::enums::ColorMode;

verus! {

/// A hue on its way round the colour circle.
#[derive(Clone, Copy, Debug, PartialEq, Eq, Structural)]
pub struct HueTransition {
    pub start_hue: u8,
    pub target_hue: u8,
    /// Increasing hue, wrapping through 255.
    pub direction_up: bool,
    /// Hue steps to travel in all.
    pub arc: u32,
    pub start_ms: u32,
    pub duration_ms: u32,
}

impl HueTransition {
    pub open spec fn wf(self) -> bool {
        self.arc < 255 && self.duration_ms <= MAX_DURATION_MS
    }

    /// The hue at `now_ms`.
    pub open spec fn at(self, now_ms: u32) -> u8 {
        let elapsed = now_ms.wrapping_sub(self.start_ms);
        if elapsed >= self.duration_ms {
            self.target_hue
        } else {
            Hue::moved(
                self.start_hue,
                self.direction_up,
                Transition::progress(self.arc as int, elapsed as int, self.duration_ms as int),
            )
        }
    }

    /// When the hue next changes, while the transition runs.
    pub open spec fn next_ms(self, now_ms: u32) -> Option<u32> {
        let elapsed = now_ms.wrapping_sub(self.start_ms);
        if elapsed >= self.duration_ms {
            None
        } else {
            Some(
                self.start_ms.wrapping_add(
                    Transition::next(self.arc as int, elapsed as int, self.duration_ms as int),
                ),
            )
        }
    }
}

/// A saturation on its way. Saturation is linear, without wrap.
#[derive(Clone, Copy, Debug, PartialEq, Eq, Structural)]
pub struct SatTransition {
    pub start_sat: u8,
    pub target_sat: u8,
    pub start_ms: u32,
    pub duration_ms: u32,
}

impl SatTransition {
    pub open spec fn wf(self) -> bool {
        self.duration_ms <= MAX_DURATION_MS
    }

    /// The saturation at `now_ms`.
    pub open spec fn at(self, now_ms: u32) -> u8 {
        let elapsed = now_ms.wrapping_sub(self.start_ms);
        if elapsed >= self.duration_ms {
            self.target_sat
        } else {
            Transition::linear(
                self.start_sat,
                self.target_sat,
                elapsed as int,
                self.duration_ms as int,
            )
        }
    }

    /// When the saturation next changes, while the transition runs.
    pub open spec fn next_ms(self, now_ms: u32) -> Option<u32> {
        let elapsed = now_ms.wrapping_sub(self.start_ms);
        if elapsed >= self.duration_ms {
            None
        } else {
            Some(
                self.start_ms.wrapping_add(
                    Transition::next(
                        Transition::distance(self.start_sat, self.target_sat),
                        elapsed as int,
                        self.duration_ms as int,
                    ),
                ),
            )
        }
    }
}

/// Specification functions on the colour circle, 255 hues round.
pub struct Hue;

impl Hue {
    /// Steps upwards from `start` to `target`.
    pub open spec fn steps_up(start: u8, target: u8) -> int {
        (target + 255 - start) % 255
    }

    /// The way from `start` to `target`: upwards or not, and how many steps.
    /// Direction 1 asks for the longer way, 2 for up, 3 for down, any other for
    /// the shorter way. Of two equal ways the upward one is taken.
    pub open spec fn way(start: u8, target: u8, direction: u8) -> (bool, int) {
        let up = Self::steps_up(start, target);
        let down = Self::steps_up(target, start);
        let go_up = if direction == 1 {
            up >= down
        } else if direction == 2 {
            true
        } else if direction == 3 {
            false
        } else {
            up <= down
        };
        if go_up {
            (true, up)
        } else {
            (false, down)
        }
    }

    /// The hue `steps` away from `hue`.
    pub open spec fn moved(hue: u8, up: bool, steps: int) -> u8 {
        if up {
            ((hue + steps) % 255) as u8
        } else {
            ((hue - steps) % 255) as u8
        }
    }
}

/// Travelling the way from one hue to another arrives there.
pub proof fn law_way_arrives(start: u8, target: u8, direction: u8)
    requires
        start <= 254,
        target <= 254,
    ensures
        ({
            let (up, steps) = Hue::way(start, target, direction);
            0 <= steps < 255 && Hue::moved(start, up, steps) == target
        }),
{
    let up = Hue::steps_up(start, target);
    let down = Hue::steps_up(target, start);
    lemma_steps_up(start, target);
    lemma_steps_up(target, start);
    if start <= target {
        assert(start + up == target);
        assert(start - down == (if start == target {
            target as int
        } else {
            target - 255
        }));
    } else {
        assert(start + up == target + 255);
        assert(start - down == target);
    }
}

/// Without wrap the steps upwards are the difference.
proof fn lemma_steps_up(start: u8, target: u8)
    requires
        start <= 254,
        target <= 254,
    ensures
        Hue::steps_up(start, target) == if start <= target {
            target - start
        } else {
            target - start + 255
        },
{
}

/// The default way is the shorter one, and direction 1 the longer one.
pub proof fn law_shorter_and_longer_way(start: u8, target: u8, direction: u8)
    requires
        start <= 254,
        target <= 254,
    ensures
        Hue::way(start, target, 0).1 <= Hue::way(start, target, direction).1 <= Hue::way(
            start,
            target,
            1,
        ).1,
        start != target ==> Hue::way(start, target, 0).1 + Hue::way(start, target, 1).1 == 255,
        start == target ==> Hue::way(start, target, direction).1 == 0,
{
    lemma_steps_up(start, target);
    lemma_steps_up(target, start);
}

/// The way from `start` to `target`: whether it goes up, and its length.
///
/// Direction: 0 = shortest, 1 = longest, 2 = up, 3 = down. Hue wraps at 255.
pub fn hue_direction(start: u8, target: u8, direction: u8) -> (way: (bool, u32))
    ensures
        way.0 == Hue::way(start, target, direction).0,
        way.1 == Hue::way(start, target, direction).1,
        way.1 < 255,
{
    let dist_up: u32 = (target as u32 + 255 - start as u32) % 255;
    let dist_down: u32 = (start as u32 + 255 - target as u32) % 255;
    match direction {
        0x01 => if dist_up >= dist_down {
            (true, dist_up)
        } else {
            (false, dist_down)
        },
        0x02 => (true, dist_up),
        0x03 => (false, dist_down),
        _ => if dist_up <= dist_down {
            (true, dist_up)
        } else {
            (false, dist_down)
        },
    }
}

/// The hue `steps` away from `hue`.
fn step_from(hue: u8, up: bool, steps: u8) -> (moved: u8)
    ensures
        moved == Hue::moved(hue, up, steps as int),
{
    if up {
        ((hue as u32 + steps as u32) % 255) as u8
    } else {
        ((hue as u32 + 255 - steps as u32 % 255) % 255) as u8
    }
}

/// Interpolate hue with wrap-around over `arc` steps.
pub fn interpolate_hue(start: u8, direction_up: bool, arc: u32, elapsed: u32, duration: u32) -> (hue:
    u8)
    requires
        arc <= 255,
        elapsed < duration <= MAX_DURATION_MS,
    ensures
        hue == Hue::moved(
            start,
            direction_up,
            Transition::progress(arc as int, elapsed as int, duration as int),
        ),
{
    let step: u32 = progress(arc, elapsed, duration);
    if direction_up {
        ((start as u32 + step) % 255) as u8
    } else {
        ((start as u32 + 255 - step % 255) % 255) as u8
    }
}

/// The earlier of two times, seen from `now_ms` on a clock that wraps.
pub open spec fn tighter(a: Option<u32>, b: Option<u32>, now_ms: u32) -> Option<u32> {
    match (a, b) {
        (Some(x), Some(y)) => if x.wrapping_sub(now_ms) <= y.wrapping_sub(now_ms) {
            Some(x)
        } else {
            Some(y)
        },
        (Some(x), None) => Some(x),
        (None, y) => y,
    }
}

/// Return the tighter of two optional absolute timestamps.
pub fn tighter_deadline(a: Option<u32>, b: Option<u32>, now_ms: u32) -> (c: Option<u32>)
    ensures
        c == tighter(a, b, now_ms),
{
    match (a, b) {
        (Some(x), Some(y)) => if x.wrapping_sub(now_ms) <= y.wrapping_sub(now_ms) {
            Some(x)
        } else {
            Some(y)
        },
        (Some(x), None) => Some(x),
        (None, y) => y,
    }
}

/// Hue/saturation colour control, cluster 0x0300.
///
/// Transitions use absolute monotonic time. `tick` advances both axes and returns
/// the exact next-change time, never a fixed polling interval. Hue is 0x00-0xFE,
/// modulo 255; saturation is 0x00-0xFE, linear. `Options` is the only writable
/// attribute.
pub struct ColorControlServer {
    /// Attribute 0x0000.
    pub current_hue: u8,
    /// Attribute 0x0001.
    pub current_saturation: u8,
    /// Attribute 0x0002, in tenths of seconds.
    pub remaining_time: u16,
    /// Attribute 0x0008.
    pub color_mode: ColorMode,
    /// Attribute 0x000F.
    pub options: u8,
    pub hue_tx: Option<HueTransition>,
    pub sat_tx: Option<SatTransition>,
    pub reporting: LatestReportingTable<2, 1>,
}

/// The state of a colour control server.
pub struct ColorState {
    pub current_hue: u8,
    pub current_saturation: u8,
    pub remaining_time: u16,
    pub color_mode: ColorMode,
    pub options: u8,
    pub hue_tx: Option<HueTransition>,
    pub sat_tx: Option<SatTransition>,
    pub reporting: TableState,
}

impl View for ColorControlServer {
    type V = ColorState;

    open spec fn view(&self) -> ColorState {
        ColorState {
            current_hue: self.current_hue,
            current_saturation: self.current_saturation,
            remaining_time: self.remaining_time,
            color_mode: self.color_mode,
            options: self.options,
            hue_tx: self.hue_tx,
            sat_tx: self.sat_tx,
            reporting: self.reporting@,
        }
    }
}

impl ColorState {
    pub open spec fn initial(hue: u8, saturation: u8) -> Self {
        ColorState {
            current_hue: hue,
            current_saturation: saturation,
            remaining_time: 0,
            color_mode: ColorMode::HueSaturation,
            options: 0,
            hue_tx: None,
            sat_tx: None,
            reporting: TableState::empty(),
        }
    }

    /// The attribute's value.
    pub open spec fn value(self, id: AttributeId) -> Option<AttrValue> {
        match id.0 {
            0x0000 => Some(AttrValue::Uint8(self.current_hue)),
            0x0001 => Some(AttrValue::Uint8(self.current_saturation)),
            0x0002 => Some(AttrValue::Uint16(self.remaining_time)),
            0x0008 => Some(AttrValue::Enum8(self.color_mode.raw())),
            0x000F => Some(AttrValue::Bitmap8(self.options)),
            0x400A => Some(AttrValue::Bitmap16(0x0001)),
            0xFFFD => Some(AttrValue::Uint16(3)),
            _ => None,
        }
    }

    pub open spec fn hue_remaining(self, now_ms: u32) -> int {
        match self.hue_tx {
            Some(tx) => Transition::remaining(tx.start_ms, tx.duration_ms, now_ms),
            None => 0,
        }
    }

    pub open spec fn sat_remaining(self, now_ms: u32) -> int {
        match self.sat_tx {
            Some(tx) => Transition::remaining(tx.start_ms, tx.duration_ms, now_ms),
            None => 0,
        }
    }

    /// The state with the remaining time of the longer transition.
    pub open spec fn timed(self, now_ms: u32) -> Self {
        let longer = if self.hue_remaining(now_ms) >= self.sat_remaining(now_ms) {
            self.hue_remaining(now_ms)
        } else {
            self.sat_remaining(now_ms)
        };
        ColorState { remaining_time: longer as u16, ..self }
    }

    /// The state at another hue. A report of it becomes pending.
    pub open spec fn at_hue(self, hue: u8) -> Self {
        ColorState {
            current_hue: hue,
            reporting: self.reporting.noted(AttributeId(0x0000)),
            ..self
        }
    }

    /// The state at another saturation. A report of it becomes pending.
    pub open spec fn at_sat(self, sat: u8) -> Self {
        ColorState {
            current_saturation: sat,
            reporting: self.reporting.noted(AttributeId(0x0001)),
            ..self
        }
    }

    /// The state with a hue transition to `target`, or at the target where the
    /// transition takes no time.
    pub open spec fn to_hue(self, now_ms: u32, target: u8, direction: u8, duration_ms: u32) -> Self {
        if duration_ms == 0 {
            ColorState { hue_tx: None, ..self }.at_hue(target).timed(now_ms)
        } else {
            let (direction_up, arc) = Hue::way(self.current_hue, target, direction);
            self.on_hue_way(
                HueTransition {
                    start_hue: self.current_hue,
                    target_hue: target,
                    direction_up,
                    arc: arc as u32,
                    start_ms: now_ms,
                    duration_ms,
                },
            )
        }
    }

    pub open spec fn on_hue_way(self, tx: HueTransition) -> Self {
        ColorState { hue_tx: Some(tx), ..self }.timed(tx.start_ms)
    }

    /// The state with a saturation transition to `target`, or at the target where
    /// the transition takes no time.
    pub open spec fn to_sat(self, now_ms: u32, target: u8, duration_ms: u32) -> Self {
        if duration_ms == 0 {
            ColorState { sat_tx: None, ..self }.at_sat(target).timed(now_ms)
        } else {
            self.on_sat_way(
                SatTransition {
                    start_sat: self.current_saturation,
                    target_sat: target,
                    start_ms: now_ms,
                    duration_ms,
                },
            )
        }
    }

    pub open spec fn on_sat_way(self, tx: SatTransition) -> Self {
        ColorState { sat_tx: Some(tx), ..self }.timed(tx.start_ms)
    }

    pub open spec fn in_hue_mode(self) -> Self {
        ColorState { color_mode: ColorMode::HueSaturation, ..self }
    }

    pub open spec fn at_most_254(v: u8) -> u8 {
        if v > 254 {
            254
        } else {
            v
        }
    }

    /// Milliseconds that a transition time in tenths of a second asks for. The
    /// time 0xffff means as fast as can be.
    pub open spec fn millis(tenths: u16) -> u32 {
        if tenths == 0xffff {
            0
        } else {
            (tenths * 100) as u32
        }
    }

    /// One revolution at `rate` hues a second.
    pub open spec fn revolution(self, now_ms: u32, up: bool, rate: u8) -> HueTransition {
        HueTransition {
            start_hue: self.current_hue,
            target_hue: Hue::moved(self.current_hue, up, 254),
            direction_up: up,
            arc: 254,
            start_ms: now_ms,
            duration_ms: (254_000int / rate as int) as u32,
        }
    }

    /// The way to the end of the saturation range at `rate` steps a second.
    pub open spec fn sat_run(self, now_ms: u32, up: bool, rate: u8) -> SatTransition {
        SatTransition {
            start_sat: self.current_saturation,
            target_sat: if up {
                254
            } else {
                0
            },
            start_ms: now_ms,
            duration_ms: (self.sat_room(up) * 1000 / rate as int) as u32,
        }
    }

    /// Steps to the end of the saturation range.
    pub open spec fn sat_room(self, up: bool) -> int {
        if !up {
            self.current_saturation as int
        } else if self.current_saturation >= 254 {
            0
        } else {
            254 - self.current_saturation
        }
    }

    pub open spec fn sat_stepped(self, up: bool, size: u8) -> u8 {
        if up {
            if self.current_saturation + size > 254 {
                254
            } else {
                (self.current_saturation + size) as u8
            }
        } else if self.current_saturation < size {
            0
        } else {
            (self.current_saturation - size) as u8
        }
    }

    /// How many payload bytes a command needs.
    pub open spec fn needed(id: CommandId) -> nat {
        if id.0 == 0x00 || id.0 == 0x06 {
            4
        } else if id.0 == 0x02 || id.0 == 0x03 || id.0 == 0x05 {
            3
        } else if id.0 == 0x01 || id.0 == 0x04 {
            2
        } else {
            0
        }
    }

    /// The command's mode or direction byte is one that it knows.
    pub open spec fn mode_known(id: CommandId, p: Seq<u8>) -> bool {
        match id.0 {
            0x00 => p[1] <= 3,
            0x01 | 0x04 => p[0] <= 2,
            0x02 | 0x05 => p[0] == 1 || p[0] == 2,
            _ => true,
        }
    }

    /// The state after a well-formed command.
    pub open spec fn commanded(self, id: CommandId, p: Seq<u8>, now_ms: u32) -> Self {
        let s = self.in_hue_mode();
        let up = p[0] == 1;
        match id.0 {
            0x00 => s.to_hue(now_ms, Self::at_most_254(p[0]), p[1], Self::millis(Le::u16_at(p, 2))),
            0x01 => if p[0] == 0 || p[1] == 0 {
                ColorState { hue_tx: None, ..s }.timed(now_ms)
            } else {
                s.on_hue_way(s.revolution(now_ms, up, p[1]))
            },
            0x02 => s.to_hue(
                now_ms,
                Hue::moved(s.current_hue, up, p[1] as int),
                if up {
                    2
                } else {
                    3
                },
                (p[2] * 100) as u32,
            ),
            0x03 => s.to_sat(now_ms, Self::at_most_254(p[0]), Self::millis(Le::u16_at(p, 1))),
            0x04 => if p[0] == 0 || p[1] == 0 {
                ColorState { sat_tx: None, ..s }.timed(now_ms)
            } else if s.sat_room(up) == 0 {
                s
            } else {
                s.on_sat_way(s.sat_run(now_ms, up, p[1]))
            },
            0x05 => s.to_sat(now_ms, s.sat_stepped(up, p[1]), (p[2] * 100) as u32),
            _ => s.to_hue(now_ms, Self::at_most_254(p[0]), 0, Self::millis(Le::u16_at(p, 2))).to_sat(
                now_ms,
                Self::at_most_254(p[1]),
                Self::millis(Le::u16_at(p, 2)),
            ),
        }
    }

    /// The state and result after a command.
    pub open spec fn handled(self, id: CommandId, p: Seq<u8>, now_ms: u32) -> (
        Self,
        Result<CommandResult, ZclError>,
    ) {
        if id.0 > 0x06 {
            (self, Ok(CommandResult::DefaultResponse(Status::UnsupCommand)))
        } else if p.len() < Self::needed(id) {
            (self, Err(ZclError::InsufficientBytes))
        } else if !Self::mode_known(id, p) {
            (self, Ok(CommandResult::DefaultResponse(Status::InvalidField)))
        } else {
            (
                self.commanded(id, p, now_ms),
                Ok(CommandResult::DefaultResponse(Status::Success)),
            )
        }
    }

    /// The state with the hue advanced to `now_ms`.
    pub open spec fn hue_advanced(self, now_ms: u32) -> Self {
        match self.hue_tx {
            None => self,
            Some(tx) => {
                let s = if tx.next_ms(now_ms) is None {
                    ColorState { hue_tx: None, ..self }
                } else {
                    self
                };
                if tx.at(now_ms) == self.current_hue {
                    s
                } else {
                    s.at_hue(tx.at(now_ms))
                }
            },
        }
    }

    /// The state with the saturation advanced to `now_ms`.
    pub open spec fn sat_advanced(self, now_ms: u32) -> Self {
        match self.sat_tx {
            None => self,
            Some(tx) => {
                let s = if tx.next_ms(now_ms) is None {
                    ColorState { sat_tx: None, ..self }
                } else {
                    self
                };
                if tx.at(now_ms) == self.current_saturation {
                    s
                } else {
                    s.at_sat(tx.at(now_ms))
                }
            },
        }
    }

    /// The state advanced to `now_ms`.
    pub open spec fn advanced(self, now_ms: u32) -> Self {
        self.hue_advanced(now_ms).sat_advanced(now_ms).timed(now_ms)
    }

    /// When hue or saturation next changes.
    pub open spec fn next_change(self, now_ms: u32) -> Option<u32> {
        let hue = match self.hue_tx {
            Some(tx) => tx.next_ms(now_ms),
            None => None,
        };
        let sat = match self.sat_tx {
            Some(tx) => tx.next_ms(now_ms),
            None => None,
        };
        tighter(hue, sat, now_ms)
    }

    /// The state after restoring snapshot `data`. Short data changes nothing, and
    /// an unknown colour mode leaves the mode as it is.
    pub open spec fn restored(self, data: Seq<u8>) -> Self {
        if data.len() < 4 {
            self
        } else {
            ColorState {
                current_hue: data[0],
                current_saturation: data[1],
                color_mode: match ColorMode::of(data[2]) {
                    Some(mode) => mode,
                    None => self.color_mode,
                },
                options: data[3],
                ..self
            }
        }
    }

    pub open spec fn snapshot(self) -> Seq<u8> {
        seq![self.current_hue, self.current_saturation, self.color_mode.raw(), self.options]
    }
}

impl ColorControlServer {
    pub fn new(hue: u8, saturation: u8) -> (server: Self)
        ensures
            server.wf(),
            server@ == ColorState::initial(hue, saturation),
    {
        ColorControlServer {
            current_hue: hue,
            current_saturation: saturation,
            remaining_time: 0,
            color_mode: ColorMode::HueSaturation,
            options: 0,
            hue_tx: None,
            sat_tx: None,
            reporting: LatestReportingTable::new(),
        }
    }

    /// Returns `true` while any axis is actively transitioning.
    pub fn is_moving(&self) -> (yes: bool)
        ensures
            yes == (self@.hue_tx is Some || self@.sat_tx is Some),
    {
        self.hue_tx.is_some() || self.sat_tx.is_some()
    }

    fn recompute_remaining_time(&mut self, now_ms: u32)
        requires
            old(self).wf(),
        ensures
            final(self).wf(),
            final(self)@ == old(self)@.timed(now_ms),
    {
        let hue: u32 = match self.hue_tx {
            Some(tx) => remaining_tenths(tx.start_ms, tx.duration_ms, now_ms),
            None => 0,
        };
        let sat: u32 = match self.sat_tx {
            Some(tx) => remaining_tenths(tx.start_ms, tx.duration_ms, now_ms),
            None => 0,
        };
        self.remaining_time = if hue >= sat {
            hue as u16
        } else {
            sat as u16
        };
    }

    fn start_hue_transition(&mut self, now_ms: u32, target_hue: u8, direction: u8, duration_ms: u32)
        requires
            old(self).wf(),
            duration_ms <= MAX_DURATION_MS,
        ensures
            final(self).wf(),
            final(self)@ == old(self)@.to_hue(now_ms, target_hue, direction, duration_ms),
    {
        if duration_ms == 0 {
            self.current_hue = target_hue;
            self.hue_tx = None;
            self.reporting.note_value_update(AttributeId::new(0x0000));
            self.recompute_remaining_time(now_ms);
            return;
        }
        let (direction_up, arc): (bool, u32) = hue_direction(
            self.current_hue,
            target_hue,
            direction,
        );
        self.hue_tx = Some(
            HueTransition {
                start_hue: self.current_hue,
                target_hue,
                direction_up,
                arc,
                start_ms: now_ms,
                duration_ms,
            },
        );
        self.recompute_remaining_time(now_ms);
    }

    fn start_sat_transition(&mut self, now_ms: u32, target_sat: u8, duration_ms: u32)
        requires
            old(self).wf(),
            duration_ms <= MAX_DURATION_MS,
        ensures
            final(self).wf(),
            final(self)@ == old(self)@.to_sat(now_ms, target_sat, duration_ms),
    {
        if duration_ms == 0 {
            self.current_saturation = target_sat;
            self.sat_tx = None;
            self.reporting.note_value_update(AttributeId::new(0x0001));
            self.recompute_remaining_time(now_ms);
            return;
        }
        self.sat_tx = Some(
            SatTransition {
                start_sat: self.current_saturation,
                target_sat,
                start_ms: now_ms,
                duration_ms,
            },
        );
        self.recompute_remaining_time(now_ms);
    }

    /// Move the hue round at `rate` hues a second: one full revolution.
    fn run_hue(&mut self, now_ms: u32, up: bool, rate: u8)
        requires
            old(self).wf(),
            rate > 0,
        ensures
            final(self).wf(),
            final(self)@ == old(self)@.on_hue_way(old(self)@.revolution(now_ms, up, rate)),
    {
        let start: u8 = self.current_hue;
        let duration_ms: u32 = 254_000 / rate as u32;
        let target_hue: u8 = if up {
            ((start as u32 + 254) % 255) as u8
        } else {
            ((start as u32 + 1) % 255) as u8
        };
        self.hue_tx = Some(
            HueTransition {
                start_hue: start,
                target_hue,
                direction_up: up,
                arc: 254,
                start_ms: now_ms,
                duration_ms,
            },
        );
        assert(duration_ms <= 254_000) by (nonlinear_arith)
            requires
                duration_ms == 254_000u32 / rate as u32,
                rate > 0,
        ;
        self.recompute_remaining_time(now_ms);
    }

    /// Move the saturation to an end of its range at `rate` steps a second.
    fn run_sat(&mut self, now_ms: u32, up: bool, rate: u8)
        requires
            old(self).wf(),
            rate > 0,
        ensures
            final(self).wf(),
            final(self)@ == if old(self)@.sat_room(up) == 0 {
                old(self)@
            } else {
                old(self)@.on_sat_way(old(self)@.sat_run(now_ms, up, rate))
            },
    {
        let start: u8 = self.current_saturation;
        let target_sat: u8 = if up {
            254
        } else {
            0
        };
        let steps: u32 = if !up {
            start as u32
        } else if start >= 254 {
            0
        } else {
            254 - start as u32
        };
        if steps == 0 {
            return;
        }
        let duration_ms: u32 = steps * 1000 / rate as u32;
        assert(duration_ms <= 255_000) by (nonlinear_arith)
            requires
                duration_ms == (steps * 1000) as u32 / rate as u32,
                rate > 0,
                steps <= 255,
        ;
        self.sat_tx = Some(SatTransition { start_sat: start, target_sat, start_ms: now_ms, duration_ms });
        self.recompute_remaining_time(now_ms);
    }

    /// Milliseconds that a transition time in tenths of a second asks for.
    fn duration_of(tenths: u16) -> (ms: u32)
        ensures
            ms == ColorState::millis(tenths),
            ms <= MAX_DURATION_MS,
    {
        if tenths == 0xFFFF {
            0
        } else {
            tenths as u32 * 100
        }
    }

    fn capped(v: u8) -> (w: u8)
        ensures
            w == ColorState::at_most_254(v),
    {
        if v > 254 {
            254
        } else {
            v
        }
    }

    fn advance_hue(&mut self, now_ms: u32) -> (r: (bool, Option<u32>))
        requires
            old(self).wf(),
        ensures
            final(self).wf(),
            final(self)@ == old(self)@.hue_advanced(now_ms),
            r.0 == (final(self)@.current_hue != old(self)@.current_hue),
            r.1 == match old(self)@.hue_tx {
                Some(tx) => tx.next_ms(now_ms),
                None => None,
            },
    {
        match self.hue_tx {
            None => (false, None),
            Some(tx) => {
                let elapsed: u32 = now_ms.wrapping_sub(tx.start_ms);
                let mut next: Option<u32> = None;
                let hue: u8 = if elapsed >= tx.duration_ms {
                    self.hue_tx = None;
                    tx.target_hue
                } else {
                    next =
                    Some(
                        tx.start_ms.wrapping_add(next_elapsed(tx.arc, elapsed, tx.duration_ms)),
                    );
                    interpolate_hue(
                        tx.start_hue,
                        tx.direction_up,
                        tx.arc,
                        elapsed,
                        tx.duration_ms,
                    )
                };
                let changed: bool = hue != self.current_hue;
                if changed {
                    self.current_hue = hue;
                    self.reporting.note_value_update(AttributeId::new(0x0000));
                }
                (changed, next)
            },
        }
    }

    fn advance_sat(&mut self, now_ms: u32) -> (r: (bool, Option<u32>))
        requires
            old(self).wf(),
        ensures
            final(self).wf(),
            final(self)@ == old(self)@.sat_advanced(now_ms),
            r.0 == (final(self)@.current_saturation != old(self)@.current_saturation),
            r.1 == match old(self)@.sat_tx {
                Some(tx) => tx.next_ms(now_ms),
                None => None,
            },
    {
        match self.sat_tx {
            None => (false, None),
            Some(tx) => {
                let elapsed: u32 = now_ms.wrapping_sub(tx.start_ms);
                let mut next: Option<u32> = None;
                let sat: u8 = if elapsed >= tx.duration_ms {
                    self.sat_tx = None;
                    tx.target_sat
                } else {
                    let span: u32 = distance(tx.start_sat, tx.target_sat);
                    next =
                    Some(tx.start_ms.wrapping_add(next_elapsed(span, elapsed, tx.duration_ms)));
                    interpolate_linear(tx.start_sat, tx.target_sat, elapsed, tx.duration_ms)
                };
                let changed: bool = sat != self.current_saturation;
                if changed {
                    self.current_saturation = sat;
                    self.reporting.note_value_update(AttributeId::new(0x0001));
                }
                (changed, next)
            },
        }
    }

    /// MoveToHue: hue, direction, transition time (u16, 1/10 s)
    fn move_to_hue(&mut self, payload: &[u8], now_ms: u32) -> (r: Result<CommandResult, ZclError>)
        requires
            old(self).wf(),
        ensures
            final(self).wf(),
            (final(self)@, r) == old(self)@.handled(CommandId(0x00), payload@, now_ms),
    {
        if payload.len() < 4 {
            return Err(ZclError::InsufficientBytes);
        }
        let direction: u8 = payload[1];
        if direction > 0x03 {
            return Ok(CommandResult::DefaultResponse(Status::InvalidField));
        }
        let duration_ms: u32 = Self::duration_of(read_u16(payload, 2));
        self.color_mode = ColorMode::HueSaturation;
        self.start_hue_transition(
            now_ms,
            Self::capped(payload[0]),
            direction,
            duration_ms,
        );
        Ok(CommandResult::DefaultResponse(Status::Success))
    }

    /// MoveHue: mode, rate (hues/s)
    fn move_hue(&mut self, payload: &[u8], now_ms: u32) -> (r: Result<CommandResult, ZclError>)
        requires
            old(self).wf(),
        ensures
            final(self).wf(),
            (final(self)@, r) == old(self)@.handled(CommandId(0x01), payload@, now_ms),
    {
        if payload.len() < 2 {
            return Err(ZclError::InsufficientBytes);
        }
        let mode: u8 = payload[0];
        let rate: u8 = payload[1];
        if mode > 0x02 {
            return Ok(CommandResult::DefaultResponse(Status::InvalidField));
        }
        self.color_mode = ColorMode::HueSaturation;
        if mode == 0x00 || rate == 0 {
            self.hue_tx = None;
            self.recompute_remaining_time(now_ms);
        } else {
            self.run_hue(now_ms, mode == 0x01, rate);
        }
        Ok(CommandResult::DefaultResponse(Status::Success))
    }

    /// StepHue: mode, step size, transition time (u8, 1/10 s)
    fn step_hue(&mut self, payload: &[u8], now_ms: u32) -> (r: Result<CommandResult, ZclError>)
        requires
            old(self).wf(),
        ensures
            final(self).wf(),
            (final(self)@, r) == old(self)@.handled(CommandId(0x02), payload@, now_ms),
    {
        if payload.len() < 3 {
            return Err(ZclError::InsufficientBytes);
        }
        let mode: u8 = payload[0];
        let step_size: u8 = payload[1];
        if mode != 0x01 && mode != 0x02 {
            return Ok(CommandResult::DefaultResponse(Status::InvalidField));
        }
        let duration_ms: u32 = payload[2] as u32 * 100;
        self.color_mode = ColorMode::HueSaturation;
        let up: bool = mode == 0x01;
        let target: u8 = step_from(self.current_hue, up, step_size);
        let direction: u8 = if up {
            0x02
        } else {
            0x03
        };
        self.start_hue_transition(now_ms, target, direction, duration_ms);
        Ok(CommandResult::DefaultResponse(Status::Success))
    }

    /// MoveToSaturation: saturation, transition time (u16, 1/10 s)
    fn move_to_saturation(&mut self, payload: &[u8], now_ms: u32) -> (r: Result<CommandResult, ZclError>)
        requires
            old(self).wf(),
        ensures
            final(self).wf(),
            (final(self)@, r) == old(self)@.handled(CommandId(0x03), payload@, now_ms),
    {
        if payload.len() < 3 {
            return Err(ZclError::InsufficientBytes);
        }
        let duration_ms: u32 = Self::duration_of(read_u16(payload, 1));
        self.color_mode = ColorMode::HueSaturation;
        self.start_sat_transition(now_ms, Self::capped(payload[0]), duration_ms);
        Ok(CommandResult::DefaultResponse(Status::Success))
    }

    /// MoveSaturation: mode, rate (steps/s)
    fn move_saturation(&mut self, payload: &[u8], now_ms: u32) -> (r: Result<CommandResult, ZclError>)
        requires
            old(self).wf(),
        ensures
            final(self).wf(),
            (final(self)@, r) == old(self)@.handled(CommandId(0x04), payload@, now_ms),
    {
        if payload.len() < 2 {
            return Err(ZclError::InsufficientBytes);
        }
        let mode: u8 = payload[0];
        let rate: u8 = payload[1];
        if mode > 0x02 {
            return Ok(CommandResult::DefaultResponse(Status::InvalidField));
        }
        self.color_mode = ColorMode::HueSaturation;
        if mode == 0x00 || rate == 0 {
            self.sat_tx = None;
            self.recompute_remaining_time(now_ms);
        } else {
            self.run_sat(now_ms, mode == 0x01, rate);
        }
        Ok(CommandResult::DefaultResponse(Status::Success))
    }

    /// StepSaturation: mode, step size, transition time (u8, 1/10 s)
    fn step_saturation(&mut self, payload: &[u8], now_ms: u32) -> (r: Result<CommandResult, ZclError>)
        requires
            old(self).wf(),
        ensures
            final(self).wf(),
            (final(self)@, r) == old(self)@.handled(CommandId(0x05), payload@, now_ms),
    {
        if payload.len() < 3 {
            return Err(ZclError::InsufficientBytes);
        }
        let mode: u8 = payload[0];
        let step_size: u8 = payload[1];
        if mode != 0x01 && mode != 0x02 {
            return Ok(CommandResult::DefaultResponse(Status::InvalidField));
        }
        let duration_ms: u32 = payload[2] as u32 * 100;
        self.color_mode = ColorMode::HueSaturation;
        let target: u8 = if mode == 0x01 {
            Self::capped(self.current_saturation.saturating_add(step_size))
        } else {
            self.current_saturation.saturating_sub(step_size)
        };
        self.start_sat_transition(now_ms, target, duration_ms);
        Ok(CommandResult::DefaultResponse(Status::Success))
    }

    /// MoveToHueAndSaturation: hue, saturation, transition time (u16, 1/10 s)
    fn move_to_hue_and_saturation(&mut self, payload: &[u8], now_ms: u32) -> (r: Result<CommandResult, ZclError>)
        requires
            old(self).wf(),
        ensures
            final(self).wf(),
            (final(self)@, r) == old(self)@.handled(CommandId(0x06), payload@, now_ms),
    {
        if payload.len() < 4 {
            return Err(ZclError::InsufficientBytes);
        }
        let duration_ms: u32 = Self::duration_of(read_u16(payload, 2));
        self.color_mode = ColorMode::HueSaturation;
        self.start_hue_transition(now_ms, Self::capped(payload[0]), 0x00, duration_ms);
        self.start_sat_transition(now_ms, Self::capped(payload[1]), duration_ms);
        Ok(CommandResult::DefaultResponse(Status::Success))
    }
}

impl Default for ColorControlServer {
    fn default() -> (server: Self)
        ensures
            server.wf(),
            server@ == ColorState::initial(0, 0),
    {
        Self::new(0, 0)
    }
}

impl ClusterServer for ColorControlServer {
    const CLUSTER_ID: u16 = 0x0300;

    open spec fn wf(&self) -> bool {
        &&& self.reporting.wf()
        &&& self.hue_tx matches Some(tx) ==> tx.wf()
        &&& self.sat_tx matches Some(tx) ==> tx.wf()
    }

    open spec fn attr(&self, id: AttributeId, cap: nat) -> ReadSpec {
        match self@.value(id) {
            Some(v) => v.read(cap),
            None => Err(AttrError::UnsupportedAttribute),
        }
    }

    open spec fn write_check(&self, id: AttributeId, type_id: TypeId, data: Seq<u8>) -> Result<
        (),
        AttrError,
    > {
        if self@.value(id) is None {
            Err(AttrError::UnsupportedAttribute)
        } else if id.0 != 0x000F {
            Err(AttrError::ReadOnly)
        } else if type_id != TypeId::Bitmap8 {
            Err(AttrError::InvalidDataType)
        } else if data.len() != 1 {
            Err(AttrError::InvalidValue)
        } else {
            Ok(())
        }
    }

    open spec fn wrote(
        pre: Self,
        id: AttributeId,
        type_id: TypeId,
        data: Seq<u8>,
        post: Self,
        r: Result<(), AttrError>,
    ) -> bool {
        &&& r == pre.write_check(id, type_id, data)
        &&& post@ == if r is Ok {
            ColorState { options: data[0], ..pre@ }
        } else {
            pre@
        }
    }

    open spec fn handled(
        pre: Self,
        id: CommandId,
        payload: Seq<u8>,
        ctx: DispatchContext,
        before: Seq<u8>,
        post: Self,
        body: Seq<u8>,
        r: Result<CommandResult, ZclError>,
    ) -> bool {
        body == before && (post@, r) == pre@.handled(id, payload, ctx.now_ms)
    }

    open spec fn ticked(pre: Self, now_ms: u32, post: Self, r: ClusterTick) -> bool {
        &&& post@ == pre@.advanced(now_ms)
        &&& r.changed == (post@.current_hue != pre@.current_hue || post@.current_saturation
            != pre@.current_saturation)
        &&& r.next_tick_ms == pre@.next_change(now_ms)
    }

    open spec fn snapshot_bytes(&self, cap: nat) -> Seq<u8> {
        if cap < 4 {
            Seq::empty()
        } else {
            self@.snapshot()
        }
    }

    open spec fn restored(pre: Self, data: Seq<u8>, post: Self) -> bool {
        post@ == pre@.restored(data)
    }

    open spec fn reporting_set(
        pre: Self,
        record: RecordFields,
        ctx: DispatchContext,
        post: Self,
        r: Status,
    ) -> bool {
        let (table, status) = LatestReportingTable::<2, 1>::configured_by(
            pre@.reporting,
            record,
            ctx,
            Self::attribute_infos(),
        );
        r == status && post@ == (ColorState { reporting: table, ..pre@ })
    }

    open spec fn collected(
        pre: Self,
        now_ms: u32,
        out: Seq<u8>,
        cap: nat,
        post: Self,
        sent: Seq<u8>,
        r: Result<Option<ClusterReportReady>, ZclError>,
    ) -> bool {
        let (table, bytes, result) = pre@.reporting.collected(
            now_ms,
            |id: AttributeId| pre.attr(id, 1),
            out,
            cap,
        );
        sent == bytes && r == result && post@ == (ColorState { reporting: table, ..pre@ })
    }

    open spec fn delivered(
        pre: Self,
        token: ReportToken,
        result: ReportDeliveryResult,
        now_ms: u32,
        post: Self,
    ) -> bool {
        post@ == (ColorState {
            reporting: pre@.reporting.completed(token, result, now_ms),
            ..pre@
        })
    }

    open spec fn diagnosed(pre: Self, post: Self, r: ReportingDiagnostics) -> bool {
        r == pre@.reporting.diagnostics && post@ == (ColorState {
            reporting: pre@.reporting.drained(),
            ..pre@
        })
    }

    open spec fn reporting_answer(&self, attr_id: AttributeId, direction: u8, cap: nat) -> Seq<
        u8,
    > {
        self@.reporting.answer(attr_id, direction, cap)
    }

    open spec fn attribute_infos() -> Seq<AttrInfo> {
        seq![
            AttrInfo::rp(0x0000, TypeId::Uint8),
            AttrInfo::rp(0x0001, TypeId::Uint8),
            AttrInfo::ro(0x0002, TypeId::Uint16),
            AttrInfo::ro(0x0008, TypeId::Enum8),
            AttrInfo::rw(0x000F, TypeId::Bitmap8),
            AttrInfo::ro(0x400A, TypeId::Bitmap16),
            AttrInfo::ro(0xFFFD, TypeId::Uint16),
        ]
    }

    fn read_attribute(&self, id: AttributeId, buf: &mut [u8]) -> (r: Result<
        (TypeId, usize),
        AttrError,
    >) {
        match id.0 {
            0x0000 => encode_attr(AttrValue::Uint8(self.current_hue), buf),
            0x0001 => encode_attr(AttrValue::Uint8(self.current_saturation), buf),
            0x0002 => encode_attr(AttrValue::Uint16(self.remaining_time), buf),
            0x0008 => encode_attr(AttrValue::Enum8(self.color_mode.into_raw()), buf),
            0x000F => encode_attr(AttrValue::Bitmap8(self.options), buf),
            0x400A => encode_attr(AttrValue::Bitmap16(0x0001), buf),
            0xFFFD => encode_attr(AttrValue::Uint16(3), buf),
            _ => Err(AttrError::UnsupportedAttribute),
        }
    }

    fn check_write_attribute(&self, id: AttributeId, type_id: TypeId, data: &[u8]) -> (r: Result<
        (),
        AttrError,
    >) {
        match id.0 {
            0x000F => {
                if type_id != TypeId::Bitmap8 {
                    return Err(AttrError::InvalidDataType);
                }
                if data.len() != 1 {
                    return Err(AttrError::InvalidValue);
                }
                Ok(())
            },
            0x0000 | 0x0001 | 0x0002 | 0x0008 | 0x400A | 0xFFFD => Err(AttrError::ReadOnly),
            _ => Err(AttrError::UnsupportedAttribute),
        }
    }

    fn write_attribute(&mut self, id: AttributeId, type_id: TypeId, data: &[u8]) -> (r: Result<
        (),
        AttrError,
    >) {
        match self.check_write_attribute(id, type_id, data) {
            Ok(()) => {
                self.options = data[0];
                Ok(())
            },
            Err(e) => Err(e),
        }
    }

    fn handle_command(
        &mut self,
        id: CommandId,
        payload: &[u8],
        ctx: DispatchContext,
        buf: &mut [u8],
    ) -> (r: Result<CommandResult, ZclError>) {
        match id.0 {
            0x00 => self.move_to_hue(payload, ctx.now_ms),
            0x01 => self.move_hue(payload, ctx.now_ms),
            0x02 => self.step_hue(payload, ctx.now_ms),
            0x03 => self.move_to_saturation(payload, ctx.now_ms),
            0x04 => self.move_saturation(payload, ctx.now_ms),
            0x05 => self.step_saturation(payload, ctx.now_ms),
            0x06 => self.move_to_hue_and_saturation(payload, ctx.now_ms),
            _ => Ok(CommandResult::DefaultResponse(Status::UnsupCommand)),
        }
    }

    fn tick(&mut self, now_ms: u32) -> (r: ClusterTick) {
        let (hue_changed, hue_next): (bool, Option<u32>) = self.advance_hue(now_ms);
        let (sat_changed, sat_next): (bool, Option<u32>) = self.advance_sat(now_ms);
        self.recompute_remaining_time(now_ms);
        ClusterTick {
            changed: hue_changed || sat_changed,
            next_tick_ms: tighter_deadline(hue_next, sat_next, now_ms),
        }
    }

    fn take_dispatch_effects(&mut self) -> (r: DispatchEffects) {
        DispatchEffects::none()
    }

    fn snapshot(&self, buf: &mut [u8]) -> (n: usize) {
        let ghost before = buf@;
        if buf.len() < 4 {
            assert(buf@ =~= Seq::<u8>::empty() + buf@.skip(0));
            return 0;
        }
        buf[0] = self.current_hue;
        buf[1] = self.current_saturation;
        buf[2] = self.color_mode.into_raw();
        buf[3] = self.options;
        assert(buf@ =~= self@.snapshot() + before.skip(4));
        4
    }

    fn restore_snapshot(&mut self, buf: &[u8]) {
        if buf.len() < 4 {
            return;
        }
        self.current_hue = buf[0];
        self.current_saturation = buf[1];
        if let Ok(mode) = ColorMode::from_raw(buf[2]) {
            self.color_mode = mode;
        }
        self.options = buf[3];
    }

    fn configure_reporting(
        &mut self,
        record: ConfigureReportingRecord<'_>,
        ctx: DispatchContext,
    ) -> (r: Status) {
        self.reporting.configure(record, ctx, &Self::attribute_list())
    }

    fn collect_reports(&mut self, now_ms: u32, out: &mut ReportPayloadWriter<'_>) -> (r: Result<
        Option<ClusterReportReady>,
        ZclError,
    >) {
        match self.reporting.next_due(now_ms) {
            None => Ok(None),
            Some(candidate) => {
                let mut tmp: [u8; 1] = [0];
                match self.read_attribute(candidate.attr_id, &mut tmp) {
                    Err(_) => Ok(None),
                    Ok((type_id, n)) => {
                        assert(tmp@.take(n as int) =~= self.attr(candidate.attr_id, 1)->Ok_0.1);
                        self.reporting.emit(candidate, type_id, &tmp[0..n], out)
                    },
                }
            },
        }
    }

    fn report_delivery_result(
        &mut self,
        token: ReportToken,
        result: ReportDeliveryResult,
        now_ms: u32,
    ) {
        self.reporting.complete(token, result, now_ms);
    }

    fn take_reporting_diagnostics(&mut self) -> (r: ReportingDiagnostics) {
        self.reporting.take_diagnostics()
    }

    fn read_reporting_config(&self, attr_id: AttributeId, direction: u8, buf: &mut [u8]) -> (n:
        usize) {
        self.reporting.write_read_response_record(attr_id, direction, buf)
    }

    fn attribute_list() -> (list: Vec<AttrInfo>) {
        vec![
            AttrInfo::read_report(0x0000, TypeId::Uint8),
            AttrInfo::read_report(0x0001, TypeId::Uint8),
            AttrInfo::read_only(0x0002, TypeId::Uint16),
            AttrInfo::read_only(0x0008, TypeId::Enum8),
            AttrInfo::read_write(0x000F, TypeId::Bitmap8),
            AttrInfo::read_only(0x400A, TypeId::Bitmap16),
            AttrInfo::read_only(0xFFFD, TypeId::Uint16),
        ]
    }

    fn commands_received() -> (list: Vec<CommandId>) {
        Vec::new()
    }

    fn commands_generated() -> (list: Vec<CommandId>) {
        Vec::new()
    }
}

/// What a snapshot holds comes back when it is restored, whatever the state then is.
pub proof fn law_snapshot_restores(saved: ColorState, other: ColorState)
    ensures
        other.restored(saved.snapshot()) == (ColorState {
            current_hue: saved.current_hue,
            current_saturation: saved.current_saturation,
            color_mode: saved.color_mode,
            options: saved.options,
            ..other
        }),
{
    ColorMode::law_raw_round_trip(saved.color_mode, 0);
}

/// A command to move to a hue has arrived there once its time has passed, and the
/// hue then rests.
pub proof fn law_move_to_hue_arrives(s: ColorState, p: Seq<u8>, now_ms: u32, later_ms: u32)
    requires
        p.len() >= 4,
        p[1] <= 3,
        later_ms.wrapping_sub(now_ms) >= ColorState::millis(Le::u16_at(p, 2)),
    ensures
        ({
            let end = s.handled(CommandId(0x00), p, now_ms).0.advanced(later_ms);
            end.current_hue == ColorState::at_most_254(p[0]) && end.hue_tx is None
        }),
{
}

/// A command to move to a saturation has arrived there once its time has passed,
/// and the saturation then rests.
pub proof fn law_move_to_saturation_arrives(s: ColorState, p: Seq<u8>, now_ms: u32, later_ms: u32)
    requires
        p.len() >= 3,
        later_ms.wrapping_sub(now_ms) >= ColorState::millis(Le::u16_at(p, 1)),
    ensures
        ({
            let end = s.handled(CommandId(0x03), p, now_ms).0.advanced(later_ms);
            end.current_saturation == ColorState::at_most_254(p[0]) && end.sat_tx is None
        }),
{
}

/// Advancing twice to one time is advancing once.
pub proof fn law_advancing_is_idempotent(s: ColorState, now_ms: u32)
    ensures
        s.advanced(now_ms).advanced(now_ms) == s.advanced(now_ms),
{
}

/// The deadline that a tick returns is in the future, and there is one exactly
/// while something moves.
pub proof fn law_deadline_is_ahead(server: ColorControlServer, now_ms: u32)
    requires
        server.wf(),
    ensures
        server@.next_change(now_ms) matches Some(at) ==> 0 < at.wrapping_sub(now_ms)
            <= MAX_DURATION_MS + 1,
        server@.next_change(now_ms) is Some <==> (server@.advanced(now_ms).hue_tx is Some
            || server@.advanced(now_ms).sat_tx is Some),
{
    if server.hue_tx is Some && server.hue_tx->0.next_ms(now_ms) is Some {
        let tx = server.hue_tx->0;
        lemma_next_is_ahead(tx.arc as int, tx.start_ms, tx.duration_ms, now_ms);
    }
    if server.sat_tx is Some && server.sat_tx->0.next_ms(now_ms) is Some {
        let tx = server.sat_tx->0;
        lemma_next_is_ahead(
            Transition::distance(tx.start_sat, tx.target_sat),
            tx.start_ms,
            tx.duration_ms,
            now_ms,
        );
    }
}

proof fn lemma_next_is_ahead(span: int, start_ms: u32, duration_ms: u32, now_ms: u32)
    requires
        0 <= span <= 255,
        duration_ms <= MAX_DURATION_MS,
        now_ms.wrapping_sub(start_ms) < duration_ms,
    ensures
        ({
            let next = Transition::next(
                span,
                now_ms.wrapping_sub(start_ms) as int,
                duration_ms as int,
            );
            0 < start_ms.wrapping_add(next).wrapping_sub(now_ms) <= MAX_DURATION_MS + 1
        }),
{
    if span > 0 {
        crate::lighting::transition::law_wake_is_ahead(
            span,
            now_ms.wrapping_sub(start_ms) as int,
            duration_ms as int,
        );
    }
}

/// A value that was written is read back, and no other attribute changes.
pub proof fn law_written_value_is_read(
    pre: ColorControlServer,
    id: AttributeId,
    type_id: TypeId,
    data: Seq<u8>,
    post: ColorControlServer,
    other: AttributeId,
    cap: nat,
)
    requires
        ColorControlServer::wrote(pre, id, type_id, data, post, Ok(())),
    ensures
        post.attr(id, cap) == AttrValue::Bitmap8(data[0]).read(cap),
        other != id ==> post.attr(other, cap) == pre.attr(other, cap),
{
}

} // verus!
