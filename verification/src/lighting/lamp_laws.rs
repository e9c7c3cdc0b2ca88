//! What level and colour servers show, take and keep, and when they next change.

use vstd::prelude::*;

use crate::cluster_server::ClusterServer;
use crate::context::ClusterTick;
use crate::context::CommandResult;
use crate::context::DispatchContext;
use crate::lighting::color_control::ColorControlServer;
use crate::lighting::color_control::ColorState;
use crate::lighting::color_control::HueTransition;
use crate::lighting::color_control::SatTransition;
use crate::lighting::level_control::LevelControlServer;
use crate::lighting::level_control::LevelState;
use crate::lighting::transition::Transition;
use crate::types::enums::ColorMode;
use crate::types::error::AttrError;
use crate::types::error::ZclError;
use crate::types::ids::AttributeId;
use crate::types::ids::CommandId;
use crate::types::ids::TypeId;

verus! {

// ---------------------------------------------------------------------------
// Level
// ---------------------------------------------------------------------------

/// What each attribute of a level server reads as.
pub proof fn law_level_attributes(s: LevelControlServer, cap: nat)
    requires
        cap >= 2,
    ensures
        s.current_level is None ==> crate::types::value_laws::reads(
            s.attr(AttributeId(0x0000), cap),
            0x20,
            1,
            0xff,
        ),
        s.current_level is Some && s.current_level->0 != 0xff ==> crate::types::value_laws::reads(
            s.attr(AttributeId(0x0000), cap),
            0x20,
            1,
            s.current_level->0 as int,
        ),
        s.cached_remaining_time != 0xffff ==> crate::types::value_laws::reads(
            s.attr(AttributeId(0x0001), cap),
            0x21,
            2,
            s.cached_remaining_time as int,
        ),
        s.min_level != 0xff ==> crate::types::value_laws::reads(
            s.attr(AttributeId(0x0002), cap),
            0x20,
            1,
            s.min_level as int,
        ),
        s.max_level != 0xff ==> crate::types::value_laws::reads(
            s.attr(AttributeId(0x0003), cap),
            0x20,
            1,
            s.max_level as int,
        ),
        crate::types::value_laws::reads(
            s.attr(AttributeId(0x000F), cap),
            0x18,
            1,
            s.options as int,
        ),
        crate::types::value_laws::reads(s.attr(AttributeId(0xFFFD), cap), 0x21, 2, 3),
        forall|id: u16|
            id > 0x0003 && id != 0x000F && id != 0xFFFD ==> crate::types::value_laws::missing(
                #[trigger] s.attr(AttributeId(id), cap),
            ),
{
}

/// What discovery lists of a level server.
pub proof fn law_level_discovered()
    ensures
        ({
            let list = LevelControlServer::attribute_infos();
            &&& list.len() == 6
            &&& crate::types::value_laws::entry(list[0], 0x0000, 0x20, false, true)
            &&& crate::types::value_laws::entry(list[1], 0x0001, 0x21, false, false)
            &&& crate::types::value_laws::entry(list[2], 0x0002, 0x20, false, false)
            &&& crate::types::value_laws::entry(list[3], 0x0003, 0x20, false, false)
            &&& crate::types::value_laws::entry(list[4], 0x000F, 0x18, true, false)
            &&& crate::types::value_laws::entry(list[5], 0xFFFD, 0x21, false, false)
        }),
        LevelControlServer::received_ids().len() == 8,
        forall|i: int| 0 <= i < 8 ==> (#[trigger] LevelControlServer::received_ids()[i]).0 == i,
{
}

/// Of a level server only the options can be written, as a bitmap.
pub proof fn law_level_options_can_be_written(
    pre: LevelControlServer,
    id: u16,
    t: TypeId,
    d: Seq<u8>,
    post: LevelControlServer,
    r: Result<(), AttrError>,
)
    requires
        LevelControlServer::wrote(pre, AttributeId(id), t, d, post, r),
    ensures
        r is Ok <==> id == 0x000F && t.code() == 0x18 && d.len() >= 1,
        post@ == if r is Ok {
            LevelState { options: d[0], ..pre@ }
        } else {
            pre@
        },
        id <= 0x0003 || id == 0xFFFD ==> r == Err::<(), AttrError>(AttrError::ReadOnly),
        id > 0x0003 && id != 0x000F && id != 0xFFFD ==> r == Err::<(), AttrError>(
            AttrError::UnsupportedAttribute,
        ),
        id == 0x000F && t.code() != 0x18 ==> r == Err::<(), AttrError>(AttrError::InvalidDataType),
        id == 0x000F && t.code() == 0x18 && d.len() == 0 ==> r == Err::<(), AttrError>(
            AttrError::InvalidValue,
        ),
        pre.write_check(AttributeId(id), t, d) is Ok <==> id == 0x000F && t.code() == 0x18,
{
}

/// A snapshot of a level server is the level, 0xff for none, and the options; restoring
/// sets these and nothing else that is shown.
pub proof fn law_level_snapshot(
    s: LevelControlServer,
    cap: nat,
    data: Seq<u8>,
    post: LevelControlServer,
)
    requires
        LevelControlServer::restored(s, data, post),
    ensures
        cap < 2 ==> s.snapshot_bytes(cap).len() == 0,
        cap >= 2 ==> s.snapshot_bytes(cap).len() == 2 && s.snapshot_bytes(cap)[1] == s.options,
        cap >= 2 && s.current_level is None ==> s.snapshot_bytes(cap)[0] == 0xff,
        cap >= 2 && s.current_level is Some ==> s.snapshot_bytes(cap)[0] == s.current_level->0,
        data.len() < 2 ==> post@ == s@,
        data.len() >= 2 ==> {
            &&& post.options == data[1]
            &&& data[0] == 0xff ==> post.current_level is None
            &&& data[0] != 0xff ==> post.current_level == Some(data[0])
            &&& post.min_level == s.min_level
            &&& post.max_level == s.max_level
            &&& post.moving == s.moving
            &&& post.reporting@ == s.reporting@
            &&& post.dirty <==> s.dirty || post.current_level != s.current_level
        },
{
}

/// A level that a command or a tick changes is there to be handed out, and a report of it is
/// pending.
pub proof fn law_changed_level_is_noted(
    pre: LevelControlServer,
    id: CommandId,
    p: Seq<u8>,
    ctx: DispatchContext,
    before: Seq<u8>,
    mid: LevelControlServer,
    body: Seq<u8>,
    r: Result<CommandResult, ZclError>,
    now_ms: u32,
    post: LevelControlServer,
    t: ClusterTick,
    k: int,
)
    requires
        pre.reporting@.distinct(),
        0 <= k < pre.reporting@.entries.len(),
        pre.reporting@.entries[k].attr_id == AttributeId(0),
    ensures
        LevelControlServer::handled(pre, id, p, ctx, before, mid, body, r) && mid.current_level
            != pre.current_level ==> mid.dirty && mid.reporting@.entries[k].pending,
        LevelControlServer::ticked(pre, now_ms, post, t) && post.current_level != pre.current_level
            ==> post.dirty && post.reporting@.entries[k].pending,
{
    crate::reporting_laws::law_only_the_update_becomes_pending(pre.reporting@, AttributeId(0), k);
}

/// A new level server ranges from 1 to 254, stands still and has nothing to hand out.
pub proof fn law_new_level(level: Option<u8>)
    ensures
        LevelState::initial(level).current_level == level,
        LevelState::initial(level).min_level == 1,
        LevelState::initial(level).max_level == 254,
        LevelState::initial(level).options == 0,
        !LevelState::initial(level).moving,
        !LevelState::initial(level).dirty,
        LevelState::initial(level).remaining_time == 0,
        LevelState::initial(level).default_tenths == 0,
{
}

/// Where a linear transition stands at two times, it stands at different values exactly if
/// it has made a different number of steps.
proof fn lemma_linear_differs(start: u8, target: u8, a: int, b: int, duration: int)
    requires
        start <= 254,
        target <= 254,
        0 <= a < duration,
        0 <= b < duration,
    ensures
        ({
            let span = Transition::distance(start, target);
            Transition::linear(start, target, a, duration) == Transition::linear(
                start,
                target,
                b,
                duration,
            ) <==> Transition::progress(span, a, duration) == Transition::progress(
                span,
                b,
                duration,
            )
        }),
{
    let span = Transition::distance(start, target);
    if span > 0 {
        crate::lighting::transition::law_progress_below_span(span, a, duration);
        crate::lighting::transition::law_progress_below_span(span, b, duration);
    } else {
        assert(Transition::progress(span, a, duration) == 0) by (nonlinear_arith)
            requires
                span == 0,
                0 < duration,
                Transition::progress(span, a, duration) == span * a / duration,
        ;
        assert(Transition::progress(span, b, duration) == 0) by (nonlinear_arith)
            requires
                span == 0,
                0 < duration,
                Transition::progress(span, b, duration) == span * b / duration,
        ;
    }
}

/// A linear transition has not arrived while it runs.
proof fn lemma_linear_on_the_way(start: u8, target: u8, a: int, duration: int)
    requires
        start <= 254,
        target <= 254,
        start != target,
        0 <= a < duration,
    ensures
        Transition::linear(start, target, a, duration) != target,
{
    let span = Transition::distance(start, target);
    crate::lighting::transition::law_progress_below_span(span, a, duration);
}

/// The deadline that a level server gives is when its level next changes: it has changed
/// then, and has not up to a millisecond before.
pub proof fn law_level_deadline_is_exact(
    pre: LevelControlServer,
    now_ms: u32,
    post: LevelControlServer,
    t: ClusterTick,
    between_ms: u32,
    mid: LevelControlServer,
    u: ClusterTick,
    end: LevelControlServer,
    v: ClusterTick,
)
    requires
        pre.wf(),
        pre.start_level <= 254,
        pre.target_level <= 254,
        pre.start_level != pre.target_level,
        LevelControlServer::ticked(pre, now_ms, post, t),
        t.next_tick_ms is Some,
        LevelControlServer::ticked(post, between_ms, mid, u),
        LevelControlServer::ticked(post, t.next_tick_ms->0, end, v),
    ensures
        ({
            let wait = t.next_tick_ms->0.wrapping_sub(now_ms);
            &&& wait > 0
            &&& between_ms.wrapping_sub(now_ms) + 1 < wait ==> mid.current_level
                == post.current_level
            &&& end.current_level != post.current_level
        }),
{
    let start = pre.start_level;
    let target = pre.target_level;
    let duration = pre.transition_duration_ms as int;
    let span = Transition::distance(start, target);
    let e0 = now_ms.wrapping_sub(pre.transition_start_ms) as int;
    crate::lighting::transition::law_wake_is_ahead(span, e0, duration);
    let wake = Transition::wake(span, e0, duration);
    let next = t.next_tick_ms->0;
    assert(next.wrapping_sub(pre.transition_start_ms) == wake);
    assert(next.wrapping_sub(now_ms) == wake - e0);
    lemma_linear_on_the_way(start, target, e0, duration);
    if wake < duration {
        crate::lighting::transition::law_wake_finds_a_step(span, e0, duration);
        lemma_linear_differs(start, target, e0, wake, duration);
    }
    if between_ms.wrapping_sub(now_ms) + 1 < next.wrapping_sub(now_ms) {
        let e1 = between_ms.wrapping_sub(pre.transition_start_ms) as int;
        assert(e1 == e0 + between_ms.wrapping_sub(now_ms));
        crate::lighting::transition::law_nothing_changes_before_wake(span, e0, duration, e1);
        lemma_linear_differs(start, target, e0, e1, duration);
    }
}

// ---------------------------------------------------------------------------
// Colour
// ---------------------------------------------------------------------------

/// What each attribute of a colour server reads as.
pub proof fn law_color_attributes(s: ColorControlServer, cap: nat)
    requires
        cap >= 2,
    ensures
        s.current_hue != 0xff ==> crate::types::value_laws::reads(
            s.attr(AttributeId(0x0000), cap),
            0x20,
            1,
            s.current_hue as int,
        ),
        s.current_saturation != 0xff ==> crate::types::value_laws::reads(
            s.attr(AttributeId(0x0001), cap),
            0x20,
            1,
            s.current_saturation as int,
        ),
        s.remaining_time != 0xffff ==> crate::types::value_laws::reads(
            s.attr(AttributeId(0x0002), cap),
            0x21,
            2,
            s.remaining_time as int,
        ),
        crate::types::value_laws::reads(
            s.attr(AttributeId(0x0008), cap),
            0x30,
            1,
            match s.color_mode {
                ColorMode::HueSaturation => 0,
                ColorMode::XY => 1,
                ColorMode::ColorTemperature => 2,
            },
        ),
        crate::types::value_laws::reads(
            s.attr(AttributeId(0x000F), cap),
            0x18,
            1,
            s.options as int,
        ),
        crate::types::value_laws::reads(s.attr(AttributeId(0x400A), cap), 0x19, 2, 1),
        crate::types::value_laws::reads(s.attr(AttributeId(0xFFFD), cap), 0x21, 2, 3),
        forall|id: u16|
            id > 0x0002 && id != 0x0008 && id != 0x000F && id != 0x400A && id != 0xFFFD
                ==> crate::types::value_laws::missing(#[trigger] s.attr(AttributeId(id), cap)),
{
}

/// What discovery lists of a colour server.
pub proof fn law_color_discovered()
    ensures
        ({
            let list = ColorControlServer::attribute_infos();
            &&& list.len() == 7
            &&& crate::types::value_laws::entry(list[0], 0x0000, 0x20, false, true)
            &&& crate::types::value_laws::entry(list[1], 0x0001, 0x20, false, true)
            &&& crate::types::value_laws::entry(list[2], 0x0002, 0x21, false, false)
            &&& crate::types::value_laws::entry(list[3], 0x0008, 0x30, false, false)
            &&& crate::types::value_laws::entry(list[4], 0x000F, 0x18, true, false)
            &&& crate::types::value_laws::entry(list[5], 0x400A, 0x19, false, false)
            &&& crate::types::value_laws::entry(list[6], 0xFFFD, 0x21, false, false)
        }),
{
}

/// Of a colour server only the options can be written, as a bitmap of one byte.
pub proof fn law_color_options_can_be_written(
    pre: ColorControlServer,
    id: u16,
    t: TypeId,
    d: Seq<u8>,
    post: ColorControlServer,
    r: Result<(), AttrError>,
)
    requires
        ColorControlServer::wrote(pre, AttributeId(id), t, d, post, r),
    ensures
        r is Ok <==> id == 0x000F && t.code() == 0x18 && d.len() == 1,
        post@ == if r is Ok {
            ColorState { options: d[0], ..pre@ }
        } else {
            pre@
        },
        id <= 0x0002 || id == 0x0008 || id == 0x400A || id == 0xFFFD ==> r == Err::<(), AttrError>(
            AttrError::ReadOnly,
        ),
        id > 0x0002 && id != 0x0008 && id != 0x000F && id != 0x400A && id != 0xFFFD ==> r == Err::<
            (),
            AttrError,
        >(AttrError::UnsupportedAttribute),
        id == 0x000F && t.code() != 0x18 ==> r == Err::<(), AttrError>(AttrError::InvalidDataType),
        id == 0x000F && t.code() == 0x18 && d.len() != 1 ==> r == Err::<(), AttrError>(
            AttrError::InvalidValue,
        ),
{
}

/// A snapshot of a colour server is hue, saturation, colour mode and options; restoring
/// sets these and nothing else.
pub proof fn law_color_snapshot(
    s: ColorControlServer,
    cap: nat,
    data: Seq<u8>,
    post: ColorControlServer,
)
    requires
        ColorControlServer::restored(s, data, post),
    ensures
        cap < 4 ==> s.snapshot_bytes(cap).len() == 0,
        cap >= 4 ==> s.snapshot_bytes(cap) == seq![
            s.current_hue,
            s.current_saturation,
            match s.color_mode {
                ColorMode::HueSaturation => 0u8,
                ColorMode::XY => 1u8,
                ColorMode::ColorTemperature => 2u8,
            },
            s.options,
        ],
        data.len() < 4 ==> post@ == s@,
        data.len() >= 4 ==> {
            &&& post.current_hue == data[0]
            &&& post.current_saturation == data[1]
            &&& post.options == data[3]
            &&& data[2] == 0 ==> post.color_mode == ColorMode::HueSaturation
            &&& data[2] == 1 ==> post.color_mode == ColorMode::XY
            &&& data[2] == 2 ==> post.color_mode == ColorMode::ColorTemperature
            &&& data[2] > 2 ==> post.color_mode == s.color_mode
            &&& post.hue_tx == s.hue_tx
            &&& post.sat_tx == s.sat_tx
            &&& post.reporting@ == s.reporting@
        },
{
}

/// A hue or saturation that a tick changes has a report pending.
pub proof fn law_changed_color_is_noted(
    pre: ColorControlServer,
    now_ms: u32,
    post: ColorControlServer,
    t: ClusterTick,
    k: int,
)
    requires
        pre.reporting@.distinct(),
        0 <= k < pre.reporting@.entries.len(),
        ColorControlServer::ticked(pre, now_ms, post, t),
    ensures
        post.current_hue != pre.current_hue && pre.reporting@.entries[k].attr_id == AttributeId(0)
            ==> post.reporting@.entries[k].pending,
        post.current_saturation != pre.current_saturation && pre.reporting@.entries[k].attr_id
            == AttributeId(1) ==> post.reporting@.entries[k].pending,
{
    let s = pre@;
    let h = s.hue_advanced(now_ms);
    crate::reporting_laws::law_only_the_update_becomes_pending(s.reporting, AttributeId(0), k);
    crate::reporting_laws::law_only_the_update_becomes_pending(s.reporting, AttributeId(1), k);
    if h.reporting != s.reporting {
        let noted = s.reporting.noted(AttributeId(0));
        assert forall|i: int, j: int| 0 <= i < j < noted.entries.len() implies #[trigger] noted.entries[i].attr_id
            != #[trigger] noted.entries[j].attr_id by {
            crate::reporting_laws::law_only_the_update_becomes_pending(
                s.reporting,
                AttributeId(0),
                i,
            );
            crate::reporting_laws::law_only_the_update_becomes_pending(
                s.reporting,
                AttributeId(0),
                j,
            );
            assert(s.reporting.entries[i].attr_id != s.reporting.entries[j].attr_id);
        }
        crate::reporting_laws::law_only_the_update_becomes_pending(noted, AttributeId(1), k);
    }
}

/// Of two deadlines the one that comes first is kept; one alone is kept, and none is none.
pub proof fn law_tighter_deadline(a: u32, b: u32, now_ms: u32)
    ensures
        ({
            let first = crate::lighting::color_control::tighter(Some(a), Some(b), now_ms);
            &&& first == Some(a) || first == Some(b)
            &&& crate::device_laws::wait(first->0, now_ms) <= crate::device_laws::wait(a, now_ms)
            &&& crate::device_laws::wait(first->0, now_ms) <= crate::device_laws::wait(b, now_ms)
        }),
        crate::lighting::color_control::tighter(Some(a), None, now_ms) == Some(a),
        crate::lighting::color_control::tighter(None, Some(b), now_ms) == Some(b),
        crate::lighting::color_control::tighter(None, None, now_ms) is None,
{
}

/// A colour server gives the first deadline of its hue and its saturation: where only one
/// moves, that one's.
pub proof fn law_color_deadline_is_the_first(
    pre: ColorControlServer,
    now_ms: u32,
    post: ColorControlServer,
    t: ClusterTick,
    hue: HueTransition,
    sat: SatTransition,
)
    requires
        ColorControlServer::ticked(pre, now_ms, post, t),
    ensures
        pre.hue_tx is None && pre.sat_tx is None ==> t.next_tick_ms is None,
        pre.hue_tx == Some(hue) && pre.sat_tx is None ==> t.next_tick_ms == hue.next_ms(now_ms),
        pre.hue_tx is None && pre.sat_tx == Some(sat) ==> t.next_tick_ms == sat.next_ms(now_ms),
        pre.hue_tx == Some(hue) && pre.sat_tx == Some(sat) && t.next_tick_ms is Some ==> {
            &&& t.next_tick_ms == hue.next_ms(now_ms) || t.next_tick_ms == sat.next_ms(now_ms)
            &&& hue.next_ms(now_ms) matches Some(a) ==> crate::device_laws::wait(
                t.next_tick_ms->0,
                now_ms,
            ) <= crate::device_laws::wait(a, now_ms)
            &&& sat.next_ms(now_ms) matches Some(b) ==> crate::device_laws::wait(
                t.next_tick_ms->0,
                now_ms,
            ) <= crate::device_laws::wait(b, now_ms)
        },
        t.next_tick_ms is None ==> (pre.hue_tx == Some(hue) ==> hue.next_ms(now_ms) is None) && (
        pre.sat_tx == Some(sat) ==> sat.next_ms(now_ms) is None),
{
}

/// A saturation on its way next changes at the deadline that it gives, and not up to a
/// millisecond before.
pub proof fn law_saturation_deadline_is_exact(tx: SatTransition, now_ms: u32, between_ms: u32)
    requires
        tx.wf(),
        tx.start_sat <= 254,
        tx.target_sat <= 254,
        tx.start_sat != tx.target_sat,
        tx.next_ms(now_ms) is Some,
    ensures
        ({
            let next = tx.next_ms(now_ms)->0;
            &&& next.wrapping_sub(now_ms) > 0
            &&& between_ms.wrapping_sub(now_ms) + 1 < next.wrapping_sub(now_ms) ==> tx.at(between_ms)
                == tx.at(now_ms)
            &&& tx.at(next) != tx.at(now_ms)
        }),
{
    let duration = tx.duration_ms as int;
    let span = Transition::distance(tx.start_sat, tx.target_sat);
    let e0 = now_ms.wrapping_sub(tx.start_ms) as int;
    crate::lighting::transition::law_wake_is_ahead(span, e0, duration);
    let wake = Transition::wake(span, e0, duration);
    let next = tx.next_ms(now_ms)->0;
    assert(next.wrapping_sub(tx.start_ms) == wake);
    assert(next.wrapping_sub(now_ms) == wake - e0);
    lemma_linear_on_the_way(tx.start_sat, tx.target_sat, e0, duration);
    if wake < duration {
        crate::lighting::transition::law_wake_finds_a_step(span, e0, duration);
        lemma_linear_differs(tx.start_sat, tx.target_sat, e0, wake, duration);
    }
    if between_ms.wrapping_sub(now_ms) + 1 < next.wrapping_sub(now_ms) {
        let e1 = between_ms.wrapping_sub(tx.start_ms) as int;
        assert(e1 == e0 + between_ms.wrapping_sub(now_ms));
        crate::lighting::transition::law_nothing_changes_before_wake(span, e0, duration, e1);
        lemma_linear_differs(tx.start_sat, tx.target_sat, e0, e1, duration);
    }
}

/// A new colour server stands still, in hue and saturation mode.
pub proof fn law_new_color(hue: u8, saturation: u8)
    ensures
        ColorState::initial(hue, saturation).current_hue == hue,
        ColorState::initial(hue, saturation).current_saturation == saturation,
        ColorState::initial(hue, saturation).color_mode == ColorMode::HueSaturation,
        ColorState::initial(hue, saturation).options == 0,
        ColorState::initial(hue, saturation).remaining_time == 0,
        ColorState::initial(hue, saturation).hue_tx is None,
        ColorState::initial(hue, saturation).sat_tx is None,
{
}

} // verus!
