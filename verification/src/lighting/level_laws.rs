//! What the commands of the level control cluster come to, over their payload bytes
//! and the level that shows as time goes by.

use vstd::prelude::*;

use crate::cluster_server::ClusterServer;
use crate::context::ClusterTick;
use crate::context::CommandResult;
use crate::context::DispatchContext;
use crate::frame::Status;
use crate::lighting::level_control::LevelControlServer;
use crate::lighting::transition::Transition;
use crate::types::error::ZclError;
use crate::types::ids::CommandId;

verus! {

/// `value` is where a value is, `elapsed` milliseconds after it set out from `from` to
/// go evenly to `target` within `duration` milliseconds: at the target once the time
/// is over, and before that at the last whole step that the time was enough for.
pub open spec fn on_course(
    from: int,
    target: int,
    duration: int,
    elapsed: int,
    value: int,
) -> bool {
    if elapsed >= duration {
        value == target
    } else if target >= from {
        &&& from <= value <= target
        &&& (value - from) * duration <= (target - from) * elapsed < (value - from + 1) * duration
    } else {
        &&& target <= value <= from
        &&& (from - value) * duration <= (from - target) * elapsed < (from - value + 1) * duration
    }
}

/// A value that is interpolated is on course.
pub proof fn lemma_linear_on_course(from: u8, target: u8, duration: int, elapsed: int)
    requires
        from <= 254,
        target <= 254,
        0 <= elapsed < duration,
    ensures
        on_course(
            from as int,
            target as int,
            duration,
            elapsed,
            Transition::linear(from, target, elapsed, duration) as int,
        ),
{
    let way = Transition::distance(from, target);
    let step = Transition::progress(way, elapsed, duration);
    crate::lighting::transition::law_linear_stays_between(from, target, elapsed, duration);
    assert(0 <= step && step * duration <= way * elapsed < (step + 1) * duration) by (nonlinear_arith)
        requires
            step == way * elapsed / duration,
            0 <= way,
            0 <= elapsed,
            0 < duration,
    ;
    if way > 0 {
        crate::lighting::transition::law_progress_below_span(way, elapsed, duration);
    } else {
        assert(step == 0) by (nonlinear_arith)
            requires
                step * duration <= way * elapsed,
                way == 0,
                0 <= step,
                0 < duration,
        ;
    }
}

/// The level has set out from `pre` to `target`, to be there in `tenths` tenths of a
/// second. `mid` is the server after the command, and `end` after a tick at `later_ms`.
pub open spec fn goes_to(
    pre: LevelControlServer,
    now_ms: u32,
    target: int,
    tenths: int,
    mid: LevelControlServer,
    later_ms: u32,
    end: LevelControlServer,
) -> bool {
    match pre.current_level {
        None => {
            &&& mid.current_level matches Some(level) && level == target
            &&& end.current_level == mid.current_level
        },
        Some(from) => {
            &&& tenths == 0 ==> (mid.current_level matches Some(level) && level == target)
            &&& tenths > 0 ==> mid.current_level == pre.current_level
            &&& end.current_level matches Some(level) && on_course(
                from as int,
                target,
                tenths * 100,
                later_ms.wrapping_sub(now_ms) as int,
                level as int,
            )
        },
    }
}

proof fn lemma_goes_to(
    pre: LevelControlServer,
    now_ms: u32,
    target: u8,
    tenths: u16,
    mid: LevelControlServer,
    later_ms: u32,
    end: LevelControlServer,
    t: ClusterTick,
)
    requires
        pre.current_level matches Some(level) ==> level <= 254,
        target <= 254,
        mid@ == pre@.moved(now_ms, target, tenths),
        LevelControlServer::ticked(mid, later_ms, end, t),
    ensures
        goes_to(pre, now_ms, target as int, tenths as int, mid, later_ms, end),
{
    let elapsed = later_ms.wrapping_sub(now_ms);
    if pre.current_level is Some && tenths > 0 && elapsed < tenths * 100 {
        lemma_linear_on_course(
            pre.current_level->0,
            target,
            (tenths * 100) as int,
            elapsed as int,
        );
    }
}

/// The transition time in two payload bytes, in tenths of a second. The time 0xffff
/// stands for the server's own default.
pub open spec fn asked_tenths(server: LevelControlServer, low: u8, high: u8) -> int {
    if low == 0xFF && high == 0xFF {
        server.default_transition_tenths as int
    } else {
        low + 256 * high
    }
}

/// A step goes by its size, up for mode 0 and down for mode 1, and ends at the limit
/// where the size would take it beyond.
pub proof fn law_step_goes_by_its_size(
    pre: LevelControlServer,
    id: CommandId,
    p: Seq<u8>,
    ctx: DispatchContext,
    before: Seq<u8>,
    mid: LevelControlServer,
    body: Seq<u8>,
    r: Result<CommandResult, ZclError>,
    later_ms: u32,
    end: LevelControlServer,
    t: ClusterTick,
    from: u8,
)
    requires
        id.0 == 0x02 || id.0 == 0x06,
        p.len() >= 4,
        p[0] == 0 || p[0] == 1,
        pre.min_level <= 254,
        pre.max_level <= 254,
        from <= 254,
        from == match pre.current_level {
            Some(level) => level,
            None => pre.min_level,
        },
        LevelControlServer::handled(pre, id, p, ctx, before, mid, body, r),
        LevelControlServer::ticked(mid, later_ms, end, t),
    ensures
        r == Ok::<CommandResult, ZclError>(CommandResult::DefaultResponse(Status::Success)),
        ({
            let tenths = asked_tenths(pre, p[2], p[3]);
            &&& p[0] == 0 && from + p[1] <= pre.max_level ==> goes_to(
                pre,
                ctx.now_ms,
                from + p[1],
                tenths,
                mid,
                later_ms,
                end,
            )
            &&& p[0] == 0 && from + p[1] > pre.max_level ==> goes_to(
                pre,
                ctx.now_ms,
                pre.max_level as int,
                tenths,
                mid,
                later_ms,
                end,
            )
            &&& p[0] == 1 && from - p[1] >= pre.min_level ==> goes_to(
                pre,
                ctx.now_ms,
                from - p[1],
                tenths,
                mid,
                later_ms,
                end,
            )
            &&& p[0] == 1 && from - p[1] < pre.min_level ==> goes_to(
                pre,
                ctx.now_ms,
                pre.min_level as int,
                tenths,
                mid,
                later_ms,
                end,
            )
        }),
{
    let target = pre@.stepped(p[0] == 0, p[1]);
    let tenths = pre@.tenths(crate::bytes::Le::u16_at(p, 2));
    lemma_goes_to(pre, ctx.now_ms, target, tenths, mid, later_ms, end, t);
}

/// A step down undoes a step up of the same size that met no limit, and the other way
/// round.
pub proof fn law_step_back_undoes_a_step(
    pre: LevelControlServer,
    size: u8,
    up: u8,
    down: u8,
    ctx: DispatchContext,
    before: Seq<u8>,
    mid: LevelControlServer,
    end: LevelControlServer,
    r: Result<CommandResult, ZclError>,
    s: Result<CommandResult, ZclError>,
    from: u8,
)
    requires
        up == 0 && down == 1 || up == 1 && down == 0,
        pre.current_level == Some(from),
        pre.min_level <= from <= pre.max_level,
        up == 0 ==> from + size <= pre.max_level,
        up == 1 ==> from - size >= pre.min_level,
        LevelControlServer::handled(
            pre,
            CommandId(0x02),
            seq![up, size, 0u8, 0u8],
            ctx,
            before,
            mid,
            before,
            r,
        ),
        LevelControlServer::handled(
            mid,
            CommandId(0x02),
            seq![down, size, 0u8, 0u8],
            ctx,
            before,
            end,
            before,
            s,
        ),
    ensures
        end.current_level == Some(from),
        mid.current_level matches Some(level) && (if up == 0 {
            level == from + size
        } else {
            level == from - size
        }),
{
}

/// A command to move to a level goes there; to the nearer limit where the level is
/// beyond one. A level of 0xff is refused.
pub proof fn law_move_goes_to_the_level(
    pre: LevelControlServer,
    id: CommandId,
    p: Seq<u8>,
    ctx: DispatchContext,
    before: Seq<u8>,
    mid: LevelControlServer,
    body: Seq<u8>,
    r: Result<CommandResult, ZclError>,
    later_ms: u32,
    end: LevelControlServer,
    t: ClusterTick,
)
    requires
        id.0 == 0x00 || id.0 == 0x04,
        p.len() >= 3,
        pre.min_level <= pre.max_level <= 254,
        pre.current_level matches Some(level) ==> level <= 254,
        LevelControlServer::handled(pre, id, p, ctx, before, mid, body, r),
        LevelControlServer::ticked(mid, later_ms, end, t),
    ensures
        p[0] == 0xFF ==> mid@ == pre@ && r == Ok::<CommandResult, ZclError>(
            CommandResult::DefaultResponse(Status::InvalidValue),
        ),
        p[0] != 0xFF ==> {
            let tenths = asked_tenths(pre, p[1], p[2]);
            &&& r == Ok::<CommandResult, ZclError>(CommandResult::DefaultResponse(Status::Success))
            &&& pre.min_level <= p[0] <= pre.max_level ==> goes_to(
                pre,
                ctx.now_ms,
                p[0] as int,
                tenths,
                mid,
                later_ms,
                end,
            )
            &&& p[0] < pre.min_level ==> goes_to(
                pre,
                ctx.now_ms,
                pre.min_level as int,
                tenths,
                mid,
                later_ms,
                end,
            )
            &&& p[0] > pre.max_level ==> goes_to(
                pre,
                ctx.now_ms,
                pre.max_level as int,
                tenths,
                mid,
                later_ms,
                end,
            )
        },
{
    if p[0] != 0xFF {
        lemma_goes_to(
            pre,
            ctx.now_ms,
            pre@.clamped(p[0]),
            pre@.tenths(crate::bytes::Le::u16_at(p, 1)),
            mid,
            later_ms,
            end,
            t,
        );
    }
}

/// A command to move at a rate goes to the highest level for mode 0, and to the lowest
/// for mode 1, by as many levels a second as the rate says, in whole tenths of a
/// second. It does nothing where the level is there already. A rate of 0 is refused.
pub proof fn law_move_keeps_its_rate(
    pre: LevelControlServer,
    id: CommandId,
    p: Seq<u8>,
    ctx: DispatchContext,
    before: Seq<u8>,
    mid: LevelControlServer,
    body: Seq<u8>,
    r: Result<CommandResult, ZclError>,
    later_ms: u32,
    end: LevelControlServer,
    t: ClusterTick,
    from: u8,
    tenths: int,
)
    requires
        id.0 == 0x01 || id.0 == 0x05,
        p.len() >= 2,
        p[0] == 0 || p[0] == 1,
        pre.min_level <= 254,
        pre.max_level <= 254,
        from <= 254,
        from == match pre.current_level {
            Some(level) => level,
            None => pre.min_level,
        },
        LevelControlServer::handled(pre, id, p, ctx, before, mid, body, r),
        LevelControlServer::ticked(mid, later_ms, end, t),
    ensures
        p[1] == 0 ==> mid@ == pre@ && r == Ok::<CommandResult, ZclError>(
            CommandResult::DefaultResponse(Status::InvalidValue),
        ),
        p[1] != 0 ==> {
            &&& r == Ok::<CommandResult, ZclError>(CommandResult::DefaultResponse(Status::Success))
            &&& p[0] == 0 && from >= pre.max_level ==> mid@ == pre@
            &&& p[0] == 1 && from <= pre.min_level ==> mid@ == pre@
            &&& p[0] == 0 && from < pre.max_level && tenths * p[1] <= 10 * (pre.max_level - from)
                < (tenths + 1) * p[1] ==> goes_to(
                pre,
                ctx.now_ms,
                pre.max_level as int,
                tenths,
                mid,
                later_ms,
                end,
            )
            &&& p[0] == 1 && from > pre.min_level && tenths * p[1] <= 10 * (from - pre.min_level)
                < (tenths + 1) * p[1] ==> goes_to(
                pre,
                ctx.now_ms,
                pre.min_level as int,
                tenths,
                mid,
                later_ms,
                end,
            )
        },
{
    let (target, span) = pre@.run(p[0] == 0);
    if p[1] != 0 && span > 0 {
        let rate = p[1] as int;
        let whole = span * 10 / rate;
        assert(0 <= whole <= span * 10) by (nonlinear_arith)
            requires
                whole == span * 10 / rate,
                rate > 0,
                span > 0,
        ;
        lemma_goes_to(pre, ctx.now_ms, target, whole as u16, mid, later_ms, end, t);
        if tenths * rate <= 10 * span < (tenths + 1) * rate {
            assert(tenths == whole) by (nonlinear_arith)
                requires
                    whole == span * 10 / rate,
                    rate > 0,
                    tenths * rate <= 10 * span < (tenths + 1) * rate,
            ;
        }
    }
}

/// A stop leaves the level where a tick at that moment would have shown it, and it
/// stays there.
pub proof fn law_stop_stays(
    pre: LevelControlServer,
    id: CommandId,
    p: Seq<u8>,
    ctx: DispatchContext,
    before: Seq<u8>,
    mid: LevelControlServer,
    body: Seq<u8>,
    r: Result<CommandResult, ZclError>,
    ticked: LevelControlServer,
    u: ClusterTick,
    later_ms: u32,
    end: LevelControlServer,
    t: ClusterTick,
)
    requires
        id.0 == 0x03 || id.0 == 0x07,
        LevelControlServer::handled(pre, id, p, ctx, before, mid, body, r),
        LevelControlServer::ticked(pre, ctx.now_ms, ticked, u),
        LevelControlServer::ticked(mid, later_ms, end, t),
    ensures
        r == Ok::<CommandResult, ZclError>(CommandResult::DefaultResponse(Status::Success)),
        mid.current_level == ticked.current_level,
        end.current_level == mid.current_level,
        pre.moving ==> mid.cached_remaining_time == 0,
        t.next_tick_ms is None,
        !t.changed,
{
}

/// A tick tells whether the level changed; a level that does not move has none to tell.
/// The remaining time is what is left of the transition, in whole tenths.
pub proof fn law_tick_tells_the_change(
    pre: LevelControlServer,
    now_ms: u32,
    post: LevelControlServer,
    t: ClusterTick,
)
    requires
        LevelControlServer::ticked(pre, now_ms, post, t),
        pre.wf(),
    ensures
        t.changed <==> post.current_level != pre.current_level,
        !pre.moving ==> !t.changed && t.next_tick_ms is None && post.cached_remaining_time
            == pre.cached_remaining_time,
        pre.moving ==> {
            let left = pre.transition_duration_ms - now_ms.wrapping_sub(pre.transition_start_ms);
            &&& left <= 0 ==> post.cached_remaining_time == 0 && !post.moving
            &&& left > 0 ==> post.cached_remaining_time * 100 <= left
                < post.cached_remaining_time * 100 + 100 && post.moving
        },
{
}

/// A command that is cut short, asks for a mode that there is none of, or is not one of
/// the cluster's, changes nothing.
pub proof fn law_malformed_commands_change_nothing(
    pre: LevelControlServer,
    id: CommandId,
    p: Seq<u8>,
    ctx: DispatchContext,
    before: Seq<u8>,
    post: LevelControlServer,
    body: Seq<u8>,
    r: Result<CommandResult, ZclError>,
)
    requires
        LevelControlServer::handled(pre, id, p, ctx, before, post, body, r),
    ensures
        id.0 > 7 ==> post@ == pre@ && r == Ok::<CommandResult, ZclError>(
            CommandResult::DefaultResponse(Status::UnsupCommand),
        ),
        ((id.0 == 0 || id.0 == 4) && p.len() < 3) || ((id.0 == 1 || id.0 == 5) && p.len() < 2) || ((
        id.0 == 2 || id.0 == 6) && p.len() < 4) ==> post@ == pre@ && r == Err::<
            CommandResult,
            ZclError,
        >(ZclError::InsufficientBytes),
        ((id.0 == 1 || id.0 == 5) && p.len() >= 2 && p[1] != 0 && p[0] > 1) || ((id.0 == 2 || id.0
            == 6) && p.len() >= 4 && p[0] > 1) ==> post@ == pre@ && r == Err::<
            CommandResult,
            ZclError,
        >(ZclError::InvalidValue),
{
}

} // verus!
