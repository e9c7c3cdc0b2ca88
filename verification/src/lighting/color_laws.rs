//! What the commands of the colour control cluster come to, over their payload bytes
//! and the colour that shows as time goes by.

use vstd::prelude::*;

use crate::cluster_server::ClusterServer;
use crate::context::ClusterTick;
use crate::context::CommandResult;
use crate::context::DispatchContext;
use crate::frame::Status;
use crate::lighting::color_control::ColorControlServer;
use crate::lighting::color_control::ColorState;
use crate::lighting::color_control::Hue;
use crate::lighting::level_laws::on_course;
use crate::lighting::transition::Transition;
use crate::types::enums::ColorMode;
use crate::types::error::ZclError;
use crate::types::ids::CommandId;

verus! {

/// The saturation has set out from `pre` to `target`, to be there in `duration`
/// milliseconds; the hue is left alone. `mid` is the server after the command, and
/// `end` after a tick at `later_ms`.
pub open spec fn saturation_goes_to(
    pre: ColorControlServer,
    now_ms: u32,
    target: int,
    duration: int,
    mid: ColorControlServer,
    later_ms: u32,
    end: ColorControlServer,
) -> bool {
    &&& mid.current_saturation == if duration == 0 {
        target
    } else {
        pre.current_saturation as int
    }
    &&& on_course(
        pre.current_saturation as int,
        target,
        duration,
        later_ms.wrapping_sub(now_ms) as int,
        end.current_saturation as int,
    )
}

/// `hue` is where a hue is, `elapsed` milliseconds after it set out from `from` to go
/// evenly round the circle of 255 hues, up or down, by `arc` hues in `duration`
/// milliseconds.
pub open spec fn hue_on_course(
    from: int,
    up: bool,
    arc: int,
    duration: int,
    elapsed: int,
    hue: int,
) -> bool {
    &&& 0 <= hue <= 254
    &&& exists|steps: int, turns: int| #[trigger]
        hue_reached(from, up, arc, duration, elapsed, hue, steps, turns)
}

/// The time was enough for `steps` whole steps and not for another, and that many steps
/// lead from `from` to `hue`, with `turns` full turns between them.
pub open spec fn hue_reached(
    from: int,
    up: bool,
    arc: int,
    duration: int,
    elapsed: int,
    hue: int,
    steps: int,
    turns: int,
) -> bool {
    &&& if elapsed >= duration {
        steps == arc
    } else {
        steps * duration <= arc * elapsed < (steps + 1) * duration
    }
    &&& 0 <= steps <= arc
    &&& if up {
        hue == from + steps - 255 * turns
    } else {
        hue == from - steps + 255 * turns
    }
}

/// The hue has set out from `pre` by `arc` hues, up or down, to be there in `duration`
/// milliseconds.
pub open spec fn hue_goes_by(
    pre: ColorControlServer,
    now_ms: u32,
    up: bool,
    arc: int,
    duration: int,
    mid: ColorControlServer,
    later_ms: u32,
    end: ColorControlServer,
) -> bool {
    &&& duration > 0 ==> mid.current_hue == pre.current_hue
    &&& duration == 0 ==> hue_on_course(
        pre.current_hue as int,
        up,
        arc,
        0,
        0,
        mid.current_hue as int,
    )
    &&& hue_on_course(
        pre.current_hue as int,
        up,
        arc,
        duration,
        later_ms.wrapping_sub(now_ms) as int,
        end.current_hue as int,
    )
}

/// Milliseconds in two payload bytes that hold tenths of a second. The time 0xffff
/// stands for at once.
pub open spec fn asked_millis(low: u8, high: u8) -> int {
    if low == 0xFF && high == 0xFF {
        0
    } else {
        (low + 256 * high) * 100
    }
}

proof fn lemma_saturation_goes_to(
    pre: ColorControlServer,
    s: ColorState,
    now_ms: u32,
    target: u8,
    duration: u32,
    mid: ColorControlServer,
    later_ms: u32,
    end: ColorControlServer,
    t: ClusterTick,
)
    requires
        pre.current_saturation <= 254,
        target <= 254,
        s.current_saturation == pre.current_saturation,
        mid@ == s.to_sat(now_ms, target, duration),
        ColorControlServer::ticked(mid, later_ms, end, t),
    ensures
        saturation_goes_to(pre, now_ms, target as int, duration as int, mid, later_ms, end),
{
    let elapsed = later_ms.wrapping_sub(now_ms);
    if duration > 0 && elapsed < duration {
        crate::lighting::level_laws::lemma_linear_on_course(
            pre.current_saturation,
            target,
            duration as int,
            elapsed as int,
        );
    }
}

/// The hue that a number of steps leads to, without the remainder.
proof fn lemma_hue_moved(hue: u8, up: bool, steps: int) -> (turns: int)
    requires
        hue <= 254,
        0 <= steps,
    ensures
        0 <= Hue::moved(hue, up, steps) <= 254,
        up ==> Hue::moved(hue, up, steps) == hue + steps - 255 * turns,
        !up ==> Hue::moved(hue, up, steps) == hue - steps + 255 * turns,
{
    if up {
        (hue + steps) / 255
    } else {
        -((hue - steps) / 255)
    }
}

proof fn lemma_hue_on_course(
    hue: u8,
    target: u8,
    up: bool,
    arc: int,
    duration: int,
    elapsed: int,
    at: u8,
)
    requires
        hue <= 254,
        0 <= arc <= 255,
        0 <= duration,
        0 <= elapsed,
        target == Hue::moved(hue, up, arc),
        at == if elapsed >= duration {
            target
        } else {
            Hue::moved(hue, up, Transition::progress(arc, elapsed, duration))
        },
    ensures
        hue_on_course(hue as int, up, arc, duration, elapsed, at as int),
{
    if elapsed >= duration {
        let turns = lemma_hue_moved(hue, up, arc);
        assert(hue_reached(hue as int, up, arc, duration, elapsed, at as int, arc, turns));
    } else {
        let step = Transition::progress(arc, elapsed, duration);
        assert(0 <= step <= arc && step * duration <= arc * elapsed < (step + 1) * duration)
            by (nonlinear_arith)
            requires
                step == arc * elapsed / duration,
                0 <= arc,
                0 <= elapsed < duration,
        ;
        let turns = lemma_hue_moved(hue, up, step);
        assert(hue_reached(hue as int, up, arc, duration, elapsed, at as int, step, turns));
    }
}

/// The steps upwards from one hue to another, without the remainder.
proof fn lemma_steps_up(start: u8, target: u8)
    requires
        start <= 254,
        target <= 254,
    ensures
        start <= target ==> Hue::steps_up(start, target) == target - start,
        start > target ==> Hue::steps_up(start, target) == target - start + 255,
{
}

/// Only one way leads to the target by less than a turn and is the one asked for.
proof fn lemma_way(start: u8, target: u8, direction: u8, up: bool, arc: int)
    requires
        start <= 254,
        target <= 254,
        direction <= 3,
        0 <= arc < 255,
        up ==> (arc == target - start || arc == target - start + 255),
        !up ==> (arc == start - target || arc == start - target + 255),
        direction == 0 ==> 2 * arc <= 255 && (target == start ==> up),
        direction == 1 ==> (target == start && up) || 2 * arc > 255,
        direction == 2 ==> up,
        direction == 3 ==> !up,
    ensures
        Hue::way(start, target, direction) == (up, arc),
{
    lemma_steps_up(start, target);
    lemma_steps_up(target, start);
}

/// A number of steps below a turn leads to one hue, and back again.
proof fn lemma_moved(hue: u8, up: bool, steps: u8)
    requires
        hue <= 254,
    ensures
        ({
            let to = Hue::moved(hue, up, steps as int);
            &&& 0 <= to <= 254
            &&& Hue::moved(to, !up, steps as int) == hue
            &&& 0 < steps < 255 ==> to != hue
            &&& up && steps < 255 ==> (steps == to - hue || steps == to - hue + 255)
            &&& !up && steps < 255 ==> (steps == hue - to || steps == hue - to + 255)
        }),
{
    let turns = lemma_hue_moved(hue, up, steps as int);
    let to = Hue::moved(hue, up, steps as int);
    let back = lemma_hue_moved(to, !up, steps as int);
}

proof fn lemma_hue_goes_by(
    pre: ColorControlServer,
    s: ColorState,
    now_ms: u32,
    target: u8,
    direction: u8,
    duration: u32,
    mid: ColorControlServer,
    later_ms: u32,
    end: ColorControlServer,
    t: ClusterTick,
)
    requires
        pre.current_hue <= 254,
        target <= 254,
        s.current_hue == pre.current_hue,
        mid@.current_hue == s.to_hue(now_ms, target, direction, duration).current_hue,
        mid@.hue_tx == s.to_hue(now_ms, target, direction, duration).hue_tx,
        ColorControlServer::ticked(mid, later_ms, end, t),
    ensures
        ({
            let (up, arc) = Hue::way(pre.current_hue, target, direction);
            hue_goes_by(pre, now_ms, up, arc, duration as int, mid, later_ms, end)
        }),
{
    let (up, arc) = Hue::way(pre.current_hue, target, direction);
    crate::lighting::color_control::law_way_arrives(pre.current_hue, target, direction);
    if duration == 0 {
        lemma_hue_on_course(pre.current_hue, target, up, arc, 0, 0, mid.current_hue);
    }
    lemma_hue_on_course(
        pre.current_hue,
        target,
        up,
        arc,
        duration as int,
        later_ms.wrapping_sub(now_ms) as int,
        end.current_hue,
    );
}

/// A saturation step goes by its size, up for mode 1 and down for mode 2, and ends
/// at 254 or 0 where the size would take it beyond. Its time is in tenths of a second.
pub proof fn law_saturation_step_goes_by_its_size(
    pre: ColorControlServer,
    p: Seq<u8>,
    ctx: DispatchContext,
    before: Seq<u8>,
    mid: ColorControlServer,
    body: Seq<u8>,
    r: Result<CommandResult, ZclError>,
    later_ms: u32,
    end: ColorControlServer,
    t: ClusterTick,
)
    requires
        p.len() >= 3,
        p[0] == 1 || p[0] == 2,
        pre.current_saturation <= 254,
        ColorControlServer::handled(pre, CommandId(0x05), p, ctx, before, mid, body, r),
        ColorControlServer::ticked(mid, later_ms, end, t),
    ensures
        r == Ok::<CommandResult, ZclError>(CommandResult::DefaultResponse(Status::Success)),
        mid.color_mode == ColorMode::HueSaturation,
        mid.current_hue == pre.current_hue && mid.hue_tx == pre.hue_tx,
        ({
            let s = pre.current_saturation as int;
            let n = p[1] as int;
            let duration = p[2] * 100;
            &&& p[0] == 1 && s + n <= 254 ==> saturation_goes_to(
                pre,
                ctx.now_ms,
                s + n,
                duration,
                mid,
                later_ms,
                end,
            )
            &&& p[0] == 1 && s + n > 254 ==> saturation_goes_to(
                pre,
                ctx.now_ms,
                254,
                duration,
                mid,
                later_ms,
                end,
            )
            &&& p[0] == 2 && s - n >= 0 ==> saturation_goes_to(
                pre,
                ctx.now_ms,
                s - n,
                duration,
                mid,
                later_ms,
                end,
            )
            &&& p[0] == 2 && s - n < 0 ==> saturation_goes_to(
                pre,
                ctx.now_ms,
                0,
                duration,
                mid,
                later_ms,
                end,
            )
        }),
{
    let s = pre@.in_hue_mode();
    lemma_saturation_goes_to(
        pre,
        s,
        ctx.now_ms,
        s.sat_stepped(p[0] == 1, p[1]),
        (p[2] * 100) as u32,
        mid,
        later_ms,
        end,
        t,
    );
}

/// A saturation step down undoes a step up of the same size that met no limit.
pub proof fn law_saturation_step_back_undoes_a_step(
    pre: ColorControlServer,
    size: u8,
    ctx: DispatchContext,
    before: Seq<u8>,
    mid: ColorControlServer,
    end: ColorControlServer,
    r: Result<CommandResult, ZclError>,
    s: Result<CommandResult, ZclError>,
)
    requires
        pre.current_saturation + size <= 254,
        ColorControlServer::handled(
            pre,
            CommandId(0x05),
            seq![1u8, size, 0u8],
            ctx,
            before,
            mid,
            before,
            r,
        ),
        ColorControlServer::handled(
            mid,
            CommandId(0x05),
            seq![2u8, size, 0u8],
            ctx,
            before,
            end,
            before,
            s,
        ),
    ensures
        mid.current_saturation == pre.current_saturation + size,
        end.current_saturation == pre.current_saturation,
{
}

/// A command to move to a saturation goes there, to 254 at most, in the time asked for.
pub proof fn law_move_goes_to_the_saturation(
    pre: ColorControlServer,
    p: Seq<u8>,
    ctx: DispatchContext,
    before: Seq<u8>,
    mid: ColorControlServer,
    body: Seq<u8>,
    r: Result<CommandResult, ZclError>,
    later_ms: u32,
    end: ColorControlServer,
    t: ClusterTick,
)
    requires
        p.len() >= 3,
        pre.current_saturation <= 254,
        ColorControlServer::handled(pre, CommandId(0x03), p, ctx, before, mid, body, r),
        ColorControlServer::ticked(mid, later_ms, end, t),
    ensures
        r == Ok::<CommandResult, ZclError>(CommandResult::DefaultResponse(Status::Success)),
        mid.color_mode == ColorMode::HueSaturation,
        mid.current_hue == pre.current_hue && mid.hue_tx == pre.hue_tx,
        p[0] <= 254 ==> saturation_goes_to(
            pre,
            ctx.now_ms,
            p[0] as int,
            asked_millis(p[1], p[2]),
            mid,
            later_ms,
            end,
        ),
        p[0] == 255 ==> saturation_goes_to(
            pre,
            ctx.now_ms,
            254,
            asked_millis(p[1], p[2]),
            mid,
            later_ms,
            end,
        ),
{
    lemma_saturation_goes_to(
        pre,
        pre@.in_hue_mode(),
        ctx.now_ms,
        ColorState::at_most_254(p[0]),
        ColorState::millis(crate::bytes::Le::u16_at(p, 1)),
        mid,
        later_ms,
        end,
        t,
    );
}

/// A command to move the saturation at a rate goes to 254 for mode 1 and to 0 for mode
/// 2, by as many steps a second as the rate says, in whole milliseconds. Mode 0 and
/// rate 0 stop it where it is.
pub proof fn law_saturation_keeps_its_rate(
    pre: ColorControlServer,
    p: Seq<u8>,
    ctx: DispatchContext,
    before: Seq<u8>,
    mid: ColorControlServer,
    body: Seq<u8>,
    r: Result<CommandResult, ZclError>,
    later_ms: u32,
    end: ColorControlServer,
    t: ClusterTick,
    duration: int,
)
    requires
        p.len() >= 2,
        p[0] <= 2,
        pre.current_saturation <= 254,
        ColorControlServer::handled(pre, CommandId(0x04), p, ctx, before, mid, body, r),
        ColorControlServer::ticked(mid, later_ms, end, t),
    ensures
        r == Ok::<CommandResult, ZclError>(CommandResult::DefaultResponse(Status::Success)),
        mid.color_mode == ColorMode::HueSaturation,
        mid.current_hue == pre.current_hue && mid.hue_tx == pre.hue_tx,
        p[0] == 0 || p[1] == 0 ==> mid.current_saturation == pre.current_saturation
            && end.current_saturation == pre.current_saturation && mid.sat_tx is None,
        p[0] == 1 && p[1] > 0 && pre.current_saturation == 254 ==> mid.current_saturation == 254
            && mid.sat_tx == pre.sat_tx,
        p[0] == 2 && p[1] > 0 && pre.current_saturation == 0 ==> mid.current_saturation == 0
            && mid.sat_tx == pre.sat_tx,
        p[0] == 1 && p[1] > 0 && pre.current_saturation < 254 && duration * p[1] <= (254
            - pre.current_saturation) * 1000 < (duration + 1) * p[1] ==> saturation_goes_to(
            pre,
            ctx.now_ms,
            254,
            duration,
            mid,
            later_ms,
            end,
        ),
        p[0] == 2 && p[1] > 0 && pre.current_saturation > 0 && duration * p[1]
            <= pre.current_saturation * 1000 < (duration + 1) * p[1] ==> saturation_goes_to(
            pre,
            ctx.now_ms,
            0,
            duration,
            mid,
            later_ms,
            end,
        ),
{
    let s = pre@.in_hue_mode();
    let up = p[0] == 1;
    if p[0] != 0 && p[1] != 0 && s.sat_room(up) != 0 {
        let rate = p[1] as int;
        let room = s.sat_room(up);
        let whole = room * 1000 / rate;
        assert(0 < whole <= room * 1000) by (nonlinear_arith)
            requires
                whole == room * 1000 / rate,
                0 < rate <= 255,
                room >= 1,
        ;
        let tx = s.sat_run(ctx.now_ms, up, p[1]);
        assert(mid@ == s.to_sat(ctx.now_ms, tx.target_sat, whole as u32));
        lemma_saturation_goes_to(
            pre,
            s,
            ctx.now_ms,
            tx.target_sat,
            whole as u32,
            mid,
            later_ms,
            end,
            t,
        );
        if duration * rate <= room * 1000 < (duration + 1) * rate {
            assert(duration == whole) by (nonlinear_arith)
                requires
                    whole == room * 1000 / rate,
                    0 < rate,
                    duration * rate <= room * 1000 < (duration + 1) * rate,
            ;
        }
    }
}

/// A command to move to a hue goes there, to 254 at most: the shorter way for direction
/// 0, the longer for 1, upwards for 2 and downwards for 3. Of two equal ways the upward
/// one is taken.
pub proof fn law_move_goes_to_the_hue(
    pre: ColorControlServer,
    p: Seq<u8>,
    ctx: DispatchContext,
    before: Seq<u8>,
    mid: ColorControlServer,
    body: Seq<u8>,
    r: Result<CommandResult, ZclError>,
    later_ms: u32,
    end: ColorControlServer,
    t: ClusterTick,
    target: int,
    up: bool,
    arc: int,
)
    requires
        p.len() >= 4,
        p[1] <= 3,
        pre.current_hue <= 254,
        target == if p[0] == 255 {
            254
        } else {
            p[0] as int
        },
        // the way of `arc` hues, up or down, leads to the target
        0 <= arc < 255,
        up ==> (arc == target - pre.current_hue || arc == target - pre.current_hue + 255),
        !up ==> (arc == pre.current_hue - target || arc == pre.current_hue - target + 255),
        // and is the one asked for
        p[1] == 0 ==> 2 * arc <= 255 && (target == pre.current_hue ==> up),
        p[1] == 1 ==> (target == pre.current_hue && up) || 2 * arc > 255,
        p[1] == 2 ==> up,
        p[1] == 3 ==> !up,
        ColorControlServer::handled(pre, CommandId(0x00), p, ctx, before, mid, body, r),
        ColorControlServer::ticked(mid, later_ms, end, t),
    ensures
        r == Ok::<CommandResult, ZclError>(CommandResult::DefaultResponse(Status::Success)),
        mid.color_mode == ColorMode::HueSaturation,
        mid.current_saturation == pre.current_saturation && mid.sat_tx == pre.sat_tx,
        hue_goes_by(pre, ctx.now_ms, up, arc, asked_millis(p[2], p[3]), mid, later_ms, end),
        later_ms.wrapping_sub(ctx.now_ms) >= asked_millis(p[2], p[3]) ==> end.current_hue == target,
{
    lemma_way(pre.current_hue, target as u8, p[1], up, arc);
    lemma_hue_goes_by(
        pre,
        pre@.in_hue_mode(),
        ctx.now_ms,
        target as u8,
        p[1],
        ColorState::millis(crate::bytes::Le::u16_at(p, 2)),
        mid,
        later_ms,
        end,
        t,
    );
}

/// A hue step goes by its size round the circle, up for mode 1 and down for mode 2. Its
/// time is in tenths of a second.
pub proof fn law_hue_step_goes_by_its_size(
    pre: ColorControlServer,
    p: Seq<u8>,
    ctx: DispatchContext,
    before: Seq<u8>,
    mid: ColorControlServer,
    body: Seq<u8>,
    r: Result<CommandResult, ZclError>,
    later_ms: u32,
    end: ColorControlServer,
    t: ClusterTick,
)
    requires
        p.len() >= 3,
        p[0] == 1 || p[0] == 2,
        p[1] < 255,
        pre.current_hue <= 254,
        ColorControlServer::handled(pre, CommandId(0x02), p, ctx, before, mid, body, r),
        ColorControlServer::ticked(mid, later_ms, end, t),
    ensures
        r == Ok::<CommandResult, ZclError>(CommandResult::DefaultResponse(Status::Success)),
        mid.color_mode == ColorMode::HueSaturation,
        mid.current_saturation == pre.current_saturation && mid.sat_tx == pre.sat_tx,
        hue_goes_by(
            pre,
            ctx.now_ms,
            p[0] == 1,
            p[1] as int,
            (p[2] * 100) as int,
            mid,
            later_ms,
            end,
        ),
{
    let up = p[0] == 1;
    let target = Hue::moved(pre.current_hue, up, p[1] as int);
    let direction = if up {
        2u8
    } else {
        3u8
    };
    lemma_moved(pre.current_hue, up, p[1]);
    lemma_way(pre.current_hue, target, direction, up, p[1] as int);
    lemma_hue_goes_by(
        pre,
        pre@.in_hue_mode(),
        ctx.now_ms,
        target,
        direction,
        (p[2] * 100) as u32,
        mid,
        later_ms,
        end,
        t,
    );
}

/// A hue step down undoes a step up of the same size.
pub proof fn law_hue_step_back_undoes_a_step(
    pre: ColorControlServer,
    size: u8,
    ctx: DispatchContext,
    before: Seq<u8>,
    mid: ColorControlServer,
    end: ColorControlServer,
    r: Result<CommandResult, ZclError>,
    s: Result<CommandResult, ZclError>,
)
    requires
        pre.current_hue <= 254,
        ColorControlServer::handled(
            pre,
            CommandId(0x02),
            seq![1u8, size, 0u8],
            ctx,
            before,
            mid,
            before,
            r,
        ),
        ColorControlServer::handled(
            mid,
            CommandId(0x02),
            seq![2u8, size, 0u8],
            ctx,
            before,
            end,
            before,
            s,
        ),
    ensures
        end.current_hue == pre.current_hue,
        0 < size < 255 ==> mid.current_hue != pre.current_hue,
{
    lemma_moved(pre.current_hue, true, size);
    assert(mid.current_hue == Hue::moved(pre.current_hue, true, size as int));
}

/// A command to move the hue at a rate goes round by 254 hues, up for mode 1 and down
/// for mode 2, by as many hues a second as the rate says. Mode 0 and rate 0 stop it
/// where it is.
pub proof fn law_hue_keeps_its_rate(
    pre: ColorControlServer,
    p: Seq<u8>,
    ctx: DispatchContext,
    before: Seq<u8>,
    mid: ColorControlServer,
    body: Seq<u8>,
    r: Result<CommandResult, ZclError>,
    later_ms: u32,
    end: ColorControlServer,
    t: ClusterTick,
    duration: int,
)
    requires
        p.len() >= 2,
        p[0] <= 2,
        pre.current_hue <= 254,
        ColorControlServer::handled(pre, CommandId(0x01), p, ctx, before, mid, body, r),
        ColorControlServer::ticked(mid, later_ms, end, t),
    ensures
        r == Ok::<CommandResult, ZclError>(CommandResult::DefaultResponse(Status::Success)),
        mid.color_mode == ColorMode::HueSaturation,
        mid.current_saturation == pre.current_saturation && mid.sat_tx == pre.sat_tx,
        p[0] == 0 || p[1] == 0 ==> mid.current_hue == pre.current_hue && end.current_hue
            == pre.current_hue && mid.hue_tx is None,
        p[0] != 0 && p[1] > 0 && duration * p[1] <= 254_000 < (duration + 1) * p[1] ==> hue_goes_by(
            pre,
            ctx.now_ms,
            p[0] == 1,
            254,
            duration,
            mid,
            later_ms,
            end,
        ),
{
    if p[0] != 0 && p[1] != 0 {
        let rate = p[1] as int;
        let up = p[0] == 1;
        let whole = 254_000int / rate;
        assert(0 < whole <= 254_000) by (nonlinear_arith)
            requires
                whole == 254_000int / rate,
                0 < rate <= 255,
        ;
        lemma_hue_on_course(
            pre.current_hue,
            Hue::moved(pre.current_hue, up, 254),
            up,
            254,
            whole,
            later_ms.wrapping_sub(ctx.now_ms) as int,
            end.current_hue,
        );
        if duration * rate <= 254_000 < (duration + 1) * rate {
            assert(duration == whole) by (nonlinear_arith)
                requires
                    whole == 254_000int / rate,
                    0 < rate,
                    duration * rate <= 254_000 < (duration + 1) * rate,
            ;
        }
    }
}

/// A command to move to a hue and a saturation goes to both, in the time asked for.
pub proof fn law_move_goes_to_hue_and_saturation(
    pre: ColorControlServer,
    p: Seq<u8>,
    ctx: DispatchContext,
    before: Seq<u8>,
    mid: ColorControlServer,
    body: Seq<u8>,
    r: Result<CommandResult, ZclError>,
    later_ms: u32,
    end: ColorControlServer,
    t: ClusterTick,
    target: int,
    saturation: int,
    up: bool,
    arc: int,
)
    requires
        p.len() >= 4,
        pre.current_hue <= 254,
        pre.current_saturation <= 254,
        target == if p[0] == 255 {
            254
        } else {
            p[0] as int
        },
        saturation == if p[1] == 255 {
            254
        } else {
            p[1] as int
        },
        up ==> (arc == target - pre.current_hue || arc == target - pre.current_hue + 255),
        !up ==> (arc == pre.current_hue - target || arc == pre.current_hue - target + 255),
        0 <= 2 * arc <= 255,
        target == pre.current_hue ==> up,
        ColorControlServer::handled(pre, CommandId(0x06), p, ctx, before, mid, body, r),
        ColorControlServer::ticked(mid, later_ms, end, t),
    ensures
        r == Ok::<CommandResult, ZclError>(CommandResult::DefaultResponse(Status::Success)),
        mid.color_mode == ColorMode::HueSaturation,
        hue_goes_by(pre, ctx.now_ms, up, arc, asked_millis(p[2], p[3]), mid, later_ms, end),
        saturation_goes_to(
            pre,
            ctx.now_ms,
            saturation,
            asked_millis(p[2], p[3]),
            mid,
            later_ms,
            end,
        ),
        later_ms.wrapping_sub(ctx.now_ms) >= asked_millis(p[2], p[3]) ==> end.current_hue == target
            && end.current_saturation == saturation,
{
    let s = pre@.in_hue_mode();
    let duration = ColorState::millis(crate::bytes::Le::u16_at(p, 2));
    lemma_way(pre.current_hue, target as u8, 0, up, arc);
    lemma_hue_goes_by(
        pre,
        s,
        ctx.now_ms,
        target as u8,
        0,
        duration,
        mid,
        later_ms,
        end,
        t,
    );
    lemma_saturation_goes_to(
        pre,
        s.to_hue(ctx.now_ms, target as u8, 0, duration),
        ctx.now_ms,
        saturation as u8,
        duration,
        mid,
        later_ms,
        end,
        t,
    );
}

/// A command that is cut short, asks for a mode that there is none of, or is not one of
/// the cluster's, changes nothing.
pub proof fn law_malformed_commands_change_nothing(
    pre: ColorControlServer,
    id: CommandId,
    p: Seq<u8>,
    ctx: DispatchContext,
    before: Seq<u8>,
    post: ColorControlServer,
    body: Seq<u8>,
    r: Result<CommandResult, ZclError>,
)
    requires
        ColorControlServer::handled(pre, id, p, ctx, before, post, body, r),
    ensures
        id.0 > 6 ==> post@ == pre@ && r == Ok::<CommandResult, ZclError>(
            CommandResult::DefaultResponse(Status::UnsupCommand),
        ),
        ((id.0 == 0 || id.0 == 6) && p.len() < 4) || ((id.0 == 2 || id.0 == 3 || id.0 == 5)
            && p.len() < 3) || ((id.0 == 1 || id.0 == 4) && p.len() < 2) ==> post@ == pre@ && r
            == Err::<CommandResult, ZclError>(ZclError::InsufficientBytes),
        (id.0 == 0 && p.len() >= 4 && p[1] > 3) || ((id.0 == 1 || id.0 == 4) && p.len() >= 2
            && p[0] > 2) || ((id.0 == 2 || id.0 == 5) && p.len() >= 3 && p[0] != 1 && p[0] != 2)
            ==> post@ == pre@ && r == Ok::<CommandResult, ZclError>(
            CommandResult::DefaultResponse(Status::InvalidField),
        ),
{
}

/// A tick tells whether hue or saturation changed. The remaining time is what is left of
/// the transition that lasts longer, in whole tenths of a second.
pub proof fn law_tick_tells_the_change(
    pre: ColorControlServer,
    now_ms: u32,
    post: ColorControlServer,
    t: ClusterTick,
)
    requires
        ColorControlServer::ticked(pre, now_ms, post, t),
        pre.wf(),
    ensures
        t.changed <==> post.current_hue != pre.current_hue || post.current_saturation
            != pre.current_saturation,
        pre.hue_tx is None ==> post.current_hue == pre.current_hue,
        pre.sat_tx is None ==> post.current_saturation == pre.current_saturation,
        pre.hue_tx is None && pre.sat_tx is None ==> t.next_tick_ms is None
            && post.remaining_time == 0,
        pre.hue_tx matches Some(tx) ==> tx.duration_ms - now_ms.wrapping_sub(tx.start_ms)
            < post.remaining_time * 100 + 100,
        pre.sat_tx matches Some(tx) ==> tx.duration_ms - now_ms.wrapping_sub(tx.start_ms)
            < post.remaining_time * 100 + 100,
        post.remaining_time > 0 ==> (pre.hue_tx matches Some(tx) && post.remaining_time * 100
            <= tx.duration_ms - now_ms.wrapping_sub(tx.start_ms)) || (pre.sat_tx matches Some(tx)
            && post.remaining_time * 100 <= tx.duration_ms - now_ms.wrapping_sub(tx.start_ms)),
{
}

} // verus!
