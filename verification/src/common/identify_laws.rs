//! What an identify server does with each command, write and tick.

use vstd::prelude::*;

use crate::cluster_server::ClusterServer;
use crate::common::identify::IdentifyServer;
use crate::context::ClusterTick;
use crate::context::CommandResult;
use crate::context::DispatchContext;
use crate::types::error::AttrError;
use crate::types::error::ZclError;
use crate::types::ids::AttributeId;
use crate::types::ids::CommandId;
use crate::types::ids::TypeId;

verus! {

/// The device identifies itself until `ms` milliseconds after `now_ms`, on a clock that
/// wraps.
pub open spec fn identifies_for(s: IdentifyServer, now_ms: u32, ms: int) -> bool {
    s@.until_ms matches Some(t) && (t == now_ms + ms || t == now_ms + ms - 0x1_0000_0000)
}

/// The command to identify starts a run of as many seconds as its two bytes say; zero ends
/// the run.
pub proof fn law_identify_command(
    pre: IdentifyServer,
    low: u8,
    high: u8,
    rest: Seq<u8>,
    ctx: DispatchContext,
    before: Seq<u8>,
    post: IdentifyServer,
    body: Seq<u8>,
    r: Result<CommandResult, ZclError>,
)
    requires
        IdentifyServer::handled(
            pre,
            CommandId(0x00),
            seq![low, high] + rest,
            ctx,
            before,
            post,
            body,
            r,
        ),
    ensures
        crate::common::answer_laws::told(0x00, before, body, r),
        post@.remaining == low + 256 * high,
        low + 256 * high == 0 ==> post@.until_ms is None,
        low + 256 * high > 0 ==> identifies_for(post, ctx.now_ms, 1000 * (low + 256 * high)),
{
}

/// A query is answered with the seconds that remain of the run, rounded up, and changes
/// nothing.
pub proof fn law_query_command(
    pre: IdentifyServer,
    p: Seq<u8>,
    ctx: DispatchContext,
    before: Seq<u8>,
    post: IdentifyServer,
    body: Seq<u8>,
    r: Result<CommandResult, ZclError>,
    ms: int,
)
    requires
        before.len() >= 2,
        before.len() <= usize::MAX,
        IdentifyServer::handled(pre, CommandId(0x01), p, ctx, before, post, body, r),
    ensures
        post@ == pre@,
        r matches Ok(CommandResult::Payload { command_id, len }) && command_id.0 == 0x00 && len == 2,
        identifies_for(pre, ctx.now_ms, ms) && 0 < ms <= 65535000 ==> {
            let seconds = body[0] + 256 * body[1];
            1000 * (seconds - 1) < ms <= 1000 * seconds
        },
        identifies_for(pre, ctx.now_ms, ms) && -0x7fff_ffff <= ms <= 0 ==> body[0] == 0 && body[1]
            == 0,
        pre@.until_ms is None ==> body[0] + 256 * body[1] == pre@.remaining,
{
    if let Some(t) = pre@.until_ms {
        let now = ctx.now_ms;
        if identifies_for(pre, now, ms) && 0 < ms <= 65535000 {
            assert(t.wrapping_sub(now) == ms);
        }
    }
    assert(body[0] == (pre@.remaining_at(ctx.now_ms) % 256) as u8);
    assert(body[1] == (pre@.remaining_at(ctx.now_ms) / 256) as u8);
}

/// As long as a run lasts, a tick brings the seconds that remain, rounded up, and asks for
/// the next tick when they change; when it is over, a tick ends it.
pub proof fn law_tick_counts_down(
    pre: IdentifyServer,
    now_ms: u32,
    post: IdentifyServer,
    r: ClusterTick,
    ms: int,
)
    requires
        IdentifyServer::ticked(pre, now_ms, post, r),
        identifies_for(pre, now_ms, ms),
        -0x7fff_ffff <= ms <= 65535000,
    ensures
        r.changed <==> post@.remaining != pre@.remaining,
        ms <= 0 ==> post@.remaining == 0 && post@.until_ms is None && r.next_tick_ms is None,
        ms > 0 ==> {
            &&& post@.until_ms == pre@.until_ms
            &&& 1000 * (post@.remaining - 1) < ms <= 1000 * post@.remaining
            &&& r.next_tick_ms matches Some(next) && {
                let wait = ms - 1000 * (post@.remaining - 1);
                next == now_ms + wait || next == now_ms + wait - 0x1_0000_0000
            }
        },
{
    let t = pre@.until_ms->0;
    if ms > 0 {
        assert(t.wrapping_sub(now_ms) == ms);
        assert(now_ms.wrapping_sub(t) >= 0x8000_0000);
    } else {
        assert(now_ms.wrapping_sub(t) == -ms);
    }
}

/// A run that was written starts with the first tick; without one, a tick does nothing.
pub proof fn law_tick_starts_a_written_run(
    pre: IdentifyServer,
    now_ms: u32,
    post: IdentifyServer,
    r: ClusterTick,
)
    requires
        IdentifyServer::ticked(pre, now_ms, post, r),
        pre@.until_ms is None,
    ensures
        !r.changed,
        post@.remaining == pre@.remaining,
        pre@.remaining == 0 ==> post@.until_ms is None && r.next_tick_ms is None,
        pre@.remaining > 0 ==> identifies_for(post, now_ms, 1000 * pre@.remaining),
        pre@.remaining > 0 ==> (r.next_tick_ms matches Some(next) && (next == now_ms + 1000 || next
            == now_ms + 1000 - 0x1_0000_0000)),
{
}

/// Writing the time, as a 16-bit number, sets the seconds and has no deadline yet. Nothing
/// else can be written.
pub proof fn law_time_can_be_written(
    pre: IdentifyServer,
    id: u16,
    t: TypeId,
    data: Seq<u8>,
    post: IdentifyServer,
    r: Result<(), AttrError>,
)
    requires
        IdentifyServer::wrote(pre, AttributeId(id), t, data, post, r),
    ensures
        id == 0x0000 && data.len() >= 2 ==> r is Ok && post@.until_ms is None && post@.remaining
            == data[0] + 256 * data[1],
        id == 0x0000 && data.len() < 2 ==> r == Err::<(), AttrError>(
            AttrError::Codec(ZclError::InsufficientBytes),
        ) && post@ == pre@,
        id == 0xFFFD ==> r == Err::<(), AttrError>(AttrError::ReadOnly) && post@ == pre@,
        id != 0x0000 && id != 0xFFFD ==> r == Err::<(), AttrError>(AttrError::UnsupportedAttribute)
            && post@ == pre@,
        pre.write_check(AttributeId(id), t, data) is Ok <==> id == 0x0000 && t.code() == 0x21,
{
}

/// Other commands are not supported, and a command to identify that is too short fails;
/// neither changes anything.
pub proof fn law_broken_commands_change_nothing(
    pre: IdentifyServer,
    id: u8,
    p: Seq<u8>,
    ctx: DispatchContext,
    before: Seq<u8>,
    post: IdentifyServer,
    body: Seq<u8>,
    r: Result<CommandResult, ZclError>,
)
    requires
        IdentifyServer::handled(pre, CommandId(id), p, ctx, before, post, body, r),
    ensures
        id == 0x00 && p.len() < 2 ==> post@ == pre@ && crate::common::answer_laws::too_short(
            before,
            body,
            r,
        ),
        id > 0x01 ==> post@ == pre@ && crate::common::answer_laws::told(0x81, before, body, r),
{
}

/// What each attribute reads as, and what discovery lists.
pub proof fn law_attributes_show_the_state(s: IdentifyServer, cap: nat)
    requires
        cap >= 2,
    ensures
        s@.remaining != 0xffff ==> crate::types::value_laws::reads(
            s.attr(AttributeId(0x0000), cap),
            0x21,
            2,
            s@.remaining as int,
        ),
        crate::types::value_laws::reads(s.attr(AttributeId(0xFFFD), cap), 0x21, 2, 2),
        forall|id: u16|
            id != 0x0000 && id != 0xFFFD ==> crate::types::value_laws::missing(
                #[trigger] s.attr(AttributeId(id), cap),
            ),
        IdentifyServer::attribute_infos().len() == 2,
        crate::types::value_laws::entry(
            IdentifyServer::attribute_infos()[0],
            0x0000,
            0x21,
            true,
            false,
        ),
        crate::types::value_laws::entry(
            IdentifyServer::attribute_infos()[1],
            0xFFFD,
            0x21,
            false,
            false,
        ),
{
}

} // verus!
