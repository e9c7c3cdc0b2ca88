//! What an alarms server does with each command, from the bytes of the command to the bytes
//! of the reply.

use vstd::prelude::*;

use crate::cluster_server::ClusterServer;
use crate::common::alarms::AlarmEntry;
use crate::common::alarms::AlarmLog;
use crate::common::alarms::AlarmsServer;
use crate::context::CommandResult;
use crate::context::DispatchContext;
use crate::types::error::AttrError;
use crate::types::error::ZclError;
use crate::types::ids::AttributeId;
use crate::types::ids::CommandId;
use crate::types::ids::TypeId;

verus! {

/// Resetting an alarm, named by its code and cluster, takes the oldest such alarm out of
/// the log; where there is none, it is not found.
pub proof fn law_reset_alarm<const N: usize>(
    pre: AlarmsServer<N>,
    code: u8,
    low: u8,
    high: u8,
    rest: Seq<u8>,
    ctx: DispatchContext,
    before: Seq<u8>,
    post: AlarmsServer<N>,
    body: Seq<u8>,
    r: Result<CommandResult, ZclError>,
    i: int,
)
    requires
        AlarmsServer::<N>::handled(
            pre,
            CommandId(0x00),
            seq![code, low, high] + rest,
            ctx,
            before,
            post,
            body,
            r,
        ),
    ensures
        0 <= i < pre@.len() && pre@[i].alarm_code == code && pre@[i].cluster_id == low + 256 * high
            && (forall|k: int|
            0 <= k < i ==> (#[trigger] pre@[k]).alarm_code != code || pre@[k].cluster_id != low + 256
                * high) ==> post@ == pre@.take(i) + pre@.skip(i + 1)
            && crate::common::answer_laws::told(0x00, before, body, r),
        (forall|k: int|
            0 <= k < pre@.len() ==> (#[trigger] pre@[k]).alarm_code != code || pre@[k].cluster_id
                != low + 256 * high) ==> post@ == pre@ && crate::common::answer_laws::told(
            0x8b,
            before,
            body,
            r,
        ),
{
    let named = AlarmEntry { cluster_id: (low + 256 * high) as u16, alarm_code: code };
    if 0 <= i < pre@.len() && pre@[i].alarm_code == code && pre@[i].cluster_id == low + 256 * high
        && (forall|k: int|
        0 <= k < i ==> (#[trigger] pre@[k]).alarm_code != code || pre@[k].cluster_id != low + 256
            * high) {
        assert(pre@[i] == named);
        assert(AlarmLog::is_first(pre@, named, i));
        let f = choose|f: int| AlarmLog::is_first(pre@, named, f);
        assert(AlarmLog::is_first(pre@, named, f));
        assert(f == i);
        assert(pre@.remove(i) =~= pre@.take(i) + pre@.skip(i + 1));
    }
}

/// Resetting all alarms, and resetting the log, empties the log.
pub proof fn law_reset_all<const N: usize>(
    pre: AlarmsServer<N>,
    id: u8,
    p: Seq<u8>,
    ctx: DispatchContext,
    before: Seq<u8>,
    post: AlarmsServer<N>,
    body: Seq<u8>,
    r: Result<CommandResult, ZclError>,
)
    requires
        id == 0x01 || id == 0x03,
        AlarmsServer::<N>::handled(pre, CommandId(id), p, ctx, before, post, body, r),
    ensures
        post@.len() == 0,
        crate::common::answer_laws::told(0x00, before, body, r),
{
}

/// Getting an alarm hands out the oldest one and takes it out of the log: success, its
/// code, its cluster and a time of zero. An empty log has none. Where the reply does not
/// fit, the log stays.
pub proof fn law_get_alarm<const N: usize>(
    pre: AlarmsServer<N>,
    p: Seq<u8>,
    ctx: DispatchContext,
    before: Seq<u8>,
    post: AlarmsServer<N>,
    body: Seq<u8>,
    r: Result<CommandResult, ZclError>,
)
    requires
        before.len() <= usize::MAX,
        AlarmsServer::<N>::handled(pre, CommandId(0x02), p, ctx, before, post, body, r),
    ensures
        pre@.len() == 0 ==> post@ == pre@ && crate::common::answer_laws::replied(
            0x01,
            seq![0x8bu8],
            before,
            body,
            r,
        ),
        pre@.len() > 0 ==> crate::common::answer_laws::replied(
            0x01,
            seq![
                0x00u8,
                pre@[0].alarm_code,
                (pre@[0].cluster_id % 256) as u8,
                (pre@[0].cluster_id / 256) as u8,
                0u8,
                0u8,
                0u8,
                0u8,
            ],
            before,
            body,
            r,
        ),
        pre@.len() > 0 && before.len() >= 8 ==> post@ == pre@.skip(1),
        before.len() < 8 ==> pre@.len() > 0 ==> post@ == pre@,
{
    let reply = AlarmLog::oldest_reply(pre@);
    if pre@.len() > 0 {
        assert(reply =~= seq![
            0x00u8,
            pre@[0].alarm_code,
            (pre@[0].cluster_id % 256) as u8,
            (pre@[0].cluster_id / 256) as u8,
            0u8,
            0u8,
            0u8,
            0u8,
        ]);
    } else {
        assert(reply =~= seq![0x8bu8]);
    }
    crate::common::answer_laws::law_reply_is_put_in_front(0x01, reply, before, body, r);
}

/// Other commands are not supported, and a reset that names no alarm fails; neither changes
/// the log.
pub proof fn law_broken_commands_change_nothing<const N: usize>(
    pre: AlarmsServer<N>,
    id: u8,
    p: Seq<u8>,
    ctx: DispatchContext,
    before: Seq<u8>,
    post: AlarmsServer<N>,
    body: Seq<u8>,
    r: Result<CommandResult, ZclError>,
)
    requires
        AlarmsServer::<N>::handled(pre, CommandId(id), p, ctx, before, post, body, r),
    ensures
        id == 0x00 && p.len() < 3 ==> post@ == pre@ && crate::common::answer_laws::too_short(
            before,
            body,
            r,
        ),
        id > 0x03 ==> post@ == pre@ && crate::common::answer_laws::told(0x81, before, body, r),
{
}

/// A log with room keeps all its alarms and the new one behind them; a full one loses its
/// oldest.
pub proof fn law_adding_an_alarm(log: Seq<AlarmEntry>, n: nat, entry: AlarmEntry)
    requires
        log.len() <= n,
    ensures
        log.len() < n ==> AlarmLog::with(log, n, entry) == log + seq![entry],
        0 < n && log.len() == n ==> AlarmLog::with(log, n, entry) == log.skip(1) + seq![entry],
        n == 0 ==> AlarmLog::with(log, n, entry).len() == 0,
{
    if log.len() < n {
        assert(AlarmLog::with(log, n, entry) =~= log + seq![entry]);
    } else if 0 < n {
        assert(AlarmLog::with(log, n, entry) =~= log.skip(1) + seq![entry]);
    }
}

/// The attribute counts the alarms, and what discovery lists.
pub proof fn law_attributes_show_the_state<const N: usize>(s: AlarmsServer<N>, cap: nat)
    requires
        cap >= 2,
    ensures
        s@.len() < 0xffff ==> crate::types::value_laws::reads(
            s.attr(AttributeId(0x0000), cap),
            0x21,
            2,
            s@.len() as int,
        ),
        crate::types::value_laws::reads(s.attr(AttributeId(0xFFFD), cap), 0x21, 2, 1),
        forall|id: u16|
            id != 0x0000 && id != 0xFFFD ==> crate::types::value_laws::missing(
                #[trigger] s.attr(AttributeId(id), cap),
            ),
        AlarmsServer::<N>::attribute_infos().len() == 2,
        crate::types::value_laws::entry(
            AlarmsServer::<N>::attribute_infos()[0],
            0x0000,
            0x21,
            false,
            false,
        ),
        crate::types::value_laws::entry(
            AlarmsServer::<N>::attribute_infos()[1],
            0xFFFD,
            0x21,
            false,
            false,
        ),
        AlarmsServer::<N>::received_ids() == seq![
            CommandId(0),
            CommandId(1),
            CommandId(2),
            CommandId(3),
        ],
{
}

/// The attributes can only be read: a write of one that is there is refused as read-only,
/// and of another as unsupported.
pub proof fn law_attributes_are_only_read<const N: usize>(
    pre: AlarmsServer<N>,
    id: u16,
    t: TypeId,
    data: Seq<u8>,
    post: AlarmsServer<N>,
    r: Result<(), AttrError>,
)
    requires
        AlarmsServer::<N>::wrote(pre, AttributeId(id), t, data, post, r),
    ensures
        post@ == pre@,
        r == Err::<(), AttrError>(if id == 0x0000 || id == 0xFFFD {
            AttrError::ReadOnly
        } else {
            AttrError::UnsupportedAttribute
        }),
        r == pre.write_check(AttributeId(id), t, data),
{
}

} // verus!
