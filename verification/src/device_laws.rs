//! What operations on a whole device do at each of its cluster servers.

use vstd::prelude::*;

use crate::cluster_server::ClusterServer;
use crate::context::ClusterReportReady;
use crate::context::ClusterTick;
use crate::context::DeviceTick;
use crate::context::ReportReady;
use crate::context::ReportingDiagnostics;
use crate::device::CollectReportVisitor;
use crate::device::DeviceServerVisitor;
use crate::device::DispatchVisitor;
use crate::device::ReportDeliveryVisitor;
use crate::device::RestoreStateVisitor;
use crate::device::SaveStateVisitor;
use crate::device::ServerMeta;
use crate::device::ServerStep;
use crate::device::TickVisitor;
use crate::device::Tour;
use crate::dispatch::Dispatch;
use crate::types::error::ZclError;

verus! {

/// A frame is dispatched at the first server of its endpoint and cluster, and at no other;
/// every other server stays as it is.
pub proof fn law_frame_is_dispatched_once<C: ClusterServer>(
    pre: DispatchVisitor<'_>,
    meta: ServerMeta,
    server: C,
    after: C,
    post: DispatchVisitor<'_>,
)
    requires
        DispatchVisitor::made(pre, meta, ServerStep::of(server, after), post),
    ensures
        ({
            let here = meta.endpoint == pre.request.endpoint && meta.cluster.id
                == pre.request.cluster.id && meta.cluster.manufacturer_code
                == pre.request.cluster.manufacturer_code;
            &&& here && pre.result is None ==> post.result is Some && Dispatch::done(
                server,
                *pre.request.frame,
                pre.request.ctx,
                pre.buf@,
                after,
                post.buf@,
                post.result->0,
            )
            &&& !here || pre.result is Some ==> after == server && post == pre
        }),
{
}

/// How long it is from `now_ms` to `at`, on a clock that wraps.
pub open spec fn wait(at: u32, now_ms: u32) -> int {
    if at >= now_ms {
        at - now_ms
    } else {
        at - now_ms + 0x1_0000_0000
    }
}

/// Of the deadlines of all servers, the one that comes first stands; and something changed
/// if it did at any server.
pub proof fn law_first_deadline_stands(t: DeviceTick, tick: ClusterTick, now_ms: u32)
    ensures
        ({
            let after = t.after(tick, now_ms);
            &&& after.changed <==> t.changed || tick.changed
            &&& after.next_tick_ms is None <==> t.next_tick_ms is None && tick.next_tick_ms is None
            &&& after.next_tick_ms is Some ==> after.next_tick_ms == t.next_tick_ms
                || after.next_tick_ms == tick.next_tick_ms
            &&& t.next_tick_ms matches Some(a) ==> wait(after.next_tick_ms->0, now_ms) <= wait(
                a,
                now_ms,
            )
            &&& tick.next_tick_ms matches Some(b) ==> wait(after.next_tick_ms->0, now_ms) <= wait(
                b,
                now_ms,
            )
        }),
{
}

/// Every server is advanced to the time of the tick, and its deadline counts.
pub proof fn law_every_server_is_advanced<C: ClusterServer>(
    pre: TickVisitor,
    meta: ServerMeta,
    server: C,
    after: C,
    post: TickVisitor,
)
    requires
        TickVisitor::made(pre, meta, ServerStep::of(server, after), post),
    ensures
        post.now_ms == pre.now_ms,
        exists|t: ClusterTick| #[trigger]
            C::ticked(server, pre.now_ms, after, t) && post.tick == pre.tick.after(t, pre.now_ms),
{
    let t = choose|t: ClusterTick| #[trigger]
        (ServerStep::of(server, after).ticked)(pre.now_ms, t) && post == (TickVisitor {
            tick: pre.tick.after(t, pre.now_ms),
            ..pre
        });
    assert(C::ticked(server, pre.now_ms, after, t));
}

/// The first server with a due report is the one whose report is collected, under that
/// server's endpoint, profile and cluster; after it no server is asked.
pub proof fn law_first_due_report_is_collected<C: ClusterServer>(
    pre: CollectReportVisitor,
    meta: ServerMeta,
    server: C,
    after: C,
    post: CollectReportVisitor,
)
    requires
        pre.buf@.len() <= usize::MAX,
        CollectReportVisitor::made(pre, meta, ServerStep::of(server, after), post),
    ensures
        pre.result is Some ==> after == server && post == pre,
        pre.result is None ==> exists|
            sent: Seq<u8>,
            r: Result<Option<ClusterReportReady>, ZclError>,
        | #[trigger]
            C::collected(server, pre.now_ms, Seq::empty(), pre.buf@.len(), after, sent, r) && {
                &&& post.now_ms == pre.now_ms
                &&& sent.len() <= pre.buf@.len()
                &&& post.buf@.take(sent.len() as int) == sent
                &&& r matches Err(e) ==> post.result == Some(Err::<ReportReady, ZclError>(e))
                &&& r == Ok::<Option<ClusterReportReady>, ZclError>(None) ==> post.result is None
                &&& r matches Ok(Some(ready)) ==> (post.result matches Some(Ok(found)) && {
                    &&& found.destination == ready.destination
                    &&& found.token == ready.token
                    &&& found.endpoint == meta.endpoint
                    &&& found.profile_id == meta.profile_id
                    &&& found.cluster == meta.cluster
                    &&& found.len == sent.len()
                })
            },
{
    if pre.result is None {
        let (sent, r) = choose|sent: Seq<u8>, r: Result<Option<ClusterReportReady>, ZclError>|
            #[trigger]
            CollectReportVisitor::collected(
                pre,
                meta,
                ServerStep::of(server, after),
                post,
                sent,
                r,
            );
        assert(C::collected(server, pre.now_ms, Seq::empty(), pre.buf@.len(), after, sent, r));
    }
}

/// The outcome of a report reaches the server that made it, and no other.
pub proof fn law_outcome_reaches_its_server<C: ClusterServer>(
    pre: ReportDeliveryVisitor,
    meta: ServerMeta,
    server: C,
    after: C,
    post: ReportDeliveryVisitor,
)
    requires
        ReportDeliveryVisitor::made(pre, meta, ServerStep::of(server, after), post),
    ensures
        meta.endpoint == pre.endpoint && meta.cluster == pre.cluster ==> C::delivered(
            server,
            pre.token,
            pre.result,
            pre.now_ms,
            after,
        ),
        meta.endpoint != pre.endpoint || meta.cluster != pre.cluster ==> after == server,
        post == pre,
{
}

/// Counts add up, and stop at the largest; a buffer that was too small is not forgotten.
pub proof fn law_diagnostics_add_up(a: ReportingDiagnostics, b: ReportingDiagnostics)
    ensures
        ({
            let both = a.merged(b);
            &&& both.coalesced_updates == if a.coalesced_updates + b.coalesced_updates <= 65535 {
                a.coalesced_updates + b.coalesced_updates
            } else {
                65535
            }
            &&& both.dropped_reports == if a.dropped_reports + b.dropped_reports <= 65535 {
                a.dropped_reports + b.dropped_reports
            } else {
                65535
            }
            &&& both.buffer_too_small <==> a.buffer_too_small || b.buffer_too_small
        }),
{
}

/// A server with a snapshot is saved as its cluster, its endpoint, the length and the
/// snapshot; one without, not at all. Saving changes no server.
pub proof fn law_saved_record_layout<C: ClusterServer>(
    pre: SaveStateVisitor,
    meta: ServerMeta,
    server: C,
    after: C,
    post: SaveStateVisitor,
)
    requires
        SaveStateVisitor::made(pre, meta, ServerStep::of(server, after), post),
        server.snapshot_bytes(256).len() <= 256,
    ensures
        after == server,
        ({
            let data = server.snapshot_bytes(256);
            let n = data.len();
            let added = post.saved@.skip(pre.saved@.len() as int);
            &&& post.saved@.take(pre.saved@.len() as int) == pre.saved@
            &&& n == 0 ==> added.len() == 0
            &&& n > 0 ==> {
                &&& added.len() == 5 + n
                &&& added[0] + 256 * added[1] == meta.cluster.id.0
                &&& added[2] == meta.endpoint
                &&& added[3] + 256 * added[4] == n
                &&& added.skip(5) == data
            }
        }),
{
    let data = server.snapshot_bytes(256);
    let added = post.saved@.skip(pre.saved@.len() as int);
    assert(added =~= SaveStateVisitor::record(meta, data));
    assert(post.saved@.take(pre.saved@.len() as int) =~= pre.saved@);
    if data.len() > 0 {
        assert(added.skip(5) =~= data);
    }
}

/// A saved record is restored at the servers of its cluster and endpoint, and at no other.
pub proof fn law_record_is_restored_at_its_server<C: ClusterServer>(
    pre: RestoreStateVisitor<'_>,
    meta: ServerMeta,
    server: C,
    after: C,
    post: RestoreStateVisitor<'_>,
)
    requires
        RestoreStateVisitor::made(pre, meta, ServerStep::of(server, after), post),
    ensures
        post == pre,
        meta.cluster.id.0 == pre.cluster_id && meta.endpoint == pre.endpoint ==> C::restored(
            server,
            pre.data@,
            after,
        ),
        meta.cluster.id.0 != pre.cluster_id || meta.endpoint != pre.endpoint ==> after == server,
{
}

/// A saved record is whole if it has its header and as many bytes as that says, 256 at most.
pub proof fn law_whole_records(data: Seq<u8>)
    ensures
        data.len() < 5 ==> Tour::record_len(data) is None,
        data.len() >= 5 && data[3] + 256 * data[4] > 256 ==> Tour::record_len(data) is None,
        data.len() >= 5 && data.len() < 5 + data[3] + 256 * data[4] ==> Tour::record_len(data)
            is None,
        data.len() >= 5 && data[3] + 256 * data[4] <= 256 && data.len() >= 5 + data[3] + 256
            * data[4] ==> Tour::record_len(data) == Some((5 + data[3] + 256 * data[4]) as nat),
{
}

/// How long the sensor waits for a frame: until its next deadline, at least one millisecond
/// and at most a minute.
pub proof fn law_poll_wait(at: u32, now_ms: u32, ms: int)
    requires
        wait(at, now_ms) == ms || wait(now_ms, at) == -ms,
        -0x8000_0000 < ms <= 0x8000_0000,
    ensures
        crate::sensor::poll_wait(None, now_ms) == 60000,
        ms <= 0 ==> crate::sensor::poll_wait(Some(at), now_ms) == 1,
        0 < ms <= 60000 ==> crate::sensor::poll_wait(Some(at), now_ms) == ms,
        ms > 60000 ==> crate::sensor::poll_wait(Some(at), now_ms) == 60000,
{
}

} // verus!
