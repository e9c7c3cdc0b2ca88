//! What a node does with what it receives, and how it sends its reports.

use vstd::prelude::*;

use crate::bdb::behavior::BdbState;
use crate::bdb::behavior::PollStep;
use crate::bdb::behavior::Received;
use crate::bdb::reports::Reports;
use crate::bdb::types::ApsDeliveryMode;
use crate::bdb::types::ApsdeSapIndication;
use crate::bdb::types::BdbError;
use crate::bdb::types::BdbEvent;
use crate::bdb::types::BindingEntry;
use crate::bdb::types::Command;
use crate::bdb::types::LeaveSource;
use crate::bdb::types::MacError;
use crate::bdb::types::NetworkError;
use crate::bdb::types::RejoinScan;
use crate::bdb::types::ShortAddress;
use crate::bdb::types::TransportKey;
use crate::bdb::types::ZigbeeDevicePoll;
use crate::bdb::zdp::Zdp;
use crate::context::DispatchContext;
use crate::context::DispatchOutcome;
use crate::context::ReportDeliveryResult;
use crate::context::ReportReady;
use crate::device::Device;
use crate::device::DispatchError;
use crate::device::EndpointDescriptor;
use crate::frame::IncomingZclFrame;

verus! {

/// Nothing came of a frame.
pub open spec fn nothing(step: PollStep) -> bool {
    step == PollStep::Done(Ok(BdbEvent::UnsupportedFrame))
}

/// A key that is sent is to be installed. A switch to a network key takes place if that key
/// is installed. Nothing comes of another command.
pub proof fn law_received_commands(
    pre: BdbState,
    command: Command,
    key: TransportKey,
    number: u8,
    post: BdbState,
    step: PollStep,
)
    requires
        Received::command_handled(pre, command, post, step),
    ensures
        command == Command::TransportKey(key) ==> post == pre && step == PollStep::Install(key),
        command == (Command::SwitchKey { key_seq_number: number }) ==> {
            if pre.nib.key_seq_numbers.contains(number) {
                &&& step == PollStep::Done(Ok(BdbEvent::TransportKeyInstalled))
                &&& post.nib.active_key_seq_number == number
                &&& post.nib.key_seq_numbers == pre.nib.key_seq_numbers
                &&& post.nib.network_address == pre.nib.network_address
                &&& post.on_network == pre.on_network
                &&& post.keys == pre.keys
                &&& post.bindings == pre.bindings
                &&& post.groups == pre.groups
            } else {
                post == pre && nothing(step)
            }
        },
        !(command is TransportKey) && !(command is SwitchKey) ==> post == pre && nothing(step),
{
}

/// An announcement that is whole is told to the application.
pub proof fn law_announcements_are_told(
    pre: BdbState,
    list: Seq<EndpointDescriptor>,
    indication: ApsdeSapIndication<'_>,
    source: u16,
    post: BdbState,
    step: PollStep,
)
    requires
        indication.src_address == crate::bdb::types::Address::Network(source),
        indication.cluster_id == 0x0013,
        indication.asdu@.len() >= 1,
        Received::zdo_handled(pre, list, indication, post, step),
    ensures
        post == pre,
        indication.asdu@.len() == 12 ==> (step matches PollStep::Done(
            Ok(BdbEvent::DeviceAnnounced(a)),
        ) && a.nwk_addr.0 == indication.asdu@[1] + 256 * indication.asdu@[2] && a.ieee_addr.0
            == crate::bdb::zdp_laws::number8(indication.asdu@, 3) && a.capability.0
            == indication.asdu@[11]),
        indication.asdu@.len() != 12 ==> nothing(step),
{
    let p = indication.asdu@.skip(1);
    crate::bdb::zdp_laws::law_announcement_is_read(p);
}

/// A response, on a cluster from 0x8000 to 0x8038, is told to the application with who sent
/// it, its number and up to 128 bytes of payload.
pub proof fn law_responses_are_told(
    pre: BdbState,
    list: Seq<EndpointDescriptor>,
    indication: ApsdeSapIndication<'_>,
    source: u16,
    post: BdbState,
    step: PollStep,
)
    requires
        indication.src_address == crate::bdb::types::Address::Network(source),
        0x8000 <= indication.cluster_id <= 0x8038,
        indication.asdu@.len() >= 1,
        Received::zdo_handled(pre, list, indication, post, step),
    ensures
        post == pre,
        indication.asdu@.len() <= 129 ==> (step matches PollStep::Done(
            Ok(BdbEvent::ZdoResponse { source: from, cluster_id, sequence, payload }),
        ) && from.0 == source && cluster_id == indication.cluster_id && sequence
            == indication.asdu@[0] && crate::bounded::payload_bytes(payload)
            == indication.asdu@.skip(1)),
        indication.asdu@.len() > 129 ==> step == PollStep::Done(Err(BdbError::UnsupportedFrame)),
{
}

/// A request is answered to the node that it came from, between endpoints 0, on the
/// request's cluster with the highest bit set.
pub proof fn law_requests_are_answered_to_their_source(
    pre: BdbState,
    list: Seq<EndpointDescriptor>,
    indication: ApsdeSapIndication<'_>,
    source: u16,
    post: BdbState,
    step: PollStep,
)
    requires
        indication.src_address == crate::bdb::types::Address::Network(source),
        indication.cluster_id < 0x8000,
        indication.cluster_id != 0x0013,
        indication.asdu@.len() >= 1,
        Received::zdo_handled(pre, list, indication, post, step),
    ensures
        ({
            let response = Zdp::response(
                pre.identity(),
                list,
                pre.bindings,
                ShortAddress(source),
                indication.cluster_id,
                indication.asdu@[0],
                indication.asdu@.skip(1),
            );
            match response {
                Some(bytes) => step matches PollStep::Reply { data, event } && {
                    &&& event == BdbEvent::UnsupportedFrame
                    &&& data.destination.0 == source
                    &&& data.dst_endpoint == 0
                    &&& data.src_endpoint == 0
                    &&& data.profile_id == 0
                    &&& data.cluster_id == indication.cluster_id + 0x8000
                    &&& data.asdu@ == bytes
                },
                None => nothing(step),
            }
        }),
        pre.identity().ieee_address == pre.nib.ieee_address,
        pre.identity().network_address == pre.nib.network_address,
        pre.identity().logical_type == pre.logical_type,
{
}

/// Only a frame that was delivered to this node alone counts as such for a cluster server,
/// which is then told who sent it.
pub proof fn law_context_of_a_frame(
    indication: ApsdeSapIndication<'_>,
    source: ShortAddress,
    now_ms: u32,
)
    ensures
        ({
            let ctx = Received::context(indication, source, now_ms);
            &&& ctx.now_ms == now_ms
            &&& ctx.is_unicast() <==> indication.delivery == ApsDeliveryMode::Unicast
            &&& indication.delivery == ApsDeliveryMode::Unicast ==> (ctx.source matches Some(peer)
                && peer.short_addr == source.0 && peer.endpoint == indication.src_endpoint)
            &&& indication.delivery != ApsDeliveryMode::Unicast ==> ctx.source is None
        }),
{
}

/// What a cluster server answers goes back to the endpoint that asked, from the endpoint
/// that was asked, on the same cluster and profile; with no answer none is sent. A frame
/// that the server could not read is not answered.
pub proof fn law_answers_go_back(
    pre: BdbState,
    indication: ApsdeSapIndication<'_>,
    source: ShortAddress,
    frame: IncomingZclFrame<'_>,
    ctx: DispatchContext,
    r: Result<DispatchOutcome, DispatchError>,
    buf: Seq<u8>,
    post: BdbState,
    step: PollStep,
)
    requires
        Received::zcl_answered(pre, indication, source, frame, ctx, r, buf, post, step),
        r matches Ok(outcome) ==> outcome.response_len <= buf.len(),
    ensures
        r is Ok && r->Ok_0.response_len > 0 ==> (step matches PollStep::Respond { data, event } && {
            &&& data.destination == source
            &&& data.dst_endpoint == indication.src_endpoint
            &&& data.src_endpoint == indication.dst_endpoint
            &&& data.profile_id == indication.profile_id
            &&& data.cluster_id == indication.cluster_id
            &&& data.asdu@ == buf.take(r->Ok_0.response_len as int)
            &&& event == (BdbEvent::ZclHandled {
                source,
                endpoint: indication.dst_endpoint,
                cluster_id: indication.cluster_id,
                response_sent: true,
            })
        }),
        r is Ok && r->Ok_0.response_len == 0 || r is Err && r->Err_0 is Codec ==> step
            == PollStep::Done(
            Ok(
                BdbEvent::ZclHandled {
                    source,
                    endpoint: indication.dst_endpoint,
                    cluster_id: indication.cluster_id,
                    response_sent: false,
                },
            ),
        ),
        r is Err ==> post == pre,
        r is Ok ==> post == pre.regrouped(r->Ok_0.effects.group, indication.dst_endpoint),
{
}

/// A frame for a cluster or an endpoint that is not there is refused with a default
/// response, if it was for this node alone and is no answer itself; else nothing is sent.
pub proof fn law_missing_clusters_are_refused(
    pre: BdbState,
    indication: ApsdeSapIndication<'_>,
    source: ShortAddress,
    frame: IncomingZclFrame<'_>,
    ctx: DispatchContext,
    e: DispatchError,
    buf: Seq<u8>,
    post: BdbState,
    step: PollStep,
)
    requires
        e is UnsupportedEndpoint || e is UnsupportedCluster,
        buf.len() >= 7,
        Received::zcl_answered(pre, indication, source, frame, ctx, Err(e), buf, post, step),
    ensures
        post == pre,
        if ctx.is_unicast() && !frame.command.is_final() {
            step matches PollStep::Respond { data, event } && {
                &&& data.destination == source
                &&& data.dst_endpoint == indication.src_endpoint
                &&& data.src_endpoint == indication.dst_endpoint
                &&& data.asdu@ == crate::wire_laws::answer_header(frame, false, 0x0b) + seq![
                    frame.command.code(),
                    0xc3u8,
                ]
            }
        } else {
            step == PollStep::Done(
                Ok(
                    BdbEvent::ZclHandled {
                        source,
                        endpoint: indication.dst_endpoint,
                        cluster_id: indication.cluster_id,
                        response_sent: false,
                    },
                ),
            )
        },
{
    assert(crate::dispatch::Dispatch::global_header(frame, 0x0b)
        =~= crate::wire_laws::answer_header(frame, false, 0x0b));
}

/// What comes of waiting without a frame: nothing, a rejoin or a departure if the network
/// asks for it, or the error.
pub proof fn law_poll_errors<D: Device>(
    pre: BdbState,
    before: D,
    e: NetworkError,
    buf: Seq<u8>,
    now_ms: u32,
    post: BdbState,
    after: D,
    step: PollStep,
)
    requires
        Received::handled(
            pre,
            before,
            Err::<ZigbeeDevicePoll<'_>, NetworkError>(e),
            buf,
            now_ms,
            post,
            after,
            step,
        ),
    ensures
        post == pre,
        after == before,
        e == NetworkError::MacError(MacError::NoData) || e == NetworkError::InvalidFrame ==> nothing(
            step,
        ),
        e == (NetworkError::LeaveRequested { rejoin: true }) ==> (step matches PollStep::Rejoin(
            request,
        ) && request.extended_pan_id == pre.nib.extended_pan_id && request.capability_information
            == pre.nib.capability_information && request.secure && request.scan
            == RejoinScan::SameChannel),
        e == (NetworkError::LeaveRequested { rejoin: false }) ==> (step matches PollStep::Leave(
            request,
        ) && !request.rejoin && !request.remove_children && request.source
            == (LeaveSource::NetworkRequest { source: ShortAddress(0xffff) })),
        e != NetworkError::MacError(MacError::NoData) && e != NetworkError::InvalidFrame && !(
        e is LeaveRequested) ==> step == PollStep::Done(Err(BdbError::NetworkError(e))),
{
}

/// Only frames for endpoint 0 and profile 0 are device discovery; they do not touch the
/// cluster servers.
pub proof fn law_discovery_leaves_the_servers<D: Device>(
    pre: BdbState,
    before: D,
    indication: ApsdeSapIndication<'_>,
    buf: Seq<u8>,
    now_ms: u32,
    post: BdbState,
    after: D,
    step: PollStep,
)
    requires
        Received::data_handled(pre, before, indication, buf, now_ms, post, after, step),
    ensures
        indication.dst_endpoint == 0 && indication.profile_id == 0 ==> after == before
            && Received::zdo_handled(pre, before.endpoint_list(), indication, post, step),
        indication.dst_endpoint != 0 || indication.profile_id != 0 ==> Received::zcl_handled(
            pre,
            before,
            indication,
            buf,
            now_ms,
            post,
            after,
            step,
        ),
{
}

/// A frame without a short source address, an empty one and one that cannot be decoded are
/// ignored.
pub proof fn law_unreadable_frames_are_ignored<D: Device>(
    pre: BdbState,
    before: D,
    indication: ApsdeSapIndication<'_>,
    buf: Seq<u8>,
    now_ms: u32,
    post: BdbState,
    after: D,
    step: PollStep,
)
    requires
        !(indication.src_address is Network) || indication.asdu@.len() == 0,
        Received::data_handled(pre, before, indication, buf, now_ms, post, after, step),
    ensures
        post == pre,
        after == before,
        nothing(step),
{
}

/// A report is a general command from the server that wants no response, with number 0,
/// then the records.
pub proof fn law_report_frame_layout(records: Seq<u8>)
    ensures
        Reports::frame(records).len() == 3 + records.len(),
        Reports::frame(records)[0] == 0x18,
        Reports::frame(records)[1] == 0,
        Reports::frame(records)[2] == 0x0a,
        Reports::frame(records).skip(3) == records,
{
    assert(Reports::frame(records).skip(3) =~= records);
}

/// A report to one peer goes to that peer alone, from the server's endpoint.
pub proof fn law_report_to_one_peer(
    bindings: Seq<BindingEntry>,
    ready: ReportReady,
    asdu: Seq<u8>,
)
    requires
        ready.destination is Unicast,
    ensures
        ({
            let frames = Reports::frames(bindings, ready, asdu);
            let peer = ready.destination->Unicast_0;
            &&& frames.len() == 1
            &&& frames[0].destination.0 == peer.short_addr
            &&& frames[0].dst_endpoint == peer.endpoint
            &&& frames[0].profile_id == ready.profile_id
            &&& frames[0].cluster_id == ready.cluster.id.0
            &&& frames[0].src_endpoint == ready.endpoint
            &&& frames[0].asdu == asdu
        }),
{
}

/// A report to bound peers goes to the destination of every binding of its endpoint and
/// cluster, as the binding says.
pub proof fn law_report_to_bound_peers(
    bindings: Seq<BindingEntry>,
    ready: ReportReady,
    asdu: Seq<u8>,
    e: BindingEntry,
    i: int,
)
    requires
        ready.destination is Bound,
    ensures
        ({
            let frames = Reports::frames(bindings, ready, asdu);
            &&& bindings.contains(e) && e.src_endpoint == ready.endpoint && e.cluster_id
                == ready.cluster.id.0 ==> exists|k: int|
                0 <= k < frames.len() && (#[trigger] frames[k]).destination.0 == e.dst_short_addr
                    && frames[k].dst_endpoint == e.dst_endpoint && frames[k].profile_id
                    == e.profile_id && frames[k].cluster_id == e.cluster_id
                    && frames[k].src_endpoint == e.src_endpoint && frames[k].asdu == asdu
            &&& 0 <= i < frames.len() ==> frames[i].src_endpoint == ready.endpoint
                && frames[i].cluster_id == ready.cluster.id.0 && frames[i].asdu == asdu
        }),
{
    let keep = Reports::concerns(ready);
    let some = bindings.filter(keep);
    let frames = Reports::frames(bindings, ready, asdu);
    if bindings.contains(e) && e.src_endpoint == ready.endpoint && e.cluster_id
        == ready.cluster.id.0 {
        let at = choose|at: int| 0 <= at < bindings.len() && bindings[at] == e;
        bindings.lemma_filter_contains(keep, at);
        let k = choose|k: int| 0 <= k < some.len() && some[k] == e;
        assert(frames[k].destination.0 == e.dst_short_addr);
    }
    if 0 <= i < frames.len() {
        bindings.lemma_filter_pred(keep, i);
    }
}

/// A report counts as sent exactly if it went to somebody and every frame of it was sent.
pub proof fn law_when_a_report_counts_as_sent(sent: Seq<bool>, k: int)
    ensures
        sent.len() == 0 ==> Reports::outcome(sent) == ReportDeliveryResult::Failed,
        0 <= k < sent.len() && !sent[k] ==> Reports::outcome(sent) == ReportDeliveryResult::Failed,
        sent.len() > 0 && (forall|i: int| 0 <= i < sent.len() ==> #[trigger] sent[i])
            ==> Reports::outcome(sent) == ReportDeliveryResult::Sent,
{
}

} // verus!
