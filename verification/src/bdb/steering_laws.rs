//! How steering into a network goes on, event by event.

use vstd::prelude::*;

use crate::bdb::behavior::BdbState;
use crate::bdb::channels::ChannelMask;
use crate::bdb::channels::ScanDuration;
use crate::bdb::exchange::ExchangeAction;
use crate::bdb::exchange::ExchangePhase;
use crate::bdb::exchange::ExchangeStep;
use crate::bdb::steering::Steering;
use crate::bdb::steering::SteeringAction;
use crate::bdb::steering::SteeringEvent;
use crate::bdb::steering::SteeringPhase;
use crate::bdb::steering::SteeringRequest;
use crate::bdb::steering::SteeringScan;
use crate::bdb::steering::SteeringStep;
use crate::bdb::steering::SteeringTarget;
use crate::bdb::types::ApsGroup;
use crate::bdb::types::BdbCommissioningStatus;
use crate::bdb::types::BdbError;
use crate::bdb::types::CapabilityInformation;
use crate::bdb::types::Command;
use crate::bdb::types::NetworkError;
use crate::bdb::types::NlmeJoinConfirm;
use crate::bdb::types::NlmeJoinStatus;
use crate::bdb::types::NwkNeighbor;
use crate::bdb::types::RejoinScan;
use crate::context::GroupEffect;

verus! {

/// A neighbour lets a node in that joins as a router, or as an end device: its network
/// permits joining, it can be a parent, and it has room for such a child.
pub open spec fn lets_in(n: NwkNeighbor, as_router: bool) -> bool {
    &&& n.permit_joining
    &&& n.potential_parent == 1
    &&& as_router ==> n.router_capacity
    &&& !as_router ==> n.end_device_capacity
}

/// The first open network is that of the first neighbour that lets the node in.
pub proof fn law_first_open_network(neighbors: Seq<NwkNeighbor>, as_router: bool, k: int)
    ensures
        0 <= k < neighbors.len() && lets_in(neighbors[k], as_router) && (forall|j: int|
            0 <= j < k ==> !lets_in(#[trigger] neighbors[j], as_router)) ==> Steering::first_open(
            neighbors,
            as_router,
        ) == Some(neighbors[k].extended_pan_id),
        (forall|j: int|
            0 <= j < neighbors.len() ==> !lets_in(#[trigger] neighbors[j], as_router))
            ==> Steering::first_open(neighbors, as_router) is None,
    decreases neighbors.len(),
{
    if neighbors.len() > 0 {
        let rest = neighbors.skip(1);
        law_first_open_network(rest, as_router, k - 1);
        if k > 0 && k < neighbors.len() {
            assert(rest[k - 1] == neighbors[k]);
        }
        if forall|j: int| 0 <= j < k ==> !lets_in(#[trigger] neighbors[j], as_router) {
            assert forall|j: int| 0 <= j < k - 1 && j < rest.len() implies !lets_in(
                #[trigger] rest[j],
                as_router,
            ) by {
                assert(rest[j] == neighbors[j + 1]);
            }
            if k > 0 {
                assert(!lets_in(neighbors[0], as_router));
            }
        }
        if forall|j: int| 0 <= j < neighbors.len() ==> !lets_in(#[trigger] neighbors[j], as_router) {
            assert(!lets_in(neighbors[0], as_router));
            assert forall|j: int| 0 <= j < rest.len() implies !lets_in(
                #[trigger] rest[j],
                as_router,
            ) by {
                assert(rest[j] == neighbors[j + 1]);
            }
        }
    }
}

/// Bit 1 of a node's capabilities says that it joins as a router.
pub proof fn law_router_bit(c: CapabilityInformation)
    ensures
        c.is_router() <==> c.0 % 4 >= 2,
{
}

/// After discovery a node joins the network that was asked for, or the first open one, with
/// the capabilities that were asked for and without security; where there is none, it gives
/// up.
pub proof fn law_joining_after_discovery(
    pre: BdbState,
    request: SteeringRequest,
    first: u8,
    end: u8,
    duration: u8,
    channel: u8,
    post: BdbState,
    step: SteeringStep,
)
    requires
        request.scan == (SteeringScan::Range { first, end, duration }),
        Steering::stepped(
            pre,
            request,
            SteeringPhase::Discovering { channel },
            SteeringEvent::Discovered(Ok(())),
            post,
            step,
        ),
    ensures
        post == pre,
        ({
            let network = match request.target {
                SteeringTarget::Network(id) => Some(id),
                SteeringTarget::AnyOpen => Steering::first_open(
                    pre.nib.neighbors,
                    request.capability_information.0 % 4 >= 2,
                ),
            };
            match network {
                Some(id) => step matches SteeringStep::Act(
                    SteeringPhase::Joining,
                    SteeringAction::Join(join),
                ) && join.extended_pan_id == id && join.capability_information
                    == request.capability_information && !join.security_enabled,
                None => step == SteeringStep::Done(Err(BdbError::NoNetwork)),
            }
        }),
{
}

/// Channels of a set are scanned one by one, in ascending order and each for the duration
/// asked for: none is passed over, and joining begins when none is left.
pub proof fn law_channels_are_scanned_in_order(
    pre: BdbState,
    request: SteeringRequest,
    channels: ChannelMask,
    scan_duration: ScanDuration,
    channel: u8,
    post: BdbState,
    step: SteeringStep,
    other: u8,
)
    requires
        request.scan == (SteeringScan::Mask { channels, scan_duration }),
        channel < other <= 26,
        channels.has(other),
        Steering::stepped(
            pre,
            request,
            SteeringPhase::Discovering { channel },
            SteeringEvent::Discovered(Ok(())),
            post,
            step,
        ),
    ensures
        post == pre,
        step matches SteeringStep::Act(
            SteeringPhase::Discovering { channel: next },
            SteeringAction::Discover { first, end, duration },
        ) && channel < next <= other && channels.has(next) && first == next && end == next + 1
            && duration == scan_duration.value(),
{
    assert(channels.has(other));
}

/// The first channel scanned is the lowest of the set.
pub proof fn law_lowest_channel_is_first(
    channels: ChannelMask,
    scan_duration: ScanDuration,
    phase: SteeringPhase,
    action: SteeringAction,
    other: u8,
)
    requires
        11 <= other <= 26,
        channels.has(other),
        Steering::begun(SteeringScan::Mask { channels, scan_duration }, phase, action),
    ensures
        phase matches SteeringPhase::Discovering { channel } && 11 <= channel <= other
            && channels.has(channel) && (action matches SteeringAction::Discover {
            first,
            end,
            duration,
        } && first == channel && end == channel + 1 && duration == scan_duration.value()),
{
    assert(channels.has(other));
}

/// Whatever fails on the way ends steering with that error, and changes nothing.
pub proof fn law_failures_end_steering(
    pre: BdbState,
    request: SteeringRequest,
    phase: SteeringPhase,
    e: NetworkError,
    event: SteeringEvent,
    post: BdbState,
    step: SteeringStep,
)
    requires
        event == SteeringEvent::Discovered(Err(e)) || event == SteeringEvent::KeyPolled(Err(e))
            || event == SteeringEvent::Announced(Err(e)),
        Steering::stepped(pre, request, phase, event, post, step),
    ensures
        post == pre,
        step == SteeringStep::Done(Err(BdbError::NetworkError(e))),
{
}

/// A node that was let in waits for the network key; one that was not gives up, with the
/// reason.
pub proof fn law_joined_or_refused(
    pre: BdbState,
    request: SteeringRequest,
    confirm: NlmeJoinConfirm,
    post: BdbState,
    step: SteeringStep,
)
    requires
        Steering::stepped(
            pre,
            request,
            SteeringPhase::Joining,
            SteeringEvent::Joined(confirm),
            post,
            step,
        ),
    ensures
        confirm.status == NlmeJoinStatus::Success ==> post == pre && step == SteeringStep::Act(
            SteeringPhase::AwaitingKey { confirm },
            SteeringAction::PollTransportKey,
        ),
        confirm.status != NlmeJoinStatus::Success ==> step == SteeringStep::Done(
            Err(BdbError::JoinFailed(confirm.status)),
        ) && post == (BdbState { status: BdbCommissioningStatus::NoNetwork, ..pre }),
{
}

/// With the network key a node is in the network, and announces itself under both its
/// addresses with the capabilities asked for; once announced, it asks the trust center for
/// a link key.
pub proof fn law_key_then_announcement_then_exchange(
    pre: BdbState,
    request: SteeringRequest,
    confirm: NlmeJoinConfirm,
    post: BdbState,
    step: SteeringStep,
)
    ensures
        Steering::stepped(
            pre,
            request,
            SteeringPhase::AwaitingKey { confirm },
            SteeringEvent::KeyPolled(Ok(())),
            post,
            step,
        ) ==> {
            &&& post == (BdbState { on_network: true, ..pre })
            &&& step matches SteeringStep::Act(
                SteeringPhase::Announcing { confirm: c },
                SteeringAction::Announce(a),
            ) && c == confirm && a.nwk_addr.0 == pre.nib.network_address && a.ieee_addr
                == pre.nib.ieee_address && a.capability == request.capability_information
        },
        Steering::stepped(
            pre,
            request,
            SteeringPhase::Announcing { confirm },
            SteeringEvent::Announced(Ok(())),
            post,
            step,
        ) ==> {
            &&& post == pre
            &&& step matches SteeringStep::Act(
                SteeringPhase::Exchanging { confirm: c, exchange },
                SteeringAction::Exchange(
                    ExchangeAction::SendCommand { destination, destination_ieee, command },
                ),
            ) && c == confirm && exchange == (ExchangePhase::Requesting { attempts: 0 })
                && destination.0 == 0 && destination_ieee == pre.trust_center_address && command
                == Command::RequestTrustCenterLinkKey
        },
{
}

/// How steering ends with the exchange: with success if the key was exchanged or the trust
/// center has none for this node; by rejoining or leaving if the network asks for that; and
/// with the error of any other failure.
pub proof fn law_end_of_the_exchange(
    mid: BdbState,
    confirm: NlmeJoinConfirm,
    ended: Result<(), NetworkError>,
    post: BdbState,
    step: SteeringStep,
)
    requires
        Steering::exchanged(mid, confirm, ExchangeStep::Done(ended), post, step),
    ensures
        ended is Ok || ended == Err::<(), NetworkError>(NetworkError::NoTransportKey) ==> step
            == SteeringStep::Done(Ok(confirm)) && post == (BdbState {
            status: BdbCommissioningStatus::Success,
            ..mid
        }),
        ended == Err::<(), NetworkError>(NetworkError::LeaveRequested { rejoin: true }) ==> post
            == mid && (step matches SteeringStep::Act(
            SteeringPhase::Rejoining,
            SteeringAction::Rejoin(request),
        ) && request.extended_pan_id == mid.nib.extended_pan_id && request.capability_information
            == mid.nib.capability_information && request.secure && request.scan
            == RejoinScan::SameChannel),
        ended == Err::<(), NetworkError>(NetworkError::LeaveRequested { rejoin: false }) ==> step
            == SteeringStep::Done(
            Err(BdbError::NetworkError(NetworkError::LeaveRequested { rejoin: false })),
        ) && post == (BdbState {
            on_network: false,
            status: BdbCommissioningStatus::NotOnANetwork,
            ..mid
        }),
        ended is Err && ended->Err_0 != NetworkError::NoTransportKey && !(
        ended->Err_0 is LeaveRequested) ==> post == mid && step == SteeringStep::Done(
            Err(BdbError::NetworkError(ended->Err_0)),
        ),
{
}

/// A node that rejoined is in the network and announces itself; one that could not is out of
/// it.
pub proof fn law_rejoined_or_out(
    pre: BdbState,
    request: SteeringRequest,
    confirm: NlmeJoinConfirm,
    post: BdbState,
    step: SteeringStep,
)
    requires
        Steering::stepped(
            pre,
            request,
            SteeringPhase::Rejoining,
            SteeringEvent::Rejoined(confirm),
            post,
            step,
        ),
    ensures
        confirm.status == NlmeJoinStatus::Success ==> post == (BdbState {
            on_network: true,
            status: BdbCommissioningStatus::Success,
            ..pre
        }) && (step matches SteeringStep::Act(
            SteeringPhase::Reannouncing { confirm: c },
            SteeringAction::Announce(a),
        ) && c == confirm && a.nwk_addr.0 == pre.nib.network_address && a.ieee_addr
            == pre.nib.ieee_address && a.capability == pre.nib.capability_information),
        confirm.status != NlmeJoinStatus::Success ==> post == (BdbState {
            on_network: false,
            status: BdbCommissioningStatus::NotOnANetwork,
            ..pre
        }) && step == SteeringStep::Done(Err(BdbError::JoinFailed(confirm.status))),
{
}

/// What a command of a groups cluster does to the memberships of its endpoint: a group is
/// entered if there are fewer than sixteen memberships, taken out, or all are; the
/// memberships of other endpoints stay.
pub proof fn law_memberships_follow_the_effect(
    s: BdbState,
    group: u16,
    endpoint: u8,
    other: ApsGroup,
)
    ensures
        ({
            let named = ApsGroup { group_address: group, endpoint };
            let added = s.regrouped(GroupEffect::Added(group), endpoint);
            let removed = s.regrouped(GroupEffect::Removed(group), endpoint);
            let cleared = s.regrouped(GroupEffect::AllRemoved, endpoint);
            &&& s.groups.contains(named) || s.groups.len() < 16 ==> (added.groups.contains(other)
                <==> other == named || s.groups.contains(other))
            &&& !s.groups.contains(named) && s.groups.len() >= 16 ==> added.groups == s.groups
            &&& removed.groups.contains(other) <==> s.groups.contains(other) && other != named
            &&& cleared.groups.contains(other) <==> s.groups.contains(other) && other.endpoint
                != endpoint
            &&& s.regrouped(GroupEffect::Nothing, endpoint) == s
            &&& added == (BdbState { groups: added.groups, ..s })
            &&& removed == (BdbState { groups: removed.groups, ..s })
            &&& cleared == (BdbState { groups: cleared.groups, ..s })
        }),
{
    let named = ApsGroup { group_address: group, endpoint };
    crate::bdb::zdp_laws::law_table_entries(s.groups, named, other, 16);
    let added = s.regrouped(GroupEffect::Added(group), endpoint);
    if !s.groups.contains(named) && s.groups.len() < 16 {
        assert(added.groups == s.groups + seq![named]);
        if s.groups.contains(other) {
            let k = choose|k: int| 0 <= k < s.groups.len() && s.groups[k] == other;
            assert(added.groups[k] == other);
        }
        assert(added.groups[s.groups.len() as int] == named);
    }
    let keep = crate::bdb::tables::GroupTable::of_others(endpoint);
    let after = s.groups.filter(keep);
    if after.contains(other) {
        let k = choose|k: int| 0 <= k < after.len() && after[k] == other;
        s.groups.lemma_filter_pred(keep, k);
        s.groups.lemma_filter_contains_rev(keep, other);
    }
    if s.groups.contains(other) && other.endpoint != endpoint {
        let k = choose|k: int| 0 <= k < s.groups.len() && s.groups[k] == other;
        s.groups.lemma_filter_contains(keep, k);
    }
}

} // verus!
