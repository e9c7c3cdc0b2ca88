//! Network steering: a node that is in no network finds one and joins it.
//!
//! Discover networks, join one, receive the network key, announce this node, and
//! exchange the link key.

use vstd::prelude::*;

use crate::bdb::behavior::BaseDeviceBehavior;
use crate::bdb::behavior::BdbState;
use crate::bdb::channels::ChannelMask;
use crate::bdb::channels::ScanDuration;
use crate::bdb::channels::FIRST_CHANNEL;
use crate::bdb::channels::LAST_CHANNEL;
use crate::bdb::exchange::Exchange;
use crate::bdb::exchange::ExchangeAction;
use crate::bdb::exchange::ExchangeEvent;
use crate::bdb::exchange::ExchangePhase;
use crate::bdb::exchange::ExchangeStep;
use crate::bdb::types::BdbCommissioningStatus;
use crate::bdb::types::BdbError;
use crate::bdb::types::CapabilityInformation;
use crate::bdb::types::Command;
use crate::bdb::types::DeviceAnnce;
use crate::bdb::types::IeeeAddress;
use crate::bdb::types::NetworkError;
use crate::bdb::types::NlmeJoinConfirm;
use crate::bdb::types::NlmeJoinRequest;
use crate::bdb::types::NlmeJoinStatus;
use crate::bdb::types::NlmeRejoinRequest;
use crate::bdb::types::NwkNeighbor;

verus! {

/// Which network to join.
#[derive(Clone, Copy, Debug, PartialEq, Eq, Structural)]
pub enum SteeringTarget {
    Network(IeeeAddress),
    /// The first one found that lets this node in.
    AnyOpen,
}

/// Which channels to scan.
#[derive(Clone, Copy, Debug, PartialEq, Eq, Structural)]
pub enum SteeringScan {
    /// All channels from `first` up to but not including `end`, at once.
    Range { first: u8, end: u8, duration: u8 },
    /// The channels of a set, one after the other.
    Mask { channels: ChannelMask, scan_duration: ScanDuration },
}

/// How to find and join a network.
#[derive(Clone, Copy, Debug, PartialEq, Eq, Structural)]
pub struct SteeringRequest {
    pub target: SteeringTarget,
    pub scan: SteeringScan,
    pub capability_information: CapabilityInformation,
}

/// How far steering has come.
#[derive(Clone, Copy, Debug, PartialEq, Eq)]
pub enum SteeringPhase {
    /// Networks are being discovered, on this channel where channels are scanned one
    /// after the other.
    Discovering { channel: u8 },
    Joining,
    /// This node has joined and waits for the network key.
    AwaitingKey { confirm: NlmeJoinConfirm },
    /// This node is in the network and is being announced.
    Announcing { confirm: NlmeJoinConfirm },
    /// The link key is being exchanged.
    Exchanging { confirm: NlmeJoinConfirm, exchange: ExchangePhase },
    /// The network wanted this node to rejoin, which it is doing.
    Rejoining,
    /// This node has rejoined and is being announced.
    Reannouncing { confirm: NlmeJoinConfirm },
}

/// What is to be done next.
#[derive(Clone, Copy, Debug, PartialEq, Eq)]
pub enum SteeringAction {
    /// Discover the networks on the channels from `first` up to but not including
    /// `end`.
    Discover { first: u8, end: u8, duration: u8 },
    Join(NlmeJoinRequest),
    /// Poll for the network key.
    PollTransportKey,
    Announce(DeviceAnnce),
    Exchange(ExchangeAction),
    Rejoin(NlmeRejoinRequest),
}

/// What came of the last action.
#[derive(Clone, Copy, Debug, PartialEq, Eq)]
pub enum SteeringEvent {
    Discovered(Result<(), NetworkError>),
    Joined(NlmeJoinConfirm),
    KeyPolled(Result<(), NetworkError>),
    Announced(Result<(), NetworkError>),
    Exchanged(ExchangeEvent),
    Rejoined(NlmeJoinConfirm),
}

/// How steering goes on.
#[derive(Clone, Copy, Debug, PartialEq, Eq)]
pub enum SteeringStep {
    Act(SteeringPhase, SteeringAction),
    Done(Result<NlmeJoinConfirm, BdbError>),
}

impl SteeringScan {
    pub open spec fn wf(self) -> bool {
        self matches SteeringScan::Mask { channels, .. } ==> channels.wf()
    }

    /// `channel` is the first one of the set from `from` on.
    pub open spec fn is_next(channels: ChannelMask, from: int, channel: u8) -> bool {
        &&& from <= channel <= LAST_CHANNEL
        &&& channels.has(channel)
        &&& forall|c: u8| from <= c < channel ==> !#[trigger] channels.has(c)
    }

    /// No channel of the set is left from `from` on.
    pub open spec fn none_from(channels: ChannelMask, from: int) -> bool {
        forall|c: u8| from <= c <= LAST_CHANNEL ==> !#[trigger] channels.has(c)
    }
}

impl SteeringPhase {
    /// The event is what this phase waits for.
    pub open spec fn expects(self, event: SteeringEvent) -> bool {
        match self {
            SteeringPhase::Discovering { .. } => event is Discovered,
            SteeringPhase::Joining => event is Joined,
            SteeringPhase::AwaitingKey { .. } => event is KeyPolled,
            SteeringPhase::Announcing { .. } | SteeringPhase::Reannouncing { .. } => {
                event is Announced
            },
            SteeringPhase::Exchanging { exchange, .. } => event matches SteeringEvent::Exchanged(e)
                && exchange.expects(e),
            SteeringPhase::Rejoining => event is Rejoined,
        }
    }

    pub open spec fn wf(self, scan: SteeringScan) -> bool {
        match self {
            SteeringPhase::Discovering { channel } => scan is Mask ==> FIRST_CHANNEL <= channel
                <= LAST_CHANNEL,
            SteeringPhase::Exchanging { exchange, .. } => exchange.wf(),
            _ => true,
        }
    }

    /// What holds of a node in this phase.
    pub open spec fn holds(self, state: BdbState) -> bool {
        match self {
            SteeringPhase::AwaitingKey { confirm } => confirm.status == NlmeJoinStatus::Success,
            SteeringPhase::Announcing { confirm } | SteeringPhase::Exchanging { confirm, .. } => {
                confirm.status == NlmeJoinStatus::Success && state.on_network
            },
            SteeringPhase::Reannouncing { confirm } => {
                &&& confirm.status == NlmeJoinStatus::Success
                &&& state.on_network
                &&& state.status == BdbCommissioningStatus::Success
            },
            _ => true,
        }
    }

    /// How many events can still come, at most.
    pub open spec fn remaining(self) -> int {
        let exchange = ExchangePhase::Requesting { attempts: 0 }.remaining();
        match self {
            SteeringPhase::Discovering { channel } => exchange + 6 + if channel <= LAST_CHANNEL {
                LAST_CHANNEL - channel
            } else {
                0
            },
            SteeringPhase::Joining => exchange + 5,
            SteeringPhase::AwaitingKey { .. } => exchange + 4,
            SteeringPhase::Announcing { .. } => exchange + 3,
            SteeringPhase::Exchanging { exchange: e, .. } => e.remaining() + 2,
            SteeringPhase::Rejoining => 2,
            SteeringPhase::Reannouncing { .. } => 1,
        }
    }
}

/// Specification functions of steering.
pub struct Steering;

impl Steering {
    /// The discovery of networks on one channel.
    pub open spec fn discover_one(channel: u8, duration: ScanDuration) -> SteeringAction {
        SteeringAction::Discover {
            first: channel,
            end: (channel + 1) as u8,
            duration: duration.value(),
        }
    }

    /// Steering begins with this.
    pub open spec fn begun(scan: SteeringScan, phase: SteeringPhase, action: SteeringAction) -> bool {
        match scan {
            SteeringScan::Range { first, end, duration } => {
                &&& phase == (SteeringPhase::Discovering { channel: first })
                &&& action == (SteeringAction::Discover { first, end, duration })
            },
            SteeringScan::Mask { channels, scan_duration } => {
                &&& phase matches SteeringPhase::Discovering { channel } && SteeringScan::is_next(
                    channels,
                    FIRST_CHANNEL as int,
                    channel,
                ) && action == Self::discover_one(channel, scan_duration)
            },
        }
    }

    /// The first neighbour that lets a node in.
    pub open spec fn first_open(neighbors: Seq<NwkNeighbor>, as_router: bool) -> Option<IeeeAddress>
        decreases neighbors.len(),
    {
        if neighbors.len() == 0 {
            None
        } else if neighbors[0].takes(as_router) {
            Some(neighbors[0].extended_pan_id)
        } else {
            Self::first_open(neighbors.skip(1), as_router)
        }
    }

    /// The network to join.
    pub open spec fn chosen(state: BdbState, request: SteeringRequest) -> Option<IeeeAddress> {
        match request.target {
            SteeringTarget::Network(id) => Some(id),
            SteeringTarget::AnyOpen => Self::first_open(
                state.nib.neighbors,
                request.capability_information.is_router(),
            ),
        }
    }

    /// Discovery is over: join a network, if there is one to join.
    pub open spec fn join(state: BdbState, request: SteeringRequest) -> SteeringStep {
        match Self::chosen(state, request) {
            Some(extended_pan_id) => SteeringStep::Act(
                SteeringPhase::Joining,
                SteeringAction::Join(
                    NlmeJoinRequest {
                        extended_pan_id,
                        capability_information: request.capability_information,
                        security_enabled: false,
                    },
                ),
            ),
            None => SteeringStep::Done(Err(BdbError::NoNetwork)),
        }
    }

    /// Go on after a channel, or all of them, were scanned.
    pub open spec fn scanned(
        state: BdbState,
        request: SteeringRequest,
        channel: u8,
        step: SteeringStep,
    ) -> bool {
        match request.scan {
            SteeringScan::Range { .. } => step == Self::join(state, request),
            SteeringScan::Mask { channels, scan_duration } => {
                ||| SteeringScan::none_from(channels, channel + 1) && step == Self::join(
                    state,
                    request,
                )
                ||| step matches SteeringStep::Act(
                    SteeringPhase::Discovering { channel: next },
                    action,
                ) && SteeringScan::is_next(channels, channel + 1, next) && action
                    == Self::discover_one(next, scan_duration)
            },
        }
    }

    /// Go on after the exchange of the link key, which changed `pre` to `mid`.
    pub open spec fn exchanged(
        mid: BdbState,
        confirm: NlmeJoinConfirm,
        exchange: ExchangeStep,
        post: BdbState,
        step: SteeringStep,
    ) -> bool {
        match exchange {
            ExchangeStep::Act(next, action) => {
                &&& post == mid
                &&& step == SteeringStep::Act(
                    SteeringPhase::Exchanging { confirm, exchange: next },
                    SteeringAction::Exchange(action),
                )
            },
            // Without a key of its own the node goes on with the trust center's.
            ExchangeStep::Done(Ok(_))
            | ExchangeStep::Done(Err(NetworkError::NoTransportKey)) => {
                &&& post == (BdbState { status: BdbCommissioningStatus::Success, ..mid })
                &&& step == SteeringStep::Done(Ok(confirm))
            },
            ExchangeStep::Done(Err(NetworkError::LeaveRequested { rejoin: true })) => {
                &&& post == mid
                &&& step == SteeringStep::Act(
                    SteeringPhase::Rejoining,
                    SteeringAction::Rejoin(mid.rejoin_request()),
                )
            },
            ExchangeStep::Done(Err(NetworkError::LeaveRequested { rejoin: false })) => {
                &&& post == mid.left()
                &&& step == SteeringStep::Done(
                    Err(
                        BdbError::NetworkError(NetworkError::LeaveRequested { rejoin: false }),
                    ),
                )
            },
            ExchangeStep::Done(Err(e)) => {
                &&& post == mid
                &&& step == SteeringStep::Done(Err(BdbError::NetworkError(e)))
            },
        }
    }

    /// An event took steering from `pre` and `phase` to `post`, to go on with `step`.
    pub open spec fn stepped(
        pre: BdbState,
        request: SteeringRequest,
        phase: SteeringPhase,
        event: SteeringEvent,
        post: BdbState,
        step: SteeringStep,
    ) -> bool {
        match (phase, event) {
            (_, SteeringEvent::Discovered(Err(e)))
            | (_, SteeringEvent::KeyPolled(Err(e)))
            | (_, SteeringEvent::Announced(Err(e))) => post == pre && step == SteeringStep::Done(
                Err(BdbError::NetworkError(e)),
            ),
            (
                SteeringPhase::Discovering { channel },
                SteeringEvent::Discovered(Ok(_)),
            ) => post == pre && Self::scanned(pre, request, channel, step),
            (SteeringPhase::Joining, SteeringEvent::Joined(confirm)) => if confirm.status
                == NlmeJoinStatus::Success {
                &&& post == pre
                &&& step == SteeringStep::Act(
                    SteeringPhase::AwaitingKey { confirm },
                    SteeringAction::PollTransportKey,
                )
            } else {
                &&& post == (BdbState { status: BdbCommissioningStatus::NoNetwork, ..pre })
                &&& step == SteeringStep::Done(Err(BdbError::JoinFailed(confirm.status)))
            },
            (SteeringPhase::AwaitingKey { confirm }, SteeringEvent::KeyPolled(Ok(_))) => {
                &&& post == (BdbState { on_network: true, ..pre })
                &&& step == SteeringStep::Act(
                    SteeringPhase::Announcing { confirm },
                    SteeringAction::Announce(pre.announcement(request.capability_information)),
                )
            },
            (SteeringPhase::Announcing { confirm }, SteeringEvent::Announced(Ok(_))) => {
                &&& post == pre
                &&& step == SteeringStep::Act(
                    SteeringPhase::Exchanging {
                        confirm,
                        exchange: ExchangePhase::Requesting { attempts: 0 },
                    },
                    SteeringAction::Exchange(
                        Exchange::send(pre, Command::RequestTrustCenterLinkKey),
                    ),
                )
            },
            (
                SteeringPhase::Exchanging { confirm, exchange },
                SteeringEvent::Exchanged(e),
            ) => exists|mid: BdbState, inner: ExchangeStep| #[trigger]
                Exchange::stepped(pre, exchange, e, mid, inner) && Self::exchanged(
                    mid,
                    confirm,
                    inner,
                    post,
                    step,
                ),
            (SteeringPhase::Rejoining, SteeringEvent::Rejoined(confirm)) => {
                &&& post == pre.rejoined(confirm)
                &&& step == if confirm.status == NlmeJoinStatus::Success {
                    SteeringStep::Act(
                        SteeringPhase::Reannouncing { confirm },
                        SteeringAction::Announce(
                            pre.announcement(pre.nib.capability_information),
                        ),
                    )
                } else {
                    SteeringStep::Done(Err(BdbError::JoinFailed(confirm.status)))
                }
            },
            (SteeringPhase::Reannouncing { confirm }, SteeringEvent::Announced(Ok(_))) => {
                post == pre && step == SteeringStep::Done(Ok(confirm))
            },
            _ => true,
        }
    }
}

/// The first channel of the set from `from` on.
fn next_channel(channels: ChannelMask, from: u8) -> (found: Option<u8>)
    requires
        FIRST_CHANNEL <= from <= LAST_CHANNEL + 1,
    ensures
        match found {
            Some(channel) => SteeringScan::is_next(channels, from as int, channel),
            None => SteeringScan::none_from(channels, from as int),
        },
{
    let mut channel: u8 = from;
    while channel <= LAST_CHANNEL
        invariant
            FIRST_CHANNEL <= from <= channel <= LAST_CHANNEL + 1,
            forall|c: u8| from <= c < channel ==> !#[trigger] channels.has(c),
        decreases LAST_CHANNEL + 1 - channel,
    {
        if channels.contains(channel) {
            return Some(channel);
        }
        channel = channel + 1;
    }
    None
}

/// The first neighbour that lets a node in.
fn first_open_network(neighbors: &Vec<NwkNeighbor>, as_router: bool) -> (found: Option<IeeeAddress>)
    ensures
        found == Steering::first_open(neighbors@, as_router),
{
    let mut i: usize = 0;
    assert(neighbors@.skip(0) =~= neighbors@);
    while i < neighbors.len()
        invariant
            i <= neighbors@.len(),
            Steering::first_open(neighbors@, as_router) == Steering::first_open(
                neighbors@.skip(i as int),
                as_router,
            ),
        decreases neighbors@.len() - i,
    {
        let n: NwkNeighbor = neighbors[i];
        if n.permit_joining && n.potential_parent == 1 && (if as_router {
            n.router_capacity
        } else {
            n.end_device_capacity
        }) {
            return Some(n.extended_pan_id);
        }
        assert(neighbors@.skip(i as int).skip(1) =~= neighbors@.skip(i + 1));
        i = i + 1;
    }
    None
}

impl BaseDeviceBehavior {
    /// Begin to join the network `extended_pan_id`.
    pub fn network_steering(
        &mut self,
        extended_pan_id: IeeeAddress,
        channels: core::ops::Range<u8>,
        scan_duration: u8,
        capability_information: CapabilityInformation,
    ) -> (start: (SteeringRequest, SteeringPhase, SteeringAction))
        ensures
            old(self).wf() ==> final(self).wf(),
            final(self)@ == (BdbState {
                status: BdbCommissioningStatus::InProgress,
                ..old(self)@
            }),
            start.0 == (SteeringRequest {
                target: SteeringTarget::Network(extended_pan_id),
                scan: SteeringScan::Range {
                    first: channels.start,
                    end: channels.end,
                    duration: scan_duration,
                },
                capability_information,
            }),
            start.0.scan.wf() && start.1.wf(start.0.scan) && start.1.holds(final(self)@),
            Steering::begun(start.0.scan, start.1, start.2),
    {
        self.begin_range(
            SteeringTarget::Network(extended_pan_id),
            channels,
            scan_duration,
            capability_information,
        )
    }

    /// Begin to join the network `extended_pan_id`, scanning channel by channel.
    pub fn network_steering_with_mask(
        &mut self,
        extended_pan_id: IeeeAddress,
        channels: ChannelMask,
        scan_duration: ScanDuration,
        capability_information: CapabilityInformation,
    ) -> (start: (SteeringRequest, SteeringPhase, SteeringAction))
        requires
            channels.wf(),
        ensures
            old(self).wf() ==> final(self).wf(),
            final(self)@ == (BdbState {
                status: BdbCommissioningStatus::InProgress,
                ..old(self)@
            }),
            start.0 == (SteeringRequest {
                target: SteeringTarget::Network(extended_pan_id),
                scan: SteeringScan::Mask { channels, scan_duration },
                capability_information,
            }),
            start.0.scan.wf() && start.1.wf(start.0.scan) && start.1.holds(final(self)@),
            Steering::begun(start.0.scan, start.1, start.2),
    {
        self.bdb_commissioning_status = BdbCommissioningStatus::InProgress;
        let request = SteeringRequest {
            target: SteeringTarget::Network(extended_pan_id),
            scan: SteeringScan::Mask { channels, scan_duration },
            capability_information,
        };
        let channel: u8 = match next_channel(channels, FIRST_CHANNEL) {
            Some(channel) => channel,
            None => {
                proof {
                    lemma_some_channel(channels);
                }
                FIRST_CHANNEL
            },
        };
        (
            request,
            SteeringPhase::Discovering { channel },
            SteeringAction::Discover {
                first: channel,
                end: channel + 1,
                duration: scan_duration.exponent(),
            },
        )
    }

    /// Begin to join the first network found that lets this node in.
    pub fn network_steering_any(
        &mut self,
        channels: core::ops::Range<u8>,
        scan_duration: u8,
        capability_information: CapabilityInformation,
    ) -> (start: (SteeringRequest, SteeringPhase, SteeringAction))
        ensures
            old(self).wf() ==> final(self).wf(),
            final(self)@ == (BdbState {
                status: BdbCommissioningStatus::InProgress,
                ..old(self)@
            }),
            start.0 == (SteeringRequest {
                target: SteeringTarget::AnyOpen,
                scan: SteeringScan::Range {
                    first: channels.start,
                    end: channels.end,
                    duration: scan_duration,
                },
                capability_information,
            }),
            start.0.scan.wf() && start.1.wf(start.0.scan) && start.1.holds(final(self)@),
            Steering::begun(start.0.scan, start.1, start.2),
    {
        self.begin_range(SteeringTarget::AnyOpen, channels, scan_duration, capability_information)
    }

    fn begin_range(
        &mut self,
        target: SteeringTarget,
        channels: core::ops::Range<u8>,
        duration: u8,
        capability_information: CapabilityInformation,
    ) -> (start: (SteeringRequest, SteeringPhase, SteeringAction))
        ensures
            old(self).wf() ==> final(self).wf(),
            final(self)@ == (BdbState {
                status: BdbCommissioningStatus::InProgress,
                ..old(self)@
            }),
            start.0 == (SteeringRequest {
                target,
                scan: SteeringScan::Range {
                    first: channels.start,
                    end: channels.end,
                    duration,
                },
                capability_information,
            }),
            start.1.wf(start.0.scan) && start.1.holds(final(self)@),
            Steering::begun(start.0.scan, start.1, start.2),
    {
        self.bdb_commissioning_status = BdbCommissioningStatus::InProgress;
        let first: u8 = channels.start;
        let end: u8 = channels.end;
        let request = SteeringRequest {
            target,
            scan: SteeringScan::Range { first, end, duration },
            capability_information,
        };
        (
            request,
            SteeringPhase::Discovering { channel: first },
            SteeringAction::Discover { first, end, duration },
        )
    }

    /// Discovery is over: join a network, if there is one to join.
    fn join_chosen(&self, request: SteeringRequest) -> (step: SteeringStep)
        ensures
            step == Steering::join(self@, request),
    {
        let chosen: Option<IeeeAddress> = match request.target {
            SteeringTarget::Network(id) => Some(id),
            SteeringTarget::AnyOpen => first_open_network(
                &self.nib.neighbors,
                request.capability_information.device_type(),
            ),
        };
        match chosen {
            Some(extended_pan_id) => SteeringStep::Act(
                SteeringPhase::Joining,
                SteeringAction::Join(
                    NlmeJoinRequest {
                        extended_pan_id,
                        capability_information: request.capability_information,
                        security_enabled: false,
                    },
                ),
            ),
            None => SteeringStep::Done(Err(BdbError::NoNetwork)),
        }
    }

    fn finish_scan(&self, request: SteeringRequest, channel: u8) -> (step: SteeringStep)
        requires
            request.scan.wf(),
            (SteeringPhase::Discovering { channel }).wf(request.scan),
        ensures
            Steering::scanned(self@, request, channel, step),
    {
        if let SteeringScan::Mask { channels, scan_duration } = request.scan {
            if let Some(next) = next_channel(channels, channel + 1) {
                return SteeringStep::Act(
                    SteeringPhase::Discovering { channel: next },
                    SteeringAction::Discover {
                        first: next,
                        end: next + 1,
                        duration: scan_duration.exponent(),
                    },
                );
            }
        }
        self.join_chosen(request)
    }

    /// Go on with the exchange of the link key, and after it.
    fn finish_exchange(&mut self, confirm: NlmeJoinConfirm, exchange: ExchangeStep) -> (step:
        SteeringStep)
        ensures
            old(self).wf() ==> final(self).wf(),
            Steering::exchanged(old(self)@, confirm, exchange, final(self)@, step),
    {
        match exchange {
            ExchangeStep::Act(next, action) => SteeringStep::Act(
                SteeringPhase::Exchanging { confirm, exchange: next },
                SteeringAction::Exchange(action),
            ),
            ExchangeStep::Done(Ok(())) | ExchangeStep::Done(Err(NetworkError::NoTransportKey)) => {
                self.bdb_commissioning_status = BdbCommissioningStatus::Success;
                SteeringStep::Done(Ok(confirm))
            },
            ExchangeStep::Done(Err(NetworkError::LeaveRequested { rejoin: true })) => {
                SteeringStep::Act(
                    SteeringPhase::Rejoining,
                    SteeringAction::Rejoin(self.same_channel_rejoin_request()),
                )
            },
            ExchangeStep::Done(Err(NetworkError::LeaveRequested { rejoin: false })) => {
                self.mark_network_leave_without_rejoin();
                SteeringStep::Done(
                    Err(BdbError::NetworkError(NetworkError::LeaveRequested { rejoin: false })),
                )
            },
            ExchangeStep::Done(Err(e)) => SteeringStep::Done(Err(BdbError::NetworkError(e))),
        }
    }

    /// Go on with steering after what came of the last action.
    pub fn steering_step(
        &mut self,
        request: SteeringRequest,
        phase: SteeringPhase,
        event: SteeringEvent,
    ) -> (step: SteeringStep)
        requires
            old(self).wf(),
            request.scan.wf(),
            phase.wf(request.scan),
            phase.expects(event),
        ensures
            final(self).wf(),
            Steering::stepped(old(self)@, request, phase, event, final(self)@, step),
            step is Act ==> step->Act_0.wf(request.scan) && step->Act_0.remaining()
                < phase.remaining(),
    {
        match (phase, event) {
            (_, SteeringEvent::Discovered(Err(e)))
            | (_, SteeringEvent::KeyPolled(Err(e)))
            | (_, SteeringEvent::Announced(Err(e))) => SteeringStep::Done(
                Err(BdbError::NetworkError(e)),
            ),
            (SteeringPhase::Discovering { channel }, SteeringEvent::Discovered(Ok(()))) => {
                self.finish_scan(request, channel)
            },
            (SteeringPhase::Joining, SteeringEvent::Joined(confirm)) => match confirm.status {
                NlmeJoinStatus::Success => SteeringStep::Act(
                    SteeringPhase::AwaitingKey { confirm },
                    SteeringAction::PollTransportKey,
                ),
                NlmeJoinStatus::Refused(_) => {
                    self.bdb_commissioning_status = BdbCommissioningStatus::NoNetwork;
                    SteeringStep::Done(Err(BdbError::JoinFailed(confirm.status)))
                },
            },
            (SteeringPhase::AwaitingKey { confirm }, SteeringEvent::KeyPolled(Ok(()))) => {
                // Announced before the link key is exchanged: other nodes begin to ask
                // for what is here as soon as they hear of it.
                self.bdb_node_is_on_a_network = true;
                SteeringStep::Act(
                    SteeringPhase::Announcing { confirm },
                    SteeringAction::Announce(self.device_annce(request.capability_information)),
                )
            },
            (SteeringPhase::Announcing { confirm }, SteeringEvent::Announced(Ok(()))) => {
                let (exchange, action) = self.tc_link_key_exchange();
                SteeringStep::Act(
                    SteeringPhase::Exchanging { confirm, exchange },
                    SteeringAction::Exchange(action),
                )
            },
            (
                SteeringPhase::Exchanging { confirm, exchange },
                SteeringEvent::Exchanged(e),
            ) => {
                let inner: ExchangeStep = self.exchange_step(exchange, e);
                let ghost mid = self@;
                assert(Exchange::stepped(old(self)@, exchange, e, mid, inner));
                self.finish_exchange(confirm, inner)
            },
            (SteeringPhase::Rejoining, SteeringEvent::Rejoined(confirm)) => {
                match self.rejoin_after_network_leave(confirm) {
                    Ok(annce) => SteeringStep::Act(
                        SteeringPhase::Reannouncing { confirm },
                        SteeringAction::Announce(annce),
                    ),
                    Err(e) => SteeringStep::Done(Err(e)),
                }
            },
            (SteeringPhase::Reannouncing { confirm }, SteeringEvent::Announced(Ok(()))) => {
                SteeringStep::Done(Ok(confirm))
            },
            _ => SteeringStep::Done(Err(BdbError::UnsupportedFrame)),
        }
    }
}

/// A set of channels has a channel.
proof fn lemma_some_channel(channels: ChannelMask)
    requires
        channels.wf(),
    ensures
        !SteeringScan::none_from(channels, FIRST_CHANNEL as int),
{
    let bits = channels.bits();
    assert(bits & (1u32 << 11u8) != 0 || bits & (1u32 << 12u8) != 0 || bits & (1u32 << 13u8) != 0
        || bits & (1u32 << 14u8) != 0 || bits & (1u32 << 15u8) != 0 || bits & (1u32 << 16u8) != 0
        || bits & (1u32 << 17u8) != 0 || bits & (1u32 << 18u8) != 0 || bits & (1u32 << 19u8) != 0
        || bits & (1u32 << 20u8) != 0 || bits & (1u32 << 21u8) != 0 || bits & (1u32 << 22u8) != 0
        || bits & (1u32 << 23u8) != 0 || bits & (1u32 << 24u8) != 0 || bits & (1u32 << 25u8) != 0
        || bits & (1u32 << 26u8) != 0) by (bit_vector)
        requires
            bits != 0,
            bits & !0x07ff_f800u32 == 0,
    ;
    if SteeringScan::none_from(channels, FIRST_CHANNEL as int) {
        assert(!channels.has(11) && !channels.has(12) && !channels.has(13) && !channels.has(14));
        assert(!channels.has(15) && !channels.has(16) && !channels.has(17) && !channels.has(18));
        assert(!channels.has(19) && !channels.has(20) && !channels.has(21) && !channels.has(22));
        assert(!channels.has(23) && !channels.has(24) && !channels.has(25) && !channels.has(26));
    }
}

/// What holds of a node in one phase of steering, holds of it in the next.
pub proof fn law_phases_hold(
    pre: BdbState,
    request: SteeringRequest,
    phase: SteeringPhase,
    event: SteeringEvent,
    post: BdbState,
    step: SteeringStep,
)
    requires
        phase.expects(event),
        phase.holds(pre),
        Steering::stepped(pre, request, phase, event, post, step),
    ensures
        step is Act ==> step->Act_0.holds(post),
{
}

/// Where steering succeeds, the node was let in, is in the network, and says so.
pub proof fn law_success_is_being_in_the_network(
    pre: BdbState,
    request: SteeringRequest,
    phase: SteeringPhase,
    event: SteeringEvent,
    post: BdbState,
    step: SteeringStep,
)
    requires
        phase.expects(event),
        phase.holds(pre),
        Steering::stepped(pre, request, phase, event, post, step),
        step matches SteeringStep::Done(Ok(_)),
    ensures
        step->Done_0->Ok_0.status == NlmeJoinStatus::Success,
        post.on_network,
        post.status == BdbCommissioningStatus::Success,
{
}

/// A node joins only a network that was asked for, or one that lets it in.
pub proof fn law_joins_only_what_was_asked_for(
    pre: BdbState,
    request: SteeringRequest,
    phase: SteeringPhase,
    event: SteeringEvent,
    post: BdbState,
    step: SteeringStep,
    join: NlmeJoinRequest,
)
    requires
        phase.expects(event),
        Steering::stepped(pre, request, phase, event, post, step),
        step matches SteeringStep::Act(_, SteeringAction::Join(j)) && j == join,
    ensures
        match request.target {
            SteeringTarget::Network(id) => join.extended_pan_id == id,
            SteeringTarget::AnyOpen => exists|i: int|
                0 <= i < pre.nib.neighbors.len() && (#[trigger] pre.nib.neighbors[i]).takes(
                    request.capability_information.is_router(),
                ) && pre.nib.neighbors[i].extended_pan_id == join.extended_pan_id,
        },
{
    if request.target == SteeringTarget::AnyOpen {
        lemma_first_open(pre.nib.neighbors, request.capability_information.is_router());
    }
}

/// The first open network is that of a neighbour that lets the node in; where there
/// is none, no neighbour does.
pub proof fn lemma_first_open(neighbors: Seq<NwkNeighbor>, as_router: bool)
    ensures
        match Steering::first_open(neighbors, as_router) {
            Some(id) => exists|i: int|
                0 <= i < neighbors.len() && (#[trigger] neighbors[i]).takes(as_router)
                    && neighbors[i].extended_pan_id == id,
            None => forall|i: int|
                0 <= i < neighbors.len() ==> !(#[trigger] neighbors[i]).takes(as_router),
        },
    decreases neighbors.len(),
{
    if neighbors.len() > 0 && !neighbors[0].takes(as_router) {
        let rest = neighbors.skip(1);
        lemma_first_open(rest, as_router);
        match Steering::first_open(rest, as_router) {
            Some(id) => {
                let i = choose|i: int|
                    0 <= i < rest.len() && (#[trigger] rest[i]).takes(as_router)
                        && rest[i].extended_pan_id == id;
                assert(neighbors[i + 1] == rest[i]);
            },
            None => {
                assert forall|i: int| 0 <= i < neighbors.len() implies !(#[trigger] neighbors[i])
                    .takes(as_router) by {
                    if i > 0 {
                        assert(rest[i - 1] == neighbors[i]);
                    }
                }
            },
        }
    }
}

} // verus!
