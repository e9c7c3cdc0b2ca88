//! The state of a node and what it does with a received frame.

use vstd::prelude::*;

use crate::bdb::tables::BindingTable;
use crate::bdb::tables::Entries;
use crate::bdb::tables::GroupTable;
use crate::bdb::tables::KeyTable;
use crate::bdb::types::ApsData;
use crate::bdb::types::ApsDataFields;
use crate::bdb::types::ApsDeliveryMode;
use crate::bdb::types::ApsGroup;
use crate::bdb::types::ApsdeSapIndication;
use crate::bdb::types::BdbCommissioningStatus;
use crate::bdb::types::BdbError;
use crate::bdb::types::BdbEvent;
use crate::bdb::types::BindingEntry;
use crate::bdb::types::CapabilityInformation;
use crate::bdb::types::Command;
use crate::bdb::types::CommissioningMode;
use crate::bdb::types::DeviceAnnce;
use crate::bdb::types::DeviceKeyPairDescriptor;
use crate::bdb::types::IeeeAddress;
use crate::bdb::types::LeaveSource;
use crate::bdb::types::LogicalType;
use crate::bdb::types::MacError;
use crate::bdb::types::NetworkError;
use crate::bdb::types::Nib;
use crate::bdb::types::NlmeJoinConfirm;
use crate::bdb::types::NlmeJoinStatus;
use crate::bdb::types::NlmeLeaveRequest;
use crate::bdb::types::NlmeRejoinRequest;
use crate::bdb::types::NwkNeighbor;
use crate::bdb::types::RejoinScan;
use crate::bdb::types::ShortAddress;
use crate::bdb::types::TransportKey;
use crate::bdb::types::ZigbeeDevicePoll;
use crate::bdb::types::MAX_BINDING_TABLE_ENTRIES;
use crate::bdb::types::MAX_GROUP_TABLE_ENTRIES;
use crate::bdb::types::ZDO_RESPONSE_PAYLOAD_CAPACITY;
use crate::bdb::zdp::answer_request;
use crate::bdb::zdp::read_device_annce;
use crate::bdb::zdp::NodeIdentity;
use crate::bdb::zdp::Zdp;
use crate::bounded::extend_payload;
use crate::bounded::no_payload;
use crate::context::ApsPeer;
use crate::context::DeviceTick;
use crate::context::DispatchContext;
use crate::context::DispatchOutcome;
use crate::context::GroupEffect;
use crate::device::ClusterRequest;
use crate::device::Device;
use crate::device::DeviceOperations;
use crate::device::DispatchError;
use crate::device::Tour;
use crate::dispatch::build_default_response_for_frame;
use crate::dispatch::should_send_default_response;
use crate::dispatch::Dispatch;
use crate::frame::FrameFields;
use crate::frame::IncomingZclFrame;
use crate::frame::Status;
use crate::types::descriptors::ClusterKey;
use crate::types::error::ZclError;
use crate::types::ids::ClusterId;

verus! {

/// The network address of a node that is in no network.
pub const NO_NETWORK_ADDRESS: u16 = 0xffff;

/// The cluster of announcements.
pub const DEVICE_ANNCE_CLUSTER_ID: u16 = 0x0013;

/// A node: what it knows of its network, its tables, and how commissioning goes.
///
/// Radio and cryptography are elsewhere. Every procedure here says what is to be
/// done there, and goes on with what came back.
pub struct BaseDeviceBehavior {
    pub logical_type: LogicalType,
    /// What the network layer knows, as of the last reply.
    pub nib: Nib,
    pub trust_center_address: IeeeAddress,
    pub binding_table: BindingTable,
    pub group_table: GroupTable,
    pub key_table: KeyTable,
    pub bdb_node_is_on_a_network: bool,
    pub bdb_commissioning_mode: CommissioningMode,
    pub bdb_commissioning_status: BdbCommissioningStatus,
    pub last_device_tick: DeviceTick,
}

/// What the network layer knows.
pub struct NibState {
    pub network_address: u16,
    pub ieee_address: IeeeAddress,
    pub extended_pan_id: IeeeAddress,
    pub capability_information: CapabilityInformation,
    pub key_seq_numbers: Seq<u8>,
    pub active_key_seq_number: u8,
    pub neighbors: Seq<NwkNeighbor>,
}

impl View for Nib {
    type V = NibState;

    open spec fn view(&self) -> NibState {
        NibState {
            network_address: self.network_address,
            ieee_address: self.ieee_address,
            extended_pan_id: self.extended_pan_id,
            capability_information: self.capability_information,
            key_seq_numbers: self.key_seq_numbers@,
            active_key_seq_number: self.active_key_seq_number,
            neighbors: self.neighbors@,
        }
    }
}

impl Nib {
    /// A node that never was in a network.
    pub fn new(ieee_address: IeeeAddress) -> (nib: Self)
        ensures
            nib@ == (NibState {
                network_address: NO_NETWORK_ADDRESS,
                ieee_address,
                extended_pan_id: IeeeAddress(0),
                capability_information: CapabilityInformation(0),
                key_seq_numbers: Seq::empty(),
                active_key_seq_number: 0,
                neighbors: Seq::empty(),
            }),
    {
        Nib {
            network_address: NO_NETWORK_ADDRESS,
            ieee_address,
            extended_pan_id: IeeeAddress(0),
            capability_information: CapabilityInformation(0),
            key_seq_numbers: Vec::new(),
            active_key_seq_number: 0,
            neighbors: Vec::new(),
        }
    }
}

/// The state of a node.
pub struct BdbState {
    pub logical_type: LogicalType,
    pub nib: NibState,
    pub trust_center_address: IeeeAddress,
    pub bindings: Seq<BindingEntry>,
    pub groups: Seq<ApsGroup>,
    pub keys: Seq<DeviceKeyPairDescriptor>,
    pub on_network: bool,
    pub mode: CommissioningMode,
    pub status: BdbCommissioningStatus,
    pub last_tick: DeviceTick,
}

impl View for BaseDeviceBehavior {
    type V = BdbState;

    open spec fn view(&self) -> BdbState {
        BdbState {
            logical_type: self.logical_type,
            nib: self.nib@,
            trust_center_address: self.trust_center_address,
            bindings: self.binding_table@,
            groups: self.group_table@,
            keys: self.key_table@,
            on_network: self.bdb_node_is_on_a_network,
            mode: self.bdb_commissioning_mode,
            status: self.bdb_commissioning_status,
            last_tick: self.last_device_tick,
        }
    }
}

/// What to do after a frame was handled.
#[derive(Debug)]
pub enum PollStep {
    /// Nothing more: this is what became of the frame.
    Done(Result<BdbEvent, BdbError>),
    /// Send a response. Whether it could be sent changes nothing.
    Reply { data: ApsData, event: BdbEvent },
    /// Send a response. The event stands where it could be sent.
    Respond { data: ApsData, event: BdbEvent },
    /// Have the key installed.
    Install(TransportKey),
    /// Rejoin the network, then announce this node.
    Rejoin(NlmeRejoinRequest),
    /// Leave the network.
    Leave(NlmeLeaveRequest),
}

impl BdbState {
    pub open spec fn identity(self) -> NodeIdentity {
        NodeIdentity {
            ieee_address: self.nib.ieee_address,
            network_address: self.nib.network_address,
            logical_type: self.logical_type,
        }
    }

    /// A request to rejoin the network that this node was in, where it was.
    pub open spec fn rejoin_request(self) -> NlmeRejoinRequest {
        NlmeRejoinRequest {
            extended_pan_id: self.nib.extended_pan_id,
            capability_information: self.nib.capability_information,
            secure: true,
            scan: RejoinScan::SameChannel,
        }
    }

    /// This node's announcement.
    pub open spec fn announcement(self, capability: CapabilityInformation) -> DeviceAnnce {
        DeviceAnnce {
            nwk_addr: ShortAddress(self.nib.network_address),
            ieee_addr: self.nib.ieee_address,
            capability,
        }
    }

    /// The state of a node that left its network.
    pub open spec fn left(self) -> Self {
        BdbState {
            on_network: false,
            status: BdbCommissioningStatus::NotOnANetwork,
            ..self
        }
    }

    /// The state after an attempt to rejoin.
    pub open spec fn rejoined(self, confirm: NlmeJoinConfirm) -> Self {
        if confirm.status == NlmeJoinStatus::Success {
            BdbState { on_network: true, status: BdbCommissioningStatus::Success, ..self }
        } else {
            self.left()
        }
    }

    /// The group memberships after a frame for `endpoint` had this effect.
    pub open spec fn regrouped(self, effect: GroupEffect, endpoint: u8) -> Self {
        BdbState {
            groups: match effect {
                GroupEffect::Added(group_address) => Entries::added(
                    self.groups,
                    ApsGroup { group_address, endpoint },
                    MAX_GROUP_TABLE_ENTRIES as nat,
                ),
                GroupEffect::Removed(group_address) => Entries::removed(
                    self.groups,
                    ApsGroup { group_address, endpoint },
                ),
                GroupEffect::AllRemoved => self.groups.filter(GroupTable::of_others(endpoint)),
                GroupEffect::Nothing => self.groups,
            },
            ..self
        }
    }
}

/// Specification functions of received frames.
pub struct Received;

impl Received {
    /// Nothing came of the frame.
    pub open spec fn ignored(step: PollStep) -> bool {
        step == PollStep::Done(Ok(BdbEvent::UnsupportedFrame))
    }

    /// A received command took `pre` to `post`, with this step to follow.
    pub open spec fn command_handled(
        pre: BdbState,
        command: Command,
        post: BdbState,
        step: PollStep,
    ) -> bool {
        match command {
            Command::TransportKey(key) => post == pre && step == PollStep::Install(key),
            Command::SwitchKey { key_seq_number } => if pre.nib.key_seq_numbers.contains(
                key_seq_number,
            ) {
                &&& post == (BdbState {
                    nib: NibState { active_key_seq_number: key_seq_number, ..pre.nib },
                    ..pre
                })
                &&& step == PollStep::Done(Ok(BdbEvent::TransportKeyInstalled))
            } else {
                post == pre && Self::ignored(step)
            },
            _ => post == pre && Self::ignored(step),
        }
    }

    /// A received device discovery frame took `pre` to `post`, with this step to
    /// follow, on a node with these endpoints.
    pub open spec fn zdo_handled(
        pre: BdbState,
        list: Seq<crate::device::EndpointDescriptor>,
        indication: ApsdeSapIndication<'_>,
        post: BdbState,
        step: PollStep,
    ) -> bool {
        if indication.source() is None || indication.asdu@.len() == 0 {
            post == pre && Self::ignored(step)
        } else {
            let source = indication.source()->0;
            let sequence = indication.asdu@[0];
            let payload = indication.asdu@.skip(1);
            let cluster_id = indication.cluster_id;
            if cluster_id == DEVICE_ANNCE_CLUSTER_ID {
                post == pre && match Zdp::announcement(payload) {
                    Some(annce) => step == PollStep::Done(Ok(BdbEvent::DeviceAnnounced(annce))),
                    None => Self::ignored(step),
                }
            } else if 0x8000 <= cluster_id <= 0x8038 {
                post == pre && if payload.len() > ZDO_RESPONSE_PAYLOAD_CAPACITY {
                    step == PollStep::Done(Err(BdbError::UnsupportedFrame))
                } else {
                    step matches PollStep::Done(Ok(BdbEvent::ZdoResponse {
                        source: from,
                        cluster_id: cluster,
                        sequence: number,
                        payload: bytes,
                    })) && from == source && cluster == cluster_id && number == sequence
                        && crate::bounded::payload_bytes(bytes) == payload
                }
            } else {
                &&& post == (BdbState {
                    bindings: Zdp::bindings_after(list, pre.bindings, source, cluster_id, payload),
                    ..pre
                })
                &&& match Zdp::response(
                    pre.identity(),
                    list,
                    pre.bindings,
                    source,
                    cluster_id,
                    sequence,
                    payload,
                ) {
                    Some(bytes) => step matches PollStep::Reply { data, event } && event
                        == BdbEvent::UnsupportedFrame && data@ == (ApsDataFields {
                        destination: source,
                        dst_endpoint: 0,
                        profile_id: 0x0000,
                        cluster_id: (cluster_id + 0x8000) as u16,
                        src_endpoint: 0,
                        asdu: bytes,
                    }),
                    None => Self::ignored(step),
                }
            }
        }
    }

    /// How a cluster server sees the delivery of a frame from `source`.
    pub open spec fn context(
        indication: ApsdeSapIndication<'_>,
        source: ShortAddress,
        now_ms: u32,
    ) -> DispatchContext {
        match indication.delivery {
            ApsDeliveryMode::Unicast => DispatchContext {
                delivery: crate::context::DeliveryMode::Unicast,
                now_ms,
                source: Some(
                    ApsPeer { short_addr: source.0, endpoint: indication.src_endpoint },
                ),
            },
            _ => DispatchContext {
                delivery: crate::context::DeliveryMode::BroadcastOrMulticast,
                now_ms,
                source: None,
            },
        }
    }

    /// The request for a cluster server that a frame makes.
    pub open spec fn request<'a>(
        indication: ApsdeSapIndication<'_>,
        source: ShortAddress,
        frame: &'a IncomingZclFrame<'a>,
        now_ms: u32,
    ) -> ClusterRequest<'a> {
        ClusterRequest {
            endpoint: indication.dst_endpoint,
            cluster: ClusterKey {
                id: ClusterId(indication.cluster_id),
                manufacturer_code: frame.manufacturer_code,
            },
            ctx: Self::context(indication, source, now_ms),
            frame,
        }
    }

    pub open spec fn zcl_event(
        indication: ApsdeSapIndication<'_>,
        source: ShortAddress,
        response_sent: bool,
    ) -> BdbEvent {
        BdbEvent::ZclHandled {
            source,
            endpoint: indication.dst_endpoint,
            cluster_id: indication.cluster_id,
            response_sent,
        }
    }

    /// The step is to send `bytes` back to where the frame came from.
    pub open spec fn responds(
        indication: ApsdeSapIndication<'_>,
        source: ShortAddress,
        bytes: Seq<u8>,
        step: PollStep,
    ) -> bool {
        step matches PollStep::Respond { data, event } && event == Self::zcl_event(
            indication,
            source,
            true,
        ) && data@ == (ApsDataFields {
            destination: source,
            dst_endpoint: indication.src_endpoint,
            profile_id: indication.profile_id,
            cluster_id: indication.cluster_id,
            src_endpoint: indication.dst_endpoint,
            asdu: bytes,
        })
    }

    /// The outcome `r` of dispatching a frame, with `buf` in the buffer, took `pre`
    /// to `post`, with this step to follow.
    pub open spec fn zcl_answered(
        pre: BdbState,
        indication: ApsdeSapIndication<'_>,
        source: ShortAddress,
        frame: IncomingZclFrame<'_>,
        ctx: DispatchContext,
        r: Result<DispatchOutcome, DispatchError>,
        buf: Seq<u8>,
        post: BdbState,
        step: PollStep,
    ) -> bool {
        let silent = step == PollStep::Done(Ok(Self::zcl_event(indication, source, false)));
        match r {
            Ok(outcome) => {
                &&& post == pre.regrouped(outcome.effects.group, indication.dst_endpoint)
                &&& if outcome.response_len > 0 {
                    Self::responds(
                        indication,
                        source,
                        buf.take(outcome.response_len as int),
                        step,
                    )
                } else {
                    silent
                }
            },
            Err(DispatchError::Codec(_)) => post == pre && silent,
            Err(_) => post == pre && if Dispatch::default_response_due(
                frame,
                ctx,
                Status::UnsupportedCluster,
            ) {
                match Dispatch::fit(
                    Dispatch::default_response_to(frame, Status::UnsupportedCluster),
                    buf.len(),
                ) {
                    Ok(bytes) => Self::responds(indication, source, bytes, step),
                    Err(e) => step == PollStep::Done(Err(BdbError::ZclCodec(e))),
                }
            } else {
                silent
            },
        }
    }

    /// Dispatching the frame took `pre` to `post` and the device from `before` to
    /// `after`, by way of the buffer `mid` and the outcome `r`.
    pub open spec fn zcl_dispatched<D: Device>(
        pre: BdbState,
        before: D,
        indication: ApsdeSapIndication<'_>,
        source: ShortAddress,
        frame: IncomingZclFrame<'_>,
        buf: Seq<u8>,
        now_ms: u32,
        mid: Seq<u8>,
        r: Result<DispatchOutcome, DispatchError>,
        post: BdbState,
        after: D,
        step: PollStep,
    ) -> bool {
        &&& mid.len() == buf.len()
        &&& Tour::dispatched(
            before,
            Self::request(indication, source, &frame, now_ms),
            buf,
            after,
            mid,
            r,
        )
        &&& Self::zcl_answered(
            pre,
            indication,
            source,
            frame,
            Self::context(indication, source, now_ms),
            r,
            mid,
            post,
            step,
        )
    }

    /// A received cluster frame took `pre` to `post` and the device from `before`
    /// to `after`, with this step to follow, given a buffer with contents `buf`.
    pub open spec fn zcl_handled<D: Device>(
        pre: BdbState,
        before: D,
        indication: ApsdeSapIndication<'_>,
        buf: Seq<u8>,
        now_ms: u32,
        post: BdbState,
        after: D,
        step: PollStep,
    ) -> bool {
        match (indication.source(), FrameFields::of(indication.asdu@)) {
            (Some(source), Ok(fields)) => if fields.truncated() {
                post == pre && after == before && Self::ignored(step)
            } else {
                exists|
                    frame: IncomingZclFrame<'_>,
                    mid: Seq<u8>,
                    r: Result<DispatchOutcome, DispatchError>,
                |
                    frame.holds(fields) && #[trigger] Self::zcl_dispatched(
                        pre,
                        before,
                        indication,
                        source,
                        frame,
                        buf,
                        now_ms,
                        mid,
                        r,
                        post,
                        after,
                        step,
                    )
            },
            _ => post == pre && after == before && Self::ignored(step),
        }
    }

    /// A received data frame took `pre` to `post` and the device from `before` to
    /// `after`, with this step to follow.
    pub open spec fn data_handled<D: Device>(
        pre: BdbState,
        before: D,
        indication: ApsdeSapIndication<'_>,
        buf: Seq<u8>,
        now_ms: u32,
        post: BdbState,
        after: D,
        step: PollStep,
    ) -> bool {
        if indication.dst_endpoint == 0 && indication.profile_id == 0x0000 {
            after == before && Self::zdo_handled(
                pre,
                before.endpoint_list(),
                indication,
                post,
                step,
            )
        } else {
            Self::zcl_handled(pre, before, indication, buf, now_ms, post, after, step)
        }
    }

    /// What came of waiting for a frame took `pre` to `post` and the device from
    /// `before` to `after`, with this step to follow.
    pub open spec fn handled<D: Device>(
        pre: BdbState,
        before: D,
        poll: Result<ZigbeeDevicePoll<'_>, NetworkError>,
        buf: Seq<u8>,
        now_ms: u32,
        post: BdbState,
        after: D,
        step: PollStep,
    ) -> bool {
        match poll {
            Ok(ZigbeeDevicePoll::Command(command)) => after == before && Self::command_handled(
                pre,
                command,
                post,
                step,
            ),
            Ok(ZigbeeDevicePoll::Data(indication))
            | Ok(ZigbeeDevicePoll::FragmentComplete(Some(indication))) => Self::data_handled(
                pre,
                before,
                indication,
                buf,
                now_ms,
                post,
                after,
                step,
            ),
            Ok(_)
            | Err(NetworkError::MacError(MacError::NoData))
            | Err(NetworkError::InvalidFrame) => post == pre && after == before && Self::ignored(
                step,
            ),
            Err(NetworkError::LeaveRequested { rejoin: true }) => post == pre && after == before
                && step == PollStep::Rejoin(pre.rejoin_request()),
            Err(NetworkError::LeaveRequested { rejoin: false }) => post == pre && after == before
                && step == PollStep::Leave(
                NlmeLeaveRequest {
                    rejoin: false,
                    remove_children: false,
                    source: LeaveSource::NetworkRequest { source: ShortAddress(0xffff) },
                },
            ),
            Err(e) => post == pre && after == before && step == PollStep::Done(
                Err(BdbError::NetworkError(e)),
            ),
        }
    }
}

impl BaseDeviceBehavior {
    pub open spec fn wf(&self) -> bool {
        &&& self.binding_table.wf()
        &&& self.group_table.wf()
        &&& self.key_table.wf()
    }

    pub fn new(nib: Nib, logical_type: LogicalType) -> (node: Self)
        ensures
            node.wf(),
            node@ == (BdbState {
                logical_type,
                nib: nib@,
                trust_center_address: IeeeAddress(0),
                bindings: Seq::empty(),
                groups: Seq::empty(),
                keys: Seq::empty(),
                on_network: false,
                mode: CommissioningMode::NetworkSteering,
                status: BdbCommissioningStatus::Success,
                last_tick: DeviceTick { changed: false, next_tick_ms: None },
            }),
    {
        BaseDeviceBehavior {
            logical_type,
            nib,
            trust_center_address: IeeeAddress(0),
            binding_table: BindingTable::new(),
            group_table: GroupTable::new(),
            key_table: KeyTable::new(),
            bdb_node_is_on_a_network: false,
            bdb_commissioning_mode: CommissioningMode::NetworkSteering,
            bdb_commissioning_status: BdbCommissioningStatus::Success,
            last_device_tick: DeviceTick { changed: false, next_tick_ms: None },
        }
    }

    /// Add a binding table entry.
    ///
    /// Returns `Err(())` when the table is full.
    pub fn bind(&mut self, entry: BindingEntry) -> (r: Result<(), ()>)
        requires
            old(self).wf(),
        ensures
            final(self).wf(),
            final(self)@ == (BdbState {
                bindings: Entries::added(
                    old(self)@.bindings,
                    entry,
                    MAX_BINDING_TABLE_ENTRIES as nat,
                ),
                ..old(self)@
            }),
            r is Ok <==> final(self)@.bindings.contains(entry),
    {
        self.binding_table.bind(entry)
    }

    /// Remove a binding table entry. Nothing changes where it does not exist.
    pub fn unbind(&mut self, entry: &BindingEntry)
        requires
            old(self).wf(),
        ensures
            final(self).wf(),
            final(self)@ == (BdbState {
                bindings: Entries::removed(old(self)@.bindings, *entry),
                ..old(self)@
            }),
    {
        self.binding_table.unbind(entry);
    }

    /// The binding table.
    pub fn bindings(&self) -> (entries: &[BindingEntry])
        ensures
            entries@ == self@.bindings,
    {
        self.binding_table.as_slice()
    }

    /// Enter a group membership, so that frames for `group_id` are delivered to
    /// `endpoint`. Nothing changes where it is there already or the table is full.
    pub fn add_aps_group(&mut self, group_id: u16, endpoint: u8)
        requires
            old(self).wf(),
        ensures
            final(self).wf(),
            final(self)@ == old(self)@.regrouped(GroupEffect::Added(group_id), endpoint),
    {
        self.group_table.add(group_id, endpoint);
    }

    /// Remove a group membership. Nothing changes where it is not there.
    pub fn remove_aps_group(&mut self, group_id: u16, endpoint: u8)
        requires
            old(self).wf(),
        ensures
            final(self).wf(),
            final(self)@ == old(self)@.regrouped(GroupEffect::Removed(group_id), endpoint),
    {
        self.group_table.remove(group_id, endpoint);
    }

    /// Remove every group membership of an endpoint.
    pub fn remove_all_aps_groups(&mut self, endpoint: u8)
        requires
            old(self).wf(),
        ensures
            final(self).wf(),
            final(self)@ == old(self)@.regrouped(GroupEffect::AllRemoved, endpoint),
    {
        self.group_table.remove_all(endpoint);
    }

    /// What the network layer knows.
    pub fn nib(&self) -> (nib: &Nib)
        ensures
            nib@ == self@.nib,
    {
        &self.nib
    }

    /// What came of the last tick that a poll began with.
    pub fn last_device_tick(&self) -> (tick: DeviceTick)
        ensures
            tick == self@.last_tick,
    {
        self.last_device_tick
    }

    pub fn is_on_network(&self) -> (yes: bool)
        ensures
            yes == self@.on_network,
    {
        self.bdb_node_is_on_a_network
    }

    pub fn is_end_device(&self) -> (yes: bool)
        ensures
            yes == (self@.logical_type == LogicalType::EndDevice),
    {
        matches!(self.logical_type, LogicalType::EndDevice)
    }

    pub fn is_router(&self) -> (yes: bool)
        ensures
            yes == (self@.logical_type == LogicalType::Router),
    {
        matches!(self.logical_type, LogicalType::Router)
    }

    /// A request to rejoin the network that this node was in, where it was.
    pub fn same_channel_rejoin_request(&self) -> (request: NlmeRejoinRequest)
        ensures
            request == self@.rejoin_request(),
    {
        NlmeRejoinRequest {
            extended_pan_id: self.nib.extended_pan_id,
            capability_information: self.nib.capability_information,
            secure: true,
            scan: RejoinScan::SameChannel,
        }
    }

    /// Go on after an attempt to rejoin: on success, with the announcement to send.
    pub fn rejoin_after_network_leave(&mut self, confirm: NlmeJoinConfirm) -> (r: Result<
        DeviceAnnce,
        BdbError,
    >)
        ensures
            old(self).wf() ==> final(self).wf(),
            final(self)@ == old(self)@.rejoined(confirm),
            r == if confirm.status == NlmeJoinStatus::Success {
                Ok(old(self)@.announcement(old(self)@.nib.capability_information))
            } else {
                Err(BdbError::JoinFailed(confirm.status))
            },
    {
        match confirm.status {
            NlmeJoinStatus::Success => {
                self.bdb_node_is_on_a_network = true;
                self.bdb_commissioning_status = BdbCommissioningStatus::Success;
                Ok(self.device_annce(self.nib.capability_information))
            },
            NlmeJoinStatus::Refused(_) => {
                self.mark_network_leave_without_rejoin();
                Err(BdbError::JoinFailed(confirm.status))
            },
        }
    }

    pub fn mark_network_leave_without_rejoin(&mut self)
        ensures
            old(self).wf() ==> final(self).wf(),
            final(self)@ == old(self)@.left(),
    {
        self.bdb_node_is_on_a_network = false;
        self.bdb_commissioning_status = BdbCommissioningStatus::NotOnANetwork;
    }

    /// The request to leave the network of this node's own accord.
    pub fn leave_request() -> (request: NlmeLeaveRequest)
        ensures
            request == (NlmeLeaveRequest {
                rejoin: false,
                remove_children: false,
                source: LeaveSource::Local,
            }),
    {
        NlmeLeaveRequest { rejoin: false, remove_children: false, source: LeaveSource::Local }
    }

    /// Leave the network of this node's own accord, once the request to leave has been
    /// sent, however that went.
    pub fn leave_network(&mut self)
        ensures
            old(self).wf() ==> final(self).wf(),
            final(self)@ == old(self)@.left(),
    {
        self.mark_network_leave_without_rejoin();
    }

    /// Find out after a restart whether this node is in a network.
    ///
    /// A node that has an address but no key is in none, and cannot go on.
    pub fn start_initialization_procedure(&mut self) -> (r: Result<(), NetworkError>)
        ensures
            old(self).wf() ==> final(self).wf(),
            ({
                let nib = old(self)@.nib;
                let joined = nib.network_address != NO_NETWORK_ADDRESS;
                let keyed = nib.key_seq_numbers.len() > 0;
                &&& final(self)@ == (BdbState {
                    on_network: old(self)@.on_network || (joined && keyed),
                    ..old(self)@
                })
                &&& r == if joined && !keyed {
                    Err(NetworkError::MissingSecurityMaterial)
                } else {
                    Ok::<(), NetworkError>(())
                }
            }),
    {
        if self.nib.network_address != NO_NETWORK_ADDRESS {
            if self.nib.key_seq_numbers.len() > 0 {
                self.bdb_node_is_on_a_network = true;
            } else {
                return Err(NetworkError::MissingSecurityMaterial);
            }
        }
        Ok(())
    }

    /// This node's announcement.
    pub fn device_annce(&self, capability_information: CapabilityInformation) -> (annce:
        DeviceAnnce)
        ensures
            annce == self@.announcement(capability_information),
    {
        DeviceAnnce {
            nwk_addr: ShortAddress(self.nib.network_address),
            ieee_addr: self.nib.ieee_address,
            capability: capability_information,
        }
    }

    /// Begin a poll: advance the device to `now_ms`, then wait for one frame.
    pub fn begin_poll<D: Device>(&mut self, app: &mut D, now_ms: u32)
        requires
            old(app).wf(),
        ensures
            final(app).wf(),
            old(self).wf() ==> final(self).wf(),
            final(self)@ == (BdbState { last_tick: final(self)@.last_tick, ..old(self)@ }),
            Tour::ticked(*old(app), now_ms, *final(app), final(self)@.last_tick),
    {
        self.last_device_tick = app.tick(now_ms);
    }

    /// Go on with what came of waiting for a frame.
    pub fn handle_poll<D: Device>(
        &mut self,
        app: &mut D,
        poll: Result<ZigbeeDevicePoll<'_>, NetworkError>,
        tx_buf: &mut [u8],
        now_ms: u32,
    ) -> (step: PollStep)
        requires
            old(self).wf(),
            old(app).wf(),
        ensures
            final(self).wf(),
            final(app).wf(),
            Received::handled(
                old(self)@,
                *old(app),
                poll,
                old(tx_buf)@,
                now_ms,
                final(self)@,
                *final(app),
                step,
            ),
    {
        match poll {
            Ok(ZigbeeDevicePoll::Command(command)) => self.handle_polled_aps_command(command),
            Ok(ZigbeeDevicePoll::Data(indication))
            | Ok(ZigbeeDevicePoll::FragmentComplete(Some(indication))) => {
                self.handle_polled_aps_data(app, indication, tx_buf, now_ms)
            },
            Ok(ZigbeeDevicePoll::Ack)
            | Ok(ZigbeeDevicePoll::FragmentDeferred)
            | Ok(ZigbeeDevicePoll::FragmentComplete(None))
            | Err(NetworkError::MacError(MacError::NoData))
            | Err(NetworkError::InvalidFrame) => PollStep::Done(Ok(BdbEvent::UnsupportedFrame)),
            Err(NetworkError::LeaveRequested { rejoin: true }) => PollStep::Rejoin(
                self.same_channel_rejoin_request(),
            ),
            Err(NetworkError::LeaveRequested { rejoin: false }) => PollStep::Leave(
                NlmeLeaveRequest {
                    rejoin: false,
                    remove_children: false,
                    source: LeaveSource::NetworkRequest { source: ShortAddress(0xffff) },
                },
            ),
            Err(e) => PollStep::Done(Err(BdbError::NetworkError(e))),
        }
    }

    /// Go on with a received command.
    pub fn handle_polled_aps_command(&mut self, command: Command) -> (step: PollStep)
        requires
            old(self).wf(),
        ensures
            final(self).wf(),
            Received::command_handled(old(self)@, command, final(self)@, step),
    {
        match command {
            Command::TransportKey(key) => PollStep::Install(key),
            Command::SwitchKey { key_seq_number } => {
                let mut i: usize = 0;
                while i < self.nib.key_seq_numbers.len()
                    invariant
                        i <= self.nib.key_seq_numbers@.len(),
                        self.wf(),
                        *self == *old(self),
                        command == (Command::SwitchKey { key_seq_number }),
                        forall|k: int|
                            0 <= k < i ==> self.nib.key_seq_numbers@[k] != key_seq_number,
                    decreases self.nib.key_seq_numbers@.len() - i,
                {
                    if self.nib.key_seq_numbers[i] == key_seq_number {
                        assert(self@.nib.key_seq_numbers[i as int] == key_seq_number);
                        self.nib.active_key_seq_number = key_seq_number;
                        return PollStep::Done(Ok(BdbEvent::TransportKeyInstalled));
                    }
                    i = i + 1;
                }
                PollStep::Done(Ok(BdbEvent::UnsupportedFrame))
            },
            Command::ConfirmKey { .. }
            | Command::RequestTrustCenterLinkKey
            | Command::VerifyKey { .. }
            | Command::Reserved(_) => PollStep::Done(Ok(BdbEvent::UnsupportedFrame)),
        }
    }

    /// Go on with a received data frame.
    pub fn handle_polled_aps_data<D: Device>(
        &mut self,
        app: &mut D,
        indication: ApsdeSapIndication<'_>,
        tx_buf: &mut [u8],
        now_ms: u32,
    ) -> (step: PollStep)
        requires
            old(self).wf(),
            old(app).wf(),
        ensures
            final(self).wf(),
            final(app).wf(),
            Received::data_handled(
                old(self)@,
                *old(app),
                indication,
                old(tx_buf)@,
                now_ms,
                final(self)@,
                *final(app),
                step,
            ),
    {
        if indication.dst_endpoint == 0 && indication.profile_id == 0x0000 {
            return self.handle_zdo_data(app, indication);
        }
        self.handle_zcl_data(app, indication, tx_buf, now_ms)
    }

    fn handle_zdo_data<D: Device>(&mut self, app: &D, indication: ApsdeSapIndication<'_>) -> (step:
        PollStep)
        requires
            old(self).wf(),
        ensures
            final(self).wf(),
            Received::zdo_handled(
                old(self)@,
                app.endpoint_list(),
                indication,
                final(self)@,
                step,
            ),
    {
        let source: ShortAddress = match indication.source_short_address() {
            Some(source) => source,
            None => return PollStep::Done(Ok(BdbEvent::UnsupportedFrame)),
        };
        let total: usize = indication.asdu.len();
        if total == 0 {
            return PollStep::Done(Ok(BdbEvent::UnsupportedFrame));
        }
        let sequence: u8 = indication.asdu[0];
        let payload: &[u8] = &indication.asdu[1..total];
        assert(payload@ =~= indication.asdu@.skip(1));
        let cluster_id: u16 = indication.cluster_id;
        if cluster_id == DEVICE_ANNCE_CLUSTER_ID {
            return match read_device_annce(payload) {
                Some(annce) => PollStep::Done(Ok(BdbEvent::DeviceAnnounced(annce))),
                None => PollStep::Done(Ok(BdbEvent::UnsupportedFrame)),
            };
        }
        if 0x8000 <= cluster_id && cluster_id <= 0x8038 {
            let mut response = no_payload();
            return match extend_payload(&mut response, payload) {
                Ok(()) => {
                    assert(crate::bounded::payload_bytes(response) =~= payload@);
                    PollStep::Done(
                        Ok(BdbEvent::ZdoResponse { source, cluster_id, sequence, payload: response }),
                    )
                },
                Err(()) => PollStep::Done(Err(BdbError::UnsupportedFrame)),
            };
        }
        let node = NodeIdentity {
            ieee_address: self.nib.ieee_address,
            network_address: self.nib.network_address,
            logical_type: self.logical_type,
        };
        match answer_request(
            node,
            app.endpoints(),
            &mut self.binding_table,
            source,
            cluster_id,
            sequence,
            payload,
        ) {
            Some(asdu) => {
                let data = ApsData {
                    destination: source,
                    dst_endpoint: 0,
                    profile_id: 0x0000,
                    cluster_id: cluster_id + 0x8000,
                    src_endpoint: 0,
                    asdu,
                };
                PollStep::Reply { data, event: BdbEvent::UnsupportedFrame }
            },
            None => PollStep::Done(Ok(BdbEvent::UnsupportedFrame)),
        }
    }

    fn handle_zcl_data<D: Device>(
        &mut self,
        app: &mut D,
        indication: ApsdeSapIndication<'_>,
        tx_buf: &mut [u8],
        now_ms: u32,
    ) -> (step: PollStep)
        requires
            old(self).wf(),
            old(app).wf(),
        ensures
            final(self).wf(),
            final(app).wf(),
            Received::zcl_handled(
                old(self)@,
                *old(app),
                indication,
                old(tx_buf)@,
                now_ms,
                final(self)@,
                *final(app),
                step,
            ),
    {
        let source: ShortAddress = match indication.source_short_address() {
            Some(source) => source,
            None => return PollStep::Done(Ok(BdbEvent::UnsupportedFrame)),
        };
        let (frame, used) = match IncomingZclFrame::decode(indication.asdu) {
            Ok(parsed) => parsed,
            Err(_) => return PollStep::Done(Ok(BdbEvent::UnsupportedFrame)),
        };
        if used != indication.asdu.len() {
            return PollStep::Done(Ok(BdbEvent::UnsupportedFrame));
        }
        let ctx: DispatchContext = match indication.delivery {
            ApsDeliveryMode::Unicast => DispatchContext::unicast(
                now_ms,
                Some(ApsPeer { short_addr: source.0, endpoint: indication.src_endpoint }),
            ),
            ApsDeliveryMode::Broadcast | ApsDeliveryMode::Group => DispatchContext::broadcast(
                now_ms,
            ),
        };
        let request = ClusterRequest {
            endpoint: indication.dst_endpoint,
            cluster: ClusterKey::new(ClusterId(indication.cluster_id), frame.manufacturer_code()),
            ctx,
            frame: &frame,
        };
        let ghost before = tx_buf@;
        let r: Result<DispatchOutcome, DispatchError> = app.dispatch_cluster(request, tx_buf);
        let ghost mid = tx_buf@;
        let step: PollStep = self.answer_cluster_frame(indication, source, &frame, ctx, r, tx_buf);
        assert(Received::zcl_dispatched(
            old(self)@,
            *old(app),
            indication,
            source,
            frame,
            before,
            now_ms,
            mid,
            r,
            self@,
            *app,
            step,
        ));
        step
    }

    /// Go on with the outcome `r` of dispatching a cluster frame.
    pub fn answer_cluster_frame(
        &mut self,
        indication: ApsdeSapIndication<'_>,
        source: ShortAddress,
        frame: &IncomingZclFrame<'_>,
        ctx: DispatchContext,
        r: Result<DispatchOutcome, DispatchError>,
        tx_buf: &mut [u8],
    ) -> (step: PollStep)
        requires
            old(self).wf(),
            r is Ok ==> r->Ok_0.response_len <= old(tx_buf)@.len(),
        ensures
            final(self).wf(),
            Received::zcl_answered(
                old(self)@,
                indication,
                source,
                *frame,
                ctx,
                r,
                old(tx_buf)@,
                final(self)@,
                step,
            ),
    {
        match r {
            Ok(outcome) => {
                match outcome.effects.group {
                    GroupEffect::Added(group) => self.add_aps_group(
                        group,
                        indication.dst_endpoint,
                    ),
                    GroupEffect::Removed(group) => self.remove_aps_group(
                        group,
                        indication.dst_endpoint,
                    ),
                    GroupEffect::AllRemoved => self.remove_all_aps_groups(indication.dst_endpoint),
                    GroupEffect::Nothing => {},
                }
                if outcome.response_len > 0 {
                    respond(indication, source, tx_buf, outcome.response_len)
                } else {
                    PollStep::Done(Ok(zcl_handled(indication, source, false)))
                }
            },
            Err(DispatchError::UnsupportedCluster) | Err(DispatchError::UnsupportedEndpoint) => {
                if should_send_default_response(frame, ctx, Status::UnsupportedCluster) {
                    match build_default_response_for_frame(
                        frame,
                        Status::UnsupportedCluster,
                        tx_buf,
                    ) {
                        Ok(n) => respond(indication, source, tx_buf, n),
                        Err(e) => PollStep::Done(Err(BdbError::ZclCodec(e))),
                    }
                } else {
                    PollStep::Done(Ok(zcl_handled(indication, source, false)))
                }
            },
            Err(DispatchError::Codec(_)) => PollStep::Done(
                Ok(zcl_handled(indication, source, false)),
            ),
        }
    }

    /// Go on after a key was to be installed.
    pub fn finish_install(installed: Result<(), NetworkError>) -> (r: Result<BdbEvent, BdbError>)
        ensures
            match installed {
                Ok(()) => r == Ok::<BdbEvent, BdbError>(BdbEvent::TransportKeyInstalled),
                Err(e) => r == Err::<BdbEvent, BdbError>(BdbError::NetworkError(e)),
            },
    {
        match installed {
            Ok(()) => Ok(BdbEvent::TransportKeyInstalled),
            Err(e) => Err(BdbError::NetworkError(e)),
        }
    }

    /// Go on after a response was sent that `event` depends on.
    pub fn finish_response(sent: Result<(), NetworkError>, event: BdbEvent) -> (r: Result<
        BdbEvent,
        BdbError,
    >)
        ensures
            match sent {
                Ok(()) => r == Ok::<BdbEvent, BdbError>(event),
                Err(e) => r == Err::<BdbEvent, BdbError>(BdbError::NetworkError(e)),
            },
    {
        match sent {
            Ok(()) => Ok(event),
            Err(e) => Err(BdbError::NetworkError(e)),
        }
    }

    /// Go on after this node left the network at the network's request.
    pub fn finish_leave(&mut self) -> (event: BdbEvent)
        ensures
            old(self).wf() ==> final(self).wf(),
            final(self)@ == old(self)@.left(),
            event == (BdbEvent::Left { rejoin: false }),
    {
        self.mark_network_leave_without_rejoin();
        BdbEvent::Left { rejoin: false }
    }
}

fn zcl_handled(indication: ApsdeSapIndication<'_>, source: ShortAddress, response_sent: bool) -> (event:
    BdbEvent)
    ensures
        event == Received::zcl_event(indication, source, response_sent),
{
    BdbEvent::ZclHandled {
        source,
        endpoint: indication.dst_endpoint,
        cluster_id: indication.cluster_id,
        response_sent,
    }
}

/// Send the first `n` bytes back to where the frame came from.
fn respond(indication: ApsdeSapIndication<'_>, source: ShortAddress, tx_buf: &[u8], n: usize) -> (step:
    PollStep)
    requires
        n <= tx_buf@.len(),
    ensures
        Received::responds(indication, source, tx_buf@.take(n as int), step),
{
    let asdu: Vec<u8> = vstd::slice::slice_to_vec(&tx_buf[0..n]);
    assert(asdu@ =~= tx_buf@.take(n as int));
    let data = ApsData {
        destination: source,
        dst_endpoint: indication.src_endpoint,
        profile_id: indication.profile_id,
        cluster_id: indication.cluster_id,
        src_endpoint: indication.dst_endpoint,
        asdu,
    };
    PollStep::Respond { data, event: zcl_handled(indication, source, true) }
}

/// A frame for an endpoint that is not there changes nothing, and is answered with
/// a refusal where it may be answered.
pub proof fn law_unknown_endpoint_is_refused<D: Device>(
    pre: BdbState,
    before: D,
    indication: ApsdeSapIndication<'_>,
    buf: Seq<u8>,
    now_ms: u32,
    post: BdbState,
    after: D,
    step: PollStep,
    source: ShortAddress,
    fields: FrameFields,
)
    requires
        indication.source() == Some(source),
        FrameFields::of(indication.asdu@) == Ok::<FrameFields, ZclError>(fields),
        !fields.truncated(),
        !crate::device::EndpointDescriptor::listed(
            before.endpoint_list(),
            indication.dst_endpoint,
        ),
        Received::zcl_handled(pre, before, indication, buf, now_ms, post, after, step),
    ensures
        post == pre,
        after == before,
        exists|frame: IncomingZclFrame<'_>| #[trigger]
            frame.holds(fields) && Received::zcl_answered(
                pre,
                indication,
                source,
                frame,
                Received::context(indication, source, now_ms),
                Err(DispatchError::UnsupportedEndpoint),
                buf,
                post,
                step,
            ),
{
    let (frame, mid, r) = choose|
        frame: IncomingZclFrame<'_>,
        mid: Seq<u8>,
        r: Result<DispatchOutcome, DispatchError>,
    |
        frame.holds(fields) && #[trigger] Received::zcl_dispatched(
            pre,
            before,
            indication,
            source,
            frame,
            buf,
            now_ms,
            mid,
            r,
            post,
            after,
            step,
        );
    assert(frame.holds(fields));
}

/// A frame that did not come to this node alone is never answered with a refusal.
pub proof fn law_broadcast_is_not_refused(
    pre: BdbState,
    indication: ApsdeSapIndication<'_>,
    source: ShortAddress,
    frame: IncomingZclFrame<'_>,
    now_ms: u32,
    e: DispatchError,
    buf: Seq<u8>,
    post: BdbState,
    step: PollStep,
)
    requires
        indication.delivery != ApsDeliveryMode::Unicast,
        Received::zcl_answered(
            pre,
            indication,
            source,
            frame,
            Received::context(indication, source, now_ms),
            Err(e),
            buf,
            post,
            step,
        ),
    ensures
        post == pre,
        step == PollStep::Done(Ok(Received::zcl_event(indication, source, false))),
{
}

/// A key becomes the active one only where it is installed.
pub proof fn law_only_installed_keys_become_active(
    pre: BdbState,
    command: Command,
    post: BdbState,
    step: PollStep,
)
    requires
        Received::command_handled(pre, command, post, step),
    ensures
        post.nib.active_key_seq_number != pre.nib.active_key_seq_number
            ==> pre.nib.key_seq_numbers.contains(post.nib.active_key_seq_number),
        post.nib.key_seq_numbers == pre.nib.key_seq_numbers,
{
}

} // verus!
