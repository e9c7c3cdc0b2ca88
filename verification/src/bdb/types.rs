//! The vocabulary of base device behaviour.

use vstd::prelude::*;

use crate::types::error::ZclError;

verus! {

/// How many bindings a node holds at most.
pub const MAX_BINDING_TABLE_ENTRIES: usize = 16;

/// How many group memberships a node holds at most.
pub const MAX_GROUP_TABLE_ENTRIES: usize = 16;

/// How many link keys a node holds at most.
pub const MAX_LINK_KEYS: usize = 16;

/// The longest payload of a device discovery response that is handed on.
pub const ZDO_RESPONSE_PAYLOAD_CAPACITY: usize = 128;

/// The short address of a node in a network.
#[derive(Clone, Copy, Debug, PartialEq, Eq, Structural)]
pub struct ShortAddress(pub u16);

/// The unique address of a node, or the unique name of a network.
#[derive(Clone, Copy, Debug, PartialEq, Eq, Structural)]
pub struct IeeeAddress(pub u64);

/// What a node can do, as it tells when it joins: one bit for each capability.
#[derive(Clone, Copy, Debug, PartialEq, Eq, Structural)]
pub struct CapabilityInformation(pub u8);

impl CapabilityInformation {
    /// Bit 1: the node is a router.
    pub open spec fn is_router(self) -> bool {
        self.0 / 2 % 2 == 1
    }

    /// Whether the node joins as a router.
    pub fn device_type(self) -> (router: bool)
        ensures
            router == self.is_router(),
    {
        self.0 / 2 % 2 == 1
    }
}

/// The role of a node in its network.
#[derive(Clone, Copy, Debug, PartialEq, Eq, Structural)]
pub enum LogicalType {
    Coordinator,
    Router,
    EndDevice,
    Reserved(u8),
}

/// A binding: what this endpoint reports of this cluster goes to that peer.
#[derive(Clone, Copy, Debug, PartialEq, Eq, Structural)]
pub struct BindingEntry {
    pub src_endpoint: u8,
    pub cluster_id: u16,
    pub dst_short_addr: u16,
    pub dst_endpoint: u8,
    pub profile_id: u16,
}

/// A group membership: frames for the group are delivered to the endpoint.
#[derive(Clone, Copy, Debug, PartialEq, Eq, Structural)]
pub struct ApsGroup {
    pub group_address: u16,
    pub endpoint: u8,
}

/// How far a link key has come.
#[derive(Clone, Copy, Debug, PartialEq, Eq, Structural)]
pub enum KeyAttribute {
    ProvisionalKey,
    UnverifiedKey,
    VerifiedKey,
}

#[derive(Clone, Copy, Debug, PartialEq, Eq, Structural)]
pub enum LinkKeyType {
    UniqueLinkKey,
    GlobalLinkKey,
}

/// The link key that is shared with another node.
#[derive(Clone, Copy, Debug, PartialEq, Eq)]
pub struct DeviceKeyPairDescriptor {
    pub device_address: IeeeAddress,
    pub key_attributes: KeyAttribute,
    pub link_key: [u8; 16],
    pub outgoing_frame_counter: u32,
    pub incoming_frame_counter: u32,
    pub link_key_type: LinkKeyType,
}

/// A node in reach, as network discovery found it.
#[derive(Clone, Copy, Debug, PartialEq, Eq, Structural)]
pub struct NwkNeighbor {
    pub extended_pan_id: IeeeAddress,
    pub permit_joining: bool,
    pub potential_parent: u8,
    pub router_capacity: bool,
    pub end_device_capacity: bool,
}

impl NwkNeighbor {
    /// A node can join this neighbour's network through it.
    pub open spec fn takes(self, as_router: bool) -> bool {
        &&& self.permit_joining
        &&& self.potential_parent == 1
        &&& if as_router {
            self.router_capacity
        } else {
            self.end_device_capacity
        }
    }
}

/// What the network layer knows of this node and its network.
#[derive(Debug)]
pub struct Nib {
    /// 0xffff while the node is in no network.
    pub network_address: u16,
    pub ieee_address: IeeeAddress,
    pub extended_pan_id: IeeeAddress,
    pub capability_information: CapabilityInformation,
    /// The sequence numbers of the network keys that are installed.
    pub key_seq_numbers: Vec<u8>,
    pub active_key_seq_number: u8,
    pub neighbors: Vec<NwkNeighbor>,
}

/// Why the radio did not do what it was asked.
#[derive(Clone, Copy, Debug, PartialEq, Eq, Structural)]
pub enum MacError {
    /// The parent had nothing for this node.
    NoData,
    /// Anything else, with its code.
    Other(u8),
}

/// Why the network layer did not do what it was asked.
#[derive(Clone, Copy, Debug, PartialEq, Eq, Structural)]
pub enum NetworkError {
    MacError(MacError),
    InvalidFrame,
    /// The network asked this node to leave.
    LeaveRequested { rejoin: bool },
    NotJoined,
    NoTransportKey,
    MissingSecurityMaterial,
    /// The security layer failed.
    SecurityError,
    /// Anything else, with its code.
    Other(u8),
}

/// How an attempt to join a network ended.
#[derive(Clone, Copy, Debug, PartialEq, Eq, Structural)]
pub enum NlmeJoinStatus {
    Success,
    /// Refused, with the code of the reason.
    Refused(u8),
}

/// The answer to a request to join or to rejoin.
#[derive(Clone, Copy, Debug, PartialEq, Eq, Structural)]
pub struct NlmeJoinConfirm {
    pub status: NlmeJoinStatus,
    pub network_address: ShortAddress,
}

/// A request to join the network `extended_pan_id` by association.
#[derive(Clone, Copy, Debug, PartialEq, Eq, Structural)]
pub struct NlmeJoinRequest {
    pub extended_pan_id: IeeeAddress,
    pub capability_information: CapabilityInformation,
    pub security_enabled: bool,
}

/// Where to look for the network to rejoin.
#[derive(Clone, Copy, Debug, PartialEq, Eq, Structural)]
pub enum RejoinScan {
    SameChannel,
    AllChannels,
}

/// A request to rejoin the network `extended_pan_id`.
#[derive(Clone, Copy, Debug, PartialEq, Eq, Structural)]
pub struct NlmeRejoinRequest {
    pub extended_pan_id: IeeeAddress,
    pub capability_information: CapabilityInformation,
    pub secure: bool,
    pub scan: RejoinScan,
}

/// Who wants this node to leave.
#[derive(Clone, Copy, Debug, PartialEq, Eq, Structural)]
pub enum LeaveSource {
    Local,
    NetworkRequest { source: ShortAddress },
}

/// A request to leave the network.
#[derive(Clone, Copy, Debug, PartialEq, Eq, Structural)]
pub struct NlmeLeaveRequest {
    pub rejoin: bool,
    pub remove_children: bool,
    pub source: LeaveSource,
}

/// A node's announcement that it is in the network.
#[derive(Clone, Copy, Debug, PartialEq, Eq, Structural)]
pub struct DeviceAnnce {
    pub nwk_addr: ShortAddress,
    pub ieee_addr: IeeeAddress,
    pub capability: CapabilityInformation,
}

/// A key that the trust center sends.
#[derive(Clone, Copy, Debug, PartialEq, Eq)]
pub enum TransportKey {
    TrustCenterLinkKey { key: [u8; 16] },
    NetworkKey { key: [u8; 16], key_seq_number: u8 },
    ApplicationLinkKey { key: [u8; 16] },
}

/// A command of the application support layer.
#[derive(Clone, Copy, Debug, PartialEq, Eq)]
pub enum Command {
    TransportKey(TransportKey),
    SwitchKey { key_seq_number: u8 },
    ConfirmKey { status: u8 },
    /// Ask the trust center for a link key of its own.
    RequestTrustCenterLinkKey,
    VerifyKey { key_type: u8, source_address: IeeeAddress, hash: [u8; 16] },
    Reserved(u8),
}

/// An address in the header of a frame.
#[derive(Clone, Copy, Debug, PartialEq, Eq, Structural)]
pub enum Address {
    Absent,
    Group(u16),
    Network(u16),
    Extended(IeeeAddress),
}

/// How a frame was delivered.
#[derive(Clone, Copy, Debug, PartialEq, Eq, Structural)]
pub enum ApsDeliveryMode {
    Unicast,
    Broadcast,
    Group,
}

/// A received data frame.
#[derive(Clone, Copy, Debug)]
pub struct ApsdeSapIndication<'a> {
    pub src_address: Address,
    pub src_endpoint: u8,
    pub dst_endpoint: u8,
    pub profile_id: u16,
    pub cluster_id: u16,
    pub delivery: ApsDeliveryMode,
    pub asdu: &'a [u8],
}

impl<'a> ApsdeSapIndication<'a> {
    /// The short address that the frame came from.
    pub open spec fn source(self) -> Option<ShortAddress> {
        match self.src_address {
            Address::Network(address) => Some(ShortAddress(address)),
            _ => None,
        }
    }

    pub fn source_short_address(&self) -> (source: Option<ShortAddress>)
        ensures
            source == self.source(),
    {
        match self.src_address {
            Address::Network(address) => Some(ShortAddress(address)),
            Address::Absent | Address::Group(_) | Address::Extended(_) => None,
        }
    }
}

/// A received frame.
#[derive(Clone, Copy, Debug)]
pub enum ZigbeeDevicePoll<'a> {
    Command(Command),
    Data(ApsdeSapIndication<'a>),
    Ack,
    FragmentDeferred,
    /// The last fragment of a frame; the whole frame, if it can be had.
    FragmentComplete(Option<ApsdeSapIndication<'a>>),
}

/// A data frame to send.
#[derive(Debug)]
pub struct ApsData {
    pub destination: ShortAddress,
    pub dst_endpoint: u8,
    pub profile_id: u16,
    pub cluster_id: u16,
    pub src_endpoint: u8,
    pub asdu: Vec<u8>,
}

/// What a data frame to send holds.
#[verifier::ext_equal]
pub struct ApsDataFields {
    pub destination: ShortAddress,
    pub dst_endpoint: u8,
    pub profile_id: u16,
    pub cluster_id: u16,
    pub src_endpoint: u8,
    pub asdu: Seq<u8>,
}

impl View for ApsData {
    type V = ApsDataFields;

    open spec fn view(&self) -> ApsDataFields {
        ApsDataFields {
            destination: self.destination,
            dst_endpoint: self.dst_endpoint,
            profile_id: self.profile_id,
            cluster_id: self.cluster_id,
            src_endpoint: self.src_endpoint,
            asdu: self.asdu@,
        }
    }
}

/// Which commissioning procedures to perform.
#[derive(Clone, Copy, Debug, PartialEq, Eq, Structural)]
pub enum CommissioningMode {
    Touchlink,
    NetworkSteering,
    NetworkFormation,
    FindingAndBinding,
}

/// How the last commissioning procedure went.
#[derive(Clone, Copy, Debug, PartialEq, Eq, Structural)]
pub enum BdbCommissioningStatus {
    Success,
    InProgress,
    NotOnANetwork,
    NoNetwork,
    TclkExFailure,
}

/// What became of a received frame.
#[derive(Debug, PartialEq, Eq)]
pub enum BdbEvent {
    /// Nothing that the application needs to know of.
    UnsupportedFrame,
    TransportKeyInstalled,
    DeviceAnnounced(DeviceAnnce),
    ZdoResponse {
        source: ShortAddress,
        cluster_id: u16,
        sequence: u8,
        payload: heapless::Vec<u8, ZDO_RESPONSE_PAYLOAD_CAPACITY>,
    },
    ZclHandled { source: ShortAddress, endpoint: u8, cluster_id: u16, response_sent: bool },
    Joined,
    Rejoined,
    Left { rejoin: bool },
}

/// Why a procedure failed.
#[derive(Clone, Copy, Debug, PartialEq, Eq, Structural)]
pub enum BdbError {
    NetworkError(NetworkError),
    /// No open network was found.
    NoNetwork,
    UnsupportedFrame,
    JoinFailed(NlmeJoinStatus),
    ZclCodec(ZclError),
}

impl From<NetworkError> for BdbError {
    fn from(e: NetworkError) -> (error: Self) {
        BdbError::NetworkError(e)
    }
}

impl vstd::std_specs::convert::FromSpecImpl<NetworkError> for BdbError {
    open spec fn obeys_from_spec() -> bool {
        true
    }

    open spec fn from_spec(e: NetworkError) -> Self {
        BdbError::NetworkError(e)
    }
}

} // verus!
