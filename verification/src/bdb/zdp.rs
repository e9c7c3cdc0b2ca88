//! Device discovery: requests from other nodes and the responses to them.

use vstd::prelude::*;

use crate::bdb::tables::BindingTable;
use crate::bdb::tables::Entries;
use crate::bdb::types::BindingEntry;
use crate::bdb::types::CapabilityInformation;
use crate::bdb::types::DeviceAnnce;
use crate::bdb::types::IeeeAddress;
use crate::bdb::types::LogicalType;
use crate::bdb::types::ShortAddress;
use crate::bdb::types::MAX_BINDING_TABLE_ENTRIES;
use crate::bytes::le_number;
use crate::bytes::push_u16_le;
use crate::bytes::push_u64_le;
use crate::bytes::read_u16;
use crate::bytes::Le;
use crate::device::EndpointDescriptor;
use crate::types::ids::ClusterId;

verus! {

/// The longest response that describes an endpoint.
pub const SIMPLE_DESC_CAPACITY: usize = 64;

/// The longest response that lists endpoints.
pub const ENDPOINT_LIST_CAPACITY: usize = 32;

/// How many matching endpoints a response lists at most.
pub const MATCH_LIST_CAPACITY: usize = 16;

/// A request for endpoints of a profile that serve or use given clusters.
pub struct MatchDescReq {
    pub nwk_addr: u16,
    pub profile_id: u16,
    pub in_cluster_list: Vec<u16>,
    pub out_cluster_list: Vec<u16>,
}

/// What a request for matching endpoints holds.
#[verifier::ext_equal]
pub struct MatchFields {
    pub nwk_addr: u16,
    pub profile_id: u16,
    pub in_cluster_list: Seq<u16>,
    pub out_cluster_list: Seq<u16>,
}

impl View for MatchDescReq {
    type V = MatchFields;

    open spec fn view(&self) -> MatchFields {
        MatchFields {
            nwk_addr: self.nwk_addr,
            profile_id: self.profile_id,
            in_cluster_list: self.in_cluster_list@,
            out_cluster_list: self.out_cluster_list@,
        }
    }
}

/// Who this node is.
#[derive(Clone, Copy, Debug, PartialEq, Eq, Structural)]
pub struct NodeIdentity {
    pub ieee_address: IeeeAddress,
    pub network_address: u16,
    pub logical_type: LogicalType,
}

/// Specification functions of requests and responses.
pub struct Zdp;

impl Zdp {
    /// `n` two-byte numbers from position `at` on.
    pub open spec fn numbers(bytes: Seq<u8>, at: int, n: nat) -> Seq<u16> {
        Seq::new(n, |i: int| Le::u16_at(bytes, at + 2 * i))
    }

    /// The request for matching endpoints in `payload`: address, profile, and two
    /// counted lists of clusters. None where it is cut off.
    pub open spec fn match_request(payload: Seq<u8>) -> Option<MatchFields> {
        if payload.len() < 5 {
            None
        } else {
            let n = payload[4] as nat;
            let at = (5 + 2 * n) as int;
            if payload.len() < at + 1 {
                None
            } else {
                let m = payload[at] as nat;
                if payload.len() < at + 1 + 2 * m {
                    None
                } else {
                    Some(
                        MatchFields {
                            nwk_addr: Le::u16_at(payload, 0),
                            profile_id: Le::u16_at(payload, 2),
                            in_cluster_list: Self::numbers(payload, 5, n),
                            out_cluster_list: Self::numbers(payload, at + 1, m),
                        },
                    )
                }
            }
        }
    }

    /// The announcement in `payload`: short address, unique address, capabilities.
    pub open spec fn announcement(payload: Seq<u8>) -> Option<DeviceAnnce> {
        if payload.len() == 11 {
            Some(
                DeviceAnnce {
                    nwk_addr: ShortAddress(Le::u16_at(payload, 0)),
                    ieee_addr: IeeeAddress(Le::value(payload.subrange(2, 10)) as u64),
                    capability: CapabilityInformation(payload[10]),
                },
            )
        } else {
            None
        }
    }

    /// Both of a node's addresses.
    pub open spec fn address_response(sequence: u8, node: NodeIdentity) -> Seq<u8> {
        seq![sequence, 0x00u8] + Le::bytes(node.ieee_address.0 as nat, 8) + Le::u16(
            node.network_address,
        )
    }

    /// A refusal.
    pub open spec fn error_response(sequence: u8, status: u8, nwk_addr: u16) -> Seq<u8> {
        seq![sequence, status] + Le::u16(nwk_addr)
    }

    /// What kind of node this is: its type, the 2.4 GHz band, its capabilities, no
    /// manufacturer, buffers of 64 bytes and transfers of 128.
    pub open spec fn node_response(sequence: u8, node: NodeIdentity, asked: u16) -> Seq<u8> {
        if asked != node.network_address {
            Self::error_response(sequence, 0x81, asked)
        } else {
            let (kind, capabilities) = match node.logical_type {
                LogicalType::Coordinator => (0x00u8, 0x8eu8),
                LogicalType::Router => (0x01u8, 0x8eu8),
                LogicalType::EndDevice | LogicalType::Reserved(_) => (0x02u8, 0x80u8),
            };
            seq![sequence, 0x00u8] + Le::u16(node.network_address) + seq![
                kind,
                0x40u8,
                capabilities,
                0x00u8,
                0x00u8,
                0x40u8,
                0x80u8,
                0x00u8,
                0x00u8,
                0x2au8,
                0x80u8,
                0x00u8,
                0x00u8,
            ]
        }
    }

    /// The identifiers of clusters, two bytes each.
    pub open spec fn cluster_bytes(clusters: Seq<ClusterId>) -> Seq<u8>
        decreases clusters.len(),
    {
        if clusters.len() == 0 {
            Seq::empty()
        } else {
            Self::cluster_bytes(clusters.drop_last()) + Le::u16(clusters.last().0)
        }
    }

    /// The description of an endpoint: number, profile, device and version, and two
    /// counted lists of clusters.
    pub open spec fn simple_descriptor(desc: EndpointDescriptor) -> Seq<u8> {
        seq![desc.endpoint] + Le::u16(desc.profile_id) + Le::u16(desc.device_id) + seq![
            (desc.device_version % 16) as u8,
            desc.input_clusters@.len() as u8,
        ] + Self::cluster_bytes(desc.input_clusters@) + seq![desc.output_clusters@.len() as u8]
            + Self::cluster_bytes(desc.output_clusters@)
    }

    /// How long the description of an endpoint is.
    pub open spec fn descriptor_len(desc: EndpointDescriptor) -> nat {
        (8 + 2 * desc.input_clusters@.len() + 2 * desc.output_clusters@.len()) as nat
    }

    /// The description of an endpoint, or a refusal where it does not fit.
    pub open spec fn descriptor_response(
        sequence: u8,
        nwk_addr: u16,
        desc: EndpointDescriptor,
    ) -> Seq<u8> {
        if 5 + Self::descriptor_len(desc) > SIMPLE_DESC_CAPACITY {
            Self::error_response(sequence, 0x80, nwk_addr)
        } else {
            seq![sequence, 0x00u8] + Le::u16(nwk_addr) + seq![Self::descriptor_len(desc) as u8]
                + Self::simple_descriptor(desc)
        }
    }

    /// The numbers of endpoints.
    pub open spec fn endpoint_numbers(list: Seq<EndpointDescriptor>) -> Seq<u8> {
        list.map_values(|e: EndpointDescriptor| e.endpoint)
    }

    /// The first `cap` items.
    pub open spec fn at_most<T>(list: Seq<T>, cap: nat) -> Seq<T> {
        if list.len() <= cap {
            list
        } else {
            list.take(cap as int)
        }
    }

    /// The endpoints of a node, as far as they fit.
    pub open spec fn endpoints_response(
        sequence: u8,
        nwk_addr: u16,
        list: Seq<EndpointDescriptor>,
    ) -> Seq<u8> {
        let shown = Self::at_most(list, (ENDPOINT_LIST_CAPACITY - 5) as nat);
        seq![sequence, 0x00u8] + Le::u16(nwk_addr) + seq![shown.len() as u8]
            + Self::endpoint_numbers(shown)
    }

    /// One of the identifiers is one of the clusters.
    pub open spec fn shares(ids: Seq<u16>, clusters: Seq<ClusterId>) -> bool {
        exists|i: int, k: int|
            0 <= i < ids.len() && 0 <= k < clusters.len() && #[trigger] ids[i] == (
            #[trigger] clusters[k]).0
    }

    /// The endpoint has the profile, and serves or uses one of the clusters.
    pub open spec fn matching(req: MatchFields) -> spec_fn(EndpointDescriptor) -> bool {
        |e: EndpointDescriptor|
            e.profile_id == req.profile_id && (Self::shares(
                req.in_cluster_list,
                e.input_clusters@,
            ) || Self::shares(req.out_cluster_list, e.output_clusters@))
    }

    /// The matching endpoints, as far as they fit.
    pub open spec fn match_response(
        sequence: u8,
        nwk_addr: u16,
        req: MatchFields,
        list: Seq<EndpointDescriptor>,
    ) -> Seq<u8> {
        let found = Self::at_most(list.filter(Self::matching(req)), MATCH_LIST_CAPACITY as nat);
        seq![
            sequence,
            if found.len() > 0 {
                0x00u8
            } else {
                0x88u8
            },
        ] + Le::u16(nwk_addr) + seq![found.len() as u8] + Self::endpoint_numbers(found)
    }

    /// The profile of an endpoint; 0 for one that is not there.
    pub open spec fn profile_of(list: Seq<EndpointDescriptor>, endpoint: u8) -> u16 {
        match Self::descriptor_of(list, endpoint) {
            Some(desc) => desc.profile_id,
            None => 0,
        }
    }

    /// The binding that a request speaks of, where it is one to a single node.
    pub open spec fn binding(
        payload: Seq<u8>,
        source: ShortAddress,
        list: Seq<EndpointDescriptor>,
    ) -> Option<BindingEntry> {
        if payload.len() >= 21 && payload[11] == 0x03 {
            Some(
                BindingEntry {
                    src_endpoint: payload[8],
                    cluster_id: Le::u16_at(payload, 9),
                    dst_short_addr: source.0,
                    dst_endpoint: payload[20],
                    profile_id: Self::profile_of(list, payload[8]),
                },
            )
        } else {
            None
        }
    }

    /// The descriptor of an endpoint.
    pub open spec fn descriptor_of(
        list: Seq<EndpointDescriptor>,
        endpoint: u8,
    ) -> Option<EndpointDescriptor>
        decreases list.len(),
    {
        if list.len() == 0 {
            None
        } else if list[0].endpoint == endpoint {
            Some(list[0])
        } else {
            Self::descriptor_of(list.skip(1), endpoint)
        }
    }

    /// The response to a request with sequence number `sequence`, if it gets one.
    pub open spec fn response(
        node: NodeIdentity,
        list: Seq<EndpointDescriptor>,
        bindings: Seq<BindingEntry>,
        source: ShortAddress,
        cluster_id: u16,
        sequence: u8,
        payload: Seq<u8>,
    ) -> Option<Seq<u8>> {
        let asked = Le::u16_at(payload, 0);
        match cluster_id {
            // Which short address has the node with this unique address?
            0x0000u16 => if payload.len() >= 10 && Le::value(payload.take(8))
                == node.ieee_address.0 {
                Some(Self::address_response(sequence, node))
            } else {
                None
            },
            // Which unique address has the node with this short address?
            0x0001u16 => if payload.len() >= 4 && asked == node.network_address {
                Some(Self::address_response(sequence, node))
            } else {
                None
            },
            // What kind of node is this?
            0x0002u16 => if payload.len() >= 2 {
                Some(Self::node_response(sequence, node, asked))
            } else {
                None
            },
            // What is on this endpoint?
            0x0004u16 => if payload.len() < 3 {
                None
            } else if asked != node.network_address {
                Some(Self::error_response(sequence, 0x81, asked))
            } else {
                match Self::descriptor_of(list, payload[2]) {
                    Some(desc) => Some(
                        Self::descriptor_response(sequence, node.network_address, desc),
                    ),
                    None => Some(Self::error_response(sequence, 0x83, asked)),
                }
            },
            // Which endpoints are there?
            0x0005u16 => if payload.len() < 2 {
                None
            } else if asked != node.network_address {
                Some(Self::error_response(sequence, 0x81, asked))
            } else {
                Some(Self::endpoints_response(sequence, node.network_address, list))
            },
            // Which endpoints match?
            0x0006u16 => match Self::match_request(payload) {
                Some(req) => Some(Self::match_response(sequence, node.network_address, req, list)),
                None => None,
            },
            // Make a binding.
            0x0021u16 => Some(
                seq![
                    sequence,
                    match Self::binding(payload, source, list) {
                        Some(e) => if bindings.contains(e) || bindings.len()
                            < MAX_BINDING_TABLE_ENTRIES {
                            0x00u8
                        } else {
                            0xaeu8
                        },
                        None => 0x84u8,
                    },
                ],
            ),
            // Remove a binding.
            0x0022u16 => Some(
                seq![
                    sequence,
                    match Self::binding(payload, source, list) {
                        Some(e) => if bindings.contains(e) {
                            0x00u8
                        } else {
                            0x88u8
                        },
                        None => 0x84u8,
                    },
                ],
            ),
            _ => None,
        }
    }

    /// The bindings after a request.
    pub open spec fn bindings_after(
        list: Seq<EndpointDescriptor>,
        bindings: Seq<BindingEntry>,
        source: ShortAddress,
        cluster_id: u16,
        payload: Seq<u8>,
    ) -> Seq<BindingEntry> {
        match Self::binding(payload, source, list) {
            Some(e) => if cluster_id == 0x0021 {
                Entries::added(bindings, e, MAX_BINDING_TABLE_ENTRIES as nat)
            } else if cluster_id == 0x0022 {
                Entries::removed(bindings, e)
            } else {
                bindings
            },
            None => bindings,
        }
    }
}

impl MatchDescReq {
    /// Decode a request. None where it is cut off.
    pub fn try_read_payload(payload: &[u8]) -> (found: Option<MatchDescReq>)
        ensures
            match found {
                Some(req) => Zdp::match_request(payload@) == Some(req@),
                None => Zdp::match_request(payload@) is None,
            },
    {
        if payload.len() < 5 {
            return None;
        }
        let n: usize = payload[4] as usize;
        let at: usize = 5 + 2 * n;
        if payload.len() < at + 1 {
            return None;
        }
        let m: usize = payload[at] as usize;
        if payload.len() < at + 1 + 2 * m {
            return None;
        }
        let req = MatchDescReq {
            nwk_addr: read_u16(payload, 0),
            profile_id: read_u16(payload, 2),
            in_cluster_list: read_numbers(payload, 5, n),
            out_cluster_list: read_numbers(payload, at + 1, m),
        };
        assert(Zdp::match_request(payload@)->0 =~= req@);
        Some(req)
    }
}

fn read_numbers(bytes: &[u8], at: usize, n: usize) -> (list: Vec<u16>)
    requires
        n <= 255,
        at + 2 * n <= bytes@.len(),
    ensures
        list@ == Zdp::numbers(bytes@, at as int, n as nat),
{
    let total: usize = bytes.len();
    let mut list: Vec<u16> = Vec::new();
    let mut i: usize = 0;
    while i < n
        invariant
            i <= n <= 255,
            total == bytes@.len(),
            at + 2 * n <= bytes@.len(),
            list@ == Zdp::numbers(bytes@, at as int, i as nat),
        decreases n - i,
    {
        list.push(read_u16(bytes, at + 2 * i));
        i = i + 1;
        assert(list@ =~= Zdp::numbers(bytes@, at as int, i as nat));
    }
    list
}

/// Decode an announcement, which takes the whole payload.
pub fn read_device_annce(payload: &[u8]) -> (found: Option<DeviceAnnce>)
    ensures
        found == Zdp::announcement(payload@),
{
    if payload.len() != 11 {
        return None;
    }
    Some(
        DeviceAnnce {
            nwk_addr: ShortAddress(read_u16(payload, 0)),
            ieee_addr: IeeeAddress(le_number(&payload[2..10])),
            capability: CapabilityInformation(payload[10]),
        },
    )
}

pub fn zdp_nwk_addr_rsp(sequence: u8, node: NodeIdentity) -> (bytes: Vec<u8>)
    ensures
        bytes@ == Zdp::address_response(sequence, node),
{
    let mut bytes: Vec<u8> = Vec::new();
    bytes.push(sequence);
    bytes.push(0x00);
    push_u64_le(&mut bytes, node.ieee_address.0);
    push_u16_le(&mut bytes, node.network_address);
    assert(bytes@ =~= Zdp::address_response(sequence, node));
    bytes
}

/// The same bytes as [`zdp_nwk_addr_rsp`].
pub fn zdp_ieee_addr_rsp(sequence: u8, node: NodeIdentity) -> (bytes: Vec<u8>)
    ensures
        bytes@ == Zdp::address_response(sequence, node),
{
    zdp_nwk_addr_rsp(sequence, node)
}

pub fn zdp_error_rsp(sequence: u8, status: u8, nwk_addr: u16) -> (bytes: Vec<u8>)
    ensures
        bytes@ == Zdp::error_response(sequence, status, nwk_addr),
{
    let mut bytes: Vec<u8> = Vec::new();
    bytes.push(sequence);
    bytes.push(status);
    push_u16_le(&mut bytes, nwk_addr);
    assert(bytes@ =~= Zdp::error_response(sequence, status, nwk_addr));
    bytes
}

pub fn zdp_node_desc_rsp(sequence: u8, addr_of_interest: u16, node: NodeIdentity) -> (bytes: Vec<u8>)
    ensures
        bytes@ == Zdp::node_response(sequence, node, addr_of_interest),
{
    if addr_of_interest != node.network_address {
        return zdp_error_rsp(sequence, 0x81, addr_of_interest);
    }
    let (kind, capabilities): (u8, u8) = match node.logical_type {
        LogicalType::Coordinator => (0x00, 0x8e),
        LogicalType::Router => (0x01, 0x8e),
        LogicalType::EndDevice | LogicalType::Reserved(_) => (0x02, 0x80),
    };
    let mut bytes: Vec<u8> = Vec::new();
    bytes.push(sequence);
    bytes.push(0x00);
    push_u16_le(&mut bytes, node.network_address);
    // Logical type, without complex or user descriptor.
    bytes.push(kind);
    // The 2.4 GHz band.
    bytes.push(0x40);
    bytes.push(capabilities);
    // No manufacturer code.
    bytes.push(0x00);
    bytes.push(0x00);
    // Buffers of 64 bytes.
    bytes.push(0x40);
    // Incoming transfers of 128 bytes.
    bytes.push(0x80);
    bytes.push(0x00);
    // No server functions; compliance revision 21.
    bytes.push(0x00);
    bytes.push(0x2a);
    // Outgoing transfers of 128 bytes.
    bytes.push(0x80);
    bytes.push(0x00);
    // No extended descriptors.
    bytes.push(0x00);
    assert(bytes@ =~= Zdp::node_response(sequence, node, addr_of_interest));
    bytes
}

pub fn zdp_active_ep_rsp(sequence: u8, nwk_addr: u16, endpoints: &[EndpointDescriptor]) -> (bytes:
    Vec<u8>)
    ensures
        bytes@ == Zdp::endpoints_response(sequence, nwk_addr, endpoints@),
{
    let room: usize = ENDPOINT_LIST_CAPACITY - 5;
    let count: usize = if endpoints.len() < room {
        endpoints.len()
    } else {
        room
    };
    let ghost shown = Zdp::at_most(endpoints@, room as nat);
    assert(shown =~= endpoints@.take(count as int));
    let mut bytes: Vec<u8> = Vec::new();
    bytes.push(sequence);
    bytes.push(0x00);
    push_u16_le(&mut bytes, nwk_addr);
    bytes.push(count as u8);
    let ghost front = seq![sequence, 0x00u8] + Le::u16(nwk_addr) + seq![count as u8];
    assert(bytes@ =~= front);
    let mut i: usize = 0;
    while i < count
        invariant
            i <= count <= endpoints@.len(),
            bytes@ == front + Zdp::endpoint_numbers(endpoints@.take(i as int)),
        decreases count - i,
    {
        bytes.push(endpoints[i].endpoint);
        i = i + 1;
        assert(bytes@ =~= front + Zdp::endpoint_numbers(endpoints@.take(i as int)));
    }
    bytes
}

fn push_clusters(bytes: &mut Vec<u8>, clusters: &[ClusterId])
    ensures
        final(bytes)@ == old(bytes)@ + Zdp::cluster_bytes(clusters@),
{
    let mut i: usize = 0;
    while i < clusters.len()
        invariant
            i <= clusters@.len(),
            bytes@ == old(bytes)@ + Zdp::cluster_bytes(clusters@.take(i as int)),
        decreases clusters@.len() - i,
    {
        push_u16_le(bytes, clusters[i].0);
        assert(clusters@.take(i + 1).drop_last() =~= clusters@.take(i as int));
        i = i + 1;
        assert(bytes@ =~= old(bytes)@ + Zdp::cluster_bytes(clusters@.take(i as int)));
    }
    assert(clusters@.take(i as int) =~= clusters@);
}

pub fn zdp_simple_desc_rsp(sequence: u8, nwk_addr: u16, desc: &EndpointDescriptor) -> (bytes: Vec<
    u8,
>)
    ensures
        bytes@ == Zdp::descriptor_response(sequence, nwk_addr, *desc),
{
    let inputs: usize = desc.input_clusters.len();
    let outputs: usize = desc.output_clusters.len();
    if inputs > SIMPLE_DESC_CAPACITY || outputs > SIMPLE_DESC_CAPACITY || 5 + 8 + 2 * inputs + 2
        * outputs > SIMPLE_DESC_CAPACITY {
        return zdp_error_rsp(sequence, 0x80, nwk_addr);
    }
    let mut bytes: Vec<u8> = Vec::new();
    bytes.push(sequence);
    bytes.push(0x00);
    push_u16_le(&mut bytes, nwk_addr);
    bytes.push((8 + 2 * inputs + 2 * outputs) as u8);
    bytes.push(desc.endpoint);
    push_u16_le(&mut bytes, desc.profile_id);
    push_u16_le(&mut bytes, desc.device_id);
    bytes.push(desc.device_version % 16);
    bytes.push(inputs as u8);
    push_clusters(&mut bytes, desc.input_clusters);
    bytes.push(outputs as u8);
    push_clusters(&mut bytes, desc.output_clusters);
    assert(bytes@ =~= Zdp::descriptor_response(sequence, nwk_addr, *desc));
    bytes
}

fn share(ids: &Vec<u16>, clusters: &[ClusterId]) -> (yes: bool)
    ensures
        yes == Zdp::shares(ids@, clusters@),
{
    let mut i: usize = 0;
    while i < ids.len()
        invariant
            i <= ids@.len(),
            forall|a: int, k: int|
                0 <= a < i && 0 <= k < clusters@.len() ==> #[trigger] ids@[a] != (
                #[trigger] clusters@[k]).0,
        decreases ids@.len() - i,
    {
        let mut k: usize = 0;
        while k < clusters.len()
            invariant
                i < ids@.len(),
                k <= clusters@.len(),
                forall|b: int| 0 <= b < k ==> ids@[i as int] != (#[trigger] clusters@[b]).0,
            decreases clusters@.len() - k,
        {
            if ids[i] == clusters[k].0 {
                assert(ids@[i as int] == clusters@[k as int].0);
                return true;
            }
            k = k + 1;
        }
        i = i + 1;
    }
    false
}

pub fn zdp_match_desc_rsp(
    sequence: u8,
    nwk_addr: u16,
    req: &MatchDescReq,
    endpoints: &[EndpointDescriptor],
) -> (bytes: Vec<u8>)
    ensures
        bytes@ == Zdp::match_response(sequence, nwk_addr, req@, endpoints@),
{
    let matched: Vec<u8> = matching_endpoints(req, endpoints);
    let status: u8 = if matched.len() > 0 {
        0x00
    } else {
        0x88
    };
    let mut bytes: Vec<u8> = Vec::new();
    bytes.push(sequence);
    bytes.push(status);
    push_u16_le(&mut bytes, nwk_addr);
    bytes.push(matched.len() as u8);
    crate::bytes::push_bytes(&mut bytes, matched.as_slice());
    assert(bytes@ =~= Zdp::match_response(sequence, nwk_addr, req@, endpoints@));
    bytes
}

/// The numbers of the first matching endpoints.
fn matching_endpoints(req: &MatchDescReq, endpoints: &[EndpointDescriptor]) -> (matched: Vec<u8>)
    ensures
        matched@ == Zdp::endpoint_numbers(
            Zdp::at_most(
                endpoints@.filter(Zdp::matching(req@)),
                MATCH_LIST_CAPACITY as nat,
            ),
        ),
{
    let ghost keep = Zdp::matching(req@);
    let mut matched: Vec<u8> = Vec::new();
    let mut i: usize = 0;
    proof {
        reveal(Seq::filter);
        assert(matched@ =~= Zdp::endpoint_numbers(endpoints@.take(0).filter(keep)));
    }
    while i < endpoints.len()
        invariant
            i <= endpoints@.len(),
            keep == Zdp::matching(req@),
            matched@ == Zdp::endpoint_numbers(
                Zdp::at_most(
                    endpoints@.take(i as int).filter(keep),
                    MATCH_LIST_CAPACITY as nat,
                ),
            ),
        decreases endpoints@.len() - i,
    {
        let ghost before = endpoints@.take(i as int).filter(keep);
        proof {
            reveal(Seq::filter);
            assert(endpoints@.take(i + 1).drop_last() =~= endpoints@.take(i as int));
        }
        let e: &EndpointDescriptor = &endpoints[i];
        let yes: bool = e.profile_id == req.profile_id && (share(
            &req.in_cluster_list,
            e.input_clusters,
        ) || share(&req.out_cluster_list, e.output_clusters));
        assert(yes == keep(*e));
        if yes && matched.len() < MATCH_LIST_CAPACITY {
            matched.push(e.endpoint);
        }
        i = i + 1;
        proof {
            let after = endpoints@.take(i as int).filter(keep);
            assert(after == if yes {
                before.push(*e)
            } else {
                before
            });
            assert(matched@ =~= Zdp::endpoint_numbers(
                Zdp::at_most(after, MATCH_LIST_CAPACITY as nat),
            ));
        }
    }
    assert(endpoints@.take(i as int) =~= endpoints@);
    matched
}

/// The descriptor of an endpoint.
fn find_descriptor(endpoints: &[EndpointDescriptor], endpoint: u8) -> (found: Option<usize>)
    ensures
        match found {
            Some(i) => i < endpoints@.len() && Zdp::descriptor_of(endpoints@, endpoint) == Some(
                endpoints@[i as int],
            ),
            None => Zdp::descriptor_of(endpoints@, endpoint) is None,
        },
{
    let mut i: usize = 0;
    assert(endpoints@.skip(0) =~= endpoints@);
    while i < endpoints.len()
        invariant
            i <= endpoints@.len(),
            Zdp::descriptor_of(endpoints@, endpoint) == Zdp::descriptor_of(
                endpoints@.skip(i as int),
                endpoint,
            ),
        decreases endpoints@.len() - i,
    {
        if endpoints[i].endpoint == endpoint {
            return Some(i);
        }
        assert(endpoints@.skip(i as int).skip(1) =~= endpoints@.skip(i + 1));
        i = i + 1;
    }
    None
}

/// The binding that a request speaks of, where it is one to a single node.
fn read_binding(payload: &[u8], source: ShortAddress, endpoints: &[EndpointDescriptor]) -> (found:
    Option<BindingEntry>)
    ensures
        found == Zdp::binding(payload@, source, endpoints@),
{
    if payload.len() >= 21 && payload[11] == 0x03 {
        let src_endpoint: u8 = payload[8];
        let profile_id: u16 = match find_descriptor(endpoints, src_endpoint) {
            Some(i) => endpoints[i].profile_id,
            None => 0,
        };
        Some(
            BindingEntry {
                src_endpoint,
                cluster_id: read_u16(payload, 9),
                dst_short_addr: source.0,
                dst_endpoint: payload[20],
                profile_id,
            },
        )
    } else {
        None
    }
}

/// Answer a request, and make or remove the binding that it asks for.
pub fn answer_request(
    node: NodeIdentity,
    endpoints: &[EndpointDescriptor],
    bindings: &mut BindingTable,
    source: ShortAddress,
    cluster_id: u16,
    sequence: u8,
    payload: &[u8],
) -> (response: Option<Vec<u8>>)
    requires
        old(bindings).wf(),
    ensures
        final(bindings).wf(),
        final(bindings)@ == Zdp::bindings_after(
            endpoints@,
            old(bindings)@,
            source,
            cluster_id,
            payload@,
        ),
        match response {
            Some(bytes) => Some(bytes@),
            None => None,
        } == Zdp::response(
            node,
            endpoints@,
            old(bindings)@,
            source,
            cluster_id,
            sequence,
            payload@,
        ),
{
    match cluster_id {
        0x0000 => {
            if payload.len() >= 10 {
                assert(payload@.subrange(0, 8) =~= payload@.take(8));
                if le_number(&payload[0..8]) == node.ieee_address.0 {
                    return Some(zdp_nwk_addr_rsp(sequence, node));
                }
            }
            None
        },
        0x0001 => {
            if payload.len() >= 4 && read_u16(payload, 0) == node.network_address {
                return Some(zdp_ieee_addr_rsp(sequence, node));
            }
            None
        },
        0x0002 => {
            if payload.len() >= 2 {
                return Some(zdp_node_desc_rsp(sequence, read_u16(payload, 0), node));
            }
            None
        },
        0x0004 => {
            if payload.len() < 3 {
                return None;
            }
            let asked: u16 = read_u16(payload, 0);
            if asked != node.network_address {
                return Some(zdp_error_rsp(sequence, 0x81, asked));
            }
            match find_descriptor(endpoints, payload[2]) {
                Some(i) => Some(zdp_simple_desc_rsp(sequence, asked, &endpoints[i])),
                None => Some(zdp_error_rsp(sequence, 0x83, asked)),
            }
        },
        0x0005 => {
            if payload.len() < 2 {
                return None;
            }
            let asked: u16 = read_u16(payload, 0);
            if asked != node.network_address {
                return Some(zdp_error_rsp(sequence, 0x81, asked));
            }
            Some(zdp_active_ep_rsp(sequence, asked, endpoints))
        },
        0x0006 => match MatchDescReq::try_read_payload(payload) {
            Some(req) => Some(
                zdp_match_desc_rsp(sequence, node.network_address, &req, endpoints),
            ),
            None => None,
        },
        0x0021 => {
            let status: u8 = match read_binding(payload, source, endpoints) {
                Some(entry) => match bindings.bind(entry) {
                    Ok(()) => 0x00,
                    Err(()) => 0xae,
                },
                None => 0x84,
            };
            let bytes: Vec<u8> = vec![sequence, status];
            assert(bytes@ =~= seq![sequence, status]);
            Some(bytes)
        },
        0x0022 => {
            let status: u8 = match read_binding(payload, source, endpoints) {
                Some(entry) => {
                    let found: bool = bindings.contains(&entry);
                    bindings.unbind(&entry);
                    if found {
                        0x00
                    } else {
                        0x88
                    }
                },
                None => 0x84,
            };
            let bytes: Vec<u8> = vec![sequence, status];
            assert(bytes@ =~= seq![sequence, status]);
            Some(bytes)
        },
        _ => None,
    }
}

/// Every response carries the sequence number of its request.
pub proof fn law_response_carries_the_sequence_number(
    node: NodeIdentity,
    list: Seq<EndpointDescriptor>,
    bindings: Seq<BindingEntry>,
    source: ShortAddress,
    cluster_id: u16,
    sequence: u8,
    payload: Seq<u8>,
)
    requires
        Zdp::response(node, list, bindings, source, cluster_id, sequence, payload) is Some,
    ensures
        ({
            let bytes = Zdp::response(
                node,
                list,
                bindings,
                source,
                cluster_id,
                sequence,
                payload,
            )->0;
            bytes.len() >= 2 && bytes[0] == sequence
        }),
{
}

/// Who asks for this node by one address learns both.
pub proof fn law_addresses_can_be_read_back(sequence: u8, node: NodeIdentity)
    ensures
        ({
            let bytes = Zdp::address_response(sequence, node);
            &&& bytes.len() == 12
            &&& Le::value(bytes.subrange(2, 10)) == node.ieee_address.0
            &&& Le::u16_at(bytes, 10) == node.network_address
        }),
{
    let ieee = node.ieee_address.0 as nat;
    crate::bytes::lemma_pow256_small();
    crate::bytes::lemma_bytes_round_trip(ieee, 8);
    crate::bytes::lemma_u16_round_trip(node.network_address);
    let bytes = Zdp::address_response(sequence, node);
    assert(bytes.subrange(2, 10) =~= Le::bytes(ieee, 8));
}

/// A request to bind that is answered with success leaves the binding in place, and
/// a request to unbind leaves it out.
pub proof fn law_bind_and_unbind_requests(
    node: NodeIdentity,
    list: Seq<EndpointDescriptor>,
    bindings: Seq<BindingEntry>,
    source: ShortAddress,
    sequence: u8,
    payload: Seq<u8>,
)
    requires
        Zdp::binding(payload, source, list) is Some,
    ensures
        ({
            let e = Zdp::binding(payload, source, list)->0;
            let bound = Zdp::bindings_after(list, bindings, source, 0x0021, payload);
            let unbound = Zdp::bindings_after(list, bindings, source, 0x0022, payload);
            &&& Zdp::response(node, list, bindings, source, 0x0021, sequence, payload)->0[1] == 0x00
                <==> bound.contains(e)
            &&& !unbound.contains(e)
        }),
{
    let e = Zdp::binding(payload, source, list)->0;
    let bound = Zdp::bindings_after(list, bindings, source, 0x0021, payload);
    if !bindings.contains(e) && bindings.len() < MAX_BINDING_TABLE_ENTRIES {
        assert(bound.last() == e);
        assert(bound.contains(e));
    }
    crate::bdb::tables::law_unbinding_removes_only_that(bindings, e, e);
}

} // verus!
