//! What device discovery and binding requests are answered, byte for byte.

use vstd::prelude::*;

use crate::bdb::tables::Entries;
use crate::bdb::types::BindingEntry;
use crate::bdb::types::ShortAddress;
use crate::bdb::zdp::MatchFields;
use crate::bdb::zdp::NodeIdentity;
use crate::bdb::zdp::Zdp;
use crate::bytes::Le;
use crate::device::EndpointDescriptor;
use crate::types::ids::ClusterId;

verus! {

/// The number that eight bytes hold from position `at` on, the lowest first.
pub open spec fn number8(b: Seq<u8>, at: int) -> int {
    b[at] + 0x100 * b[at + 1] + 0x1_0000 * b[at + 2] + 0x100_0000 * b[at + 3] + 0x1_0000_0000 * b[at
        + 4] + 0x100_0000_0000 * b[at + 5] + 0x1_0000_0000_0000 * b[at + 6] + 0x100_0000_0000_0000
        * b[at + 7]
}

pub proof fn lemma_number8(b: Seq<u8>)
    requires
        b.len() == 8,
    ensures
        Le::value(b) == number8(b, 0),
{
    let t1 = b.skip(1);
    let t2 = t1.skip(1);
    let t3 = t2.skip(1);
    let t4 = t3.skip(1);
    let t5 = t4.skip(1);
    let t6 = t5.skip(1);
    let t7 = t6.skip(1);
    assert(Le::value(t7.skip(1)) == 0);
    assert(Le::value(t7) == b[7]);
    assert(Le::value(t6) == b[6] + 256 * Le::value(t7));
    assert(Le::value(t5) == b[5] + 256 * Le::value(t6));
    assert(Le::value(t4) == b[4] + 256 * Le::value(t5));
    assert(Le::value(t3) == b[3] + 256 * Le::value(t4));
    assert(Le::value(t2) == b[2] + 256 * Le::value(t3));
    assert(Le::value(t1) == b[1] + 256 * Le::value(t2));
    assert(Le::value(b) == b[0] + 256 * Le::value(t1));
}

/// A request for matching endpoints is an address, a profile, and two lists of clusters, each
/// with its length in front.
pub proof fn law_match_request_is_read(
    address: (u8, u8),
    profile: (u8, u8),
    served: Seq<u8>,
    used: Seq<u8>,
    rest: Seq<u8>,
    n: u8,
    m: u8,
    i: int,
)
    requires
        served.len() == 2 * n,
        used.len() == 2 * m,
    ensures
        Zdp::match_request(
            seq![address.0, address.1, profile.0, profile.1, n] + served + seq![m] + used + rest,
        ) matches Some(req) && {
            &&& req.nwk_addr == address.0 + 256 * address.1
            &&& req.profile_id == profile.0 + 256 * profile.1
            &&& req.in_cluster_list.len() == n
            &&& req.out_cluster_list.len() == m
            &&& 0 <= i < n ==> req.in_cluster_list[i] == served[2 * i] + 256 * served[2 * i + 1]
            &&& 0 <= i < m ==> req.out_cluster_list[i] == used[2 * i] + 256 * used[2 * i + 1]
        },
{
    let p = seq![address.0, address.1, profile.0, profile.1, n] + served + seq![m] + used + rest;
    assert(p[5 + 2 * n] == m);
}

/// A request for matching endpoints that is cut off is none.
pub proof fn law_short_match_request(p: Seq<u8>)
    ensures
        p.len() < 6 ==> Zdp::match_request(p) is None,
        p.len() >= 5 && p.len() < 6 + 2 * p[4] ==> Zdp::match_request(p) is None,
        p.len() >= 5 && p.len() >= 6 + 2 * p[4] && p.len() < 6 + 2 * p[4] + 2 * p[5 + 2 * p[4]]
            ==> Zdp::match_request(p) is None,
{
}

/// An announcement is eleven bytes: short address, unique address and capabilities.
pub proof fn law_announcement_is_read(p: Seq<u8>)
    ensures
        p.len() != 11 ==> Zdp::announcement(p) is None,
        p.len() == 11 ==> (Zdp::announcement(p) matches Some(a) && a.nwk_addr.0 == p[0] + 256 * p[1]
            && a.ieee_addr.0 == number8(p, 2) && a.capability.0 == p[10]),
{
    if p.len() == 11 {
        lemma_number8(p.subrange(2, 10));
    }
}

/// A response with both addresses: success, the unique address, the short address.
pub proof fn law_address_response_layout(sequence: u8, node: NodeIdentity)
    ensures
        ({
            let b = Zdp::address_response(sequence, node);
            &&& b.len() == 12
            &&& b[0] == sequence
            &&& b[1] == 0
            &&& number8(b, 2) == node.ieee_address.0
            &&& b[10] + 256 * b[11] == node.network_address
        }),
{
    crate::bdb::zdp::law_addresses_can_be_read_back(sequence, node);
    let b = Zdp::address_response(sequence, node);
    lemma_number8(b.subrange(2, 10));
}

/// A node answers a question for its short address if its unique address is asked for, and
/// one for its unique address if its short address is; and no other.
pub proof fn law_address_requests(
    node: NodeIdentity,
    list: Seq<EndpointDescriptor>,
    bindings: Seq<BindingEntry>,
    source: ShortAddress,
    sequence: u8,
    p: Seq<u8>,
)
    ensures
        Zdp::response(node, list, bindings, source, 0x0000, sequence, p) == if p.len() >= 10
            && number8(p, 0) == node.ieee_address.0 {
            Some(Zdp::address_response(sequence, node))
        } else {
            None
        },
        Zdp::response(node, list, bindings, source, 0x0001, sequence, p) == if p.len() >= 4 && p[0]
            + 256 * p[1] == node.network_address {
            Some(Zdp::address_response(sequence, node))
        } else {
            None
        },
{
    if p.len() >= 10 {
        lemma_number8(p.take(8));
    }
}

/// A refusal is the sequence number, the status and the address.
pub proof fn law_error_response_layout(sequence: u8, status: u8, low: u8, high: u8)
    ensures
        Zdp::error_response(sequence, status, (low + 256 * high) as u16) == seq![
            sequence,
            status,
            low,
            high,
        ],
{
    assert(Zdp::error_response(sequence, status, (low + 256 * high) as u16) =~= seq![
        sequence,
        status,
        low,
        high,
    ]);
}

/// What a node says of itself: thirteen bytes behind its address, or that it is not the one
/// asked for.
pub proof fn law_node_request(
    node: NodeIdentity,
    list: Seq<EndpointDescriptor>,
    bindings: Seq<BindingEntry>,
    source: ShortAddress,
    sequence: u8,
    low: u8,
    high: u8,
    rest: Seq<u8>,
)
    ensures
        ({
            let r = Zdp::response(
                node,
                list,
                bindings,
                source,
                0x0002,
                sequence,
                seq![low, high] + rest,
            );
            let router = node.logical_type is Router || node.logical_type is Coordinator;
            if low + 256 * high == node.network_address {
                r == Some(
                    seq![
                        sequence,
                        0x00u8,
                        low,
                        high,
                        if node.logical_type is Coordinator {
                            0u8
                        } else if node.logical_type is Router {
                            1u8
                        } else {
                            2u8
                        },
                        0x40u8,
                        if router {
                            0x8eu8
                        } else {
                            0x80u8
                        },
                        0x00u8,
                        0x00u8,
                        0x40u8,
                        0x80u8,
                        0x00u8,
                        0x00u8,
                        0x2au8,
                        0x80u8,
                        0x00u8,
                        0x00u8,
                    ],
                )
            } else {
                r == Some(seq![sequence, 0x81u8, low, high])
            }
        }),
{
    let p = seq![low, high] + rest;
    assert(Le::u16_at(p, 0) == low + 256 * high);
    let r = Zdp::response(node, list, bindings, source, 0x0002, sequence, p)->0;
    law_error_response_layout(sequence, 0x81, low, high);
    if low + 256 * high == node.network_address {
        let kind = if node.logical_type is Coordinator {
            0u8
        } else if node.logical_type is Router {
            1u8
        } else {
            2u8
        };
        let abilities = if node.logical_type is Router || node.logical_type is Coordinator {
            0x8eu8
        } else {
            0x80u8
        };
        assert(r =~= seq![
            sequence,
            0x00u8,
            low,
            high,
            kind,
            0x40u8,
            abilities,
            0x00u8,
            0x00u8,
            0x40u8,
            0x80u8,
            0x00u8,
            0x00u8,
            0x2au8,
            0x80u8,
            0x00u8,
            0x00u8,
        ]);
    }
}

proof fn lemma_cluster_bytes(clusters: Seq<ClusterId>, i: int)
    requires
        0 <= i < clusters.len(),
    ensures
        Zdp::cluster_bytes(clusters).len() == 2 * clusters.len(),
        Zdp::cluster_bytes(clusters)[2 * i] + 256 * Zdp::cluster_bytes(clusters)[2 * i + 1]
            == clusters[i].0,
    decreases clusters.len(),
{
    if clusters.len() > 1 {
        lemma_cluster_bytes(clusters.drop_last(), if i < clusters.len() - 1 {
            i
        } else {
            0
        });
    } else {
        assert(Zdp::cluster_bytes(clusters.drop_last()).len() == 0);
    }
}

/// The description of an endpoint: number, profile, device, version, and two lists of
/// clusters, each with its length in front.
pub proof fn law_descriptor_layout(e: EndpointDescriptor, i: int, k: int)
    requires
        e.input_clusters@.len() <= 255,
        e.output_clusters@.len() <= 255,
    ensures
        ({
            let b = Zdp::simple_descriptor(e);
            let n = e.input_clusters@.len();
            let m = e.output_clusters@.len();
            &&& b.len() == 8 + 2 * n + 2 * m
            &&& b[0] == e.endpoint
            &&& b[1] + 256 * b[2] == e.profile_id
            &&& b[3] + 256 * b[4] == e.device_id
            &&& b[5] == e.device_version % 16
            &&& b[6] == n
            &&& 0 <= i < n ==> b[7 + 2 * i] + 256 * b[8 + 2 * i] == e.input_clusters@[i].0
            &&& b[7 + 2 * n as int] == m
            &&& 0 <= k < m ==> b[8 + 2 * n + 2 * k] + 256 * b[9 + 2 * n + 2 * k]
                == e.output_clusters@[k].0
        }),
{
    let n = e.input_clusters@.len();
    let m = e.output_clusters@.len();
    if n > 0 {
        lemma_cluster_bytes(e.input_clusters@, if 0 <= i < n {
            i
        } else {
            0
        });
    } else {
        assert(Zdp::cluster_bytes(e.input_clusters@).len() == 0);
    }
    if m > 0 {
        lemma_cluster_bytes(e.output_clusters@, if 0 <= k < m {
            k
        } else {
            0
        });
    } else {
        assert(Zdp::cluster_bytes(e.output_clusters@).len() == 0);
    }
}

proof fn lemma_descriptor_of(list: Seq<EndpointDescriptor>, endpoint: u8, k: int)
    requires
        0 <= k < list.len(),
        list[k].endpoint == endpoint,
        forall|j: int| 0 <= j < k ==> (#[trigger] list[j]).endpoint != endpoint,
    ensures
        Zdp::descriptor_of(list, endpoint) == Some(list[k]),
    decreases k,
{
    if k > 0 {
        assert(list[0].endpoint != endpoint);
        assert forall|j: int| 0 <= j < k - 1 implies (#[trigger] list.skip(1)[j]).endpoint
            != endpoint by {
            assert(list[j + 1].endpoint != endpoint);
        }
        lemma_descriptor_of(list.skip(1), endpoint, k - 1);
    }
}

proof fn lemma_no_descriptor(list: Seq<EndpointDescriptor>, endpoint: u8)
    requires
        forall|j: int| 0 <= j < list.len() ==> (#[trigger] list[j]).endpoint != endpoint,
    ensures
        Zdp::descriptor_of(list, endpoint) is None,
    decreases list.len(),
{
    if list.len() > 0 {
        assert(list[0].endpoint != endpoint);
        assert forall|j: int| 0 <= j < list.skip(1).len() implies (#[trigger] list.skip(
            1,
        )[j]).endpoint != endpoint by {
            assert(list[j + 1].endpoint != endpoint);
        }
        lemma_no_descriptor(list.skip(1), endpoint);
    }
}

/// Asked for an endpoint that it has, a node describes it, if the description is of at most
/// 59 bytes; asked for another endpoint, or for another node, it says so.
pub proof fn law_descriptor_request(
    node: NodeIdentity,
    list: Seq<EndpointDescriptor>,
    bindings: Seq<BindingEntry>,
    source: ShortAddress,
    sequence: u8,
    low: u8,
    high: u8,
    endpoint: u8,
    rest: Seq<u8>,
    k: int,
)
    ensures
        ({
            let r = Zdp::response(
                node,
                list,
                bindings,
                source,
                0x0004,
                sequence,
                seq![low, high, endpoint] + rest,
            );
            let ours = low + 256 * high == node.network_address;
            &&& !ours ==> r == Some(seq![sequence, 0x81u8, low, high])
            &&& ours && (forall|j: int|
                0 <= j < list.len() ==> (#[trigger] list[j]).endpoint != endpoint) ==> r == Some(
                seq![sequence, 0x83u8, low, high],
            )
            &&& ours && 0 <= k < list.len() && list[k].endpoint == endpoint && (forall|j: int|
                0 <= j < k ==> (#[trigger] list[j]).endpoint != endpoint) ==> {
                let n = 8 + 2 * list[k].input_clusters@.len() + 2 * list[k].output_clusters@.len();
                if n <= 59 {
                    r == Some(
                        seq![sequence, 0x00u8, low, high, n as u8] + Zdp::simple_descriptor(list[k]),
                    )
                } else {
                    r == Some(seq![sequence, 0x80u8, low, high])
                }
            }
        }),
{
    let p = seq![low, high, endpoint] + rest;
    assert(Le::u16_at(p, 0) == low + 256 * high);
    law_error_response_layout(sequence, 0x80, low, high);
    law_error_response_layout(sequence, 0x81, low, high);
    law_error_response_layout(sequence, 0x83, low, high);
    if forall|j: int| 0 <= j < list.len() ==> (#[trigger] list[j]).endpoint != endpoint {
        lemma_no_descriptor(list, endpoint);
    }
    if 0 <= k < list.len() && list[k].endpoint == endpoint && (forall|j: int|
        0 <= j < k ==> (#[trigger] list[j]).endpoint != endpoint) {
        lemma_descriptor_of(list, endpoint, k);
        let n = 8 + 2 * list[k].input_clusters@.len() + 2 * list[k].output_clusters@.len();
        if low + 256 * high == node.network_address && n <= 59 {
            let r = Zdp::response(node, list, bindings, source, 0x0004, sequence, p)->0;
            assert(r =~= seq![sequence, 0x00u8, low, high, n as u8] + Zdp::simple_descriptor(
                list[k],
            ));
        }
    }
}

/// Asked for its endpoints, a node lists their numbers, 27 at most.
pub proof fn law_endpoints_request(
    node: NodeIdentity,
    list: Seq<EndpointDescriptor>,
    bindings: Seq<BindingEntry>,
    source: ShortAddress,
    sequence: u8,
    low: u8,
    high: u8,
    rest: Seq<u8>,
    i: int,
)
    ensures
        ({
            let r = Zdp::response(
                node,
                list,
                bindings,
                source,
                0x0005,
                sequence,
                seq![low, high] + rest,
            );
            if low + 256 * high == node.network_address {
                let n = if list.len() <= 27 {
                    list.len()
                } else {
                    27
                };
                &&& r is Some
                &&& r->0.len() == 5 + n
                &&& r->0.take(5) == seq![sequence, 0x00u8, low, high, n as u8]
                &&& 0 <= i < n ==> r->0[5 + i] == list[i].endpoint
            } else {
                r == Some(seq![sequence, 0x81u8, low, high])
            }
        }),
{
    let p = seq![low, high] + rest;
    assert(Le::u16_at(p, 0) == low + 256 * high);
    law_error_response_layout(sequence, 0x81, low, high);
    if low + 256 * high == node.network_address {
        let n = if list.len() <= 27 {
            list.len()
        } else {
            27
        };
        let r = Zdp::response(node, list, bindings, source, 0x0005, sequence, p)->0;
        assert(r.take(5) =~= seq![sequence, 0x00u8, low, high, n as u8]);
    }
}

/// An endpoint matches a request exactly if it has its profile, and serves a cluster of the
/// first list or uses one of the second.
pub proof fn law_which_endpoints_match(req: MatchFields, e: EndpointDescriptor)
    ensures
        Zdp::matching(req)(e) <==> e.profile_id == req.profile_id && ((exists|i: int, k: int|
            0 <= i < req.in_cluster_list.len() && 0 <= k < e.input_clusters@.len()
                && #[trigger] req.in_cluster_list[i] == (#[trigger] e.input_clusters@[k]).0) || (
        exists|i: int, k: int|
            0 <= i < req.out_cluster_list.len() && 0 <= k < e.output_clusters@.len()
                && #[trigger] req.out_cluster_list[i] == (#[trigger] e.output_clusters@[k]).0)),
{
}

/// Matching endpoints are listed in order, sixteen at most, with success; where none
/// matches, none is listed, and the status says so.
pub proof fn law_match_response_layout(
    node: NodeIdentity,
    list: Seq<EndpointDescriptor>,
    bindings: Seq<BindingEntry>,
    source: ShortAddress,
    sequence: u8,
    p: Seq<u8>,
    i: int,
)
    requires
        Zdp::match_request(p) is Some,
    ensures
        ({
            let r = Zdp::response(node, list, bindings, source, 0x0006, sequence, p)->0;
            let found = list.filter(Zdp::matching(Zdp::match_request(p)->0));
            let n = if found.len() <= 16 {
                found.len()
            } else {
                16
            };
            &&& r.len() == 5 + n
            &&& r[0] == sequence
            &&& r[1] == if found.len() > 0 {
                0x00u8
            } else {
                0x88u8
            }
            &&& r[2] + 256 * r[3] == node.network_address
            &&& r[4] == n
            &&& 0 <= i < n ==> r[5 + i] == found[i].endpoint
        }),
{
}

/// A request to bind holds the source endpoint, the cluster, the kind of destination and,
/// for a single node, the destination endpoint. The binding is to the node that asks, with
/// the profile of the source endpoint.
pub proof fn law_binding_is_read(
    p: Seq<u8>,
    source: ShortAddress,
    list: Seq<EndpointDescriptor>,
    k: int,
)
    ensures
        p.len() < 21 || p[11] != 0x03 ==> Zdp::binding(p, source, list) is None,
        p.len() >= 21 && p[11] == 0x03 ==> (Zdp::binding(p, source, list) matches Some(e) && {
            &&& e.src_endpoint == p[8]
            &&& e.cluster_id == p[9] + 256 * p[10]
            &&& e.dst_short_addr == source.0
            &&& e.dst_endpoint == p[20]
            &&& 0 <= k < list.len() && list[k].endpoint == p[8] && (forall|j: int|
                0 <= j < k ==> (#[trigger] list[j]).endpoint != p[8]) ==> e.profile_id
                == list[k].profile_id
            &&& (forall|j: int| 0 <= j < list.len() ==> (#[trigger] list[j]).endpoint != p[8])
                ==> e.profile_id == 0
        }),
{
    if p.len() >= 21 {
        let endpoint = p[8];
        if forall|j: int| 0 <= j < list.len() ==> (#[trigger] list[j]).endpoint != endpoint {
            lemma_no_descriptor(list, endpoint);
        }
        if 0 <= k < list.len() && list[k].endpoint == endpoint && (forall|j: int|
            0 <= j < k ==> (#[trigger] list[j]).endpoint != endpoint) {
            lemma_descriptor_of(list, endpoint, k);
        }
    }
}

/// What binding and unbinding are answered: success, a full table, no such entry, or that a
/// binding of this kind is not supported.
pub proof fn law_binding_responses(
    node: NodeIdentity,
    list: Seq<EndpointDescriptor>,
    bindings: Seq<BindingEntry>,
    source: ShortAddress,
    sequence: u8,
    p: Seq<u8>,
)
    ensures
        ({
            let bound = Zdp::response(node, list, bindings, source, 0x0021, sequence, p);
            let unbound = Zdp::response(node, list, bindings, source, 0x0022, sequence, p);
            match Zdp::binding(p, source, list) {
                None => bound == Some(seq![sequence, 0x84u8]) && unbound == Some(
                    seq![sequence, 0x84u8],
                ),
                Some(e) => if bindings.contains(e) {
                    bound == Some(seq![sequence, 0x00u8]) && unbound == Some(
                        seq![sequence, 0x00u8],
                    )
                } else {
                    &&& unbound == Some(seq![sequence, 0x88u8])
                    &&& bindings.len() < 16 ==> bound
                        == Some(seq![sequence, 0x00u8])
                    &&& bindings.len() >= 16 ==> bound
                        == Some(seq![sequence, 0xaeu8])
                },
            }
        }),
{
}

/// No other request changes the bindings, and requests that are too short or unknown get no
/// response.
pub proof fn law_other_requests(
    node: NodeIdentity,
    list: Seq<EndpointDescriptor>,
    bindings: Seq<BindingEntry>,
    source: ShortAddress,
    cluster: u16,
    sequence: u8,
    p: Seq<u8>,
)
    ensures
        cluster != 0x0021 && cluster != 0x0022 ==> Zdp::bindings_after(
            list,
            bindings,
            source,
            cluster,
            p,
        ) == bindings,
        (cluster == 0x0002 || cluster == 0x0005) && p.len() < 2 ==> Zdp::response(
            node,
            list,
            bindings,
            source,
            cluster,
            sequence,
            p,
        ) is None,
        cluster == 0x0004 && p.len() < 3 ==> Zdp::response(
            node,
            list,
            bindings,
            source,
            cluster,
            sequence,
            p,
        ) is None,
        cluster == 0x0003 || 0x0006 < cluster < 0x0021 || cluster > 0x0022 ==> Zdp::response(
            node,
            list,
            bindings,
            source,
            cluster,
            sequence,
            p,
        ) is None,
{
}

/// A table with room takes an entry that it does not have behind the others; a removal
/// takes out every such entry and keeps the rest.
pub proof fn law_table_entries<T>(table: Seq<T>, e: T, other: T, cap: nat)
    ensures
        table.contains(e) ==> Entries::added(table, e, cap) == table,
        !table.contains(e) && table.len() < cap ==> Entries::added(table, e, cap) == table + seq![e],
        !table.contains(e) && table.len() >= cap ==> Entries::added(table, e, cap) == table,
        Entries::removed(table, e).contains(other) <==> table.contains(other) && other != e,
{
    if !table.contains(e) && table.len() < cap {
        assert(Entries::added(table, e, cap) =~= table + seq![e]);
    }
    let keep = Entries::other_than(e);
    let after = table.filter(keep);
    assert(Entries::removed(table, e) == after);
    if after.contains(other) {
        let k = choose|k: int| 0 <= k < after.len() && after[k] == other;
        table.lemma_filter_pred(keep, k);
        table.lemma_filter_contains_rev(keep, other);
    }
    if table.contains(other) && other != e {
        let k = choose|k: int| 0 <= k < table.len() && table[k] == other;
        table.lemma_filter_contains(keep, k);
    }
}

} // verus!
