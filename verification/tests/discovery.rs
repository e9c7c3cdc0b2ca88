use zigbee_cluster_library::bdb::behavior::BaseDeviceBehavior;
use zigbee_cluster_library::bdb::behavior::PollStep;
use zigbee_cluster_library::bdb::types::Address;
use zigbee_cluster_library::bdb::types::ApsDeliveryMode;
use zigbee_cluster_library::bdb::types::ApsdeSapIndication;
use zigbee_cluster_library::bdb::types::BdbError;
use zigbee_cluster_library::bdb::types::BdbEvent;
use zigbee_cluster_library::bdb::types::BindingEntry;
use zigbee_cluster_library::bdb::types::CapabilityInformation;
use zigbee_cluster_library::bdb::types::Command;
use zigbee_cluster_library::bdb::types::DeviceAnnce;
use zigbee_cluster_library::bdb::types::IeeeAddress;
use zigbee_cluster_library::bdb::types::LogicalType;
use zigbee_cluster_library::bdb::types::NetworkError;
use zigbee_cluster_library::bdb::types::Nib;
use zigbee_cluster_library::bdb::types::ShortAddress;
use zigbee_cluster_library::bdb::types::TransportKey;
use zigbee_cluster_library::bdb::types::ZigbeeDevicePoll;
use zigbee_cluster_library::bdb::types::MAX_GROUP_TABLE_ENTRIES;
use zigbee_cluster_library::bdb::types::ZDO_RESPONSE_PAYLOAD_CAPACITY;
use zigbee_cluster_library::bdb::zdp::zdp_active_ep_rsp;
use zigbee_cluster_library::bdb::zdp::zdp_match_desc_rsp;
use zigbee_cluster_library::bdb::zdp::zdp_node_desc_rsp;
use zigbee_cluster_library::bdb::zdp::zdp_simple_desc_rsp;
use zigbee_cluster_library::bdb::zdp::MatchDescReq;
use zigbee_cluster_library::bdb::zdp::NodeIdentity;
use zigbee_cluster_library::device::EndpointDescriptor;
use zigbee_cluster_library::sensor::SensorDevice;
use zigbee_cluster_library::types::ids::ClusterId;

const OWN: u16 = 0x5678;

fn node() -> BaseDeviceBehavior {
    let mut nib = Nib::new(IeeeAddress(0x0102_0304_0506_0708));
    nib.network_address = OWN;
    BaseDeviceBehavior::new(nib, LogicalType::EndDevice)
}

fn zdo(cluster_id: u16, asdu: &[u8]) -> ApsdeSapIndication<'_> {
    ApsdeSapIndication {
        src_address: Address::Network(0x1234),
        src_endpoint: 0,
        dst_endpoint: 0,
        profile_id: 0,
        cluster_id,
        delivery: ApsDeliveryMode::Unicast,
        asdu,
    }
}

fn handle(bdb: &mut BaseDeviceBehavior, indication: ApsdeSapIndication<'_>) -> PollStep {
    let mut app = SensorDevice::new();
    bdb.handle_polled_aps_data(&mut app, indication, &mut [0; 64], 0)
}

/// The bytes of the reply to a request.
fn reply(bdb: &mut BaseDeviceBehavior, cluster_id: u16, asdu: &[u8]) -> Vec<u8> {
    match handle(bdb, zdo(cluster_id, asdu)) {
        PollStep::Reply { data, event } => {
            assert_eq!(event, BdbEvent::UnsupportedFrame);
            assert_eq!(data.destination, ShortAddress(0x1234));
            assert_eq!(data.cluster_id, cluster_id | 0x8000);
            data.asdu
        }
        other => panic!("unexpected step {other:?}"),
    }
}

fn is_ignored(step: PollStep) -> bool {
    matches!(step, PollStep::Done(Ok(BdbEvent::UnsupportedFrame)))
}

fn endpoint(number: u8, input: &'static [ClusterId], output: &'static [ClusterId]) -> EndpointDescriptor {
    EndpointDescriptor {
        endpoint: number,
        profile_id: 0x0104,
        device_id: 0x0302,
        device_version: 0x21,
        input_clusters: input,
        output_clusters: output,
    }
}

#[test]
fn announcement_is_handed_on() {
    let mut bdb = node();
    let asdu = [9, 0x34, 0x12, 8, 7, 6, 5, 4, 3, 2, 1, 0x8e];
    match handle(&mut bdb, zdo(0x0013, &asdu)) {
        PollStep::Done(Ok(event)) => assert_eq!(
            event,
            BdbEvent::DeviceAnnounced(DeviceAnnce {
                nwk_addr: ShortAddress(0x1234),
                ieee_addr: IeeeAddress(0x0102_0304_0506_0708),
                capability: CapabilityInformation(0x8e),
            })
        ),
        other => panic!("unexpected step {other:?}"),
    }
    assert!(is_ignored(handle(&mut bdb, zdo(0x0013, &asdu[..11]))));
    let longer = [9, 0x34, 0x12, 8, 7, 6, 5, 4, 3, 2, 1, 0x8e, 0];
    assert!(is_ignored(handle(&mut bdb, zdo(0x0013, &longer))));
}

#[test]
fn response_is_handed_on_as_far_as_it_fits() {
    let mut bdb = node();
    let mut asdu = vec![0x17; 1 + ZDO_RESPONSE_PAYLOAD_CAPACITY];
    match handle(&mut bdb, zdo(0x8005, &asdu)) {
        PollStep::Done(Ok(BdbEvent::ZdoResponse {
            source,
            cluster_id,
            sequence,
            payload,
        })) => {
            assert_eq!(source, ShortAddress(0x1234));
            assert_eq!(cluster_id, 0x8005);
            assert_eq!(sequence, 0x17);
            assert_eq!(payload.as_slice(), &asdu[1..]);
        }
        other => panic!("unexpected step {other:?}"),
    }
    asdu.push(0);
    assert!(matches!(
        handle(&mut bdb, zdo(0x8005, &asdu)),
        PollStep::Done(Err(BdbError::UnsupportedFrame))
    ));
    assert!(is_ignored(handle(&mut bdb, zdo(0x8039, &[1, 2]))));
    assert!(matches!(
        handle(&mut bdb, zdo(0x8038, &[1])),
        PollStep::Done(Ok(BdbEvent::ZdoResponse { sequence: 1, .. }))
    ));
}

#[test]
fn frames_without_source_or_content_are_ignored() {
    let mut bdb = node();
    assert!(is_ignored(handle(&mut bdb, zdo(0x0002, &[]))));
    for src_address in [
        Address::Absent,
        Address::Group(1),
        Address::Extended(IeeeAddress(1)),
    ] {
        let indication = ApsdeSapIndication {
            src_address,
            ..zdo(0x0002, &[1, 0x78, 0x56])
        };
        assert!(is_ignored(handle(&mut bdb, indication)));
        let cluster_frame = ApsdeSapIndication {
            src_address,
            dst_endpoint: 1,
            profile_id: 0x0104,
            ..zdo(0x0000, &[0, 1, 0, 0, 0])
        };
        assert!(is_ignored(handle(&mut bdb, cluster_frame)));
    }
}

#[test]
fn requests_that_are_cut_off_are_ignored() {
    let mut bdb = node();
    for (cluster_id, shortest) in [(0x0000u16, 10), (0x0001, 4), (0x0002, 2), (0x0004, 3), (0x0005, 2)] {
        let asdu = vec![0; shortest];
        assert!(is_ignored(handle(&mut bdb, zdo(cluster_id, &asdu))));
    }
    let cut = [1, 0x78, 0x56, 0x04, 0x01, 0x02, 0x00, 0x00, 0x03];
    assert!(is_ignored(handle(&mut bdb, zdo(0x0006, &cut))));
    assert!(is_ignored(handle(&mut bdb, zdo(0x0003, &[1, 2, 3]))));
}

#[test]
fn questions_about_other_nodes_are_refused() {
    let mut bdb = node();
    let refusal = vec![7, 0x81, 0x99, 0x99];
    assert_eq!(reply(&mut bdb, 0x0002, &[7, 0x99, 0x99]), refusal);
    assert_eq!(reply(&mut bdb, 0x0004, &[7, 0x99, 0x99, 1]), refusal);
    assert_eq!(reply(&mut bdb, 0x0005, &[7, 0x99, 0x99]), refusal);
}

#[test]
fn unknown_endpoint_is_not_described() {
    let mut bdb = node();
    assert_eq!(
        reply(&mut bdb, 0x0004, &[7, 0x78, 0x56, 9]),
        vec![7, 0x83, 0x78, 0x56]
    );
}

#[test]
fn sensor_is_described() {
    let mut bdb = node();
    assert_eq!(
        reply(&mut bdb, 0x0004, &[7, 0x78, 0x56, 1]),
        vec![
            7, 0x00, 0x78, 0x56, 14, 1, 0x04, 0x01, 0x02, 0x03, 0, 3, 0x00, 0x00, 0x03, 0x00, 0x02,
            0x04, 0
        ]
    );
}

#[test]
fn node_types_have_their_descriptors() {
    for (logical_type, kind, capabilities) in [
        (LogicalType::Coordinator, 0, 0x8e),
        (LogicalType::Router, 1, 0x8e),
        (LogicalType::EndDevice, 2, 0x80),
        (LogicalType::Reserved(5), 2, 0x80),
    ] {
        let node = NodeIdentity {
            ieee_address: IeeeAddress(1),
            network_address: OWN,
            logical_type,
        };
        let bytes = zdp_node_desc_rsp(7, OWN, node);
        assert_eq!(bytes.len(), 17);
        assert_eq!(bytes[4], kind);
        assert_eq!(bytes[6], capabilities);
    }
}

const MANY: [ClusterId; 26] = [ClusterId(0x0006); 26];

#[test]
fn description_that_does_not_fit_is_refused() {
    // 5 + 8 bytes, and two for each cluster: 25 fit into 64 bytes.
    let fits = endpoint(1, &[ClusterId(0x0006); 25], &[]);
    let bytes = zdp_simple_desc_rsp(7, OWN, &fits);
    assert_eq!(bytes.len(), 63);
    assert_eq!(bytes[1], 0x00);
    assert_eq!(bytes[4], 58);
    // Only the low four bits of the version are sent.
    assert_eq!(bytes[10], 0x01);
    let too_long = endpoint(1, &MANY, &[]);
    assert_eq!(
        zdp_simple_desc_rsp(7, OWN, &too_long),
        vec![7, 0x80, 0x78, 0x56]
    );
}

#[test]
fn endpoint_list_is_cut_at_its_capacity() {
    let list: Vec<EndpointDescriptor> = (0..30).map(|i| endpoint(i, &[], &[])).collect();
    let bytes = zdp_active_ep_rsp(7, OWN, &list);
    assert_eq!(bytes.len(), 32);
    assert_eq!(bytes[4], 27);
    assert_eq!(bytes[5], 0);
    assert_eq!(bytes[31], 26);
}

#[test]
fn match_by_output_cluster_and_at_most_sixteen() {
    let req = MatchDescReq::try_read_payload(&[
        0x78, 0x56, 0x04, 0x01, 0x00, 0x02, 0x05, 0x00, 0x06, 0x00,
    ])
    .unwrap();
    assert_eq!(req.nwk_addr, OWN);
    assert_eq!(req.profile_id, 0x0104);
    assert!(req.in_cluster_list.is_empty());
    assert_eq!(req.out_cluster_list, vec![0x0005, 0x0006]);
    let list: Vec<EndpointDescriptor> = (0..20)
        .map(|i| endpoint(i, &[], &[ClusterId(0x0006)]))
        .collect();
    let bytes = zdp_match_desc_rsp(7, OWN, &req, &list);
    assert_eq!(bytes.len(), 21);
    assert_eq!(&bytes[..5], &[7, 0x00, 0x78, 0x56, 16]);
    assert_eq!(bytes[20], 15);
    let other_profile = EndpointDescriptor {
        profile_id: 0x0109,
        ..list[0]
    };
    assert_eq!(
        zdp_match_desc_rsp(7, OWN, &req, &[other_profile]),
        vec![7, 0x88, 0x78, 0x56, 0]
    );
}

#[test]
fn group_bindings_are_refused() {
    let mut bdb = node();
    let mut asdu = [0u8; 22];
    asdu[0] = 7;
    asdu[12] = 0x01; // a group address
    assert_eq!(reply(&mut bdb, 0x0021, &asdu), vec![7, 0x84]);
    assert_eq!(reply(&mut bdb, 0x0022, &asdu), vec![7, 0x84]);
    assert_eq!(reply(&mut bdb, 0x0021, &[7]), vec![7, 0x84]);
    assert!(bdb.bindings().is_empty());
}

#[test]
fn binding_of_an_unknown_endpoint_has_no_profile() {
    let mut bdb = node();
    let mut asdu = [0u8; 22];
    asdu[0] = 7;
    asdu[9] = 5; // endpoint
    asdu[10] = 0x02;
    asdu[11] = 0x04;
    asdu[12] = 0x03;
    asdu[21] = 8;
    assert_eq!(reply(&mut bdb, 0x0021, &asdu), vec![7, 0x00]);
    assert_eq!(
        bdb.bindings(),
        &[BindingEntry {
            src_endpoint: 5,
            cluster_id: 0x0402,
            dst_short_addr: 0x1234,
            dst_endpoint: 8,
            profile_id: 0,
        }]
    );
    // Bound again, it is there once; unbound, it is gone; unbound again, it is missing.
    assert_eq!(reply(&mut bdb, 0x0021, &asdu), vec![7, 0x00]);
    assert_eq!(bdb.bindings().len(), 1);
    assert_eq!(reply(&mut bdb, 0x0022, &asdu), vec![7, 0x00]);
    assert!(bdb.bindings().is_empty());
    assert_eq!(reply(&mut bdb, 0x0022, &asdu), vec![7, 0x88]);
}

#[test]
fn full_group_table_takes_no_more() {
    let mut bdb = node();
    for i in 0..MAX_GROUP_TABLE_ENTRIES as u16 {
        bdb.add_aps_group(i, 1);
    }
    bdb.add_aps_group(0x7777, 1);
    let table = bdb.group_table.as_slice();
    assert_eq!(table.len(), MAX_GROUP_TABLE_ENTRIES);
    assert!(table.iter().all(|g| g.group_address != 0x7777));
}

#[test]
fn transport_key_is_installed_elsewhere() {
    let mut bdb = node();
    let key = TransportKey::NetworkKey {
        key: [1; 16],
        key_seq_number: 3,
    };
    let step = bdb.handle_polled_aps_command(Command::TransportKey(key));
    assert!(matches!(step, PollStep::Install(k) if k == key));
    assert_eq!(
        BaseDeviceBehavior::finish_install(Ok(())),
        Ok(BdbEvent::TransportKeyInstalled)
    );
    assert_eq!(
        BaseDeviceBehavior::finish_install(Err(NetworkError::SecurityError)),
        Err(BdbError::NetworkError(NetworkError::SecurityError))
    );
}

#[test]
fn commands_of_the_trust_center_are_not_for_this_node() {
    let mut bdb = node();
    for command in [
        Command::ConfirmKey { status: 0 },
        Command::RequestTrustCenterLinkKey,
        Command::VerifyKey {
            key_type: 4,
            source_address: IeeeAddress(1),
            hash: [0; 16],
        },
        Command::Reserved(9),
    ] {
        assert!(is_ignored(bdb.handle_polled_aps_command(command)));
    }
}

#[test]
fn fragments_are_handled_once_complete() {
    let mut bdb = node();
    let mut app = SensorDevice::new();
    for poll in [
        ZigbeeDevicePoll::Ack,
        ZigbeeDevicePoll::FragmentDeferred,
        ZigbeeDevicePoll::FragmentComplete(None),
    ] {
        assert!(is_ignored(bdb.handle_poll(&mut app, Ok(poll), &mut [0; 64], 0)));
    }
    let whole = ZigbeeDevicePoll::FragmentComplete(Some(zdo(0x0005, &[7, 0x78, 0x56])));
    match bdb.handle_poll(&mut app, Ok(whole), &mut [0; 64], 0) {
        PollStep::Reply { data, .. } => assert_eq!(data.asdu, vec![7, 0, 0x78, 0x56, 1, 1]),
        other => panic!("unexpected step {other:?}"),
    }
}

#[test]
fn other_errors_are_handed_on() {
    let mut bdb = node();
    let mut app = SensorDevice::new();
    let step = bdb.handle_poll(&mut app, Err(NetworkError::NotJoined), &mut [], 0);
    assert!(matches!(
        step,
        PollStep::Done(Err(BdbError::NetworkError(NetworkError::NotJoined)))
    ));
}

#[test]
fn response_that_cannot_be_sent_is_an_error() {
    assert_eq!(
        BaseDeviceBehavior::finish_response(Err(NetworkError::Other(4)), BdbEvent::Joined),
        Err(BdbError::NetworkError(NetworkError::Other(4)))
    );
}

fn cluster_frame(dst_endpoint: u8, cluster_id: u16, asdu: &[u8]) -> ApsdeSapIndication<'_> {
    ApsdeSapIndication {
        src_endpoint: 2,
        dst_endpoint,
        profile_id: 0x0104,
        ..zdo(cluster_id, asdu)
    }
}

#[test]
fn unknown_endpoint_gets_a_default_response() {
    let mut bdb = node();
    match handle(&mut bdb, cluster_frame(9, 0x0000, &[0x00, 0x33, 0x00, 0x00, 0x00])) {
        PollStep::Respond { data, event } => {
            assert_eq!(data.asdu, vec![0x18, 0x33, 0x0b, 0x00, 0xc3]);
            assert_eq!(data.dst_endpoint, 2);
            assert_eq!(data.src_endpoint, 9);
            assert_eq!(
                event,
                BdbEvent::ZclHandled {
                    source: ShortAddress(0x1234),
                    endpoint: 9,
                    cluster_id: 0x0000,
                    response_sent: true,
                }
            );
        }
        other => panic!("unexpected step {other:?}"),
    }
}

#[test]
fn default_response_without_room_is_an_error() {
    let mut bdb = node();
    let mut app = SensorDevice::new();
    let frame = cluster_frame(9, 0x0000, &[0x00, 0x33, 0x00, 0x00, 0x00]);
    let step = bdb.handle_polled_aps_data(&mut app, frame, &mut [0; 4], 0);
    assert!(matches!(
        step,
        PollStep::Done(Err(BdbError::ZclCodec(_)))
    ));
}

#[test]
fn frames_that_do_not_decode_are_ignored() {
    let mut bdb = node();
    assert!(is_ignored(handle(&mut bdb, cluster_frame(1, 0x0000, &[]))));
    assert!(is_ignored(handle(&mut bdb, cluster_frame(1, 0x0000, &[0x03, 1, 0]))));
    assert!(is_ignored(handle(&mut bdb, cluster_frame(1, 0x0000, &[0x00, 1, 0x00, 0x00]))));
}

#[test]
fn group_addressed_frame_is_not_refused() {
    let mut bdb = node();
    let frame = ApsdeSapIndication {
        delivery: ApsDeliveryMode::Group,
        ..cluster_frame(9, 0x0000, &[0x00, 0x33, 0x00, 0x00, 0x00])
    };
    assert!(matches!(
        handle(&mut bdb, frame),
        PollStep::Done(Ok(BdbEvent::ZclHandled {
            response_sent: false,
            ..
        }))
    ));
}
