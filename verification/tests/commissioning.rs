use zigbee_cluster_library::bdb::behavior::BaseDeviceBehavior;
use zigbee_cluster_library::bdb::behavior::PollStep;
use zigbee_cluster_library::bdb::channels::ChannelMask;
use zigbee_cluster_library::bdb::channels::ScanDuration;
use zigbee_cluster_library::bdb::exchange::propagate_tc_terminal_poll_error;
use zigbee_cluster_library::bdb::exchange::ExchangeAction;
use zigbee_cluster_library::bdb::exchange::ExchangeEvent;
use zigbee_cluster_library::bdb::exchange::ExchangePhase;
use zigbee_cluster_library::bdb::exchange::ExchangeStep;
use zigbee_cluster_library::bdb::steering::SteeringAction;
use zigbee_cluster_library::bdb::steering::SteeringEvent;
use zigbee_cluster_library::bdb::steering::SteeringPhase;
use zigbee_cluster_library::bdb::steering::SteeringRequest;
use zigbee_cluster_library::bdb::steering::SteeringStep;
use zigbee_cluster_library::bdb::types::BdbCommissioningStatus;
use zigbee_cluster_library::bdb::types::BdbError;
use zigbee_cluster_library::bdb::types::BdbEvent;
use zigbee_cluster_library::bdb::types::CapabilityInformation;
use zigbee_cluster_library::bdb::types::Command;
use zigbee_cluster_library::bdb::types::DeviceAnnce;
use zigbee_cluster_library::bdb::types::DeviceKeyPairDescriptor;
use zigbee_cluster_library::bdb::types::IeeeAddress;
use zigbee_cluster_library::bdb::types::KeyAttribute;
use zigbee_cluster_library::bdb::types::LeaveSource;
use zigbee_cluster_library::bdb::types::LinkKeyType;
use zigbee_cluster_library::bdb::types::LogicalType;
use zigbee_cluster_library::bdb::types::MacError;
use zigbee_cluster_library::bdb::types::NetworkError;
use zigbee_cluster_library::bdb::types::Nib;
use zigbee_cluster_library::bdb::types::NlmeJoinConfirm;
use zigbee_cluster_library::bdb::types::NlmeJoinStatus;
use zigbee_cluster_library::bdb::types::NwkNeighbor;
use zigbee_cluster_library::bdb::types::ShortAddress;
use zigbee_cluster_library::bdb::types::TransportKey;
use zigbee_cluster_library::bdb::types::MAX_LINK_KEYS;
use zigbee_cluster_library::sensor::SensorDevice;

const OWN_IEEE: IeeeAddress = IeeeAddress(0x0102_0304_0506_0708);
const TC_IEEE: IeeeAddress = IeeeAddress(0x0012_4b00_29e7_ae76);
const NETWORK: IeeeAddress = IeeeAddress(0xBEEF);
const NEW_KEY: [u8; 16] = [0x42; 16];
const NO_DATA: NetworkError = NetworkError::MacError(MacError::NoData);

fn node() -> BaseDeviceBehavior {
    let mut bdb = BaseDeviceBehavior::new(Nib::new(OWN_IEEE), LogicalType::EndDevice);
    bdb.trust_center_address = TC_IEEE;
    bdb
}

fn key_of(address: IeeeAddress) -> DeviceKeyPairDescriptor {
    DeviceKeyPairDescriptor {
        device_address: address,
        key_attributes: KeyAttribute::ProvisionalKey,
        link_key: [0x11; 16],
        outgoing_frame_counter: 5,
        incoming_frame_counter: 6,
        link_key_type: LinkKeyType::GlobalLinkKey,
    }
}

fn confirm(address: u16) -> NlmeJoinConfirm {
    NlmeJoinConfirm {
        status: NlmeJoinStatus::Success,
        network_address: ShortAddress(address),
    }
}

fn act(step: SteeringStep) -> (SteeringPhase, SteeringAction) {
    match step {
        SteeringStep::Act(phase, action) => (phase, action),
        SteeringStep::Done(r) => panic!("ended with {r:?}"),
    }
}

fn next(step: ExchangeStep) -> (ExchangePhase, ExchangeAction) {
    match step {
        ExchangeStep::Act(phase, action) => (phase, action),
        ExchangeStep::Done(r) => panic!("ended with {r:?}"),
    }
}

// ---- channels ----

#[test]
fn channel_mask_takes_channels_only() {
    assert!(ChannelMask::new(0).is_none());
    assert!(ChannelMask::new(1 << 10).is_none());
    assert!(ChannelMask::new(1 << 27).is_none());
    assert!(ChannelMask::new(1 << 11 | 1 << 10).is_none());
    let mask = ChannelMask::new(1 << 11 | 1 << 26).unwrap();
    for channel in 0..32 {
        assert_eq!(mask.contains(channel), channel == 11 || channel == 26);
    }
}

#[test]
fn channel_mask_of_a_range_has_its_channels() {
    let mask = ChannelMask::from_range(12..15).unwrap();
    for channel in 0..32 {
        assert_eq!(mask.contains(channel), (12..15).contains(&channel));
    }
    assert_eq!(ChannelMask::from_range(11..27), ChannelMask::new(0x07ff_f800));
}

#[test]
fn channel_mask_of_a_range_outside_is_none() {
    assert!(ChannelMask::from_range(10..12).is_none());
    assert!(ChannelMask::from_range(26..28).is_none());
    assert!(ChannelMask::from_range(20..20).is_none());
    assert!(ChannelMask::from_range(21..12).is_none());
}

#[test]
fn scan_duration_is_at_most_fourteen() {
    assert_eq!(ScanDuration::new(14).unwrap().exponent(), 14);
    assert!(ScanDuration::new(15).is_none());
}

// ---- steering ----

#[test]
fn steering_with_mask_scans_channel_by_channel() {
    let mut bdb = node();
    let mask = ChannelMask::new(1 << 20 | 1 << 12 | 1 << 26).unwrap();
    let (request, phase, action) = bdb.network_steering_with_mask(
        NETWORK,
        mask,
        ScanDuration::new(5).unwrap(),
        CapabilityInformation(0x80),
    );
    let discover = |channel: u8| SteeringAction::Discover {
        first: channel,
        end: channel + 1,
        duration: 5,
    };
    assert_eq!(action, discover(12));
    let (phase, action) = act(bdb.steering_step(request, phase, SteeringEvent::Discovered(Ok(()))));
    assert_eq!(action, discover(20));
    let (phase, action) = act(bdb.steering_step(request, phase, SteeringEvent::Discovered(Ok(()))));
    assert_eq!(action, discover(26));
    let (_, action) = act(bdb.steering_step(request, phase, SteeringEvent::Discovered(Ok(()))));
    assert!(matches!(action, SteeringAction::Join(join) if join.extended_pan_id == NETWORK));
}

#[test]
fn failed_discovery_ends_steering() {
    let mut bdb = node();
    let (request, phase, _) =
        bdb.network_steering(NETWORK, 11..27, 3, CapabilityInformation(0x80));
    let event = SteeringEvent::Discovered(Err(NetworkError::Other(3)));
    assert_eq!(
        bdb.steering_step(request, phase, event),
        SteeringStep::Done(Err(BdbError::NetworkError(NetworkError::Other(3))))
    );
}

#[test]
fn refused_join_reports_no_network() {
    let mut bdb = node();
    let (request, phase, _) =
        bdb.network_steering(NETWORK, 11..27, 3, CapabilityInformation(0x80));
    let (phase, _) = act(bdb.steering_step(request, phase, SteeringEvent::Discovered(Ok(()))));
    let refused = NlmeJoinConfirm {
        status: NlmeJoinStatus::Refused(2),
        network_address: ShortAddress(0xffff),
    };
    assert_eq!(
        bdb.steering_step(request, phase, SteeringEvent::Joined(refused)),
        SteeringStep::Done(Err(BdbError::JoinFailed(NlmeJoinStatus::Refused(2))))
    );
    assert_eq!(
        bdb.bdb_commissioning_status,
        BdbCommissioningStatus::NoNetwork
    );
    assert!(!bdb.is_on_network());
}

#[test]
fn router_joins_only_where_routers_are_let_in() {
    let full_for_routers = NwkNeighbor {
        extended_pan_id: IeeeAddress(1),
        permit_joining: true,
        potential_parent: 1,
        router_capacity: false,
        end_device_capacity: true,
    };
    let no_parent = NwkNeighbor {
        extended_pan_id: IeeeAddress(2),
        potential_parent: 0,
        router_capacity: true,
        ..full_for_routers
    };
    let open = NwkNeighbor {
        extended_pan_id: IeeeAddress(3),
        router_capacity: true,
        end_device_capacity: false,
        ..full_for_routers
    };
    for (capability, expected) in [(0x8e, 3), (0x80, 1)] {
        let mut bdb = node();
        let (request, phase, _) =
            bdb.network_steering_any(11..15, 3, CapabilityInformation(capability));
        bdb.nib.neighbors = vec![full_for_routers, no_parent, open];
        let step = bdb.steering_step(request, phase, SteeringEvent::Discovered(Ok(())));
        let (_, action) = act(step);
        assert!(
            matches!(action, SteeringAction::Join(join) if join.extended_pan_id == IeeeAddress(expected))
        );
    }
}

/// Join up to the start of the key exchange.
fn joined(bdb: &mut BaseDeviceBehavior) -> (SteeringRequest, SteeringPhase) {
    let (request, phase, _) =
        bdb.network_steering(NETWORK, 11..27, 3, CapabilityInformation(0x80));
    let (phase, _) = act(bdb.steering_step(request, phase, SteeringEvent::Discovered(Ok(()))));
    bdb.nib.network_address = 0x5678;
    bdb.nib.extended_pan_id = NETWORK;
    let event = SteeringEvent::Joined(confirm(0x5678));
    let (phase, action) = act(bdb.steering_step(request, phase, event));
    assert_eq!(action, SteeringAction::PollTransportKey);
    assert!(!bdb.is_on_network());
    let (phase, action) = act(bdb.steering_step(request, phase, SteeringEvent::KeyPolled(Ok(()))));
    assert_eq!(
        action,
        SteeringAction::Announce(DeviceAnnce {
            nwk_addr: ShortAddress(0x5678),
            ieee_addr: OWN_IEEE,
            capability: CapabilityInformation(0x80),
        })
    );
    assert!(bdb.is_on_network());
    let (phase, action) = act(bdb.steering_step(request, phase, SteeringEvent::Announced(Ok(()))));
    assert_eq!(
        action,
        SteeringAction::Exchange(ExchangeAction::SendCommand {
            destination: ShortAddress(0),
            destination_ieee: TC_IEEE,
            command: Command::RequestTrustCenterLinkKey,
        })
    );
    (request, phase)
}

fn exchange(
    bdb: &mut BaseDeviceBehavior,
    request: SteeringRequest,
    phase: SteeringPhase,
    event: ExchangeEvent,
) -> SteeringStep {
    bdb.steering_step(request, phase, SteeringEvent::Exchanged(event))
}

#[test]
fn steering_succeeds_with_a_verified_key() {
    let mut bdb = node();
    assert!(bdb.key_table.push(key_of(IeeeAddress(0xAA))));
    assert!(bdb.key_table.push(key_of(TC_IEEE)));
    let (request, phase) = joined(&mut bdb);
    let (phase, _) = act(exchange(&mut bdb, request, phase, ExchangeEvent::Sent(Ok(()))));
    let key = Command::TransportKey(TransportKey::TrustCenterLinkKey { key: NEW_KEY });
    let (phase, action) = act(exchange(
        &mut bdb,
        request,
        phase,
        ExchangeEvent::Polled(Ok(key)),
    ));
    assert_eq!(
        action,
        SteeringAction::Exchange(ExchangeAction::HashKey {
            key: NEW_KEY,
            input: [0x03, 0x08, 0x07, 0x06, 0x05, 0x04, 0x03, 0x02, 0x01],
        })
    );
    assert_eq!(
        bdb.key_table.as_slice()[1],
        DeviceKeyPairDescriptor {
            device_address: TC_IEEE,
            key_attributes: KeyAttribute::UnverifiedKey,
            link_key: NEW_KEY,
            outgoing_frame_counter: 0,
            incoming_frame_counter: 0,
            link_key_type: LinkKeyType::GlobalLinkKey,
        }
    );
    let (phase, action) = act(exchange(
        &mut bdb,
        request,
        phase,
        ExchangeEvent::Hashed(Some([0x99; 16])),
    ));
    assert_eq!(
        action,
        SteeringAction::Exchange(ExchangeAction::SendCommand {
            destination: ShortAddress(0),
            destination_ieee: TC_IEEE,
            command: Command::VerifyKey {
                key_type: 0x04,
                source_address: OWN_IEEE,
                hash: [0x99; 16],
            },
        })
    );
    let (phase, _) = act(exchange(&mut bdb, request, phase, ExchangeEvent::Sent(Ok(()))));
    let confirmed = ExchangeEvent::Polled(Ok(Command::ConfirmKey { status: 0 }));
    assert_eq!(
        exchange(&mut bdb, request, phase, confirmed),
        SteeringStep::Done(Ok(confirm(0x5678)))
    );
    assert_eq!(
        bdb.bdb_commissioning_status,
        BdbCommissioningStatus::Success
    );
    assert!(bdb.is_on_network());
    assert_eq!(
        bdb.key_table.as_slice()[1].key_attributes,
        KeyAttribute::VerifiedKey
    );
    assert_eq!(bdb.key_table.as_slice()[0], key_of(IeeeAddress(0xAA)));
}

#[test]
fn steering_goes_on_without_a_key_of_its_own() {
    let mut bdb = node();
    let (request, mut phase) = joined(&mut bdb);
    let result = loop {
        let event = match phase {
            SteeringPhase::Exchanging {
                exchange: ExchangePhase::Requesting { .. },
                ..
            } => ExchangeEvent::Sent(Ok(())),
            _ => ExchangeEvent::Polled(Err(NO_DATA)),
        };
        match exchange(&mut bdb, request, phase, event) {
            SteeringStep::Act(then, _) => phase = then,
            SteeringStep::Done(r) => break r,
        }
    };
    assert_eq!(result, Ok(confirm(0x5678)));
    assert_eq!(
        bdb.bdb_commissioning_status,
        BdbCommissioningStatus::Success
    );
}

#[test]
fn leave_during_steering_ends_it() {
    let mut bdb = node();
    let (request, phase) = joined(&mut bdb);
    let (phase, _) = act(exchange(&mut bdb, request, phase, ExchangeEvent::Sent(Ok(()))));
    let leave = NetworkError::LeaveRequested { rejoin: false };
    assert_eq!(
        exchange(&mut bdb, request, phase, ExchangeEvent::Polled(Err(leave))),
        SteeringStep::Done(Err(BdbError::NetworkError(leave)))
    );
    assert!(!bdb.is_on_network());
    assert_eq!(
        bdb.bdb_commissioning_status,
        BdbCommissioningStatus::NotOnANetwork
    );
}

#[test]
fn leave_with_rejoin_during_steering_rejoins() {
    let mut bdb = node();
    let (request, phase) = joined(&mut bdb);
    let (phase, _) = act(exchange(&mut bdb, request, phase, ExchangeEvent::Sent(Ok(()))));
    let leave = ExchangeEvent::Polled(Err(NetworkError::LeaveRequested { rejoin: true }));
    let (phase, action) = act(exchange(&mut bdb, request, phase, leave));
    assert!(matches!(action, SteeringAction::Rejoin(r) if r.extended_pan_id == NETWORK && r.secure));
    bdb.nib.network_address = 0x9c5d;
    let event = SteeringEvent::Rejoined(confirm(0x9c5d));
    let (phase, action) = act(bdb.steering_step(request, phase, event));
    assert!(matches!(action, SteeringAction::Announce(a) if a.nwk_addr == ShortAddress(0x9c5d)));
    assert_eq!(
        bdb.steering_step(request, phase, SteeringEvent::Announced(Ok(()))),
        SteeringStep::Done(Ok(confirm(0x9c5d)))
    );
    assert_eq!(
        bdb.bdb_commissioning_status,
        BdbCommissioningStatus::Success
    );
}

// ---- key exchange ----

/// An exchange that waits for the key.
fn awaiting_key(bdb: &mut BaseDeviceBehavior) -> ExchangePhase {
    let (phase, _) = bdb.tc_link_key_exchange();
    let (phase, action) = next(bdb.exchange_step(phase, ExchangeEvent::Sent(Ok(()))));
    assert_eq!(action, ExchangeAction::PollCommand { retries: 15 });
    phase
}

/// An exchange that has received the key.
fn hashing(bdb: &mut BaseDeviceBehavior) -> ExchangePhase {
    let phase = awaiting_key(bdb);
    let key = Command::TransportKey(TransportKey::TrustCenterLinkKey { key: NEW_KEY });
    next(bdb.exchange_step(phase, ExchangeEvent::Polled(Ok(key)))).0
}

#[test]
fn first_key_of_the_trust_center_is_unique() {
    let mut bdb = node();
    hashing(&mut bdb);
    assert_eq!(
        bdb.key_table.as_slice(),
        &[DeviceKeyPairDescriptor {
            device_address: TC_IEEE,
            key_attributes: KeyAttribute::UnverifiedKey,
            link_key: NEW_KEY,
            outgoing_frame_counter: 0,
            incoming_frame_counter: 0,
            link_key_type: LinkKeyType::UniqueLinkKey,
        }]
    );
}

#[test]
fn key_that_finds_no_room_is_refused() {
    let mut bdb = node();
    for i in 0..MAX_LINK_KEYS {
        assert!(bdb.key_table.push(key_of(IeeeAddress(i as u64))));
    }
    assert!(!bdb.key_table.push(key_of(IeeeAddress(99))));
    let phase = awaiting_key(&mut bdb);
    let key = Command::TransportKey(TransportKey::TrustCenterLinkKey { key: NEW_KEY });
    assert_eq!(
        bdb.exchange_step(phase, ExchangeEvent::Polled(Ok(key))),
        ExchangeStep::Done(Err(NetworkError::InvalidFrame))
    );
    assert_eq!(bdb.key_table.as_slice().len(), MAX_LINK_KEYS);
}

#[test]
fn other_keys_do_not_answer_the_request() {
    let mut bdb = node();
    let phase = awaiting_key(&mut bdb);
    let key = Command::TransportKey(TransportKey::NetworkKey {
        key: NEW_KEY,
        key_seq_number: 1,
    });
    let (phase, action) = next(bdb.exchange_step(phase, ExchangeEvent::Polled(Ok(key))));
    assert_eq!(phase, ExchangePhase::Requesting { attempts: 1 });
    assert!(matches!(action, ExchangeAction::SendCommand { .. }));
    assert!(bdb.key_table.as_slice().is_empty());
}

#[test]
fn hash_that_fails_ends_the_exchange() {
    let mut bdb = node();
    let phase = hashing(&mut bdb);
    assert_eq!(
        bdb.exchange_step(phase, ExchangeEvent::Hashed(None)),
        ExchangeStep::Done(Err(NetworkError::SecurityError))
    );
}

#[test]
fn request_that_cannot_be_sent_ends_the_exchange() {
    let mut bdb = node();
    let (phase, _) = bdb.tc_link_key_exchange();
    assert_eq!(
        bdb.exchange_step(phase, ExchangeEvent::Sent(Err(NetworkError::Other(1)))),
        ExchangeStep::Done(Err(NetworkError::Other(1)))
    );
}

#[test]
fn refused_confirmation_is_asked_for_three_times() {
    let mut bdb = node();
    let phase = hashing(&mut bdb);
    let (mut phase, _) = next(bdb.exchange_step(phase, ExchangeEvent::Hashed(Some([7; 16]))));
    let mut sent = 0;
    let result = loop {
        let event = match phase {
            ExchangePhase::Verifying { .. } => {
                sent += 1;
                ExchangeEvent::Sent(Ok(()))
            }
            _ => ExchangeEvent::Polled(Ok(Command::ConfirmKey { status: 0xad })),
        };
        match bdb.exchange_step(phase, event) {
            ExchangeStep::Act(then, _) => phase = then,
            ExchangeStep::Done(r) => break r,
        }
    };
    assert_eq!(sent, 3);
    assert_eq!(result, Err(NetworkError::NoTransportKey));
    assert_eq!(
        bdb.bdb_commissioning_status,
        BdbCommissioningStatus::TclkExFailure
    );
    assert_eq!(
        bdb.key_table.as_slice()[0].key_attributes,
        KeyAttribute::UnverifiedKey
    );
}

#[test]
fn unknown_node_ends_the_exchange_at_once() {
    let mut bdb = node();
    let phase = awaiting_key(&mut bdb);
    let status = bdb.bdb_commissioning_status;
    assert_eq!(
        bdb.exchange_step(phase, ExchangeEvent::Polled(Err(NetworkError::NotJoined))),
        ExchangeStep::Done(Err(NetworkError::NotJoined))
    );
    assert_eq!(bdb.bdb_commissioning_status, status);
    assert_eq!(
        propagate_tc_terminal_poll_error(&Err(NetworkError::NotJoined)),
        Err(NetworkError::NotJoined)
    );
}

// ---- leaving and rejoining ----

#[test]
fn refused_rejoin_leaves_the_network() {
    let mut bdb = node();
    bdb.bdb_node_is_on_a_network = true;
    let refused = NlmeJoinConfirm {
        status: NlmeJoinStatus::Refused(1),
        network_address: ShortAddress(0xffff),
    };
    assert_eq!(
        bdb.rejoin_after_network_leave(refused),
        Err(BdbError::JoinFailed(NlmeJoinStatus::Refused(1)))
    );
    assert!(!bdb.is_on_network());
    assert_eq!(
        bdb.bdb_commissioning_status,
        BdbCommissioningStatus::NotOnANetwork
    );
}

#[test]
fn network_asks_to_leave() {
    let mut bdb = node();
    bdb.bdb_node_is_on_a_network = true;
    let mut app = SensorDevice::new();
    let poll = Err(NetworkError::LeaveRequested { rejoin: false });
    match bdb.handle_poll(&mut app, poll, &mut [], 0) {
        PollStep::Leave(request) => {
            assert!(!request.rejoin);
            assert!(!request.remove_children);
            assert_eq!(
                request.source,
                LeaveSource::NetworkRequest {
                    source: ShortAddress(0xffff)
                }
            );
        }
        other => panic!("unexpected step {other:?}"),
    }
    assert_eq!(bdb.finish_leave(), BdbEvent::Left { rejoin: false });
    assert!(!bdb.is_on_network());
}

#[test]
fn node_leaves_of_its_own_accord() {
    let mut bdb = node();
    bdb.bdb_node_is_on_a_network = true;
    let request = BaseDeviceBehavior::leave_request();
    assert_eq!(request.source, LeaveSource::Local);
    assert!(!request.rejoin);
    assert!(!request.remove_children);
    bdb.leave_network();
    assert!(!bdb.is_on_network());
    assert_eq!(
        bdb.bdb_commissioning_status,
        BdbCommissioningStatus::NotOnANetwork
    );
}

#[test]
fn roles_are_told_apart() {
    let bdb = node();
    assert!(bdb.is_end_device());
    assert!(!bdb.is_router());
    let router = BaseDeviceBehavior::new(Nib::new(OWN_IEEE), LogicalType::Router);
    assert!(router.is_router());
    assert!(!router.is_end_device());
}
