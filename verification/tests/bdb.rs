use zigbee_cluster_library::bdb::behavior::BaseDeviceBehavior;
use zigbee_cluster_library::bdb::behavior::PollStep;
use zigbee_cluster_library::bdb::exchange::propagate_tc_terminal_poll_error;
use zigbee_cluster_library::bdb::exchange::ExchangeAction;
use zigbee_cluster_library::bdb::exchange::ExchangeEvent;
use zigbee_cluster_library::bdb::exchange::ExchangeStep;
use zigbee_cluster_library::bdb::exchange::BDBC_TC_LINK_KEY_EXCHANGE_ATTEMPTS_MAX;
use zigbee_cluster_library::bdb::exchange::BDBC_TC_LINK_KEY_EXCHANGE_POLL_RETRIES;
use zigbee_cluster_library::bdb::steering::SteeringAction;
use zigbee_cluster_library::bdb::steering::SteeringEvent;
use zigbee_cluster_library::bdb::steering::SteeringStep;
use zigbee_cluster_library::bdb::types::Address;
use zigbee_cluster_library::bdb::types::ApsData;
use zigbee_cluster_library::bdb::types::ApsDeliveryMode;
use zigbee_cluster_library::bdb::types::ApsdeSapIndication;
use zigbee_cluster_library::bdb::types::BdbCommissioningStatus;
use zigbee_cluster_library::bdb::types::BdbError;
use zigbee_cluster_library::bdb::types::BdbEvent;
use zigbee_cluster_library::bdb::types::BindingEntry;
use zigbee_cluster_library::bdb::types::CapabilityInformation;
use zigbee_cluster_library::bdb::types::Command;
use zigbee_cluster_library::bdb::types::DeviceAnnce;
use zigbee_cluster_library::bdb::types::DeviceKeyPairDescriptor;
use zigbee_cluster_library::bdb::types::IeeeAddress;
use zigbee_cluster_library::bdb::types::KeyAttribute;
use zigbee_cluster_library::bdb::types::LinkKeyType;
use zigbee_cluster_library::bdb::types::LogicalType;
use zigbee_cluster_library::bdb::types::MacError;
use zigbee_cluster_library::bdb::types::NetworkError;
use zigbee_cluster_library::bdb::types::Nib;
use zigbee_cluster_library::bdb::types::NlmeJoinConfirm;
use zigbee_cluster_library::bdb::types::NlmeJoinStatus;
use zigbee_cluster_library::bdb::types::NlmeRejoinRequest;
use zigbee_cluster_library::bdb::types::NwkNeighbor;
use zigbee_cluster_library::bdb::types::RejoinScan;
use zigbee_cluster_library::bdb::types::ShortAddress;
use zigbee_cluster_library::bdb::types::ZigbeeDevicePoll;
use zigbee_cluster_library::bdb::types::MAX_BINDING_TABLE_ENTRIES;
use zigbee_cluster_library::cluster_server::ClusterServer;
use zigbee_cluster_library::common::basic::BasicConfig;
use zigbee_cluster_library::common::basic::BasicServer;
use zigbee_cluster_library::common::groups::GroupsServer;
use zigbee_cluster_library::context::ApsPeer;
use zigbee_cluster_library::context::ClusterReportReady;
use zigbee_cluster_library::context::ClusterTick;
use zigbee_cluster_library::context::CommandResult;
use zigbee_cluster_library::context::ConfigureReportingRecord;
use zigbee_cluster_library::context::DeviceTick;
use zigbee_cluster_library::context::DispatchContext;
use zigbee_cluster_library::context::DispatchEffects;
use zigbee_cluster_library::context::ReportDeliveryResult;
use zigbee_cluster_library::context::ReportReady;
use zigbee_cluster_library::context::ReportToken;
use zigbee_cluster_library::context::ReportingDiagnostics;
use zigbee_cluster_library::device::Device;
use zigbee_cluster_library::device::DeviceOperations;
use zigbee_cluster_library::device::DeviceServerVisitor;
use zigbee_cluster_library::device::EndpointDescriptor;
use zigbee_cluster_library::device::ServerMeta;
use zigbee_cluster_library::frame::Status;
use zigbee_cluster_library::lighting::on_off::OnOffServer;
use zigbee_cluster_library::reporting::write_not_found;
use zigbee_cluster_library::reporting::ReportPayloadWriter;
use zigbee_cluster_library::types::descriptors::AttrInfo;
use zigbee_cluster_library::types::error::AttrError;
use zigbee_cluster_library::types::error::ZclError;
use zigbee_cluster_library::types::ids::AttributeId;
use zigbee_cluster_library::types::ids::ClusterId;
use zigbee_cluster_library::types::ids::CommandId;
use zigbee_cluster_library::types::ids::TypeId;

/// Counts its ticks and wants the next one five milliseconds later.
struct TickCounter {
    tick_count: u8,
    last_tick_ms: u32,
}

impl ClusterServer for TickCounter {
    const CLUSTER_ID: u16 = 0xFC00;

    fn read_attribute(
        &self,
        _id: AttributeId,
        _buf: &mut [u8],
    ) -> Result<(TypeId, usize), AttrError> {
        Err(AttrError::UnsupportedAttribute)
    }

    fn check_write_attribute(
        &self,
        _id: AttributeId,
        _type_id: TypeId,
        _data: &[u8],
    ) -> Result<(), AttrError> {
        Err(AttrError::UnsupportedAttribute)
    }

    fn write_attribute(
        &mut self,
        _id: AttributeId,
        _type_id: TypeId,
        _data: &[u8],
    ) -> Result<(), AttrError> {
        Err(AttrError::UnsupportedAttribute)
    }

    fn handle_command(
        &mut self,
        _id: CommandId,
        _payload: &[u8],
        _ctx: DispatchContext,
        _buf: &mut [u8],
    ) -> Result<CommandResult, ZclError> {
        Ok(CommandResult::DefaultResponse(Status::UnsupCommand))
    }

    fn tick(&mut self, now_ms: u32) -> ClusterTick {
        self.tick_count = self.tick_count.saturating_add(1);
        self.last_tick_ms = now_ms;
        ClusterTick {
            changed: true,
            next_tick_ms: Some(now_ms.wrapping_add(5)),
        }
    }

    fn take_dispatch_effects(&mut self) -> DispatchEffects {
        DispatchEffects::none()
    }

    fn snapshot(&self, _buf: &mut [u8]) -> usize {
        0
    }

    fn restore_snapshot(&mut self, _buf: &[u8]) {}

    fn configure_reporting(
        &mut self,
        _record: ConfigureReportingRecord<'_>,
        _ctx: DispatchContext,
    ) -> Status {
        Status::UnreportableAttribute
    }

    fn collect_reports(
        &mut self,
        _now_ms: u32,
        _out: &mut ReportPayloadWriter<'_>,
    ) -> Result<Option<ClusterReportReady>, ZclError> {
        Ok(None)
    }

    fn report_delivery_result(
        &mut self,
        _token: ReportToken,
        _result: ReportDeliveryResult,
        _now_ms: u32,
    ) {
    }

    fn take_reporting_diagnostics(&mut self) -> ReportingDiagnostics {
        ReportingDiagnostics::none()
    }

    fn read_reporting_config(&self, attr_id: AttributeId, direction: u8, buf: &mut [u8]) -> usize {
        write_not_found(attr_id, direction, buf)
    }

    fn attribute_list() -> Vec<AttrInfo> {
        Vec::new()
    }

    fn commands_received() -> Vec<CommandId> {
        Vec::new()
    }

    fn commands_generated() -> Vec<CommandId> {
        Vec::new()
    }
}

struct AppDevice {
    basic: BasicServer,
    ticker: TickCounter,
}

impl AppDevice {
    fn new() -> Self {
        Self {
            basic: BasicServer::new(BasicConfig::new(3, "ACME", "Sensor-1", 0x01, true)),
            ticker: TickCounter {
                tick_count: 0,
                last_tick_ms: 0,
            },
        }
    }
}

const APP_ENDPOINTS: &[EndpointDescriptor] = &[EndpointDescriptor {
    endpoint: 1,
    profile_id: 0x0104,
    device_id: 0,
    device_version: 0,
    input_clusters: &[],
    output_clusters: &[],
}];

impl Device for AppDevice {
    fn endpoints(&self) -> &'static [EndpointDescriptor] {
        APP_ENDPOINTS
    }

    fn visit_servers<V: DeviceServerVisitor>(&mut self, visitor: &mut V) {
        visitor.visit(
            ServerMeta::new(1, 0x0104, BasicServer::CLUSTER_ID),
            &mut self.basic,
        );
        visitor.visit(
            ServerMeta::new(1, 0x0104, TickCounter::CLUSTER_ID),
            &mut self.ticker,
        );
    }
}

const APP_ENDPOINTS_TEMP: &[EndpointDescriptor] = &[EndpointDescriptor {
    endpoint: 1,
    profile_id: 0x0104,
    device_id: 0,
    device_version: 0,
    input_clusters: &[ClusterId(0x0402)], // Temperature Measurement
    output_clusters: &[],
}];

struct AppDeviceTemp;

impl Device for AppDeviceTemp {
    fn endpoints(&self) -> &'static [EndpointDescriptor] {
        APP_ENDPOINTS_TEMP
    }

    fn visit_servers<V: DeviceServerVisitor>(&mut self, _visitor: &mut V) {}
}

fn make_bdb() -> BaseDeviceBehavior {
    let mut nib = Nib::new(IeeeAddress(0));
    nib.network_address = 0x5678;
    nib.extended_pan_id = IeeeAddress(0x1122);
    nib.capability_information = CapabilityInformation(0x80);
    BaseDeviceBehavior::new(nib, LogicalType::Router)
}

const TC_IEEE: IeeeAddress = IeeeAddress(0x0012_4b00_29e7_ae76);

fn install_test_security_material(bdb: &mut BaseDeviceBehavior) {
    bdb.nib.key_seq_numbers = vec![0];
    bdb.nib.active_key_seq_number = 0;
    bdb.trust_center_address = TC_IEEE;
    assert!(bdb.key_table.push(DeviceKeyPairDescriptor {
        device_address: TC_IEEE,
        key_attributes: KeyAttribute::ProvisionalKey,
        link_key: [0x5A; 16],
        outgoing_frame_counter: 7,
        incoming_frame_counter: 9,
        link_key_type: LinkKeyType::GlobalLinkKey,
    }));
}

fn le(lo: u8, hi: u8) -> u16 {
    u16::from_le_bytes([lo, hi])
}

/// What the stack hands up for a frame that is received: a network header of eight
/// bytes, and for data an application support header of eight.
fn receive(frame: &[u8]) -> Result<ZigbeeDevicePoll<'_>, NetworkError> {
    if frame[0] & 0x03 != 0 {
        return Err(NetworkError::InvalidFrame);
    }
    Ok(ZigbeeDevicePoll::Data(ApsdeSapIndication {
        src_address: Address::Network(le(frame[4], frame[5])),
        src_endpoint: frame[14],
        dst_endpoint: frame[9],
        profile_id: le(frame[12], frame[13]),
        cluster_id: le(frame[10], frame[11]),
        delivery: if frame[8] & 0x0c == 0x08 {
            ApsDeliveryMode::Broadcast
        } else {
            ApsDeliveryMode::Unicast
        },
        asdu: &frame[16..],
    }))
}

/// A frame as it goes out, from the application support header on.
fn aps_payload(data: &ApsData) -> Vec<u8> {
    let mut bytes = vec![0x00, data.dst_endpoint];
    bytes.extend_from_slice(&data.cluster_id.to_le_bytes());
    bytes.extend_from_slice(&data.profile_id.to_le_bytes());
    bytes.extend_from_slice(&[data.src_endpoint, 0x01]);
    bytes.extend_from_slice(&data.asdu);
    bytes
}

/// One poll that ends in an event, and what was sent during it.
fn poll_once_with<D: Device>(
    bdb: &mut BaseDeviceBehavior,
    app: &mut D,
    now_ms: u32,
    poll: Result<ZigbeeDevicePoll<'_>, NetworkError>,
    tx_buf: &mut [u8],
) -> (Result<BdbEvent, BdbError>, Vec<ApsData>) {
    bdb.begin_poll(app, now_ms);
    match bdb.handle_poll(app, poll, tx_buf, now_ms) {
        PollStep::Done(r) => (r, vec![]),
        PollStep::Reply { data, event } => (Ok(event), vec![data]),
        PollStep::Respond { data, event } => (
            BaseDeviceBehavior::finish_response(Ok(()), event),
            vec![data],
        ),
        other => panic!("unexpected step {other:?}"),
    }
}

fn poll_once<D: Device>(
    bdb: &mut BaseDeviceBehavior,
    app: &mut D,
    now_ms: u32,
    frame: &[u8],
) -> (BdbEvent, Vec<ApsData>) {
    let mut tx_buf = [0u8; 256];
    let (r, sent) = poll_once_with(bdb, app, now_ms, receive(frame), &mut tx_buf);
    (r.unwrap(), sent)
}

fn expect_sent(sent: &[ApsData], expected_aps: &[u8]) {
    assert_eq!(sent.len(), 1);
    assert_eq!(sent[0].destination, ShortAddress(0x1234));
    assert_eq!(aps_payload(&sent[0]), expected_aps);
}

const IN_READ_BASIC: &[u8] = &[
    0x08, 0x00, 0x78, 0x56, 0x34, 0x12, 0x1e, 0xaa, 0x00, 0x01, 0x00, 0x00, 0x04, 0x01, 0x02,
    0x55, 0x00, 0x11, 0x00, 0x00, 0x00,
];
const OUT_READ_BASIC: &[u8] = &[
    0x00, 0x02, 0x00, 0x00, 0x04, 0x01, 0x01, 0x01, 0x18, 0x11, 0x01, 0x00, 0x00, 0x00, 0x20,
    0x03,
];

const IN_WRITE_READ_ONLY: &[u8] = &[
    0x08, 0x00, 0x78, 0x56, 0x34, 0x12, 0x1e, 0xaa, 0x00, 0x01, 0x00, 0x00, 0x04, 0x01, 0x02,
    0x56, 0x00, 0x22, 0x02, 0x00, 0x00, 0x20, 0x04,
];
const OUT_WRITE_READ_ONLY: &[u8] = &[
    0x00, 0x02, 0x00, 0x00, 0x04, 0x01, 0x01, 0x01, 0x18, 0x22, 0x04, 0x88, 0x00, 0x00,
];

const IN_UNSUPPORTED_CLUSTER: &[u8] = &[
    0x08, 0x00, 0x78, 0x56, 0x34, 0x12, 0x1e, 0xaa, 0x00, 0x01, 0x06, 0x00, 0x04, 0x01, 0x02,
    0x57, 0x00, 0x33, 0x00, 0x00, 0x00,
];
const OUT_UNSUPPORTED_CLUSTER: &[u8] = &[
    0x00, 0x02, 0x06, 0x00, 0x04, 0x01, 0x01, 0x01, 0x18, 0x33, 0x0b, 0x00, 0xc3,
];

const IN_NODE_DESC_REQ: &[u8] = &[
    0x08, 0x00, 0x78, 0x56, 0x34, 0x12, 0x1e, 0xaa, 0x00, 0x00, 0x02, 0x00, 0x00, 0x00, 0x00,
    0x01, 0x41, 0x78, 0x56,
];
const OUT_NODE_DESC_RSP: &[u8] = &[
    0x00, 0x00, 0x02, 0x80, 0x00, 0x00, 0x00, 0x01, 0x41, 0x00, 0x78, 0x56, 0x01, 0x40, 0x8e,
    0x00, 0x00, 0x40, 0x80, 0x00, 0x00, 0x2a, 0x80, 0x00, 0x00,
];

const IN_SIMPLE_DESC_REQ: &[u8] = &[
    0x08, 0x00, 0x78, 0x56, 0x34, 0x12, 0x1e, 0xaa, 0x00, 0x00, 0x04, 0x00, 0x00, 0x00, 0x00,
    0x01, 0x43, 0x78, 0x56, 0x01,
];
const OUT_SIMPLE_DESC_RSP: &[u8] = &[
    0x00, 0x00, 0x04, 0x80, 0x00, 0x00, 0x00, 0x01, 0x43, 0x00, 0x78, 0x56, 0x08, 0x01, 0x04,
    0x01, 0x00, 0x00, 0x00, 0x00, 0x00,
];

const IN_ACTIVE_EP_REQ: &[u8] = &[
    0x08, 0x00, 0x78, 0x56, 0x34, 0x12, 0x1e, 0xaa, 0x00, 0x00, 0x05, 0x00, 0x00, 0x00, 0x00,
    0x01, 0x42, 0x78, 0x56,
];
const OUT_ACTIVE_EP_RSP: &[u8] = &[
    0x00, 0x00, 0x05, 0x80, 0x00, 0x00, 0x00, 0x01, 0x42, 0x00, 0x78, 0x56, 0x01, 0x01,
];

const IN_MATCH_DESC_REQ: &[u8] = &[
    0x08, 0x00, 0x78, 0x56, 0x34, 0x12, 0x1e, 0xaa, // NWK header
    0x00, 0x00, 0x06, 0x00, 0x00, 0x00, 0x00, 0x01, // APS: cluster=0x0006
    0x41, 0x78, 0x56, // ZDP seq, addr=0x5678
    0x04, 0x01, // profile_id=0x0104
    0x01, // num_in_clusters=1
    0x02, 0x04, // cluster 0x0402
    0x00, // num_out_clusters=0
];
const OUT_MATCH_DESC_RSP: &[u8] = &[
    0x00, 0x00, 0x06, 0x80, 0x00, 0x00, 0x00, 0x01, // APS: cluster=0x8006
    0x41, 0x00, 0x78, 0x56, 0x01, 0x01, // seq, status=OK, addr, len=1, ep=1
];
const OUT_MATCH_DESC_RSP_NO_MATCH: &[u8] = &[
    0x00, 0x00, 0x06, 0x80, 0x00, 0x00, 0x00, 0x01, 0x41, 0x88, 0x78, 0x56,
    0x00, // seq, status=NoMatch(0x88), addr, len=0
];

const IN_NWK_ADDR_REQ: &[u8] = &[
    0x08, 0x00, 0x78, 0x56, 0x34, 0x12, 0x1e, 0xaa, // NWK header
    0x00, 0x00, 0x00, 0x00, 0x00, 0x00, 0x00, 0x01, // APS: cluster=0x0000
    0x41, // ZDP seq
    0x00, 0x00, 0x00, 0x00, 0x00, 0x00, 0x00, 0x00, // IEEE addr = IeeeAddress(0)
    0x00, 0x00, // request_type=Single, start_index=0
];
const OUT_NWK_ADDR_RSP: &[u8] = &[
    0x00, 0x00, 0x00, 0x80, 0x00, 0x00, 0x00, 0x01, // APS: cluster=0x8000
    0x41, 0x00, // ZDP seq, status=Success
    0x00, 0x00, 0x00, 0x00, 0x00, 0x00, 0x00, 0x00, // IEEE addr = IeeeAddress(0)
    0x78, 0x56, // NWK addr = 0x5678
];
const IN_NWK_ADDR_REQ_OTHER: &[u8] = &[
    0x08, 0x00, 0x78, 0x56, 0x34, 0x12, 0x1e, 0xaa, 0x00, 0x00, 0x00, 0x00, 0x00, 0x00, 0x00,
    0x01, 0x41, 0xff, 0xff, 0xff, 0xff, 0xff, 0xff, 0xff, 0xff, 0x00, 0x00,
];

const IN_IEEE_ADDR_REQ: &[u8] = &[
    0x08, 0x00, 0x78, 0x56, 0x34, 0x12, 0x1e, 0xaa, 0x00, 0x00, 0x01, 0x00, 0x00, 0x00, 0x00,
    0x01, 0x42, 0x78, 0x56, 0x00, 0x00, // ZDP seq, NWK=0x5678, req_type, start_idx
];
const OUT_IEEE_ADDR_RSP: &[u8] = &[
    0x00, 0x00, 0x01, 0x80, 0x00, 0x00, 0x00, 0x01, 0x42, 0x00, 0x00, 0x00, 0x00, 0x00, 0x00,
    0x00, 0x00, 0x00, 0x78, 0x56,
];
const IN_IEEE_ADDR_REQ_OTHER: &[u8] = &[
    0x08, 0x00, 0x78, 0x56, 0x34, 0x12, 0x1e, 0xaa, 0x00, 0x00, 0x01, 0x00, 0x00, 0x00, 0x00,
    0x01, 0x42, 0x99, 0x99, 0x00, 0x00,
];

const IN_BIND_REQ: &[u8] = &[
    0x08, 0x00, 0x78, 0x56, 0x34, 0x12, 0x1e, 0xaa, // NWK header
    0x00, 0x00, 0x21, 0x00, 0x00, 0x00, 0x00, 0x01, // APS: cluster=0x0021
    0x44, // ZDP seq
    0x00, 0x00, 0x00, 0x00, 0x00, 0x00, 0x00, 0x00, // SrcAddress = IeeeAddress(0)
    0x01, // SrcEndpoint = 1
    0x02, 0x04, // ClusterID = 0x0402
    0x03, // DstAddrMode = 0x03 (unicast IEEE)
    0x11, 0x22, 0x33, 0x44, 0x55, 0x66, 0x77, 0x88, // DstAddress = HA's IEEE
    0x01, // DstEndpoint = 1
];
const OUT_BIND_RSP: &[u8] = &[
    0x00, 0x00, 0x21, 0x80, 0x00, 0x00, 0x00, 0x01, // APS: cluster=0x8021
    0x44, 0x00, // ZDP seq, status=Success
];
const OUT_BIND_RSP_TABLE_FULL: &[u8] =
    &[0x00, 0x00, 0x21, 0x80, 0x00, 0x00, 0x00, 0x01, 0x44, 0xae];

const IN_UNBIND_REQ: &[u8] = &[
    0x08, 0x00, 0x78, 0x56, 0x34, 0x12, 0x1e, 0xaa, // NWK header
    0x00, 0x00, 0x22, 0x00, 0x00, 0x00, 0x00, 0x01, // APS: cluster=0x0022
    0x45, // ZDP seq
    0x00, 0x00, 0x00, 0x00, 0x00, 0x00, 0x00, 0x00, // SrcAddress = IeeeAddress(0)
    0x01, // SrcEndpoint = 1
    0x02, 0x04, // ClusterID = 0x0402
    0x03, // DstAddrMode = 0x03 (unicast IEEE)
    0x11, 0x22, 0x33, 0x44, 0x55, 0x66, 0x77, 0x88, // DstAddress = HA's IEEE
    0x01, // DstEndpoint = 1
];
const OUT_UNBIND_RSP: &[u8] = &[0x00, 0x00, 0x22, 0x80, 0x00, 0x00, 0x00, 0x01, 0x45, 0x00];
const OUT_UNBIND_RSP_NO_ENTRY: &[u8] =
    &[0x00, 0x00, 0x22, 0x80, 0x00, 0x00, 0x00, 0x01, 0x45, 0x88];

const IN_BROADCAST_UNSUPPORTED_CLUSTER: &[u8] = &[
    0x08, 0x00, 0xfd, 0xff, 0x34, 0x12, 0x1e, 0xaa, 0x08, 0x01, 0x06, 0x00, 0x04, 0x01, 0x02,
    0x58, 0x00, 0x44, 0x00, 0x00, 0x00,
];

const IN_CODEC_ERROR: &[u8] = &[
    0x08, 0x00, 0x78, 0x56, 0x34, 0x12, 0x1e, 0xaa, 0x00, 0x01, 0x00, 0x00, 0x04, 0x01, 0x02,
    0x59, 0x00, 0x55, 0x00, 0x00, 0x00,
];

const IN_NWK_COMMAND: &[u8] = &[0x09, 0x00, 0x78, 0x56, 0x34, 0x12, 0x1e, 0xab, 0xff];

#[test]
fn poll_once_read_attributes_sends_cluster_response() {
    let mut bdb = make_bdb();
    let mut app = AppDevice::new();

    let (event, sent) = poll_once(&mut bdb, &mut app, 0, IN_READ_BASIC);

    expect_sent(&sent, OUT_READ_BASIC);
    assert_eq!(
        event,
        BdbEvent::ZclHandled {
            source: ShortAddress(0x1234),
            endpoint: 0x01,
            cluster_id: 0x0000,
            response_sent: true,
        }
    );
    assert_eq!(app.ticker.tick_count, 1);
    assert_eq!(app.ticker.last_tick_ms, 0);
    assert_eq!(
        bdb.last_device_tick(),
        DeviceTick {
            changed: true,
            next_tick_ms: Some(5),
        }
    );
}

#[test]
fn poll_once_write_read_only_attr_reports_read_only_and_preserves_value() {
    let mut bdb = make_bdb();
    let mut app = AppDevice::new();

    let (event, sent) = poll_once(&mut bdb, &mut app, 0, IN_WRITE_READ_ONLY);

    expect_sent(&sent, OUT_WRITE_READ_ONLY);
    assert_eq!(
        event,
        BdbEvent::ZclHandled {
            source: ShortAddress(0x1234),
            endpoint: 0x01,
            cluster_id: 0x0000,
            response_sent: true,
        }
    );
    let mut buf = [0u8; 1];
    let (type_id, len) = app
        .basic
        .read_attribute(AttributeId::new(0x0000), &mut buf)
        .unwrap();
    assert_eq!(type_id, TypeId::Uint8);
    assert_eq!(len, 1);
    assert_eq!(buf[0], 3);
}

#[test]
fn poll_once_unsupported_unicast_cluster_sends_default_response() {
    let mut bdb = make_bdb();
    let mut app = AppDevice::new();

    let (event, sent) = poll_once(&mut bdb, &mut app, 0, IN_UNSUPPORTED_CLUSTER);

    expect_sent(&sent, OUT_UNSUPPORTED_CLUSTER);
    assert_eq!(
        event,
        BdbEvent::ZclHandled {
            source: ShortAddress(0x1234),
            endpoint: 0x01,
            cluster_id: 0x0006,
            response_sent: true,
        }
    );
}

#[test]
fn poll_once_unsupported_broadcast_cluster_sends_no_response() {
    let mut bdb = make_bdb();
    let mut app = AppDevice::new();

    let (event, sent) = poll_once(&mut bdb, &mut app, 0, IN_BROADCAST_UNSUPPORTED_CLUSTER);

    assert!(sent.is_empty());
    assert_eq!(
        event,
        BdbEvent::ZclHandled {
            source: ShortAddress(0x1234),
            endpoint: 0x01,
            cluster_id: 0x0006,
            response_sent: false,
        }
    );
}

#[test]
fn poll_once_match_desc_req_responds_when_cluster_matches() {
    let mut bdb = make_bdb();
    let mut app = AppDeviceTemp;

    let (event, sent) = poll_once(&mut bdb, &mut app, 0, IN_MATCH_DESC_REQ);

    expect_sent(&sent, OUT_MATCH_DESC_RSP);
    assert_eq!(event, BdbEvent::UnsupportedFrame);
}

#[test]
fn poll_once_match_desc_req_responds_no_match_when_no_clusters() {
    let mut bdb = make_bdb();
    let mut app = AppDevice::new(); // empty cluster lists: no match

    let (event, sent) = poll_once(&mut bdb, &mut app, 0, IN_MATCH_DESC_REQ);

    expect_sent(&sent, OUT_MATCH_DESC_RSP_NO_MATCH);
    assert_eq!(event, BdbEvent::UnsupportedFrame);
}

#[test]
fn poll_once_node_desc_req_sends_zdo_response() {
    let mut bdb = make_bdb();
    let mut app = AppDevice::new();

    let (event, sent) = poll_once(&mut bdb, &mut app, 0, IN_NODE_DESC_REQ);

    expect_sent(&sent, OUT_NODE_DESC_RSP);
    assert_eq!(event, BdbEvent::UnsupportedFrame);
}

#[test]
fn poll_once_simple_desc_req_sends_endpoint_descriptor() {
    let mut bdb = make_bdb();
    let mut app = AppDevice::new();

    let (event, sent) = poll_once(&mut bdb, &mut app, 0, IN_SIMPLE_DESC_REQ);

    expect_sent(&sent, OUT_SIMPLE_DESC_RSP);
    assert_eq!(event, BdbEvent::UnsupportedFrame);
}

#[test]
fn poll_once_active_ep_req_sends_endpoint_list() {
    let mut bdb = make_bdb();
    let mut app = AppDevice::new();

    let (event, sent) = poll_once(&mut bdb, &mut app, 0, IN_ACTIVE_EP_REQ);

    expect_sent(&sent, OUT_ACTIVE_EP_RSP);
    assert_eq!(event, BdbEvent::UnsupportedFrame);
}

#[test]
fn poll_once_nwk_addr_req_responds_with_own_address() {
    let mut bdb = make_bdb();
    let mut app = AppDevice::new();

    let (event, sent) = poll_once(&mut bdb, &mut app, 0, IN_NWK_ADDR_REQ);

    expect_sent(&sent, OUT_NWK_ADDR_RSP);
    assert_eq!(event, BdbEvent::UnsupportedFrame);
}

#[test]
fn poll_once_nwk_addr_req_ignores_different_ieee_address() {
    let mut bdb = make_bdb();
    let mut app = AppDevice::new();

    let (event, sent) = poll_once(&mut bdb, &mut app, 0, IN_NWK_ADDR_REQ_OTHER);

    assert!(sent.is_empty());
    assert_eq!(event, BdbEvent::UnsupportedFrame);
}

#[test]
fn poll_once_ieee_addr_req_responds_with_own_ieee_address() {
    let mut bdb = make_bdb();
    let mut app = AppDevice::new();

    let (event, sent) = poll_once(&mut bdb, &mut app, 0, IN_IEEE_ADDR_REQ);

    expect_sent(&sent, OUT_IEEE_ADDR_RSP);
    assert_eq!(event, BdbEvent::UnsupportedFrame);
}

#[test]
fn poll_once_ieee_addr_req_ignores_different_nwk_address() {
    let mut bdb = make_bdb();
    let mut app = AppDevice::new();

    let (event, sent) = poll_once(&mut bdb, &mut app, 0, IN_IEEE_ADDR_REQ_OTHER);

    assert!(sent.is_empty());
    assert_eq!(event, BdbEvent::UnsupportedFrame);
}

#[test]
fn switch_key_activates_matching_key() {
    let mut bdb = make_bdb();
    install_test_security_material(&mut bdb); // installs seq=0

    let step = bdb.handle_polled_aps_command(Command::SwitchKey { key_seq_number: 0 });

    assert!(matches!(
        step,
        PollStep::Done(Ok(BdbEvent::TransportKeyInstalled))
    ));
    assert_eq!(bdb.nib().active_key_seq_number, 0);
}

#[test]
fn switch_key_unknown_seq_returns_unsupported() {
    let mut bdb = make_bdb();
    install_test_security_material(&mut bdb); // installs seq=0, not seq=7

    let step = bdb.handle_polled_aps_command(Command::SwitchKey { key_seq_number: 7 });

    assert!(matches!(
        step,
        PollStep::Done(Ok(BdbEvent::UnsupportedFrame))
    ));
    assert_eq!(bdb.nib().active_key_seq_number, 0);
}

#[test]
fn poll_once_bind_req_adds_binding() {
    let mut bdb = make_bdb();
    let mut app = AppDeviceTemp;

    let (event, sent) = poll_once(&mut bdb, &mut app, 0, IN_BIND_REQ);

    expect_sent(&sent, OUT_BIND_RSP);
    assert_eq!(event, BdbEvent::UnsupportedFrame);
    assert_eq!(bdb.bindings().len(), 1);
    assert_eq!(
        bdb.bindings()[0],
        BindingEntry {
            src_endpoint: 1,
            cluster_id: 0x0402,
            dst_short_addr: 0x1234,
            dst_endpoint: 1,
            profile_id: 0x0104,
        }
    );
}

#[test]
fn poll_once_bind_req_table_full_returns_table_full_status() {
    let mut bdb = make_bdb();
    let mut app = AppDeviceTemp;
    for i in 0..MAX_BINDING_TABLE_ENTRIES {
        bdb.bind(BindingEntry {
            src_endpoint: 1,
            cluster_id: i as u16,
            dst_short_addr: 0x5678,
            dst_endpoint: 1,
            profile_id: 0x0104,
        })
        .unwrap();
    }

    let (event, sent) = poll_once(&mut bdb, &mut app, 0, IN_BIND_REQ);

    expect_sent(&sent, OUT_BIND_RSP_TABLE_FULL);
    assert_eq!(event, BdbEvent::UnsupportedFrame);
}

#[test]
fn poll_once_unbind_req_removes_existing_binding() {
    let mut bdb = make_bdb();
    let mut app = AppDeviceTemp;
    bdb.bind(BindingEntry {
        src_endpoint: 1,
        cluster_id: 0x0402,
        dst_short_addr: 0x1234,
        dst_endpoint: 1,
        profile_id: 0x0104,
    })
    .unwrap();

    let (event, sent) = poll_once(&mut bdb, &mut app, 0, IN_UNBIND_REQ);

    expect_sent(&sent, OUT_UNBIND_RSP);
    assert_eq!(event, BdbEvent::UnsupportedFrame);
    assert!(bdb.bindings().is_empty());
}

#[test]
fn poll_once_unbind_req_no_entry_returns_no_entry_status() {
    let mut bdb = make_bdb();
    let mut app = AppDeviceTemp;

    let (event, sent) = poll_once(&mut bdb, &mut app, 0, IN_UNBIND_REQ);

    expect_sent(&sent, OUT_UNBIND_RSP_NO_ENTRY);
    assert_eq!(event, BdbEvent::UnsupportedFrame);
}

#[test]
fn poll_once_codec_error_sends_no_partial_response() {
    let mut bdb = make_bdb();
    let mut app = AppDevice::new();

    // No room for a response: the dispatch fails with `BufferTooSmall`.
    let (event, sent) = poll_once_with(&mut bdb, &mut app, 0, receive(IN_CODEC_ERROR), &mut []);

    assert!(sent.is_empty());
    assert_eq!(
        event.unwrap(),
        BdbEvent::ZclHandled {
            source: ShortAddress(0x1234),
            endpoint: 0x01,
            cluster_id: 0x0000,
            response_sent: false,
        }
    );
}

#[test]
fn poll_once_no_pending_data_is_idle() {
    let mut bdb = make_bdb();
    let mut app = AppDevice::new();

    let (event, sent) = poll_once_with(
        &mut bdb,
        &mut app,
        0,
        Err(NetworkError::MacError(MacError::NoData)),
        &mut [0u8; 256],
    );

    assert!(sent.is_empty());
    assert_eq!(event.unwrap(), BdbEvent::UnsupportedFrame);
}

#[test]
fn poll_once_nwk_command_frame_is_idle() {
    let mut bdb = make_bdb();
    let mut app = AppDevice::new();

    let (event, sent) = poll_once(&mut bdb, &mut app, 0, IN_NWK_COMMAND);

    assert!(sent.is_empty());
    assert_eq!(event, BdbEvent::UnsupportedFrame);
}

const REJOINED: NlmeJoinConfirm = NlmeJoinConfirm {
    status: NlmeJoinStatus::Success,
    network_address: ShortAddress(0x9c5d),
};

/// One poll at which the network asks this node to leave and rejoin, and lets it in
/// again under address 0x9c5d.
fn poll_leave_and_rejoin<D: Device>(
    bdb: &mut BaseDeviceBehavior,
    app: &mut D,
    now_ms: u32,
) -> BdbEvent {
    bdb.begin_poll(app, now_ms);
    let poll = Err(NetworkError::LeaveRequested { rejoin: true });
    match bdb.handle_poll(app, poll, &mut [0u8; 256], now_ms) {
        PollStep::Rejoin(request) => assert_eq!(
            request,
            NlmeRejoinRequest {
                extended_pan_id: IeeeAddress(0x1122),
                capability_information: CapabilityInformation(0x80),
                secure: true,
                scan: RejoinScan::SameChannel,
            }
        ),
        other => panic!("unexpected step {other:?}"),
    }
    bdb.nib.network_address = 0x9c5d;
    let annce = bdb.rejoin_after_network_leave(REJOINED).unwrap();
    assert_eq!(
        annce,
        DeviceAnnce {
            nwk_addr: ShortAddress(0x9c5d),
            ieee_addr: IeeeAddress(0),
            capability: CapabilityInformation(0x80),
        }
    );
    BaseDeviceBehavior::finish_response(Ok(()), BdbEvent::Rejoined).unwrap()
}

#[test]
fn poll_once_nwk_leave_rejoin_attempts_rejoin_and_announces() {
    let mut bdb = make_bdb();
    install_test_security_material(&mut bdb);
    let mut app = AppDevice::new();

    let event = poll_leave_and_rejoin(&mut bdb, &mut app, 0);

    assert_eq!(event, BdbEvent::Rejoined);
    assert_eq!(bdb.nib().network_address, 0x9c5d);
    assert!(bdb.bdb_node_is_on_a_network);
    assert_eq!(
        bdb.bdb_commissioning_status,
        BdbCommissioningStatus::Success
    );
}

#[test]
fn captured_join_shape_ignores_unsolicited_response_then_rejoins() {
    let mut bdb = make_bdb();
    install_test_security_material(&mut bdb);
    let mut app = AppDevice::new();

    // A network status command, then a rejoin response that nobody asked for.
    let invalid = Err(NetworkError::InvalidFrame);
    let (first, _) = poll_once_with(&mut bdb, &mut app, 0, invalid, &mut [0u8; 256]);
    let (second, _) = poll_once_with(
        &mut bdb,
        &mut app,
        1,
        Err(NetworkError::InvalidFrame),
        &mut [0u8; 256],
    );
    let third = poll_leave_and_rejoin(&mut bdb, &mut app, 2);

    assert_eq!(first.unwrap(), BdbEvent::UnsupportedFrame);
    assert_eq!(second.unwrap(), BdbEvent::UnsupportedFrame);
    assert_eq!(third, BdbEvent::Rejoined);
    assert_eq!(bdb.nib().network_address, 0x9c5d);
    assert!(bdb.bdb_node_is_on_a_network);
    assert_eq!(
        bdb.bdb_commissioning_status,
        BdbCommissioningStatus::Success
    );
}

#[test]
fn init_not_joined_returns_ok_not_on_network() {
    let mut bdb = make_bdb();
    bdb.nib.network_address = 0xffff;

    bdb.start_initialization_procedure().unwrap();
    assert!(!bdb.bdb_node_is_on_a_network);
}

#[test]
fn init_joined_with_security_marks_on_network() {
    let mut bdb = make_bdb();
    bdb.nib.network_address = 0x1234;
    bdb.nib.key_seq_numbers = vec![0];

    bdb.start_initialization_procedure().unwrap();
    assert!(bdb.bdb_node_is_on_a_network);
}

#[test]
fn init_joined_without_security_returns_error() {
    let mut bdb = make_bdb();
    bdb.nib.network_address = 0x1234;

    let result = bdb.start_initialization_procedure();
    assert!(
        matches!(result, Err(NetworkError::MissingSecurityMaterial)),
        "expected MissingSecurityMaterial, got {result:?}"
    );
    assert!(!bdb.bdb_node_is_on_a_network);
}

fn make_neighbor(epid: u64, permit: bool) -> NwkNeighbor {
    NwkNeighbor {
        extended_pan_id: IeeeAddress(epid),
        permit_joining: permit,
        potential_parent: 1,
        router_capacity: true,
        end_device_capacity: true,
    }
}

/// Steer to any network, up to the end of discovery that found `neighbors`.
fn steer_any(bdb: &mut BaseDeviceBehavior, neighbors: Vec<NwkNeighbor>) -> SteeringStep {
    bdb.nib.network_address = 0xffff;
    let (request, phase, action) =
        bdb.network_steering_any(11..26, 3, CapabilityInformation(0x80));
    assert_eq!(
        action,
        SteeringAction::Discover {
            first: 11,
            end: 26,
            duration: 3,
        }
    );
    assert_eq!(
        bdb.bdb_commissioning_status,
        BdbCommissioningStatus::InProgress
    );
    bdb.nib.neighbors = neighbors;
    bdb.steering_step(request, phase, SteeringEvent::Discovered(Ok(())))
}

#[test]
fn network_steering_any_no_networks_returns_no_network() {
    let mut bdb = make_bdb();
    let result = steer_any(&mut bdb, vec![]);
    assert!(
        matches!(result, SteeringStep::Done(Err(BdbError::NoNetwork))),
        "expected NoNetwork, got {result:?}"
    );
}

#[test]
fn network_steering_any_no_permit_join_returns_no_network() {
    let mut bdb = make_bdb();
    let result = steer_any(&mut bdb, vec![make_neighbor(0xDEAD, false)]);
    assert!(
        matches!(result, SteeringStep::Done(Err(BdbError::NoNetwork))),
        "expected NoNetwork, got {result:?}"
    );
}

#[test]
fn network_steering_any_selects_joinable_network_and_attempts_join() {
    let mut bdb = make_bdb();
    bdb.nib.network_address = 0xffff;
    let (request, phase, _) = bdb.network_steering_any(11..26, 3, CapabilityInformation(0x80));
    bdb.nib.neighbors = vec![make_neighbor(0xDEAD, false), make_neighbor(0xBEEF, true)];

    let step = bdb.steering_step(request, phase, SteeringEvent::Discovered(Ok(())));
    let phase = match step {
        SteeringStep::Act(phase, SteeringAction::Join(join)) => {
            assert_eq!(join.extended_pan_id, IeeeAddress(0xBEEF));
            assert_eq!(join.capability_information, CapabilityInformation(0x80));
            assert!(!join.security_enabled);
            phase
        }
        other => panic!("unexpected step {other:?}"),
    };

    // The association succeeds.
    bdb.nib.network_address = 0x5678;
    bdb.nib.extended_pan_id = IeeeAddress(0xBEEF);
    let confirm = NlmeJoinConfirm {
        status: NlmeJoinStatus::Success,
        network_address: ShortAddress(0x5678),
    };
    let phase = match bdb.steering_step(request, phase, SteeringEvent::Joined(confirm)) {
        SteeringStep::Act(phase, SteeringAction::PollTransportKey) => phase,
        other => panic!("unexpected step {other:?}"),
    };

    // Polling for the network key fails at once.
    let no_data = NetworkError::MacError(MacError::NoData);
    let result = bdb.steering_step(request, phase, SteeringEvent::KeyPolled(Err(no_data)));
    assert_eq!(
        result,
        SteeringStep::Done(Err(BdbError::NetworkError(no_data)))
    );
    assert_eq!(bdb.nib().network_address, 0x5678);
    assert_eq!(bdb.nib().extended_pan_id, IeeeAddress(0xBEEF));
}

#[test]
fn tc_link_key_exchange_polls_before_retrying_request_key() {
    let attempts = usize::from(BDBC_TC_LINK_KEY_EXCHANGE_ATTEMPTS_MAX);
    let polls_per_attempt = usize::from(BDBC_TC_LINK_KEY_EXCHANGE_POLL_RETRIES);
    let mut bdb = make_bdb();
    install_test_security_material(&mut bdb);

    let mut sent = 0;
    let mut polled = 0;
    let (mut phase, mut action) = bdb.tc_link_key_exchange();
    let result = loop {
        let event = match action {
            ExchangeAction::SendCommand { .. } => {
                assert_eq!(polled, sent * polls_per_attempt);
                sent += 1;
                ExchangeEvent::Sent(Ok(()))
            }
            ExchangeAction::PollCommand { retries } => {
                polled += usize::from(retries);
                ExchangeEvent::Polled(Err(NetworkError::MacError(MacError::NoData)))
            }
            ExchangeAction::HashKey { .. } => panic!("no key was received"),
        };
        match bdb.exchange_step(phase, event) {
            ExchangeStep::Act(next, then) => {
                phase = next;
                action = then;
            }
            ExchangeStep::Done(r) => break r,
        }
    };

    assert_eq!(sent, attempts);
    assert_eq!(polled, attempts * polls_per_attempt);
    assert!(matches!(result, Err(NetworkError::NoTransportKey)));
    assert_eq!(
        bdb.bdb_commissioning_status,
        BdbCommissioningStatus::TclkExFailure
    );
}

#[test]
fn tc_link_key_exchange_treats_leave_as_terminal() {
    let poll: Result<Command, NetworkError> = Err(NetworkError::LeaveRequested { rejoin: true });

    let result = propagate_tc_terminal_poll_error(&poll);

    assert!(matches!(
        result,
        Err(NetworkError::LeaveRequested { rejoin: true })
    ));
}

#[test]
fn tc_link_key_exchange_keeps_no_data_retryable() {
    let poll: Result<Command, NetworkError> = Err(NetworkError::MacError(MacError::NoData));

    assert!(propagate_tc_terminal_poll_error(&poll).is_ok());
}

fn sample_binding() -> BindingEntry {
    BindingEntry {
        src_endpoint: 1,
        cluster_id: 0x0006,
        dst_short_addr: 0x0000,
        dst_endpoint: 1,
        profile_id: 0x0104,
    }
}

#[test]
fn bind_adds_entry_to_table() {
    let mut bdb = make_bdb();
    bdb.bind(sample_binding()).unwrap();
    assert_eq!(bdb.bindings().len(), 1);
    assert_eq!(bdb.bindings()[0], sample_binding());
}

#[test]
fn bind_duplicate_is_idempotent() {
    let mut bdb = make_bdb();
    bdb.bind(sample_binding()).unwrap();
    bdb.bind(sample_binding()).unwrap();
    assert_eq!(bdb.bindings().len(), 1);
}

#[test]
fn unbind_removes_entry() {
    let mut bdb = make_bdb();
    bdb.bind(sample_binding()).unwrap();
    bdb.unbind(&sample_binding());
    assert!(bdb.bindings().is_empty());
}

#[test]
fn unbind_noop_when_not_found() {
    let mut bdb = make_bdb();
    bdb.unbind(&sample_binding()); // no panic
    assert!(bdb.bindings().is_empty());
}

#[test]
fn bind_returns_err_when_table_full() {
    let mut bdb = make_bdb();
    for i in 0..MAX_BINDING_TABLE_ENTRIES as u8 {
        let entry = BindingEntry {
            src_endpoint: i,
            cluster_id: 0x0006,
            dst_short_addr: 0x0000,
            dst_endpoint: 1,
            profile_id: 0x0104,
        };
        bdb.bind(entry).unwrap();
    }
    // Table is full. Push a distinct entry (dst_short_addr differs from all above).
    let overflow = BindingEntry {
        src_endpoint: 0xFF,
        cluster_id: 0x0006,
        dst_short_addr: 0x9999,
        dst_endpoint: 2,
        profile_id: 0x0104,
    };
    assert!(bdb.bind(overflow).is_err());
}

struct GroupsDevice {
    groups: GroupsServer<8>,
}

const GROUPS_ENDPOINTS: &[EndpointDescriptor] = &[EndpointDescriptor {
    endpoint: 1,
    profile_id: 0x0104,
    device_id: 0x0100,
    device_version: 0,
    input_clusters: &[ClusterId(0x0004)],
    output_clusters: &[],
}];

impl Device for GroupsDevice {
    fn endpoints(&self) -> &'static [EndpointDescriptor] {
        GROUPS_ENDPOINTS
    }

    fn visit_servers<V: DeviceServerVisitor>(&mut self, visitor: &mut V) {
        visitor.visit(
            ServerMeta::new(1, 0x0104, GroupsServer::<8>::CLUSTER_ID),
            &mut self.groups,
        );
    }
}

// NWK+APS+ZCL: AddGroup(gid=0x0001) → endpoint 1, cluster 0x0004
const IN_ADD_GROUP: &[u8] = &[
    0x08, 0x00, 0x78, 0x56, 0x34, 0x12, 0x1e, 0xab, // NWK
    0x00, 0x01, 0x04, 0x00, 0x04, 0x01, 0x02, 0x57, // APS: dst_ep=1, cluster=0x0004
    0x01, 0x55, 0x00, 0x01, 0x00, 0x00, // ZCL: cluster-spec, AddGroup(0x0001)
];

// NWK+APS+ZCL: RemoveGroup(gid=0x0001)
const IN_REMOVE_GROUP: &[u8] = &[
    0x08, 0x00, 0x78, 0x56, 0x34, 0x12, 0x1e, 0xac, // NWK
    0x00, 0x01, 0x04, 0x00, 0x04, 0x01, 0x02, 0x58, // APS
    0x01, 0x56, 0x03, 0x01, 0x00, // ZCL: RemoveGroup(0x0001)
];

// NWK+APS+ZCL: RemoveAllGroups
const IN_REMOVE_ALL_GROUPS: &[u8] = &[
    0x08, 0x00, 0x78, 0x56, 0x34, 0x12, 0x1e, 0xad, // NWK
    0x00, 0x01, 0x04, 0x00, 0x04, 0x01, 0x02, 0x59, // APS
    0x01, 0x57, 0x04, // ZCL: RemoveAllGroups
];

#[test]
fn add_aps_group_inserts_entry() {
    let mut bdb = make_bdb();
    bdb.add_aps_group(0x0001, 1);
    let table = bdb.group_table.as_slice();
    assert_eq!(table.len(), 1);
    assert_eq!(table[0].group_address, 0x0001);
    assert_eq!(table[0].endpoint, 1);
}

#[test]
fn add_aps_group_is_idempotent() {
    let mut bdb = make_bdb();
    bdb.add_aps_group(0x0001, 1);
    bdb.add_aps_group(0x0001, 1);
    assert_eq!(bdb.group_table.as_slice().len(), 1);
}

#[test]
fn remove_aps_group_removes_entry() {
    let mut bdb = make_bdb();
    bdb.add_aps_group(0x0001, 1);
    bdb.add_aps_group(0x0002, 1);
    bdb.remove_aps_group(0x0001, 1);
    let table = bdb.group_table.as_slice();
    assert_eq!(table.len(), 1);
    assert_eq!(table[0].group_address, 0x0002);
}

#[test]
fn remove_all_aps_groups_clears_endpoint() {
    let mut bdb = make_bdb();
    bdb.add_aps_group(0x0001, 1);
    bdb.add_aps_group(0x0002, 1);
    bdb.add_aps_group(0x0003, 2); // different endpoint: should survive
    bdb.remove_all_aps_groups(1);
    let table = bdb.group_table.as_slice();
    assert_eq!(table.len(), 1);
    assert_eq!(table[0].group_address, 0x0003);
    assert_eq!(table[0].endpoint, 2);
}

#[test]
fn dispatch_add_group_syncs_aps_group_table() {
    let mut bdb = make_bdb();
    let mut app = GroupsDevice {
        groups: GroupsServer::new(0x80),
    };

    poll_once(&mut bdb, &mut app, 0, IN_ADD_GROUP);

    let table = bdb.group_table.as_slice();
    assert_eq!(table.len(), 1);
    assert_eq!(table[0].group_address, 0x0001);
    assert_eq!(table[0].endpoint, 1);
}

#[test]
fn dispatch_remove_group_clears_aps_group_table_entry() {
    let mut bdb = make_bdb();
    bdb.add_aps_group(0x0001, 1);
    let mut app = GroupsDevice {
        groups: GroupsServer::new(0x80),
    };
    // Pre-populate the server so that RemoveGroup finds the entry.
    app.groups
        .handle_command(
            CommandId::new(0x00),
            &[0x01, 0x00, 0x00],
            DispatchContext::unicast(0, None),
            &mut [0u8; 16],
        )
        .unwrap();

    poll_once(&mut bdb, &mut app, 0, IN_REMOVE_GROUP);

    assert_eq!(bdb.group_table.as_slice().len(), 0);
}

#[test]
fn dispatch_remove_all_groups_clears_aps_group_table() {
    let mut bdb = make_bdb();
    bdb.add_aps_group(0x0001, 1);
    bdb.add_aps_group(0x0002, 1);
    let mut app = GroupsDevice {
        groups: GroupsServer::new(0x80),
    };

    poll_once(&mut bdb, &mut app, 0, IN_REMOVE_ALL_GROUPS);

    assert_eq!(bdb.group_table.as_slice().len(), 0);
}

struct OnOffDevice {
    on_off: OnOffServer,
}

const ON_OFF_ENDPOINTS: &[EndpointDescriptor] = &[EndpointDescriptor {
    endpoint: 1,
    profile_id: 0x0104,
    device_id: 0x0100,
    device_version: 0,
    input_clusters: &[ClusterId(0x0006)],
    output_clusters: &[],
}];

impl Device for OnOffDevice {
    fn endpoints(&self) -> &'static [EndpointDescriptor] {
        ON_OFF_ENDPOINTS
    }

    fn visit_servers<V: DeviceServerVisitor>(&mut self, visitor: &mut V) {
        visitor.visit(
            ServerMeta::new(1, 0x0104, OnOffServer::CLUSTER_ID),
            &mut self.on_off,
        );
    }
}

/// Send the due report, if any; every frame is sent or none. Returns it and the
/// frames.
fn poll_report_once<D: Device>(
    bdb: &BaseDeviceBehavior,
    app: &mut D,
    now_ms: u32,
    ok: bool,
) -> Result<Option<(ReportReady, Vec<ApsData>)>, BdbError> {
    match bdb.poll_report_once(app, now_ms)? {
        None => Ok(None),
        Some(pending) => {
            let sent = vec![ok; pending.frames.len()];
            BaseDeviceBehavior::finish_report(app, pending.ready, &sent, now_ms);
            Ok(Some((pending.ready, pending.frames)))
        }
    }
}

#[test]
fn poll_report_once_unicast_uses_peer_endpoint_as_destination_and_local_endpoint_as_source() {
    const OUT_ON_OFF_REPORT: &[u8] = &[
        0x00, 0x02, 0x06, 0x00, 0x04, 0x01, 0x01, 0x01, 0x18, 0x00, 0x0a, 0x00, 0x00, 0x10, 0x01,
    ];
    let bdb = make_bdb();
    let mut app = OnOffDevice {
        on_off: OnOffServer::new(false),
    };
    let record = ConfigureReportingRecord {
        direction: 0,
        attr_id: AttributeId::new(0x0000),
        attr_type: TypeId::Boolean.as_u8(),
        min_interval: 0,
        max_interval: 60,
        reportable_change: &[],
        timeout_period: 0,
    };
    let source = ApsPeer {
        short_addr: 0x1234,
        endpoint: 2,
    };
    assert_eq!(
        app.on_off
            .configure_reporting(record, DispatchContext::unicast(0, Some(source))),
        Status::Success
    );
    app.on_off
        .handle_command(
            CommandId::new(0x01),
            &[],
            DispatchContext::unicast(0, None),
            &mut [],
        )
        .unwrap();

    let result = poll_report_once(&bdb, &mut app, 0, true);

    let (_, frames) = result.unwrap().unwrap();
    expect_sent(&frames, OUT_ON_OFF_REPORT);
}

#[test]
fn poll_report_once_bound_no_binding_returns_failed_and_drops() {
    let bdb = make_bdb();
    let mut app = OnOffDevice {
        on_off: OnOffServer::new(false),
    };
    // Configure bound reporting (min=0, max=60s).
    app.on_off.configure_bound_reporting(0, 60, 0);
    // Trigger an update so a report is pending.
    app.on_off
        .handle_command(
            CommandId::new(0x01),
            &[],
            DispatchContext::unicast(0, None),
            &mut [],
        )
        .unwrap();

    let result = poll_report_once(&bdb, &mut app, 0, true);

    let (_, frames) = result.unwrap().unwrap();
    assert!(frames.is_empty());
    // Nobody to send it to: the report is dropped.
    assert_eq!(app.take_reporting_diagnostics().dropped_reports, 1);
    assert!(poll_report_once(&bdb, &mut app, 0, true).unwrap().is_none());
}

#[test]
fn poll_report_once_bound_with_binding_sends_to_peer() {
    const OUT_BOUND_ON_OFF_REPORT: &[u8] = &[
        0x00, 0x01, 0x06, 0x00, 0x04, 0x01, 0x01, 0x01, 0x18, 0x00, 0x0a, 0x00, 0x00, 0x10, 0x01,
    ];
    let mut bdb = make_bdb();
    bdb.bind(BindingEntry {
        src_endpoint: 1,
        cluster_id: 0x0006,
        dst_short_addr: 0x0000,
        dst_endpoint: 1,
        profile_id: 0x0104,
    })
    .unwrap();
    let mut app = OnOffDevice {
        on_off: OnOffServer::new(false),
    };
    app.on_off.configure_bound_reporting(0, 60, 0);
    app.on_off
        .handle_command(
            CommandId::new(0x01),
            &[],
            DispatchContext::unicast(0, None),
            &mut [],
        )
        .unwrap();

    let result = poll_report_once(&bdb, &mut app, 0, true);

    let (_, frames) = result.unwrap().unwrap();
    assert_eq!(frames.len(), 1);
    assert_eq!(frames[0].destination, ShortAddress(0x0000));
    assert_eq!(aps_payload(&frames[0]), OUT_BOUND_ON_OFF_REPORT);
    assert_eq!(app.take_reporting_diagnostics().dropped_reports, 0);
}
