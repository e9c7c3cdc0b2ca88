use zigbee_cluster_library::cluster_server::ClusterServer;
use zigbee_cluster_library::context::ApsPeer;
use zigbee_cluster_library::context::ConfigureReportingRecord;
use zigbee_cluster_library::context::DispatchContext;
use zigbee_cluster_library::context::ReportDeliveryResult;
use zigbee_cluster_library::context::ReportDestination;
use zigbee_cluster_library::device::ClusterRequest;
use zigbee_cluster_library::device::Device;
use zigbee_cluster_library::device::DeviceOperations;
use zigbee_cluster_library::device::DeviceServerVisitor;
use zigbee_cluster_library::device::DispatchError;
use zigbee_cluster_library::device::ServerMeta;
use zigbee_cluster_library::frame::IncomingZclFrame;
use zigbee_cluster_library::frame::Status;
use zigbee_cluster_library::sensor::poll_timeout_from_tick;
use zigbee_cluster_library::sensor::SensorDevice;
use zigbee_cluster_library::sensor::MAX_POLL_WAIT_MS;
use zigbee_cluster_library::types::descriptors::ClusterKey;
use zigbee_cluster_library::types::error::ZclError;
use zigbee_cluster_library::types::ids::AttributeId;
use zigbee_cluster_library::types::ids::ClusterId;
use zigbee_cluster_library::types::ids::CommandId;
use zigbee_cluster_library::types::ids::ManufacturerCode;
use zigbee_cluster_library::types::ids::TypeId;

fn request<'a>(
    endpoint: u8,
    cluster: u16,
    manufacturer_code: Option<ManufacturerCode>,
    frame: &'a IncomingZclFrame<'a>,
) -> ClusterRequest<'a> {
    ClusterRequest {
        endpoint,
        cluster: ClusterKey::new(ClusterId(cluster), manufacturer_code),
        ctx: DispatchContext::unicast(0, None),
        frame,
    }
}

const READ_FIRST: [u8; 5] = [0x00, 0x42, 0x00, 0x00, 0x00];

#[test]
fn frame_reaches_the_server_of_its_cluster() {
    let mut device = SensorDevice::new();
    device.temperature.set_measured_value(Some(2150)).unwrap();
    let (frame, _) = IncomingZclFrame::decode(&READ_FIRST).unwrap();
    let mut buf = [0u8; 32];
    let outcome = device
        .dispatch_cluster(request(1, 0x0402, None, &frame), &mut buf)
        .unwrap();
    assert_eq!(
        &buf[..outcome.response_len],
        &[0x18, 0x42, 0x01, 0x00, 0x00, 0x00, 0x29, 0x66, 0x08]
    );
    let outcome = device
        .dispatch_cluster(request(1, 0x0000, None, &frame), &mut buf)
        .unwrap();
    assert_eq!(
        &buf[..outcome.response_len],
        &[0x18, 0x42, 0x01, 0x00, 0x00, 0x00, 0x20, 0x03]
    );
}

#[test]
fn frame_for_what_is_not_there_is_refused() {
    let mut device = SensorDevice::new();
    let (frame, _) = IncomingZclFrame::decode(&READ_FIRST).unwrap();
    let mut buf = [0xEEu8; 8];
    assert_eq!(
        device.dispatch_cluster(request(2, 0x0000, None, &frame), &mut buf),
        Err(DispatchError::UnsupportedEndpoint)
    );
    assert_eq!(
        device.dispatch_cluster(request(1, 0x0006, None, &frame), &mut buf),
        Err(DispatchError::UnsupportedCluster)
    );
    let code = Some(ManufacturerCode(0x115F));
    assert_eq!(
        device.dispatch_cluster(request(1, 0x0000, code, &frame), &mut buf),
        Err(DispatchError::UnsupportedCluster)
    );
    assert_eq!(buf, [0xEE; 8]);
    assert_eq!(
        device.dispatch_cluster(request(1, 0x0000, None, &frame), &mut []),
        Err(DispatchError::Codec(ZclError::BufferTooSmall))
    );
    assert_eq!(
        DispatchError::from(ZclError::InvalidValue),
        DispatchError::Codec(ZclError::InvalidValue)
    );
}

#[test]
fn sensor_lists_its_endpoint() {
    let device = SensorDevice::new();
    assert_eq!(device.active_endpoints().len(), 1);
    let descriptor = device.simple_descriptor(1).unwrap();
    assert_eq!(descriptor.profile_id, 0x0104);
    assert_eq!(descriptor.device_id, 0x0302);
    assert_eq!(
        descriptor.input_clusters,
        &[ClusterId(0x0000), ClusterId(0x0003), ClusterId(0x0402)]
    );
    assert!(device.simple_descriptor(2).is_none());
    assert_eq!(device.endpoints().len(), 1);
}

#[test]
fn tick_reaches_every_server() {
    let mut device = SensorDevice::new();
    assert_eq!(device.tick(0).next_tick_ms, None);
    device
        .identify
        .handle_command(
            CommandId::new(0x00),
            &[5, 0],
            DispatchContext::unicast(0, None),
            &mut [],
        )
        .unwrap();
    let tick = device.tick(2_000);
    assert!(tick.changed);
    assert_eq!(tick.next_tick_ms, Some(3_000));
    assert_eq!(device.identify.remaining(), 3);
}

#[test]
fn identify_asks_for_a_tick_when_its_seconds_change() {
    let mut device = SensorDevice::new();
    device
        .identify
        .handle_command(
            CommandId::new(0x00),
            &[10, 0],
            DispatchContext::unicast(0, None),
            &mut [],
        )
        .unwrap();
    // 6.5 s remain, which counts as 7; at 4000 ms it becomes 6.
    assert_eq!(device.tick(3_500).next_tick_ms, Some(4_000));
    assert_eq!(device.identify.remaining(), 7);
    assert!(!device.tick(3_999).changed);
    assert!(device.tick(4_000).changed);
    assert_eq!(device.identify.remaining(), 6);
}

fn configure(device: &mut SensorDevice, min_interval: u16, max_interval: u16) {
    let record = ConfigureReportingRecord {
        direction: 0,
        attr_id: AttributeId::new(0x0000),
        attr_type: TypeId::Int16.as_u8(),
        min_interval,
        max_interval,
        reportable_change: &[10, 0],
        timeout_period: 0,
    };
    let source = ApsPeer {
        short_addr: 0x1234,
        endpoint: 2,
    };
    let ctx = DispatchContext::unicast(0, Some(source));
    assert_eq!(
        device.temperature.configure_reporting(record, ctx),
        Status::Success
    );
}

#[test]
fn report_is_sent_and_rests() {
    let mut device = SensorDevice::new();
    configure(&mut device, 1, 60);
    let mut buf = [0u8; 16];
    assert_eq!(device.next_report(500, &mut buf), Ok(None));
    device.temperature.set_measured_value(Some(2150)).unwrap();
    // The minimum interval has not passed yet.
    assert_eq!(device.next_report(999, &mut buf), Ok(None));
    let ready = device.next_report(1_000, &mut buf).unwrap().unwrap();
    assert_eq!(ready.endpoint, 1);
    assert_eq!(ready.profile_id, 0x0104);
    assert_eq!(ready.cluster.id, ClusterId(0x0402));
    assert_eq!(
        ready.destination,
        ReportDestination::Unicast(ApsPeer {
            short_addr: 0x1234,
            endpoint: 2
        })
    );
    assert_eq!(&buf[..ready.len], &[0x00, 0x00, 0x29, 0x66, 0x08]);
    device.report_delivery_result(ready, ReportDeliveryResult::Sent, 1_000);
    assert_eq!(device.next_report(1_000, &mut buf), Ok(None));
    assert_eq!(device.next_report(60_999, &mut buf), Ok(None));
    // After the maximum interval it is sent without an update.
    assert!(device.next_report(61_000, &mut buf).unwrap().is_some());
}

#[test]
fn deferred_report_is_sent_again() {
    let mut device = SensorDevice::new();
    configure(&mut device, 0, 60);
    device.temperature.set_measured_value(Some(2150)).unwrap();
    let mut buf = [0u8; 16];
    let ready = device.next_report(0, &mut buf).unwrap().unwrap();
    device.report_delivery_result(ready, ReportDeliveryResult::Deferred, 0);
    let again = device.next_report(1, &mut buf).unwrap().unwrap();
    assert_eq!(again, ready);
}

#[test]
fn updates_are_merged_and_lost_reports_counted() {
    let mut device = SensorDevice::new();
    configure(&mut device, 0, 60);
    device.temperature.set_measured_value(Some(2150)).unwrap();
    device.temperature.set_measured_value(Some(2250)).unwrap();
    let mut buf = [0u8; 16];
    let ready = device.next_report(0, &mut buf).unwrap().unwrap();
    assert_eq!(&buf[..ready.len], &[0x00, 0x00, 0x29, 0xca, 0x08]);
    device.report_delivery_result(ready, ReportDeliveryResult::Failed, 0);
    let diagnostics = device.take_reporting_diagnostics();
    assert_eq!(diagnostics.coalesced_updates, 1);
    assert_eq!(diagnostics.dropped_reports, 1);
    assert!(!diagnostics.buffer_too_small);
    assert!(device.take_reporting_diagnostics().is_empty());
}

#[test]
fn small_change_is_not_reported() {
    let mut device = SensorDevice::new();
    configure(&mut device, 0, 60);
    device.temperature.set_measured_value(Some(2150)).unwrap();
    let mut buf = [0u8; 16];
    let ready = device.next_report(0, &mut buf).unwrap().unwrap();
    device.report_delivery_result(ready, ReportDeliveryResult::Sent, 0);
    device.temperature.set_measured_value(Some(2159)).unwrap();
    assert_eq!(device.next_report(1, &mut buf), Ok(None));
    device.temperature.set_measured_value(Some(2140)).unwrap();
    assert!(device.next_report(2, &mut buf).unwrap().is_some());
}

#[test]
fn report_without_room_stays_due() {
    let mut device = SensorDevice::new();
    configure(&mut device, 0, 60);
    device.temperature.set_measured_value(Some(2150)).unwrap();
    assert_eq!(
        device.next_report(0, &mut [0; 4]),
        Err(ZclError::BufferTooSmall)
    );
    assert!(device.take_reporting_diagnostics().buffer_too_small);
    assert!(device.next_report(0, &mut [0; 5]).unwrap().is_some());
}

#[test]
fn configuration_without_source_never_reports() {
    let mut device = SensorDevice::new();
    let record = ConfigureReportingRecord {
        direction: 0,
        attr_id: AttributeId::new(0x0000),
        attr_type: TypeId::Int16.as_u8(),
        min_interval: 0,
        max_interval: 1,
        reportable_change: &[],
        timeout_period: 0,
    };
    let ctx = DispatchContext::unicast(0, None);
    assert_eq!(
        device.temperature.configure_reporting(record, ctx),
        Status::Success
    );
    device.temperature.set_measured_value(Some(1)).unwrap();
    assert_eq!(device.next_report(1_000_000, &mut [0; 16]), Ok(None));
}

#[test]
fn saved_state_comes_back() {
    let mut device = SensorDevice::new();
    device.temperature.set_measured_value(Some(2150)).unwrap();
    device.temperature.set_tolerance(7).unwrap();
    let bytes = device.save_state();
    // cluster 0x0402, endpoint 1, eleven bytes of snapshot
    assert_eq!(&bytes[..5], &[0x02, 0x04, 0x01, 0x0b, 0x00]);
    assert_eq!(bytes.len(), 16);

    let mut other = SensorDevice::new();
    other.restore_state(&bytes);
    assert_eq!(other.temperature.measured_value(), Some(2150));
    assert_eq!(other.temperature.tolerance(), 7);
}

#[test]
fn records_of_others_are_skipped_and_cut_ones_end_it() {
    let mut device = SensorDevice::new();
    device.temperature.set_measured_value(Some(2150)).unwrap();
    let bytes = device.save_state();

    let mut with_foreign = vec![0x06, 0x00, 0x01, 0x02, 0x00, 0xAA, 0xBB];
    with_foreign.extend_from_slice(&bytes);
    let mut other = SensorDevice::new();
    other.restore_state(&with_foreign);
    assert_eq!(other.temperature.measured_value(), Some(2150));

    let mut cut = SensorDevice::new();
    cut.restore_state(&bytes[..bytes.len() - 1]);
    assert_eq!(cut.temperature.measured_value(), None);

    let mut too_large = vec![0x06, 0x00, 0x01, 0x01, 0x01];
    too_large.extend_from_slice(&[0; 257]);
    too_large.extend_from_slice(&bytes);
    let mut stopped = SensorDevice::new();
    stopped.restore_state(&too_large);
    assert_eq!(stopped.temperature.measured_value(), None);
}

#[test]
fn wait_for_a_frame_is_bounded() {
    assert_eq!(poll_timeout_from_tick(None, 5), MAX_POLL_WAIT_MS);
    assert_eq!(poll_timeout_from_tick(Some(105), 5), 100);
    assert_eq!(poll_timeout_from_tick(Some(5), 5), 1);
    assert_eq!(poll_timeout_from_tick(Some(4), 5), 1);
    assert_eq!(poll_timeout_from_tick(Some(100_005), 5), MAX_POLL_WAIT_MS);
    // Across the wrap of the clock.
    assert_eq!(poll_timeout_from_tick(Some(3), u32::MAX - 1), 5);
}

#[test]
fn new_sensor_describes_itself() {
    let device = SensorDevice::new();
    let mut buf = [0u8; 32];
    let expected: [(u16, TypeId, &[u8]); 5] = [
        (0x0000, TypeId::Uint8, &[3]),
        (0x0004, TypeId::CharacterString, b"\x04Acme"),
        (0x0005, TypeId::CharacterString, b"\x0cTempSensor-1"),
        (0x0007, TypeId::Uint8, &[3]),
        (0x0012, TypeId::Boolean, &[1]),
    ];
    for (attr, type_id, value) in expected {
        let (t, n) = device
            .basic
            .read_attribute(AttributeId::new(attr), &mut buf)
            .unwrap();
        assert_eq!(t, type_id, "attr {attr:#06x}");
        assert_eq!(&buf[..n], value, "attr {attr:#06x}");
    }
}

/// Lists the servers of a device.
struct Roll {
    clusters: Vec<u16>,
}

impl DeviceServerVisitor for Roll {
    fn visit<C: ClusterServer>(&mut self, meta: ServerMeta, _server: &mut C) {
        self.clusters.push(meta.cluster.id.0);
    }
}

#[test]
fn any_visitor_is_led_through_the_servers() {
    let mut device = SensorDevice::new();
    let mut roll = Roll {
        clusters: Vec::new(),
    };
    device.visit_servers(&mut roll);
    assert_eq!(roll.clusters, [0x0000, 0x0003, 0x0402]);
}

#[test]
fn unanswered_frame_leaves_the_device_buffer_alone() {
    let mut device = SensorDevice::new();
    let (frame, _) = IncomingZclFrame::decode(&[0x18, 0x08, 0x0b, 0x00, 0x00]).unwrap();
    let mut buf = [0xA5u8; 16];
    let outcome = device
        .dispatch_cluster(request(1, 0x0003, None, &frame), &mut buf)
        .unwrap();
    assert_eq!(outcome.response_len, 0);
    assert_eq!(buf, [0xA5u8; 16]);
}
