use zigbee_cluster_library::cluster_server::ClusterServer;
use zigbee_cluster_library::context::ApsPeer;
use zigbee_cluster_library::context::ConfigureReportingRecord;
use zigbee_cluster_library::context::DeliveryMode;
use zigbee_cluster_library::context::DispatchContext;
use zigbee_cluster_library::context::ReportDeliveryResult;
use zigbee_cluster_library::dispatch::zcl_cluster_dispatch;
use zigbee_cluster_library::frame::IncomingZclFrame;
use zigbee_cluster_library::frame::Status;
use zigbee_cluster_library::measurement::occupancy::OccupancySensingServer;
use zigbee_cluster_library::reporting::ReportPayloadWriter;
use zigbee_cluster_library::types::enums::OccupancySensorType;
use zigbee_cluster_library::types::error::AttrError;
use zigbee_cluster_library::types::ids::AttributeId;
use zigbee_cluster_library::types::ids::TypeId;

fn unicast() -> DispatchContext {
    DispatchContext::unicast(0, None)
}

fn unicast_with_source() -> DispatchContext {
    DispatchContext {
        delivery: DeliveryMode::Unicast,
        now_ms: 0,
        source: Some(ApsPeer {
            short_addr: 0x1234,
            endpoint: 1,
        }),
    }
}

fn send_record(
    attr_id: u16,
    attr_type: u8,
    min: u16,
    max: u16,
) -> ConfigureReportingRecord<'static> {
    ConfigureReportingRecord {
        direction: 0,
        attr_id: AttributeId::new(attr_id),
        attr_type,
        min_interval: min,
        max_interval: max,
        reportable_change: &[],
        timeout_period: 0,
    }
}

#[test]
fn default_occupancy_is_unoccupied() {
    let server = OccupancySensingServer::default();
    assert!(!server.is_occupied());
    assert_eq!(server.occupancy(), 0x00);
}

#[test]
fn set_occupied_sets_bit_0() {
    let mut server = OccupancySensingServer::default();
    server.set_occupied(true);
    assert!(server.is_occupied());
    assert_eq!(server.occupancy() & 0x01, 0x01);
}

#[test]
fn set_occupied_false_clears_bit_0() {
    let mut server = OccupancySensingServer::default();
    server.set_occupied(true);
    server.set_occupied(false);
    assert!(!server.is_occupied());
    assert_eq!(server.occupancy() & 0x01, 0x00);
}

#[test]
fn occupancy_attr_encodes_as_bitmap8() {
    let mut server = OccupancySensingServer::default();
    server.set_occupied(true);
    let mut buf = [0u8; 4];
    let (tid, n) = server
        .read_attribute(AttributeId::new(0x0000), &mut buf)
        .unwrap();
    assert_eq!(tid, TypeId::Bitmap8);
    assert_eq!(n, 1);
    assert_eq!(buf[0], 0x01);
}

#[test]
fn sensor_type_attr_encodes_as_enum8() {
    let server = OccupancySensingServer::new(OccupancySensorType::Ultrasonic, 0x02);
    let mut buf = [0u8; 4];
    let (tid, n) = server
        .read_attribute(AttributeId::new(0x0001), &mut buf)
        .unwrap();
    assert_eq!(tid, TypeId::Enum8);
    assert_eq!(n, 1);
    assert_eq!(buf[0], 0x01); // Ultrasonic = 0x01
}

#[test]
fn sensor_type_bitmap_attr_encodes_as_bitmap8() {
    let server = OccupancySensingServer::new(OccupancySensorType::Pir, 0x05);
    let mut buf = [0u8; 4];
    let (tid, n) = server
        .read_attribute(AttributeId::new(0x0002), &mut buf)
        .unwrap();
    assert_eq!(tid, TypeId::Bitmap8);
    assert_eq!(n, 1);
    assert_eq!(buf[0], 0x05);
}

#[test]
fn constructor_masks_sensor_type_bitmap_to_defined_bits() {
    let server = OccupancySensingServer::new(OccupancySensorType::Pir, 0xFF);
    assert_eq!(server.occupancy_sensor_type_bitmap(), 0x07);
    assert_eq!(server.occupancy_sensor_type(), OccupancySensorType::Pir);
}

#[test]
fn occupancy_all_mandatory_attributes_readable() {
    let server = OccupancySensingServer::default();
    for attr in [0x0000u16, 0x0001, 0x0002] {
        let mut buf = [0u8; 4];
        assert!(
            server
                .read_attribute(AttributeId::new(attr), &mut buf)
                .is_ok(),
            "attr 0x{attr:04X} not readable"
        );
    }
}

#[test]
fn occupancy_write_attribute_returns_read_only() {
    let mut server = OccupancySensingServer::default();
    for attr in [0x0000u16, 0x0001, 0x0002] {
        assert_eq!(
            server.write_attribute(AttributeId::new(attr), TypeId::Bitmap8, &[0x00]),
            Err(AttrError::ReadOnly)
        );
    }
}

#[test]
fn occupancy_unknown_attribute_returns_unsupported() {
    let server = OccupancySensingServer::default();
    let mut buf = [0u8; 4];
    assert_eq!(
        server.read_attribute(AttributeId::new(0xFFFF), &mut buf),
        Err(AttrError::UnsupportedAttribute)
    );
}

#[test]
fn attribute_list_occupancy_is_reportable() {
    let attrs = OccupancySensingServer::attribute_list();
    assert_eq!(attrs[0].id, AttributeId::new(0x0000));
    assert!(attrs[0].access.is_reportable());
}

#[test]
fn attribute_list_has_three_entries() {
    assert_eq!(OccupancySensingServer::attribute_list().len(), 4);
}

#[test]
fn dispatch_read_occupancy_unoccupied() {
    let req: &[u8] = &[0x00, 0x01, 0x00, 0x00, 0x00];
    let (frame, _) = IncomingZclFrame::decode(req).unwrap();
    let mut buf = [0u8; 32];
    let mut server = OccupancySensingServer::default();
    let n = zcl_cluster_dispatch(&mut server, &frame, unicast(), &mut buf)
        .unwrap()
        .response_len;

    // header(3) + attr_id(2) + status(1) + type_id(1) + value(1) = 8
    assert_eq!(n, 8);
    assert_eq!(buf[5], 0x00); // Success
    assert_eq!(buf[6], TypeId::Bitmap8.as_u8());
    assert_eq!(buf[7], 0x00); // unoccupied
}

#[test]
fn configure_reporting_occupancy_returns_success() {
    let mut server = OccupancySensingServer::default();
    let record = send_record(0x0000, TypeId::Bitmap8.as_u8(), 0, 30);
    assert_eq!(
        server.configure_reporting(record, unicast_with_source()),
        Status::Success
    );
}

#[test]
fn collect_reports_after_set_occupied() {
    let mut server = OccupancySensingServer::default();
    let record = send_record(0x0000, TypeId::Bitmap8.as_u8(), 0, 30);
    server.configure_reporting(record, unicast_with_source());
    server.set_occupied(true);

    let mut buf = [0u8; 32];
    let mut writer = ReportPayloadWriter::new(&mut buf);
    let ready = server.collect_reports(0, &mut writer).unwrap();
    assert!(ready.is_some());
    // attr_id(2) + type_id(1) + value(1) = 4 bytes
    assert_eq!(writer.len(), 4);
    assert_eq!(buf[3], 0x01); // occupied
}

#[test]
fn occupancy_report_delivery_result_sent_clears_pending() {
    let mut server = OccupancySensingServer::default();
    let record = send_record(0x0000, TypeId::Bitmap8.as_u8(), 0, 30);
    server.configure_reporting(record, unicast_with_source());
    server.set_occupied(true);

    let mut buf = [0u8; 32];
    let mut writer = ReportPayloadWriter::new(&mut buf);
    let ready = server
        .collect_reports(0, &mut writer)
        .unwrap()
        .expect("pending report");

    server.report_delivery_result(ready.token, ReportDeliveryResult::Sent, 1_000);

    let mut writer = ReportPayloadWriter::new(&mut buf);
    assert!(
        server
            .collect_reports(1_000, &mut writer)
            .unwrap()
            .is_none()
    );
}
