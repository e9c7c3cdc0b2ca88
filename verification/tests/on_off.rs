use zigbee_cluster_library::cluster_server::ClusterServer;
use zigbee_cluster_library::context::ApsPeer;
use zigbee_cluster_library::context::CommandResult;
use zigbee_cluster_library::context::ConfigureReportingRecord;
use zigbee_cluster_library::context::DeliveryMode;
use zigbee_cluster_library::context::DispatchContext;
use zigbee_cluster_library::context::ReportDeliveryResult;
use zigbee_cluster_library::dispatch::zcl_cluster_dispatch;
use zigbee_cluster_library::frame::IncomingZclFrame;
use zigbee_cluster_library::frame::Status;
use zigbee_cluster_library::lighting::on_off::OnOffServer;
use zigbee_cluster_library::reporting::ReportPayloadWriter;
use zigbee_cluster_library::types::error::AttrError;
use zigbee_cluster_library::types::ids::AttributeId;
use zigbee_cluster_library::types::ids::CommandId;
use zigbee_cluster_library::types::ids::TypeId;

fn unicast() -> DispatchContext {
    DispatchContext::unicast(0, None)
}

fn unicast_with_source() -> DispatchContext {
    DispatchContext {
        delivery: DeliveryMode::Unicast,
        now_ms: 0,
        source: Some(ApsPeer {
            short_addr: 0x1234,
            endpoint: 1,
        }),
    }
}

fn send_record(min: u16, max: u16) -> ConfigureReportingRecord<'static> {
    ConfigureReportingRecord {
        direction: 0,
        attr_id: AttributeId::new(0x0000),
        attr_type: TypeId::Boolean.as_u8(),
        min_interval: min,
        max_interval: max,
        reportable_change: &[],
        timeout_period: 0,
    }
}

#[test]
fn on_off_attribute_reads_false_initially() {
    let server = OnOffServer::new(false);
    let mut buf = [0u8; 4];
    let (tid, n) = server
        .read_attribute(AttributeId::new(0x0000), &mut buf)
        .unwrap();
    assert_eq!(tid, TypeId::Boolean);
    assert_eq!(n, 1);
    assert_eq!(buf[0], 0x00);
}

#[test]
fn on_command_sets_on_off_true() {
    let mut server = OnOffServer::new(false);
    let result = server
        .handle_command(CommandId(0x01), &[], unicast(), &mut [])
        .unwrap();
    assert!(matches!(
        result,
        CommandResult::DefaultResponse(Status::Success)
    ));
    assert!(server.on_off);
}

#[test]
fn off_command_sets_on_off_false() {
    let mut server = OnOffServer::new(true);
    let result = server
        .handle_command(CommandId(0x00), &[], unicast(), &mut [])
        .unwrap();
    assert!(matches!(
        result,
        CommandResult::DefaultResponse(Status::Success)
    ));
    assert!(!server.on_off);
}

#[test]
fn toggle_command_flips_state() {
    let mut server = OnOffServer::new(false);
    let _ = server.handle_command(CommandId(0x02), &[], unicast(), &mut []);
    assert!(server.on_off);
    let _ = server.handle_command(CommandId(0x02), &[], unicast(), &mut []);
    assert!(!server.on_off);
}

#[test]
fn on_off_unknown_command_returns_unsup() {
    let mut server = OnOffServer::new(false);
    let result = server
        .handle_command(CommandId(0xFF), &[], unicast(), &mut [])
        .unwrap();
    assert!(matches!(
        result,
        CommandResult::DefaultResponse(Status::UnsupCommand)
    ));
}

#[test]
fn on_off_write_attribute_returns_read_only() {
    let mut server = OnOffServer::new(false);
    assert_eq!(
        server.write_attribute(AttributeId::new(0x0000), TypeId::Boolean, &[0x01]),
        Err(AttrError::ReadOnly)
    );
}

#[test]
fn optional_attrs_default_values() {
    let server = OnOffServer::new(false);
    assert!(server.global_scene_control());
    assert_eq!(server.on_time(), 0);
    assert_eq!(server.off_wait_time(), 0);
}

#[test]
fn global_scene_control_reads_as_boolean() {
    let server = OnOffServer::new(false);
    let mut buf = [0u8; 4];
    let (tid, n) = server
        .read_attribute(AttributeId::new(0x4000), &mut buf)
        .unwrap();
    assert_eq!(tid, TypeId::Boolean);
    assert_eq!(n, 1);
    assert_eq!(buf[0], 0x01); // true
}

#[test]
fn global_scene_control_is_read_only_from_zcl() {
    let mut server = OnOffServer::new(false);
    assert_eq!(
        server.write_attribute(AttributeId::new(0x4000), TypeId::Boolean, &[0x00]),
        Err(AttrError::ReadOnly)
    );
}

#[test]
fn on_time_reads_and_writes() {
    let mut server = OnOffServer::new(false);
    server
        .write_attribute(AttributeId::new(0x4001), TypeId::Uint16, &[0x0A, 0x00])
        .unwrap();
    assert_eq!(server.on_time(), 10);
    let mut buf = [0u8; 4];
    let (tid, n) = server
        .read_attribute(AttributeId::new(0x4001), &mut buf)
        .unwrap();
    assert_eq!(tid, TypeId::Uint16);
    assert_eq!(n, 2);
    assert_eq!(u16::from_le_bytes([buf[0], buf[1]]), 10);
}

#[test]
fn off_wait_time_reads_and_writes() {
    let mut server = OnOffServer::new(false);
    server
        .write_attribute(AttributeId::new(0x4002), TypeId::Uint16, &[0x14, 0x00])
        .unwrap();
    assert_eq!(server.off_wait_time(), 20);
    let mut buf = [0u8; 4];
    let (tid, n) = server
        .read_attribute(AttributeId::new(0x4002), &mut buf)
        .unwrap();
    assert_eq!(tid, TypeId::Uint16);
    assert_eq!(n, 2);
    assert_eq!(u16::from_le_bytes([buf[0], buf[1]]), 20);
}

#[test]
fn on_time_wrong_type_returns_invalid_data_type() {
    let mut server = OnOffServer::new(false);
    assert_eq!(
        server.write_attribute(AttributeId::new(0x4001), TypeId::Uint8, &[0x0A]),
        Err(AttrError::InvalidDataType)
    );
}

#[test]
fn on_off_attribute_list_has_five_entries() {
    assert_eq!(OnOffServer::attribute_list().len(), 5);
}

#[test]
fn dispatch_on_command_sends_default_response() {
    // cluster-specific On command, seq=5
    let req: &[u8] = &[0x01, 0x05, 0x01]; // cluster-specific | disable-DR=0, seq, On
    let (frame, _) = IncomingZclFrame::decode(req).unwrap();
    let mut buf = [0u8; 32];
    let mut server = OnOffServer::new(false);
    let n = zcl_cluster_dispatch(&mut server, &frame, unicast(), &mut buf)
        .unwrap()
        .response_len;

    assert_eq!(n, 5); // DefaultResponse is 5 bytes
    assert_eq!(buf[2], 0x0b); // DefaultResponse command id
    assert_eq!(buf[4], Status::Success.as_u8());
    assert!(server.on_off);
}

#[test]
fn dispatch_toggle_command_flips_state() {
    let req: &[u8] = &[0x01, 0x06, 0x02]; // Toggle
    let (frame, _) = IncomingZclFrame::decode(req).unwrap();
    let mut buf = [0u8; 32];
    let mut server = OnOffServer::new(true);
    let n = zcl_cluster_dispatch(&mut server, &frame, unicast(), &mut buf)
        .unwrap()
        .response_len;
    assert_eq!(n, 5);
    assert!(!server.on_off);
}

#[test]
fn attribute_list_on_off_is_reportable() {
    let attrs = OnOffServer::attribute_list();
    assert_eq!(attrs[0].id, AttributeId::new(0x0000));
    assert!(attrs[0].access.is_reportable());
}

#[test]
fn configure_reporting_on_off_returns_success() {
    let mut server = OnOffServer::new(false);
    assert_eq!(
        server.configure_reporting(send_record(0, 60), unicast_with_source()),
        Status::Success
    );
}

#[test]
fn on_command_marks_pending_report() {
    let mut server = OnOffServer::new(false);
    server.configure_reporting(send_record(0, 60), unicast_with_source());

    server
        .handle_command(CommandId(0x01), &[], unicast(), &mut [])
        .unwrap();

    let mut buf = [0u8; 32];
    let mut writer = ReportPayloadWriter::new(&mut buf);
    let ready = server.collect_reports(0, &mut writer).unwrap();
    assert!(ready.is_some());
    // Boolean attr: attr_id(2) + type_id(1) + value(1) = 4 bytes
    assert_eq!(writer.len(), 4);
    assert_eq!(buf[3], 0x01); // on_off = true
}

#[test]
fn toggle_command_marks_pending_report() {
    let mut server = OnOffServer::new(false);
    server.configure_reporting(send_record(0, 60), unicast_with_source());

    server
        .handle_command(CommandId(0x02), &[], unicast(), &mut [])
        .unwrap();

    let mut buf = [0u8; 32];
    let mut writer = ReportPayloadWriter::new(&mut buf);
    assert!(server.collect_reports(0, &mut writer).unwrap().is_some());
}

#[test]
fn on_off_report_delivery_result_sent_clears_pending() {
    let mut server = OnOffServer::new(false);
    server.configure_reporting(send_record(0, 60), unicast_with_source());
    server
        .handle_command(CommandId(0x01), &[], unicast(), &mut [])
        .unwrap();

    let mut buf = [0u8; 32];
    let mut writer = ReportPayloadWriter::new(&mut buf);
    let ready = server
        .collect_reports(0, &mut writer)
        .unwrap()
        .expect("pending report");

    server.report_delivery_result(ready.token, ReportDeliveryResult::Sent, 1_000);

    let mut writer = ReportPayloadWriter::new(&mut buf);
    assert!(
        server
            .collect_reports(1_000, &mut writer)
            .unwrap()
            .is_none()
    );
}
