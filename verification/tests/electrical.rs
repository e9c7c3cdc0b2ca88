use zigbee_cluster_library::cluster_server::ClusterServer;
use zigbee_cluster_library::context::ApsPeer;
use zigbee_cluster_library::context::ConfigureReportingRecord;
use zigbee_cluster_library::context::DeliveryMode;
use zigbee_cluster_library::context::DispatchContext;
use zigbee_cluster_library::context::ReportDeliveryResult;
use zigbee_cluster_library::dispatch::zcl_cluster_dispatch;
use zigbee_cluster_library::frame::IncomingZclFrame;
use zigbee_cluster_library::frame::Status;
use zigbee_cluster_library::measurement::electrical::ElectricalMeasurementServer;
use zigbee_cluster_library::reporting::ReportPayloadWriter;
use zigbee_cluster_library::types::error::AttrError;
use zigbee_cluster_library::types::ids::AttributeId;
use zigbee_cluster_library::types::ids::TypeId;

fn unicast() -> DispatchContext {
    DispatchContext::unicast(0, None)
}

fn unicast_with_source() -> DispatchContext {
    DispatchContext {
        delivery: DeliveryMode::Unicast,
        now_ms: 0,
        source: Some(ApsPeer {
            short_addr: 0x1234,
            endpoint: 1,
        }),
    }
}

fn send_record(
    attr_id: u16,
    attr_type: u8,
    min: u16,
    max: u16,
) -> ConfigureReportingRecord<'static> {
    ConfigureReportingRecord {
        direction: 0,
        attr_id: AttributeId::new(attr_id),
        attr_type,
        min_interval: min,
        max_interval: max,
        reportable_change: &[],
        timeout_period: 0,
    }
}

// --- attribute reads ---

#[test]
fn measurement_type_reads_as_bitmap32() {
    let server = ElectricalMeasurementServer::new();
    assert_eq!(server.measurement_type(), 0x0000_0008);
    let mut buf = [0u8; 8];
    let (tid, n) = server
        .read_attribute(AttributeId::new(0x0000), &mut buf)
        .unwrap();
    assert_eq!(tid, TypeId::Bitmap32);
    assert_eq!(n, 4);
    assert_eq!(
        u32::from_le_bytes([buf[0], buf[1], buf[2], buf[3]]),
        0x0000_0008
    );
}

#[test]
fn defaults_use_unknown_null_sentinels() {
    let server = ElectricalMeasurementServer::new();
    assert_eq!(server.rms_voltage(), None);
    assert_eq!(server.rms_current(), None);
    assert_eq!(server.active_power(), None);
    assert_eq!(server.power_factor(), None);

    let mut buf = [0u8; 8];
    server
        .read_attribute(AttributeId::new(0x0505), &mut buf)
        .unwrap();
    assert_eq!(u16::from_le_bytes([buf[0], buf[1]]), 0xFFFF);
    server
        .read_attribute(AttributeId::new(0x0508), &mut buf)
        .unwrap();
    assert_eq!(u16::from_le_bytes([buf[0], buf[1]]), 0xFFFF);
    server
        .read_attribute(AttributeId::new(0x050B), &mut buf)
        .unwrap();
    assert_eq!(i16::from_le_bytes([buf[0], buf[1]]), i16::MIN);
    server
        .read_attribute(AttributeId::new(0x0510), &mut buf)
        .unwrap();
    assert_eq!(i8::from_le_bytes([buf[0]]), i8::MIN);
}

#[test]
fn rms_voltage_reads_as_uint16() {
    let mut server = ElectricalMeasurementServer::new();
    server.set_rms_voltage(Some(230));
    assert_eq!(server.rms_voltage(), Some(230));
    let mut buf = [0u8; 4];
    let (tid, n) = server
        .read_attribute(AttributeId::new(0x0505), &mut buf)
        .unwrap();
    assert_eq!(tid, TypeId::Uint16);
    assert_eq!(n, 2);
    assert_eq!(u16::from_le_bytes([buf[0], buf[1]]), 230);
}

#[test]
fn rms_current_reads_as_uint16() {
    let mut server = ElectricalMeasurementServer::new();
    server.set_rms_current(Some(1500)); // 1.5 A with default multiplier 0.001
    assert_eq!(server.rms_current(), Some(1500));
    let mut buf = [0u8; 4];
    let (tid, n) = server
        .read_attribute(AttributeId::new(0x0508), &mut buf)
        .unwrap();
    assert_eq!(tid, TypeId::Uint16);
    assert_eq!(n, 2);
    assert_eq!(u16::from_le_bytes([buf[0], buf[1]]), 1500);
}

#[test]
fn active_power_reads_as_int16() {
    let mut server = ElectricalMeasurementServer::new();
    server.set_active_power(Some(350));
    assert_eq!(server.active_power(), Some(350));
    let mut buf = [0u8; 4];
    let (tid, n) = server
        .read_attribute(AttributeId::new(0x050B), &mut buf)
        .unwrap();
    assert_eq!(tid, TypeId::Int16);
    assert_eq!(n, 2);
    assert_eq!(i16::from_le_bytes([buf[0], buf[1]]), 350);
}

#[test]
fn power_factor_reads_as_int8() {
    let mut server = ElectricalMeasurementServer::new();
    server.set_power_factor(Some(95));
    assert_eq!(server.power_factor(), Some(95));
    let mut buf = [0u8; 4];
    let (tid, n) = server
        .read_attribute(AttributeId::new(0x0510), &mut buf)
        .unwrap();
    assert_eq!(tid, TypeId::Int8);
    assert_eq!(n, 1);
    assert_eq!(i8::from_le_bytes([buf[0]]), 95);
}

#[test]
fn setters_accept_none_for_unknown() {
    let mut server = ElectricalMeasurementServer::new();
    server.set_rms_voltage(230);
    server.set_rms_current(1500);
    server.set_active_power(350);
    server.set_power_factor(95);

    server.set_rms_voltage(None::<u16>);
    server.set_rms_current(None::<u16>);
    server.set_active_power(None::<i16>);
    server.set_power_factor(None::<i8>);

    assert_eq!(server.rms_voltage(), None);
    assert_eq!(server.rms_current(), None);
    assert_eq!(server.active_power(), None);
    assert_eq!(server.power_factor(), None);
}

#[test]
fn electrical_all_mandatory_attributes_readable() {
    let server = ElectricalMeasurementServer::new();
    for attr in [0x0000u16, 0x0505, 0x0508, 0x050B, 0x0510] {
        let mut buf = [0u8; 8];
        assert!(
            server
                .read_attribute(AttributeId::new(attr), &mut buf)
                .is_ok(),
            "attr 0x{attr:04X} not readable"
        );
    }
}

#[test]
fn electrical_unknown_attribute_returns_unsupported() {
    let server = ElectricalMeasurementServer::new();
    let mut buf = [0u8; 8];
    assert_eq!(
        server.read_attribute(AttributeId::new(0xFFFF), &mut buf),
        Err(AttrError::UnsupportedAttribute)
    );
}

// --- attribute writes (all read-only) ---

#[test]
fn electrical_write_attribute_returns_read_only_for_all_attrs() {
    let mut server = ElectricalMeasurementServer::new();
    for (attr, tid, data) in [
        (0x0000u16, TypeId::Bitmap32, [0u8, 0, 0, 0].as_ref()),
        (0x0505, TypeId::Uint16, [0u8, 0].as_ref()),
        (0x0508, TypeId::Uint16, [0u8, 0].as_ref()),
        (0x050B, TypeId::Int16, [0u8, 0].as_ref()),
        (0x0510, TypeId::Int8, [0u8].as_ref()),
    ] {
        assert_eq!(
            server.write_attribute(AttributeId::new(attr), tid, data),
            Err(AttrError::ReadOnly),
            "expected ReadOnly for attr 0x{attr:04X}"
        );
    }
}

// --- attribute_list ---

#[test]
fn electrical_attribute_list_has_five_entries() {
    assert_eq!(ElectricalMeasurementServer::attribute_list().len(), 6);
}

#[test]
fn attribute_list_active_power_is_reportable() {
    let attrs = ElectricalMeasurementServer::attribute_list();
    let ap = attrs
        .iter()
        .find(|a| a.id == AttributeId::new(0x050B))
        .unwrap();
    assert!(ap.access.is_reportable());
    assert!(ap.access.is_readable());
    assert_eq!(ap.type_id, TypeId::Int16);
}

#[test]
fn attribute_list_measurement_type_is_bitmap32() {
    let attrs = ElectricalMeasurementServer::attribute_list();
    let mt = attrs
        .iter()
        .find(|a| a.id == AttributeId::new(0x0000))
        .unwrap();
    assert_eq!(mt.type_id, TypeId::Bitmap32);
    assert!(!mt.access.is_reportable());
}

// --- reporting ---

#[test]
fn configure_reporting_active_power_success() {
    let mut server = ElectricalMeasurementServer::new();
    let record = send_record(0x050B, TypeId::Int16.as_u8(), 0, 60);
    assert_eq!(
        server.configure_reporting(record, unicast_with_source()),
        Status::Success
    );
}

#[test]
fn configure_reporting_rms_voltage_unreportable() {
    let mut server = ElectricalMeasurementServer::new();
    let record = send_record(0x0505, TypeId::Uint16.as_u8(), 0, 60);
    assert_eq!(
        server.configure_reporting(record, unicast_with_source()),
        Status::UnreportableAttribute
    );
}

#[test]
fn electrical_collect_reports_none_when_no_subscription() {
    let mut server = ElectricalMeasurementServer::new();
    server.set_active_power(350);
    let mut buf = [0u8; 32];
    let mut writer = ReportPayloadWriter::new(&mut buf);
    assert!(server.collect_reports(0, &mut writer).unwrap().is_none());
}

#[test]
fn collect_reports_after_set_active_power() {
    let mut server = ElectricalMeasurementServer::new();
    let record = send_record(0x050B, TypeId::Int16.as_u8(), 0, 60);
    server.configure_reporting(record, unicast_with_source());
    server.set_active_power(350);

    let mut buf = [0u8; 32];
    let mut writer = ReportPayloadWriter::new(&mut buf);
    let ready = server.collect_reports(0, &mut writer).unwrap();
    assert!(ready.is_some());
    // attr_id(2) + type_id(1) + value(2) = 5 bytes
    assert_eq!(writer.len(), 5);
    assert_eq!(i16::from_le_bytes([buf[3], buf[4]]), 350);
}

#[test]
fn report_delivery_clears_pending() {
    let mut server = ElectricalMeasurementServer::new();
    let record = send_record(0x050B, TypeId::Int16.as_u8(), 0, 60);
    server.configure_reporting(record, unicast_with_source());
    server.set_active_power(350);

    let mut buf = [0u8; 32];
    let mut writer = ReportPayloadWriter::new(&mut buf);
    let ready = server
        .collect_reports(0, &mut writer)
        .unwrap()
        .expect("pending report");
    server.report_delivery_result(ready.token, ReportDeliveryResult::Sent, 1_000);

    let mut writer = ReportPayloadWriter::new(&mut buf);
    assert!(
        server
            .collect_reports(1_000, &mut writer)
            .unwrap()
            .is_none()
    );
}

// --- dispatch integration ---

#[test]
fn dispatch_read_active_power() {
    let req: &[u8] = &[
        0x00, 0x01, 0x00, // ReadAttributes, seq=1
        0x0B, 0x05, // attr 0x050B
    ];
    let (frame, _) = IncomingZclFrame::decode(req).unwrap();
    let mut buf = [0u8; 32];
    let mut server = ElectricalMeasurementServer::new();
    server.set_active_power(240);
    let n = zcl_cluster_dispatch(&mut server, &frame, unicast(), &mut buf)
        .unwrap()
        .response_len;

    // header(3) + attr_id(2) + status(1) + type_id(1) + value(2) = 9
    assert_eq!(n, 9);
    assert_eq!(buf[5], 0x00); // Success
    assert_eq!(buf[6], TypeId::Int16.as_u8());
    assert_eq!(i16::from_le_bytes([buf[7], buf[8]]), 240);
}

#[test]
fn dispatch_write_active_power_returns_read_only() {
    let req: &[u8] = &[
        0x00, 0x01, 0x02, // WriteAttributes, seq=1
        0x0B, 0x05, // attr 0x050B
        0x29, // Int16
        0x64, 0x00, // value 100
    ];
    let (frame, _) = IncomingZclFrame::decode(req).unwrap();
    let mut buf = [0u8; 32];
    let mut server = ElectricalMeasurementServer::new();
    let n = zcl_cluster_dispatch(&mut server, &frame, unicast(), &mut buf)
        .unwrap()
        .response_len;

    // header(3) + status(1) + attr_id(2) = 6
    assert_eq!(n, 6);
    assert_eq!(buf[3], Status::ReadOnly.as_u8());
}
