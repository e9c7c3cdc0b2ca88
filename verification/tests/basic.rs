use zigbee_cluster_library::cluster_server::ClusterServer;
use zigbee_cluster_library::common::basic::BasicConfig;
use zigbee_cluster_library::common::basic::BasicServer;
use zigbee_cluster_library::context::DeliveryMode;
use zigbee_cluster_library::context::DispatchContext;
use zigbee_cluster_library::dispatch::zcl_cluster_dispatch;
use zigbee_cluster_library::frame::IncomingZclFrame;
use zigbee_cluster_library::frame::Status;
use zigbee_cluster_library::types::error::AttrError;
use zigbee_cluster_library::types::error::ZclError;
use zigbee_cluster_library::types::ids::AttributeId;
use zigbee_cluster_library::types::ids::TypeId;

fn make_server(device_enabled: bool) -> BasicServer {
    BasicServer::new(BasicConfig::new(
        3,
        "ACME",
        "Sensor-1",
        0x01,
        device_enabled,
    ))
}

fn unicast() -> DispatchContext {
    DispatchContext {
        delivery: DeliveryMode::Unicast,
        now_ms: 0,
        source: None,
    }
}

#[test]
fn zcl_version_reads_as_3() {
    let server = make_server(true);
    let mut buf = [0u8; 4];
    let (tid, n) = server
        .read_attribute(AttributeId::new(0x0000), &mut buf)
        .unwrap();
    assert_eq!(tid, TypeId::Uint8);
    assert_eq!(n, 1);
    assert_eq!(buf[0], 3);
}

#[test]
fn manufacturer_name_reads_correct_string() {
    let server = make_server(true);
    let mut buf = [0u8; 32];
    let (tid, n) = server
        .read_attribute(AttributeId::new(0x0004), &mut buf)
        .unwrap();
    assert_eq!(tid, TypeId::CharacterString);
    assert_eq!(n, 5);
    assert_eq!(buf[0], 4);
    assert_eq!(&buf[1..5], b"ACME");
}

#[test]
fn model_identifier_reads_correct_string() {
    let server = make_server(true);
    let mut buf = [0u8; 32];
    let (tid, n) = server
        .read_attribute(AttributeId::new(0x0005), &mut buf)
        .unwrap();
    assert_eq!(tid, TypeId::CharacterString);
    assert_eq!(n, 9);
    assert_eq!(&buf[1..n], b"Sensor-1");
}

#[test]
fn power_source_reads_correctly() {
    let server = make_server(true);
    let mut buf = [0u8; 4];
    let (tid, n) = server
        .read_attribute(AttributeId::new(0x0007), &mut buf)
        .unwrap();
    assert_eq!(tid, TypeId::Uint8);
    assert_eq!(n, 1);
    assert_eq!(buf[0], 0x01);
}

#[test]
fn device_enabled_initially_true_and_readable() {
    let server = make_server(true);
    let mut buf = [0u8; 4];
    let (tid, n) = server
        .read_attribute(AttributeId::new(0x0012), &mut buf)
        .unwrap();
    assert_eq!(tid, TypeId::Boolean);
    assert_eq!(n, 1);
    assert_eq!(buf[0], 0x01);
}

#[test]
fn device_enabled_initially_false() {
    let server = make_server(false);
    let mut buf = [0u8; 4];
    let (_, _) = server
        .read_attribute(AttributeId::new(0x0012), &mut buf)
        .unwrap();
    assert_eq!(buf[0], 0x00);
}

#[test]
fn device_enabled_write_persists() {
    let mut server = make_server(false);
    server
        .write_attribute(AttributeId::new(0x0012), TypeId::Boolean, &[0x01])
        .unwrap();
    let mut buf = [0u8; 4];
    let (_, n) = server
        .read_attribute(AttributeId::new(0x0012), &mut buf)
        .unwrap();
    assert_eq!(n, 1);
    assert_eq!(buf[0], 0x01);
    assert!(server.device_enabled());
}

#[test]
fn device_enabled_rejects_invalid_boolean() {
    let mut server = make_server(false);
    assert_eq!(
        server.write_attribute(AttributeId::new(0x0012), TypeId::Boolean, &[0x02]),
        Err(AttrError::Codec(ZclError::InvalidValue))
    );
    assert!(!server.device_enabled());
}

#[test]
fn zcl_version_write_returns_read_only() {
    let mut server = make_server(true);
    assert_eq!(
        server.write_attribute(AttributeId::new(0x0000), TypeId::Uint8, &[4]),
        Err(AttrError::ReadOnly)
    );
}

#[test]
fn basic_unknown_attribute_returns_unsupported() {
    let server = make_server(true);
    let mut buf = [0u8; 4];
    assert_eq!(
        server.read_attribute(AttributeId::new(0xFFFF), &mut buf),
        Err(AttrError::UnsupportedAttribute)
    );
}

#[test]
fn attribute_list_includes_basic_attrs() {
    let attrs = BasicServer::attribute_list();
    assert_eq!(attrs.len(), 5);
    assert_eq!(attrs[0].id, AttributeId::new(0x0000));
    assert_eq!(attrs[1].id, AttributeId::new(0x0004));
    assert_eq!(attrs[2].id, AttributeId::new(0x0005));
    assert_eq!(attrs[3].id, AttributeId::new(0x0007));
    assert_eq!(attrs[4].id, AttributeId::new(0x0012));
}

#[test]
fn dispatch_read_zcl_version_via_frame() {
    let req: &[u8] = &[0x00, 0x01, 0x00, 0x00, 0x00];
    let (frame, _) = IncomingZclFrame::decode(req).unwrap();
    let mut buf = [0u8; 32];
    let mut server = make_server(true);
    let n = zcl_cluster_dispatch(&mut server, &frame, unicast(), &mut buf)
        .unwrap()
        .response_len;

    assert_eq!(n, 8);
    assert_eq!(buf[5], 0x00);
    assert_eq!(buf[7], 3);
}

#[test]
fn dispatch_write_device_enabled_via_frame() {
    let req: &[u8] = &[0x00, 0x02, 0x02, 0x12, 0x00, 0x10, 0x01];
    let (frame, _) = IncomingZclFrame::decode(req).unwrap();
    let mut buf = [0u8; 32];
    let mut server = make_server(false);
    let n = zcl_cluster_dispatch(&mut server, &frame, unicast(), &mut buf)
        .unwrap()
        .response_len;

    assert_eq!(n, 4);
    assert_eq!(buf[3], Status::Success.as_u8());

    let mut rbuf = [0u8; 4];
    server
        .read_attribute(AttributeId::new(0x0012), &mut rbuf)
        .unwrap();
    assert_eq!(rbuf[0], 0x01);
}

#[test]
fn discover_attributes_lists_basic_attrs() {
    let req: &[u8] = &[0x00, 0x03, 0x0c, 0x00, 0x00, 0xFF];
    let (frame, _) = IncomingZclFrame::decode(req).unwrap();
    let mut buf = [0u8; 32];
    let mut server = make_server(false);
    let n = zcl_cluster_dispatch(&mut server, &frame, unicast(), &mut buf)
        .unwrap()
        .response_len;

    assert_eq!(n, 19);
    assert_eq!(buf[2], 0x0d);
    assert_eq!(buf[3], 0x01);
    assert_eq!(&buf[4..7], &[0x00, 0x00, TypeId::Uint8.as_u8()]);
    assert_eq!(&buf[16..19], &[0x12, 0x00, TypeId::Boolean.as_u8()]);
}
