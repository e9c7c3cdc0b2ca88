use zigbee_cluster_library::cluster_server::ClusterServer;
use zigbee_cluster_library::common::identify::IdentifyServer;
use zigbee_cluster_library::context::DispatchContext;
use zigbee_cluster_library::dispatch::zcl_cluster_dispatch;
use zigbee_cluster_library::frame::IncomingZclFrame;
use zigbee_cluster_library::frame::Status;
use zigbee_cluster_library::types::error::AttrError;
use zigbee_cluster_library::types::ids::AttributeId;
use zigbee_cluster_library::types::ids::CommandId;
use zigbee_cluster_library::types::ids::TypeId;

fn unicast_at(now_ms: u32) -> DispatchContext {
    DispatchContext::unicast(now_ms, None)
}

fn unicast() -> DispatchContext {
    unicast_at(0)
}

// --- basics ---

#[test]
fn identify_time_starts_at_zero() {
    let server = IdentifyServer::new();
    assert_eq!(server.remaining(), 0);
    assert!(!server.is_identifying());
}

// --- tick ---

#[test]
fn tick_noop_when_not_identifying() {
    let mut server = IdentifyServer::new();
    let ct = server.tick(0);
    assert!(!ct.changed);
    assert_eq!(ct.next_tick_ms, None);
}

#[test]
fn tick_past_deadline_returns_changed_and_no_next_tick() {
    let mut server = IdentifyServer::new();
    // Identify 5 s at t=0 → deadline = 5_000 ms.
    server
        .handle_command(CommandId::new(0x00), &[5, 0], unicast_at(0), &mut [])
        .unwrap();
    assert_eq!(server.remaining(), 5);

    // Tick at t=5_000 (exactly at deadline) → expired.
    let ct = server.tick(5_000);
    assert!(ct.changed);
    assert_eq!(ct.next_tick_ms, None);
    assert_eq!(server.remaining(), 0);
    assert!(!server.is_identifying());
}

#[test]
fn tick_advances_cached_remaining() {
    let mut server = IdentifyServer::new();
    // 10 s at t=0 → deadline = 10_000 ms.
    server
        .handle_command(CommandId::new(0x00), &[10, 0], unicast_at(0), &mut [])
        .unwrap();

    let ct = server.tick(3_000); // 7 s remain (ceil((10000-3000)/1000))
    assert!(ct.changed);
    assert_eq!(server.remaining(), 7);
    assert_eq!(ct.next_tick_ms, Some(4_000));
}

#[test]
fn tick_no_change_within_same_second() {
    let mut server = IdentifyServer::new();
    server
        .handle_command(CommandId::new(0x00), &[10, 0], unicast_at(0), &mut [])
        .unwrap();

    // Two ticks < 1 s apart — cached_remaining stays 10 both times.
    server.tick(500);
    let ct = server.tick(999); // ceil(9001/1000) = 10, unchanged
    assert!(!ct.changed);
}

#[test]
fn write_attribute_then_tick_initializes_deadline() {
    let mut server = IdentifyServer::new();
    server
        .write_attribute(AttributeId::new(0x0000), TypeId::Uint16, &[30, 0])
        .unwrap();
    assert_eq!(server.remaining(), 30);

    // First tick at t=0 → lazy init; deadline = 30_000 ms; no change in remaining.
    let ct = server.tick(0);
    assert!(!ct.changed);
    assert_eq!(ct.next_tick_ms, Some(1_000));
    assert_eq!(server.remaining(), 30);

    // Tick at t=30_000 → expired.
    let ct = server.tick(30_000);
    assert!(ct.changed);
    assert_eq!(server.remaining(), 0);
    assert_eq!(ct.next_tick_ms, None);
}

// --- commands ---

#[test]
fn identify_command_sets_timer() {
    let req: &[u8] = &[0x01, 0x01, 0x00, 0x1e, 0x00]; // cmd=0x00, identify_time=30
    let (frame, _) = IncomingZclFrame::decode(req).unwrap();
    let mut buf = [0u8; 32];
    let mut server = IdentifyServer::new();
    let n = zcl_cluster_dispatch(&mut server, &frame, unicast(), &mut buf)
        .unwrap()
        .response_len;

    assert_eq!(n, 5);
    assert_eq!(buf[2], 0x0b); // DefaultResponse
    assert_eq!(buf[4], Status::Success.as_u8());
    assert_eq!(server.remaining(), 30);
}

#[test]
fn identify_command_zero_stops_identifying() {
    let mut server = IdentifyServer::new();
    server
        .handle_command(CommandId::new(0x00), &[30, 0], unicast_at(0), &mut [])
        .unwrap();
    assert!(server.is_identifying());

    server
        .handle_command(CommandId::new(0x00), &[0, 0], unicast_at(1_000), &mut [])
        .unwrap();
    assert!(!server.is_identifying());
    assert_eq!(server.remaining(), 0);
}

#[test]
fn identify_query_uses_ctx_now_ms() {
    let mut server = IdentifyServer::new();
    // 30 s at t=0 → deadline = 30_000.
    server
        .handle_command(CommandId::new(0x00), &[30, 0], unicast_at(0), &mut [])
        .unwrap();

    // Query at t=10_000 without calling tick — live computation returns 20 s.
    let mut buf = [0u8; 2];
    server
        .handle_command(CommandId::new(0x01), &[], unicast_at(10_000), &mut buf)
        .unwrap();
    assert_eq!(u16::from_le_bytes([buf[0], buf[1]]), 20);
}

#[test]
fn identify_query_returns_response_with_remaining_time() {
    // Set 0x0123 = 291 s at t=0; query at t=0 → IdentifyQueryResponse { timeout =
    // 291 }.
    let req: &[u8] = &[0x01, 0x02, 0x01]; // IdentifyQuery
    let (frame, _) = IncomingZclFrame::decode(req).unwrap();
    let mut buf = [0u8; 32];
    let mut server = IdentifyServer::new();
    server
        .handle_command(CommandId::new(0x00), &[0x23, 0x01], unicast_at(0), &mut [])
        .unwrap();
    let n = zcl_cluster_dispatch(&mut server, &frame, unicast_at(0), &mut buf)
        .unwrap()
        .response_len;

    assert_eq!(n, 5);
    assert_eq!(buf[0], 0x19); // cluster-specific, server→client
    assert_eq!(buf[2], 0x00); // IdentifyQueryResponse command id
    assert_eq!(u16::from_le_bytes([buf[3], buf[4]]), 0x0123);
}

// --- attributes ---

#[test]
fn read_identify_time_attribute() {
    let mut server = IdentifyServer::new();
    server
        .handle_command(CommandId::new(0x00), &[42, 0], unicast_at(0), &mut [])
        .unwrap();
    let mut buf = [0u8; 4];
    let (type_id, n) = server
        .read_attribute(AttributeId::new(0x0000), &mut buf)
        .unwrap();
    assert_eq!(type_id, TypeId::Uint16);
    assert_eq!(n, 2);
    assert_eq!(u16::from_le_bytes([buf[0], buf[1]]), 42);
}

#[test]
fn write_identify_time_attribute() {
    let mut server = IdentifyServer::new();
    server
        .write_attribute(AttributeId::new(0x0000), TypeId::Uint16, &[0x10, 0x00])
        .unwrap();
    assert_eq!(server.remaining(), 0x0010);
}

#[test]
fn identify_cluster_revision_reads_rev8_value_and_is_read_only() {
    let mut server = IdentifyServer::new();
    let mut buf = [0u8; 4];
    let (type_id, n) = server
        .read_attribute(AttributeId::new(0xFFFD), &mut buf)
        .unwrap();
    assert_eq!(type_id, TypeId::Uint16);
    assert_eq!(n, 2);
    assert_eq!(u16::from_le_bytes([buf[0], buf[1]]), 2);
    assert_eq!(
        server.write_attribute(AttributeId::new(0xFFFD), TypeId::Uint16, &[2, 0]),
        Err(AttrError::ReadOnly)
    );
}

#[test]
fn attribute_list_includes_cluster_revision_after_identify_time() {
    let attrs = IdentifyServer::attribute_list();
    assert_eq!(attrs.len(), 2);
    assert_eq!(attrs[0].id, AttributeId::new(0x0000));
    assert_eq!(attrs[1].id, AttributeId::new(0xFFFD));
}
