use zigbee_cluster_library::cluster_server::ClusterServer;
use zigbee_cluster_library::context::ApsPeer;
use zigbee_cluster_library::context::CommandResult;
use zigbee_cluster_library::context::ConfigureReportingRecord;
use zigbee_cluster_library::context::DeliveryMode;
use zigbee_cluster_library::context::DispatchContext;
use zigbee_cluster_library::context::ReportDeliveryResult;
use zigbee_cluster_library::dispatch::zcl_cluster_dispatch;
use zigbee_cluster_library::frame::IncomingZclFrame;
use zigbee_cluster_library::frame::Status;
use zigbee_cluster_library::lighting::level_control::LevelControlServer;
use zigbee_cluster_library::reporting::ReportPayloadWriter;
use zigbee_cluster_library::types::error::AttrError;
use zigbee_cluster_library::types::ids::AttributeId;
use zigbee_cluster_library::types::ids::CommandId;
use zigbee_cluster_library::types::ids::TypeId;

fn unicast_at(now_ms: u32) -> DispatchContext {
    DispatchContext::unicast(now_ms, None)
}

fn unicast() -> DispatchContext {
    unicast_at(0)
}

fn unicast_with_source() -> DispatchContext {
    DispatchContext {
        delivery: DeliveryMode::Unicast,
        now_ms: 0,
        source: Some(ApsPeer {
            short_addr: 0x1234,
            endpoint: 1,
        }),
    }
}

fn send_record(min: u16, max: u16) -> ConfigureReportingRecord<'static> {
    ConfigureReportingRecord {
        direction: 0,
        attr_id: AttributeId::new(0x0000),
        attr_type: TypeId::Uint8.as_u8(),
        min_interval: min,
        max_interval: max,
        reportable_change: &[],
        timeout_period: 0,
    }
}

fn read_remaining(server: &LevelControlServer) -> u16 {
    let mut buf = [0u8; 4];
    let (_, n) = server
        .read_attribute(AttributeId::new(0x0001), &mut buf)
        .unwrap();
    assert_eq!(n, 2);
    u16::from_le_bytes([buf[0], buf[1]])
}

// --- basics ---

#[test]
fn current_level_null_encodes_as_0xff() {
    let server = LevelControlServer::new(None);
    let mut buf = [0u8; 4];
    let (tid, n) = server
        .read_attribute(AttributeId::new(0x0000), &mut buf)
        .unwrap();
    assert_eq!(tid, TypeId::Uint8);
    assert_eq!(n, 1);
    assert_eq!(buf[0], 0xFF);
}

#[test]
fn remaining_time_initially_zero() {
    let server = LevelControlServer::new(Some(50));
    assert_eq!(read_remaining(&server), 0);
}

// --- instant transitions ---

#[test]
fn move_to_level_instant_sets_level_immediately() {
    let mut server = LevelControlServer::new(Some(0));
    let result = server
        .handle_command(CommandId(0x00), &[200, 0x00, 0x00], unicast(), &mut [])
        .unwrap();
    assert!(matches!(
        result,
        CommandResult::DefaultResponse(Status::Success)
    ));
    assert_eq!(server.current_level, Some(200));
    assert!(!server.moving);
}

#[test]
fn move_to_level_with_on_off_same_behavior() {
    let mut server = LevelControlServer::new(Some(0));
    let result = server
        .handle_command(CommandId(0x04), &[128, 0x00, 0x00], unicast(), &mut [])
        .unwrap();
    assert!(matches!(
        result,
        CommandResult::DefaultResponse(Status::Success)
    ));
    assert_eq!(server.current_level, Some(128));
}

#[test]
fn move_to_level_0xffff_uses_device_default_transition() {
    // Default is 0 → instant snap.
    let mut server = LevelControlServer::new(Some(0));
    let _ = server.handle_command(CommandId(0x00), &[75, 0xFF, 0xFF], unicast(), &mut []);
    assert_eq!(server.current_level, Some(75));
    assert!(!server.moving);

    // With a configured default the transition is timed, not instant.
    let mut server = LevelControlServer::new(Some(0)).with_default_transition(10);
    let _ = server.handle_command(CommandId(0x00), &[75, 0xFF, 0xFF], unicast_at(0), &mut []);
    assert_eq!(server.current_level, Some(0)); // still at start
    assert!(server.moving);
}

#[test]
fn move_to_level_from_null_with_transition_snaps_immediately() {
    let mut server = LevelControlServer::new(None);
    let result = server
        .handle_command(CommandId(0x00), &[100, 20, 0], unicast(), &mut [])
        .unwrap();
    assert!(matches!(
        result,
        CommandResult::DefaultResponse(Status::Success)
    ));
    assert_eq!(server.current_level, Some(100));
    assert!(!server.moving);
}

#[test]
fn move_to_level_short_payload_returns_error() {
    let mut server = LevelControlServer::new(Some(0));
    let result = server.handle_command(CommandId(0x00), &[100, 0x05], unicast(), &mut []);
    assert!(result.is_err());
}

#[test]
fn level_control_unknown_command_returns_unsup() {
    let mut server = LevelControlServer::new(Some(0));
    let result = server
        .handle_command(CommandId(0xFF), &[], unicast(), &mut [])
        .unwrap();
    assert!(matches!(
        result,
        CommandResult::DefaultResponse(Status::UnsupCommand)
    ));
}

#[test]
fn step_up_instant_moves_level() {
    let mut server = LevelControlServer::new(Some(50));
    let _ = server.handle_command(CommandId(0x02), &[0x00, 10, 0x00, 0x00], unicast(), &mut []);
    assert_eq!(server.current_level, Some(60));
    assert!(!server.moving);
}

#[test]
fn step_down_clamped_at_min_level() {
    let mut server = LevelControlServer::new(Some(5));
    let _ = server.handle_command(CommandId(0x02), &[0x01, 50, 0x00, 0x00], unicast(), &mut []);
    assert_eq!(server.current_level, Some(1)); // clamped at default min_level (0x01)
}

#[test]
fn step_up_clamped_at_254() {
    let mut server = LevelControlServer::new(Some(250));
    let _ = server.handle_command(
        CommandId(0x02),
        &[0x00, 100, 0x00, 0x00],
        unicast(),
        &mut [],
    );
    assert_eq!(server.current_level, Some(254));
}

#[test]
fn move_up_starts_transition() {
    let mut server = LevelControlServer::new(Some(0));
    let _ = server.handle_command(CommandId(0x01), &[0x00, 50], unicast_at(0), &mut []);
    assert!(server.moving);
    assert_eq!(server.target_level, 254);
}

#[test]
fn move_down_from_zero_is_noop() {
    let mut server = LevelControlServer::new(Some(0));
    let _ = server.handle_command(CommandId(0x01), &[0x01, 50], unicast_at(0), &mut []);
    assert!(!server.moving);
    assert_eq!(server.current_level, Some(0));
}

#[test]
fn stop_halts_moving_transition() {
    let mut server = LevelControlServer::new(Some(0));
    let _ = server.handle_command(CommandId(0x00), &[200, 10, 0], unicast_at(0), &mut []);
    assert!(server.moving);

    let result = server
        .handle_command(CommandId(0x03), &[], unicast_at(500), &mut [])
        .unwrap();
    assert!(matches!(
        result,
        CommandResult::DefaultResponse(Status::Success)
    ));
    assert!(!server.moving);
    assert_eq!(server.current_level, Some(100)); // 50% of 0→200 at t=500ms
}

#[test]
fn stop_noop_when_idle() {
    let mut server = LevelControlServer::new(Some(77));
    let result = server
        .handle_command(CommandId(0x03), &[], unicast(), &mut [])
        .unwrap();
    assert!(matches!(
        result,
        CommandResult::DefaultResponse(Status::Success)
    ));
    assert_eq!(server.current_level, Some(77));
    assert!(!server.moving);
}

#[test]
fn all_command_ids_route_to_expected_level_control_behavior() {
    assert_eq!(
        LevelControlServer::commands_received(),
        &[
            CommandId(0x00),
            CommandId(0x01),
            CommandId(0x02),
            CommandId(0x03),
            CommandId(0x04),
            CommandId(0x05),
            CommandId(0x06),
            CommandId(0x07),
        ]
    );

    let mut server = LevelControlServer::new(Some(10));
    server
        .handle_command(CommandId(0x00), &[40, 0, 0], unicast(), &mut [])
        .unwrap();
    assert_eq!(server.current_level, Some(40));

    let mut server = LevelControlServer::new(Some(10));
    server
        .handle_command(CommandId(0x01), &[0x00, 10], unicast_at(0), &mut [])
        .unwrap();
    assert!(server.moving);
    assert_eq!(server.target_level, 0xFE);

    let mut server = LevelControlServer::new(Some(10));
    server
        .handle_command(CommandId(0x02), &[0x00, 5, 0, 0], unicast(), &mut [])
        .unwrap();
    assert_eq!(server.current_level, Some(15));

    let mut server = LevelControlServer::new(Some(10));
    server
        .handle_command(CommandId(0x00), &[110, 10, 0], unicast_at(0), &mut [])
        .unwrap();
    server
        .handle_command(CommandId(0x03), &[], unicast_at(500), &mut [])
        .unwrap();
    assert!(!server.moving);
    assert_eq!(server.current_level, Some(60));

    let mut server = LevelControlServer::new(Some(10));
    server
        .handle_command(CommandId(0x04), &[40, 0, 0], unicast(), &mut [])
        .unwrap();
    assert_eq!(server.current_level, Some(40));

    let mut server = LevelControlServer::new(Some(10));
    server
        .handle_command(CommandId(0x05), &[0x00, 10], unicast_at(0), &mut [])
        .unwrap();
    assert!(server.moving);
    assert_eq!(server.target_level, 0xFE);

    let mut server = LevelControlServer::new(Some(10));
    server
        .handle_command(CommandId(0x06), &[0x00, 5, 0, 0], unicast(), &mut [])
        .unwrap();
    assert_eq!(server.current_level, Some(15));

    let mut server = LevelControlServer::new(Some(10));
    server
        .handle_command(CommandId(0x00), &[110, 10, 0], unicast_at(0), &mut [])
        .unwrap();
    server
        .handle_command(CommandId(0x07), &[], unicast_at(500), &mut [])
        .unwrap();
    assert!(!server.moving);
    assert_eq!(server.current_level, Some(60));
}

// --- tick ---

#[test]
fn tick_noop_when_not_moving() {
    let mut server = LevelControlServer::new(Some(50));
    let ct = server.tick(100);
    assert!(!ct.changed);
    assert_eq!(ct.next_tick_ms, None);
    assert_eq!(server.current_level, Some(50));
}

#[test]
fn tick_advances_level_toward_target() {
    let mut server = LevelControlServer::new(Some(0));
    // target=100, transition=10 tenths = 1000 ms
    let _ = server.handle_command(CommandId(0x00), &[100, 10, 0], unicast_at(0), &mut []);
    assert!(server.moving);

    let ct = server.tick(500);
    assert!(ct.changed);
    assert_eq!(server.current_level, Some(50));
    assert_eq!(read_remaining(&server), 5); // 500ms left = 5 tenths
}

#[test]
fn tick_completes_transition() {
    let mut server = LevelControlServer::new(Some(0));
    // target=200, 10 tenths = 1000 ms
    let _ = server.handle_command(CommandId(0x00), &[200, 10, 0], unicast_at(0), &mut []);

    let ct = server.tick(1_000);
    assert!(ct.changed);
    assert_eq!(ct.next_tick_ms, None);
    assert_eq!(server.current_level, Some(200));
    assert!(!server.moving);
    assert_eq!(read_remaining(&server), 0);
}

#[test]
fn tick_past_deadline_snaps_to_target() {
    let mut server = LevelControlServer::new(Some(0));
    let _ = server.handle_command(CommandId(0x00), &[200, 10, 0], unicast_at(0), &mut []);

    // Call tick well past the transition end.
    let ct = server.tick(5_000);
    assert_eq!(server.current_level, Some(200));
    assert_eq!(ct.next_tick_ms, None);
}

#[test]
fn level_decreases_toward_lower_target() {
    let mut server = LevelControlServer::new(Some(100));
    // target=50, 10 tenths = 1000 ms
    let _ = server.handle_command(CommandId(0x00), &[50, 10, 0], unicast_at(0), &mut []);

    server.tick(500);
    // start=100, target=50, delta=-50; at 500ms: 100 + (-50)*500/1000 = 75
    assert_eq!(server.current_level, Some(75));
}

#[test]
fn tick_returns_next_tick_ms_during_transition() {
    let mut server = LevelControlServer::new(Some(0));
    let _ = server.handle_command(CommandId(0x00), &[100, 10, 0], unicast_at(0), &mut []);

    let ct = server.tick(0);
    // next_tick_ms must be Some and in the future
    assert!(ct.next_tick_ms.is_some());
    let nxt = ct.next_tick_ms.unwrap();
    assert!(nxt.wrapping_sub(0) > 0);
}

#[test]
fn tick_adaptive_cadence_exact_next_change() {
    // delta=2 (0→2), duration=10000ms: first level change at ~5000ms
    let mut server = LevelControlServer::new(Some(0));
    let _ = server.handle_command(CommandId(0x00), &[2, 100, 0], unicast_at(0), &mut []); // 100 tenths = 10000ms

    let ct = server.tick(0);
    // step=0, wake_elapsed = 1*10000/2 + 1 = 5001
    assert_eq!(ct.next_tick_ms, Some(5001));
}

// --- hardware dirty flag ---

#[test]
fn take_pending_level_returns_none_initially() {
    let mut server = LevelControlServer::new(Some(50));
    assert_eq!(server.take_pending_level(), None);
}

#[test]
fn take_pending_level_set_after_instant_move() {
    let mut server = LevelControlServer::new(Some(0));
    let _ = server.handle_command(CommandId(0x00), &[100, 0, 0], unicast(), &mut []);
    assert_eq!(server.take_pending_level(), Some(100));
    assert_eq!(server.take_pending_level(), None); // cleared
}

#[test]
fn take_pending_level_set_by_tick_when_level_changes() {
    let mut server = LevelControlServer::new(Some(0));
    let _ = server.handle_command(CommandId(0x00), &[100, 10, 0], unicast_at(0), &mut []);
    // No hardware update yet — level hasn't changed.
    assert_eq!(server.take_pending_level(), None);

    server.tick(500); // level → 50
    assert_eq!(server.take_pending_level(), Some(50));
    assert_eq!(server.take_pending_level(), None); // cleared
}

// --- reporting ---

#[test]
fn attribute_list_current_level_is_reportable() {
    let attrs = LevelControlServer::attribute_list();
    assert_eq!(attrs.len(), 6);
    assert_eq!(attrs[0].id, AttributeId::new(0x0000));
    assert!(attrs[0].access.is_reportable());
}

#[test]
fn options_reads_initial_zero() {
    let server = LevelControlServer::new(Some(50));
    let mut buf = [0u8; 4];
    let (tid, n) = server
        .read_attribute(AttributeId::new(0x000F), &mut buf)
        .unwrap();
    assert_eq!(tid, TypeId::Bitmap8);
    assert_eq!(n, 1);
    assert_eq!(buf[0], 0x00);
}

#[test]
fn options_write_and_read() {
    let mut server = LevelControlServer::new(Some(50));
    server
        .write_attribute(AttributeId::new(0x000F), TypeId::Bitmap8, &[0x01])
        .unwrap();
    assert_eq!(server.options, 0x01);
    let mut buf = [0u8; 4];
    let (_, n) = server
        .read_attribute(AttributeId::new(0x000F), &mut buf)
        .unwrap();
    assert_eq!(n, 1);
    assert_eq!(buf[0], 0x01);
}

#[test]
fn options_write_empty_data_returns_invalid_value() {
    let mut server = LevelControlServer::new(Some(50));
    assert_eq!(
        server.write_attribute(AttributeId::new(0x000F), TypeId::Bitmap8, &[]),
        Err(AttrError::InvalidValue)
    );
}

#[test]
fn min_level_max_level_default_values() {
    let server = LevelControlServer::new(Some(50));
    assert_eq!(server.min_level(), 0x01);
    assert_eq!(server.max_level(), 0xFE);
}

#[test]
fn min_level_reads_as_uint8() {
    let server = LevelControlServer::new(Some(50));
    let mut buf = [0u8; 4];
    let (tid, n) = server
        .read_attribute(AttributeId::new(0x0002), &mut buf)
        .unwrap();
    assert_eq!(tid, TypeId::Uint8);
    assert_eq!(n, 1);
    assert_eq!(buf[0], 0x01);
}

#[test]
fn max_level_reads_as_uint8() {
    let server = LevelControlServer::new(Some(50));
    let mut buf = [0u8; 4];
    let (tid, n) = server
        .read_attribute(AttributeId::new(0x0003), &mut buf)
        .unwrap();
    assert_eq!(tid, TypeId::Uint8);
    assert_eq!(n, 1);
    assert_eq!(buf[0], 0xFE);
}

#[test]
fn min_level_max_level_are_read_only() {
    let mut server = LevelControlServer::new(Some(50));
    assert_eq!(
        server.write_attribute(AttributeId::new(0x0002), TypeId::Uint8, &[0x05]),
        Err(AttrError::ReadOnly)
    );
    assert_eq!(
        server.write_attribute(AttributeId::new(0x0003), TypeId::Uint8, &[0xF0]),
        Err(AttrError::ReadOnly)
    );
}

#[test]
fn set_min_max_level_affects_move_targets() {
    let mut server = LevelControlServer::new(Some(50));
    server.set_min_level(10);
    server.set_max_level(200);
    // Move Up → target is max_level
    let _ = server.handle_command(CommandId(0x01), &[0x00, 50], unicast_at(0), &mut []);
    assert_eq!(server.target_level, 200);
}

#[test]
fn move_to_level_below_min_clamped() {
    let mut server = LevelControlServer::new(Some(50));
    // min_level=1, sending level=0 should clamp to 1
    let _ = server.handle_command(CommandId(0x00), &[0, 0x00, 0x00], unicast(), &mut []);
    assert_eq!(server.current_level, Some(1));
}

#[test]
fn move_with_rate_zero_returns_invalid_value() {
    let mut server = LevelControlServer::new(Some(50));
    let result = server
        .handle_command(CommandId(0x01), &[0x00, 0x00], unicast(), &mut [])
        .unwrap();
    assert!(matches!(
        result,
        CommandResult::DefaultResponse(Status::InvalidValue)
    ));
}

#[test]
fn configure_reporting_current_level_returns_success() {
    let mut server = LevelControlServer::new(Some(0));
    assert_eq!(
        server.configure_reporting(send_record(0, 60), unicast_with_source()),
        Status::Success
    );
}

#[test]
fn move_to_level_instant_marks_pending_report() {
    let mut server = LevelControlServer::new(Some(0));
    server.configure_reporting(send_record(0, 60), unicast_with_source());

    server
        .handle_command(CommandId(0x00), &[128, 0x00, 0x00], unicast(), &mut [])
        .unwrap();

    let mut buf = [0u8; 32];
    let mut writer = ReportPayloadWriter::new(&mut buf);
    let ready = server.collect_reports(0, &mut writer).unwrap();
    assert!(ready.is_some());
    assert_eq!(writer.len(), 4); // attr_id(2) + type_id(1) + value(1)
    assert_eq!(buf[3], 128);
}

#[test]
fn tick_marks_pending_report_mid_transition() {
    let mut server = LevelControlServer::new(Some(0));
    server.configure_reporting(send_record(0, 60), unicast_with_source());

    // Start timed transition — level not changed yet, no report pending.
    server
        .handle_command(CommandId(0x00), &[100, 10, 0], unicast_at(0), &mut [])
        .unwrap();
    let mut buf = [0u8; 32];
    assert!(
        server
            .collect_reports(0, &mut ReportPayloadWriter::new(&mut buf))
            .unwrap()
            .is_none()
    );

    // Tick to midpoint — level changes to 50, report should be pending.
    server.tick(500);
    let mut writer = ReportPayloadWriter::new(&mut buf);
    let ready = server.collect_reports(500, &mut writer).unwrap();
    assert!(ready.is_some());
    assert_eq!(buf[3], 50);
}

#[test]
fn level_control_report_delivery_result_sent_clears_pending() {
    let mut server = LevelControlServer::new(Some(0));
    server.configure_reporting(send_record(0, 60), unicast_with_source());
    server
        .handle_command(CommandId(0x00), &[50, 0x00, 0x00], unicast(), &mut [])
        .unwrap();

    let mut buf = [0u8; 32];
    let mut writer = ReportPayloadWriter::new(&mut buf);
    let ready = server
        .collect_reports(0, &mut writer)
        .unwrap()
        .expect("pending report");

    server.report_delivery_result(ready.token, ReportDeliveryResult::Sent, 1_000);

    let mut writer = ReportPayloadWriter::new(&mut buf);
    assert!(
        server
            .collect_reports(1_000, &mut writer)
            .unwrap()
            .is_none()
    );
}

// --- dispatch ---

#[test]
fn dispatch_move_to_level_command() {
    let req: &[u8] = &[
        0x01, 0x01, 0x00, // cluster-specific, seq=1, cmd=MoveToLevel
        150, 20, 0x00, // level=150, transition=20 tenths = 2000 ms
    ];
    let (frame, _) = IncomingZclFrame::decode(req).unwrap();
    let mut buf = [0u8; 32];
    let mut server = LevelControlServer::new(Some(0));
    let n = zcl_cluster_dispatch(&mut server, &frame, unicast(), &mut buf)
        .unwrap()
        .response_len;

    assert_eq!(n, 5);
    assert_eq!(buf[4], Status::Success.as_u8());
    assert!(server.moving);
    assert_eq!(read_remaining(&server), 20); // 20 tenths set at transition start
}

// --- levels for the hardware ---

#[test]
fn level_not_yet_taken_survives_a_timed_move() {
    let mut server = LevelControlServer::new(Some(0));
    assert_eq!(server.take_pending_level(), None);
    let _ = server.handle_command(CommandId(0x00), &[100, 0, 0], unicast_at(0), &mut []);
    let _ = server.handle_command(CommandId(0x00), &[200, 10, 0], unicast_at(0), &mut []);
    assert_eq!(server.take_pending_level(), Some(100));
    assert_eq!(server.take_pending_level(), None);
}

#[test]
fn move_to_the_held_level_hands_out_nothing() {
    let mut server = LevelControlServer::new(Some(100));
    let _ = server.handle_command(CommandId(0x00), &[100, 0, 0], unicast(), &mut []);
    assert_eq!(server.take_pending_level(), None);
    let _ = server.handle_command(CommandId(0x03), &[], unicast(), &mut []);
    assert_eq!(server.take_pending_level(), None);
}

#[test]
fn stop_hands_out_the_level_reached() {
    let mut server = LevelControlServer::new(Some(0));
    let _ = server.handle_command(CommandId(0x00), &[100, 10, 0], unicast_at(0), &mut []);
    let _ = server.handle_command(CommandId(0x03), &[], unicast_at(500), &mut []);
    assert_eq!(server.take_pending_level(), Some(50));
    assert_eq!(server.take_pending_level(), None);
}

#[test]
fn restored_level_is_handed_out_if_it_differs() {
    let mut saved = [0u8; 8];
    let n = LevelControlServer::new(Some(77)).snapshot(&mut saved);

    let mut server = LevelControlServer::new(Some(0));
    server.restore_snapshot(&saved[..n]);
    assert_eq!(server.current_level, Some(77));
    assert_eq!(server.take_pending_level(), Some(77));

    server.restore_snapshot(&saved[..n]);
    assert_eq!(server.take_pending_level(), None);
}

#[test]
fn crossed_limits_are_taken_as_they_are() {
    let mut server = LevelControlServer::new(Some(100));
    server.set_min_level(200);
    server.set_max_level(50);
    assert_eq!((server.min_level(), server.max_level()), (200, 50));
    assert!(
        server
            .handle_command(CommandId(0x01), &[0x00, 10], unicast_at(0), &mut [])
            .is_ok()
    );
    assert!(
        server
            .handle_command(CommandId(0x02), &[0x01, 5, 0, 0], unicast_at(0), &mut [])
            .is_ok()
    );
    server.tick(60_000);
    assert!(!server.moving);
}
