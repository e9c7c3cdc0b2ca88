use zigbee_cluster_library::cluster_server::ClusterServer;
use zigbee_cluster_library::common::scenes::SceneEntry;
use zigbee_cluster_library::common::scenes::ScenesServer;
use zigbee_cluster_library::context::CommandResult;
use zigbee_cluster_library::context::DispatchContext;
use zigbee_cluster_library::dispatch::zcl_cluster_dispatch;
use zigbee_cluster_library::frame::IncomingZclFrame;
use zigbee_cluster_library::frame::Status;
use zigbee_cluster_library::types::error::AttrError;
use zigbee_cluster_library::types::ids::AttributeId;
use zigbee_cluster_library::types::ids::CommandId;
use zigbee_cluster_library::types::ids::TypeId;

fn unicast() -> DispatchContext {
    DispatchContext::unicast(0, None)
}

type Server = ScenesServer<4, 64>;

fn add_scene(server: &mut Server, group_id: u16, scene_id: u8, tt: u16, name: &[u8]) {
    let mut buf = [0u8; 32];
    let gb = group_id.to_le_bytes();
    let tb = tt.to_le_bytes();
    let mut payload = [0u8; 32];
    payload[0] = gb[0];
    payload[1] = gb[1];
    payload[2] = scene_id;
    payload[3] = tb[0];
    payload[4] = tb[1];
    payload[5] = u8::try_from(name.len()).unwrap_or(u8::MAX);
    payload[6..6 + name.len()].copy_from_slice(name);
    server
        .handle_command(
            CommandId::new(0x00),
            &payload[..6 + name.len()],
            unicast(),
            &mut buf,
        )
        .unwrap();
}

fn add_scene_with_extension(
    server: &mut Server,
    group_id: u16,
    scene_id: u8,
    tt: u16,
    name: &[u8],
    extension_bytes: &[u8],
) {
    let mut buf = [0u8; 32];
    let gb = group_id.to_le_bytes();
    let tb = tt.to_le_bytes();
    let mut payload = [0u8; 64];
    payload[0] = gb[0];
    payload[1] = gb[1];
    payload[2] = scene_id;
    payload[3] = tb[0];
    payload[4] = tb[1];
    payload[5] = u8::try_from(name.len()).unwrap_or(u8::MAX);
    payload[6..6 + name.len()].copy_from_slice(name);
    let extension_start = 6 + name.len();
    payload[extension_start..extension_start + extension_bytes.len()]
        .copy_from_slice(extension_bytes);
    server
        .handle_command(
            CommandId::new(0x00),
            &payload[..extension_start + extension_bytes.len()],
            unicast(),
            &mut buf,
        )
        .unwrap();
}

// ---- attribute tests ----

#[test]
fn scene_count_reads_as_uint8() {
    let server = Server::default();
    let mut buf = [0u8; 4];
    let (tid, n) = server
        .read_attribute(AttributeId::new(0x0000), &mut buf)
        .unwrap();
    assert_eq!(tid, TypeId::Uint8);
    assert_eq!(n, 1);
    assert_eq!(buf[0], 0);
}

#[test]
fn scene_valid_reads_as_boolean() {
    let server = Server::default();
    let mut buf = [0u8; 4];
    let (tid, n) = server
        .read_attribute(AttributeId::new(0x0003), &mut buf)
        .unwrap();
    assert_eq!(tid, TypeId::Boolean);
    assert_eq!(n, 1);
    assert_eq!(buf[0], 0x00); // false
}

#[test]
fn scenes_all_mandatory_attributes_readable() {
    let server = Server::default();
    for attr in [0x0000u16, 0x0001, 0x0002, 0x0003, 0x0004, 0xFFFD] {
        let mut buf = [0u8; 4];
        assert!(
            server
                .read_attribute(AttributeId::new(attr), &mut buf)
                .is_ok(),
            "attr 0x{attr:04X} not readable"
        );
    }
}

#[test]
fn scenes_write_attribute_returns_read_only() {
    let mut server = Server::default();
    for attr in [0x0000u16, 0x0001, 0x0002, 0x0003, 0x0004, 0xFFFD] {
        assert_eq!(
            server.write_attribute(AttributeId::new(attr), TypeId::Uint8, &[0x00]),
            Err(AttrError::ReadOnly)
        );
    }
}

#[test]
fn attribute_list_has_cluster_revision_entry() {
    assert_eq!(Server::attribute_list().len(), 6);
    assert_eq!(Server::attribute_list()[5].id, AttributeId::new(0xFFFD));
}

#[test]
fn cluster_revision_reads_as_uint16_one() {
    let server = Server::default();
    let mut buf = [0u8; 4];
    let (tid, n) = server
        .read_attribute(AttributeId::new(0xFFFD), &mut buf)
        .unwrap();
    assert_eq!(tid, TypeId::Uint16);
    assert_eq!(n, 2);
    assert_eq!(u16::from_le_bytes([buf[0], buf[1]]), 1);
}

// ---- AddScene (0x00) ----

#[test]
fn add_scene_success() {
    let mut server = Server::default();
    let mut buf = [0u8; 16];
    // group=0x0001, scene=0x01, tt=10, name="Foo"
    let payload: &[u8] = &[0x01, 0x00, 0x01, 0x0A, 0x00, 0x03, b'F', b'o', b'o'];
    let result = server
        .handle_command(CommandId::new(0x00), payload, unicast(), &mut buf)
        .unwrap();
    assert!(
        matches!(result, CommandResult::Payload { command_id, len: 4 } if command_id == CommandId::new(0x00))
    );
    assert_eq!(buf[0], Status::Success.as_u8());
    assert_eq!(u16::from_le_bytes([buf[1], buf[2]]), 0x0001);
    assert_eq!(buf[3], 0x01);
    assert_eq!(server.scene_count(), 1);
}

#[test]
fn add_scene_updates_existing_entry() {
    let mut server = Server::default();
    add_scene(&mut server, 0x0001, 0x01, 5, b"Old");
    add_scene(&mut server, 0x0001, 0x01, 10, b"New");
    assert_eq!(server.scene_count(), 1); // no duplicate
    assert_eq!(server.scenes()[0].transition_time, 10);
}

#[test]
fn add_scene_table_full_returns_insufficient_space() {
    let mut server = Server::default();
    for i in 0u8..4 {
        add_scene(&mut server, 0x0001, i, 0, b"");
    }
    let mut buf = [0u8; 16];
    let payload: &[u8] = &[0x01, 0x00, 0x04, 0x00, 0x00, 0x00];
    let result = server
        .handle_command(CommandId::new(0x00), payload, unicast(), &mut buf)
        .unwrap();
    assert_eq!(buf[0], Status::InsufficientSpace.as_u8());
    assert!(matches!(result, CommandResult::Payload { .. }));
}

#[test]
fn add_scene_rejects_names_longer_than_sixteen_bytes() {
    let mut server = Server::default();
    let mut buf = [0u8; 16];
    let name = *b"0123456789abcdefg";
    let mut payload = [0u8; 32];
    payload[0] = 0x01;
    payload[2] = 0x02;
    payload[5] = u8::try_from(name.len()).unwrap_or(u8::MAX);
    payload[6..6 + name.len()].copy_from_slice(&name);
    let result = server
        .handle_command(
            CommandId::new(0x00),
            &payload[..6 + name.len()],
            unicast(),
            &mut buf,
        )
        .unwrap();
    assert!(
        matches!(result, CommandResult::Payload { command_id, len: 4 } if command_id == CommandId::new(0x00))
    );
    assert_eq!(buf[0], Status::InvalidField.as_u8());
    assert_eq!(server.scene_count(), 0);
}

// ---- ViewScene (0x01) ----

#[test]
fn view_scene_found_returns_entry() {
    let mut server = Server::default();
    add_scene(&mut server, 0x0002, 0x03, 15, b"Day");
    let mut buf = [0u8; 32];
    let payload: &[u8] = &[0x02, 0x00, 0x03];
    let result = server
        .handle_command(CommandId::new(0x01), payload, unicast(), &mut buf)
        .unwrap();
    assert!(
        matches!(result, CommandResult::Payload { command_id, len: 10 } if command_id == CommandId::new(0x01))
    );
    assert_eq!(buf[0], Status::Success.as_u8());
    assert_eq!(buf[3], 0x03); // scene_id
    assert_eq!(u16::from_le_bytes([buf[4], buf[5]]), 15); // transition_time
    assert_eq!(buf[6], 3); // name_len
    assert_eq!(&buf[7..10], b"Day");
    assert_eq!(server.scenes()[0].extension_bytes(), b"");
}

#[test]
fn add_and_view_scene_round_trips_extension_field_sets() {
    let mut server = Server::default();
    let extension_bytes = [0x06, 0x00, 0x03, 0x00, 0x00, 0x10, 0x01];
    add_scene_with_extension(&mut server, 0x0002, 0x04, 15, b"Day", &extension_bytes);

    assert_eq!(server.scenes()[0].extension_bytes(), &extension_bytes);

    let mut buf = [0u8; 32];
    let result = server
        .handle_command(
            CommandId::new(0x01),
            &[0x02, 0x00, 0x04],
            unicast(),
            &mut buf,
        )
        .unwrap();
    assert!(
        matches!(result, CommandResult::Payload { command_id, len: 17 } if command_id == CommandId::new(0x01))
    );
    assert_eq!(&buf[7..10], b"Day");
    assert_eq!(&buf[10..17], &extension_bytes);
}

#[test]
fn view_scene_not_found() {
    let mut server = Server::default();
    let mut buf = [0u8; 16];
    let result = server
        .handle_command(
            CommandId::new(0x01),
            &[0x01, 0x00, 0x99],
            unicast(),
            &mut buf,
        )
        .unwrap();
    assert!(
        matches!(result, CommandResult::Payload { command_id, len: 7 } if command_id == CommandId::new(0x01))
    );
    assert_eq!(buf[0], Status::NotFound.as_u8());
}

// ---- RemoveScene (0x02) ----

#[test]
fn remove_scene_found() {
    let mut server = Server::default();
    add_scene(&mut server, 0x0001, 0x01, 0, b"");
    let mut buf = [0u8; 8];
    let result = server
        .handle_command(
            CommandId::new(0x02),
            &[0x01, 0x00, 0x01],
            unicast(),
            &mut buf,
        )
        .unwrap();
    assert!(
        matches!(result, CommandResult::Payload { command_id, len: 4 } if command_id == CommandId::new(0x02))
    );
    assert_eq!(buf[0], Status::Success.as_u8());
    assert_eq!(server.scene_count(), 0);
}

#[test]
fn remove_scene_not_found() {
    let mut server = Server::default();
    let mut buf = [0u8; 8];
    let result = server
        .handle_command(
            CommandId::new(0x02),
            &[0x01, 0x00, 0x42],
            unicast(),
            &mut buf,
        )
        .unwrap();
    assert_eq!(buf[0], Status::NotFound.as_u8());
    assert!(matches!(result, CommandResult::Payload { .. }));
}

#[test]
fn remove_current_scene_invalidates_scene_valid() {
    let mut server = Server::default();
    add_scene(&mut server, 0x0001, 0x01, 0, b"");
    // recall it to set current
    server
        .handle_command(
            CommandId::new(0x05),
            &[0x01, 0x00, 0x01],
            unicast(),
            &mut [0u8; 8],
        )
        .unwrap();
    assert!(server.scene_valid);
    server
        .handle_command(
            CommandId::new(0x02),
            &[0x01, 0x00, 0x01],
            unicast(),
            &mut [0u8; 8],
        )
        .unwrap();
    assert!(!server.scene_valid);
}

// ---- RemoveAllScenes (0x03) ----

#[test]
fn remove_all_scenes_for_group() {
    let mut server = Server::default();
    add_scene(&mut server, 0x0001, 0x01, 0, b"");
    add_scene(&mut server, 0x0001, 0x02, 0, b"");
    add_scene(&mut server, 0x0002, 0x01, 0, b""); // different group
    let mut buf = [0u8; 8];
    let result = server
        .handle_command(CommandId::new(0x03), &[0x01, 0x00], unicast(), &mut buf)
        .unwrap();
    assert!(
        matches!(result, CommandResult::Payload { command_id, len: 3 } if command_id == CommandId::new(0x03))
    );
    assert_eq!(buf[0], Status::Success.as_u8());
    // group 0x0001 scenes removed; group 0x0002 scene remains
    assert_eq!(server.scene_count(), 1);
}

// ---- StoreScene (0x04) ----

#[test]
fn store_scene_creates_entry_and_marks_valid() {
    let mut server = Server::default();
    let mut buf = [0u8; 8];
    let result = server
        .handle_command(
            CommandId::new(0x04),
            &[0x01, 0x00, 0x02],
            unicast(),
            &mut buf,
        )
        .unwrap();
    assert!(
        matches!(result, CommandResult::Payload { command_id, .. } if command_id == CommandId::new(0x04))
    );
    assert_eq!(buf[0], Status::Success.as_u8());
    assert_eq!(server.current_scene, 0x02);
    assert_eq!(server.current_group, 0x0001);
    assert!(server.scene_valid);
}

// ---- RecallScene (0x05) ----

#[test]
fn recall_scene_found_sets_current_and_marks_recalled() {
    let mut server = Server::default();
    add_scene(&mut server, 0x0003, 0x05, 10, b"Night");
    let result = server
        .handle_command(
            CommandId::new(0x05),
            &[0x03, 0x00, 0x05],
            unicast(),
            &mut [0u8; 4],
        )
        .unwrap();
    assert!(matches!(
        result,
        CommandResult::DefaultResponse(Status::Success)
    ));
    assert_eq!(server.current_scene, 0x05);
    assert_eq!(server.current_group, 0x0003);
    assert!(server.scene_valid);
    assert_eq!(server.last_recalled_scene(), Some((0x0003, 0x05)));
}

#[test]
fn recall_scene_exposes_extension_field_sets() {
    let mut server = Server::default();
    let extension_bytes = [0x08, 0x00, 0x02, 0x00, 0x01, 0x20];
    add_scene_with_extension(&mut server, 0x0003, 0x06, 10, b"Night", &extension_bytes);

    server
        .handle_command(
            CommandId::new(0x05),
            &[0x03, 0x00, 0x06],
            unicast(),
            &mut [0u8; 4],
        )
        .unwrap();

    assert_eq!(server.last_recalled_scene(), Some((0x0003, 0x06)));
    assert_eq!(
        server
            .last_recalled_entry()
            .map(SceneEntry::extension_bytes),
        Some(&extension_bytes[..])
    );
    assert_eq!(
        server.last_recalled_extension_bytes(),
        Some(&extension_bytes[..])
    );
}

#[test]
fn recall_scene_not_found_returns_not_found() {
    let mut server = Server::default();
    let result = server
        .handle_command(
            CommandId::new(0x05),
            &[0x01, 0x00, 0x99],
            unicast(),
            &mut [0u8; 4],
        )
        .unwrap();
    assert!(matches!(
        result,
        CommandResult::DefaultResponse(Status::NotFound)
    ));
    assert!(!server.scene_valid);
}

#[test]
fn consume_recall_clears_last_recalled() {
    let mut server = Server::default();
    add_scene(&mut server, 0x0001, 0x01, 0, b"");
    server
        .handle_command(
            CommandId::new(0x05),
            &[0x01, 0x00, 0x01],
            unicast(),
            &mut [0u8; 4],
        )
        .unwrap();
    assert!(server.last_recalled_scene().is_some());
    server.consume_recall();
    assert!(server.last_recalled_scene().is_none());
}

// ---- GetSceneMembership (0x06) ----

#[test]
fn get_scene_membership_returns_scenes_for_group() {
    let mut server = Server::default();
    add_scene(&mut server, 0x0001, 0x01, 0, b"");
    add_scene(&mut server, 0x0001, 0x02, 0, b"");
    add_scene(&mut server, 0x0002, 0x01, 0, b""); // different group
    let mut buf = [0u8; 16];
    let result = server
        .handle_command(CommandId::new(0x06), &[0x01, 0x00], unicast(), &mut buf)
        .unwrap();
    assert!(
        matches!(result, CommandResult::Payload { command_id, len: 7 } if command_id == CommandId::new(0x06))
    );
    assert_eq!(buf[0], Status::Success.as_u8());
    assert_eq!(buf[1], 1); // capacity = 4-3=1
    assert_eq!(u16::from_le_bytes([buf[2], buf[3]]), 0x0001);
    assert_eq!(buf[4], 2); // count
}

#[test]
fn get_scene_membership_empty_group_returns_zero_count() {
    let mut server = Server::default();
    let mut buf = [0u8; 16];
    let result = server
        .handle_command(CommandId::new(0x06), &[0x99, 0x00], unicast(), &mut buf)
        .unwrap();
    assert!(
        matches!(result, CommandResult::Payload { command_id, len: 5 } if command_id == CommandId::new(0x06))
    );
    assert_eq!(buf[4], 0); // no scenes
}

// ---- dispatch integration ----

#[test]
fn dispatch_read_scene_count() {
    let mut server = Server::default();
    add_scene(&mut server, 0x0001, 0x01, 0, b"");
    let mut buf = [0u8; 32];
    let req: &[u8] = &[0x00, 0x01, 0x00, 0x00, 0x00];
    let (frame, _) = IncomingZclFrame::decode(req).unwrap();
    let n = zcl_cluster_dispatch(&mut server, &frame, unicast(), &mut buf)
        .unwrap()
        .response_len;
    assert_eq!(n, 8);
    assert_eq!(buf[5], 0x00); // Success
    assert_eq!(buf[6], TypeId::Uint8.as_u8());
    assert_eq!(buf[7], 1);
}

#[test]
fn scenes_unknown_command_returns_unsup_command() {
    let mut server = Server::default();
    let mut buf = [0u8; 8];
    let result = server
        .handle_command(CommandId::new(0xFF), &[], unicast(), &mut buf)
        .unwrap();
    assert!(matches!(
        result,
        CommandResult::DefaultResponse(Status::UnsupCommand)
    ));
}

// ---- the table ----

#[test]
fn listed_scenes_carry_their_names() {
    let mut server = Server::default();
    add_scene_with_extension(&mut server, 0x0001, 5, 10, b"Noon", &[0x06, 0x00, 1, 1]);
    assert_eq!(server.scenes().len(), 1);
    assert_eq!(server.scenes()[0].name_bytes(), b"Noon");
}

#[test]
fn scene_names_are_padded_with_zeros() {
    let mut server = Server::default();
    add_scene_with_extension(&mut server, 0x0001, 5, 10, b"Noon", &[]);
    assert_eq!(server.scenes()[0].name, *b"Noon\0\0\0\0\0\0\0\0\0\0\0\0");
}

// ---- the buffer ----

#[test]
fn scene_reply_leaves_the_bytes_behind_it() {
    let mut server = Server::default();
    add_scene_with_extension(&mut server, 0x0001, 5, 10, b"Hi", &[]);
    let mut buf = [0xA5u8; 12];
    server
        .handle_command(CommandId::new(0x01), &[0x01, 0x00, 5], unicast(), &mut buf)
        .unwrap();
    assert_eq!(buf, [0, 0x01, 0x00, 5, 10, 0, 2, b'H', b'i', 0xA5, 0xA5, 0xA5]);
    let mut buf = [0xA5u8; 4];
    server
        .handle_command(CommandId::new(0x05), &[0x01, 0x00, 5], unicast(), &mut buf)
        .unwrap();
    assert_eq!(buf, [0xA5u8; 4]);
}

#[test]
fn scene_membership_without_room_lists_what_fits() {
    let mut server = Server::default();
    for id in 1..=3u8 {
        add_scene_with_extension(&mut server, 0x0001, id, 0, b"", &[]);
    }
    let mut buf = [0xA5u8; 7];
    assert!(
        server
            .handle_command(CommandId::new(0x06), &[0x01, 0x00], unicast(), &mut buf)
            .is_err()
    );
    assert_eq!(buf, [0xA5, 0xA5, 0xA5, 0xA5, 0xA5, 1, 2]);
}
