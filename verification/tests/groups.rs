use zigbee_cluster_library::cluster_server::ClusterServer;
use zigbee_cluster_library::common::groups::GroupsServer;
use zigbee_cluster_library::context::CommandResult;
use zigbee_cluster_library::context::DispatchContext;
use zigbee_cluster_library::context::GroupEffect;
use zigbee_cluster_library::dispatch::zcl_cluster_dispatch;
use zigbee_cluster_library::frame::IncomingZclFrame;
use zigbee_cluster_library::frame::Status;
use zigbee_cluster_library::types::error::AttrError;
use zigbee_cluster_library::types::error::ZclError;
use zigbee_cluster_library::types::ids::AttributeId;
use zigbee_cluster_library::types::ids::CommandId;
use zigbee_cluster_library::types::ids::TypeId;

fn unicast() -> DispatchContext {
    DispatchContext::unicast(0, None)
}

fn broadcast() -> DispatchContext {
    DispatchContext::broadcast(0)
}

type Server = GroupsServer<4>;

// ---- attribute tests ----

#[test]
fn name_support_reads_as_bitmap8() {
    let server = Server::new(0x80);
    let mut buf = [0u8; 4];
    let (tid, n) = server
        .read_attribute(AttributeId::new(0x0000), &mut buf)
        .unwrap();
    assert_eq!(tid, TypeId::Bitmap8);
    assert_eq!(n, 1);
    assert_eq!(buf[0], 0x80);
}

#[test]
fn groups_unknown_attribute_returns_unsupported() {
    let server = Server::default();
    let mut buf = [0u8; 4];
    assert_eq!(
        server.read_attribute(AttributeId::new(0x0001), &mut buf),
        Err(AttrError::UnsupportedAttribute)
    );
}

#[test]
fn groups_write_attribute_returns_read_only() {
    let mut server = Server::default();
    assert_eq!(
        server.write_attribute(AttributeId::new(0x0000), TypeId::Bitmap8, &[0x00]),
        Err(AttrError::ReadOnly)
    );
}

#[test]
fn groups_cluster_revision_reads_rev8_value_and_is_read_only() {
    let mut server = Server::default();
    let mut buf = [0u8; 4];
    let (tid, n) = server
        .read_attribute(AttributeId::new(0xFFFD), &mut buf)
        .unwrap();
    assert_eq!(tid, TypeId::Uint16);
    assert_eq!(n, 2);
    assert_eq!(u16::from_le_bytes([buf[0], buf[1]]), 3);
    assert_eq!(
        server.write_attribute(AttributeId::new(0xFFFD), TypeId::Uint16, &[3, 0]),
        Err(AttrError::ReadOnly)
    );
}

#[test]
fn groups_attribute_list_has_two_entries() {
    assert_eq!(Server::attribute_list().len(), 2);
}

#[test]
fn attribute_list_places_cluster_revision_after_name_support() {
    let attrs = Server::attribute_list();
    assert_eq!(attrs[0].id, AttributeId::new(0x0000));
    assert_eq!(attrs[1].id, AttributeId::new(0xFFFD));
}

// ---- membership helpers ----

#[test]
fn new_server_has_no_members() {
    let server = Server::default();
    assert!(!server.is_member(0x0001));
    assert_eq!(server.group_count(), 0);
    assert_eq!(server.capacity_remaining(), 4);
}

#[test]
fn new_always_advertises_name_support() {
    let server = Server::new(0x00);
    assert_eq!(server.name_support, 0x80);
}

// ---- AddGroup (0x00) ----

#[test]
fn add_group_success() {
    let mut server = Server::default();
    let mut buf = [0u8; 16];
    // payload: group_id=0x0001 LE + name_len=3 + "Foo"
    let payload: &[u8] = &[0x01, 0x00, 0x03, b'F', b'o', b'o'];
    let result = server
        .handle_command(CommandId::new(0x00), payload, unicast(), &mut buf)
        .unwrap();
    assert!(
        matches!(result, CommandResult::Payload { command_id, len: 3 } if command_id == CommandId::new(0x00))
    );
    assert_eq!(buf[0], Status::Success.as_u8());
    assert_eq!(u16::from_le_bytes([buf[1], buf[2]]), 0x0001);
    assert!(server.is_member(0x0001));
}

#[test]
fn add_group_duplicate_returns_duplicate_exists() {
    let mut server = Server::default();
    let payload: &[u8] = &[0x01, 0x00, 0x00];
    server
        .handle_command(CommandId::new(0x00), payload, unicast(), &mut [0u8; 8])
        .unwrap();
    let mut buf = [0u8; 8];
    let result = server
        .handle_command(CommandId::new(0x00), payload, unicast(), &mut buf)
        .unwrap();
    assert!(matches!(result, CommandResult::Payload { .. }));
    assert_eq!(buf[0], Status::Success.as_u8());
}

#[test]
fn add_group_zero_id_returns_invalid_field() {
    let mut server = Server::default();
    let payload: &[u8] = &[0x00, 0x00, 0x00];
    let mut buf = [0u8; 8];
    let result = server
        .handle_command(CommandId::new(0x00), payload, unicast(), &mut buf)
        .unwrap();
    assert_eq!(buf[0], Status::InvalidField.as_u8());
    assert!(matches!(result, CommandResult::Payload { .. }));
}

#[test]
fn add_group_rejects_name_longer_than_sixteen_bytes() {
    let mut server = Server::default();
    let payload: &[u8] = b"\x01\x00\x11abcdefghijklmnopq";
    let mut buf = [0u8; 8];
    let result = server
        .handle_command(CommandId::new(0x00), payload, unicast(), &mut buf)
        .unwrap();
    assert!(matches!(result, CommandResult::Payload { .. }));
    assert_eq!(buf[0], Status::InvalidField.as_u8());
    assert!(!server.is_member(0x0001));
}

#[test]
fn add_group_table_full_returns_insufficient_space() {
    let mut server = Server::default();
    let mut buf = [0u8; 8];
    for i in 1u16..=4 {
        let b = i.to_le_bytes();
        let payload = [b[0], b[1], 0x00];
        server
            .handle_command(CommandId::new(0x00), &payload, unicast(), &mut buf)
            .unwrap();
    }
    let payload: &[u8] = &[0x05, 0x00, 0x00];
    let result = server
        .handle_command(CommandId::new(0x00), payload, unicast(), &mut buf)
        .unwrap();
    assert_eq!(buf[0], Status::InsufficientSpace.as_u8());
    assert!(matches!(result, CommandResult::Payload { .. }));
}

// ---- ViewGroup (0x01) ----

#[test]
fn view_group_found_returns_success_with_name() {
    let mut server = Server::default();
    let add_payload: &[u8] = &[0x02, 0x00, 0x03, b'B', b'a', b'r'];
    server
        .handle_command(CommandId::new(0x00), add_payload, unicast(), &mut [0u8; 8])
        .unwrap();

    let view_payload: &[u8] = &[0x02, 0x00];
    let mut buf = [0u8; 16];
    let result = server
        .handle_command(CommandId::new(0x01), view_payload, unicast(), &mut buf)
        .unwrap();
    assert!(
        matches!(result, CommandResult::Payload { command_id, len: 7 } if command_id == CommandId::new(0x01))
    );
    assert_eq!(buf[0], Status::Success.as_u8());
    assert_eq!(u16::from_le_bytes([buf[1], buf[2]]), 0x0002);
    assert_eq!(buf[3], 3); // name_len
    assert_eq!(&buf[4..7], b"Bar");
}

#[test]
fn view_group_not_found_returns_not_found() {
    let mut server = Server::default();
    let payload: &[u8] = &[0x99, 0x00];
    let mut buf = [0u8; 8];
    let result = server
        .handle_command(CommandId::new(0x01), payload, unicast(), &mut buf)
        .unwrap();
    assert!(
        matches!(result, CommandResult::Payload { command_id, len: 4 } if command_id == CommandId::new(0x01))
    );
    assert_eq!(buf[0], Status::NotFound.as_u8());
    assert_eq!(u16::from_le_bytes([buf[1], buf[2]]), 0x0099);
    assert_eq!(buf[3], 0); // empty name
}

// ---- GetGroupMembership (0x02) ----

#[test]
fn get_group_membership_count_zero_returns_all() {
    let mut server = Server::default();
    let mut buf = [0u8; 16];
    for i in [0x0001u16, 0x0002, 0x0003] {
        let b = i.to_le_bytes();
        server
            .handle_command(
                CommandId::new(0x00),
                &[b[0], b[1], 0x00],
                unicast(),
                &mut buf,
            )
            .unwrap();
    }
    let payload: &[u8] = &[0x00]; // count=0 → all
    let result = server
        .handle_command(CommandId::new(0x02), payload, unicast(), &mut buf)
        .unwrap();
    assert!(
        matches!(result, CommandResult::Payload { command_id, len: 8 } if command_id == CommandId::new(0x02))
    );
    assert_eq!(buf[0], 1); // capacity=4-3=1
    assert_eq!(buf[1], 3); // out_count
}

#[test]
fn get_group_membership_filters_present_ids() {
    let mut server = Server::default();
    let mut buf = [0u8; 16];
    server
        .handle_command(
            CommandId::new(0x00),
            &[0x01, 0x00, 0x00],
            unicast(),
            &mut buf,
        )
        .unwrap();

    // Request [0x0001, 0x0002] — only 0x0001 is present
    let payload: &[u8] = &[0x02, 0x01, 0x00, 0x02, 0x00];
    let result = server
        .handle_command(CommandId::new(0x02), payload, unicast(), &mut buf)
        .unwrap();
    assert!(
        matches!(result, CommandResult::Payload { command_id, len: 4 } if command_id == CommandId::new(0x02))
    );
    assert_eq!(buf[1], 1); // out_count=1
    assert_eq!(u16::from_le_bytes([buf[2], buf[3]]), 0x0001);
}

#[test]
fn get_group_membership_rejects_truncated_requested_ids() {
    let mut server = Server::default();
    let mut buf = [0u8; 16];
    assert!(matches!(
        server.handle_command(
            CommandId::new(0x02),
            &[0x02, 0x01, 0x00],
            unicast(),
            &mut buf
        ),
        Err(ZclError::InsufficientBytes)
    ));
}

// ---- RemoveGroup (0x03) ----

#[test]
fn remove_group_found_returns_success() {
    let mut server = Server::default();
    let mut buf = [0u8; 8];
    server
        .handle_command(
            CommandId::new(0x00),
            &[0x05, 0x00, 0x00],
            unicast(),
            &mut buf,
        )
        .unwrap();
    assert!(server.is_member(0x0005));

    let result = server
        .handle_command(CommandId::new(0x03), &[0x05, 0x00], unicast(), &mut buf)
        .unwrap();
    assert!(
        matches!(result, CommandResult::Payload { command_id, len: 3 } if command_id == CommandId::new(0x03))
    );
    assert_eq!(buf[0], Status::Success.as_u8());
    assert!(!server.is_member(0x0005));
}

#[test]
fn remove_group_not_found_returns_not_found() {
    let mut server = Server::default();
    let mut buf = [0u8; 8];
    let result = server
        .handle_command(CommandId::new(0x03), &[0x42, 0x00], unicast(), &mut buf)
        .unwrap();
    assert_eq!(buf[0], Status::NotFound.as_u8());
    assert!(matches!(result, CommandResult::Payload { .. }));
}

// ---- RemoveAllGroups (0x04) ----

#[test]
fn remove_all_groups_clears_table() {
    let mut server = Server::default();
    let mut buf = [0u8; 8];
    server
        .handle_command(
            CommandId::new(0x00),
            &[0x01, 0x00, 0x00],
            unicast(),
            &mut buf,
        )
        .unwrap();
    server
        .handle_command(
            CommandId::new(0x00),
            &[0x02, 0x00, 0x00],
            unicast(),
            &mut buf,
        )
        .unwrap();
    assert_eq!(server.group_count(), 2);

    let result = server
        .handle_command(CommandId::new(0x04), &[], unicast(), &mut buf)
        .unwrap();
    assert!(matches!(
        result,
        CommandResult::DefaultResponse(Status::Success)
    ));
    assert_eq!(server.group_count(), 0);
}

#[test]
fn remove_all_groups_broadcast_suppresses_response() {
    let mut server = Server::default();
    let mut buf = [0u8; 64];
    // ZCL header: frame control (0x01=cluster-specific), seq(1), cmd(0x04)
    let req: &[u8] = &[0x01, 0x00, 0x04];
    let (frame, _) = IncomingZclFrame::decode(req).unwrap();
    let n = zcl_cluster_dispatch(&mut server, &frame, broadcast(), &mut buf)
        .unwrap()
        .response_len;
    assert_eq!(n, 0); // broadcast → suppress DefaultResponse
}

// ---- AddGroupIfIdentifying (0x05) ----

#[test]
fn add_group_if_identifying_while_identifying_adds_group() {
    let mut server = Server::default();
    server.identifying = true;
    let mut buf = [0u8; 8];
    let result = server
        .handle_command(
            CommandId::new(0x05),
            &[0x07, 0x00, 0x00],
            unicast(),
            &mut buf,
        )
        .unwrap();
    assert!(matches!(
        result,
        CommandResult::DefaultResponse(Status::Success)
    ));
    assert!(server.is_member(0x0007));
}

#[test]
fn add_group_if_identifying_while_not_identifying_skips_add() {
    let mut server = Server::default();
    let mut buf = [0u8; 8];
    let result = server
        .handle_command(
            CommandId::new(0x05),
            &[0x07, 0x00, 0x00],
            unicast(),
            &mut buf,
        )
        .unwrap();
    assert!(matches!(
        result,
        CommandResult::DefaultResponse(Status::Success)
    ));
    assert!(!server.is_member(0x0007));
}

// ---- dispatch integration ----

#[test]
fn dispatch_read_name_support() {
    let mut server = Server::new(0x80);
    let mut buf = [0u8; 32];
    // ZCL ReadAttributes: frame_ctrl=0x00, seq=1, cmd=0x00, attr_id=0x0000
    let req: &[u8] = &[0x00, 0x01, 0x00, 0x00, 0x00];
    let (frame, _) = IncomingZclFrame::decode(req).unwrap();
    let n = zcl_cluster_dispatch(&mut server, &frame, unicast(), &mut buf)
        .unwrap()
        .response_len;
    // header(3) + attr_id(2) + status(1) + type_id(1) + value(1) = 8
    assert_eq!(n, 8);
    assert_eq!(buf[5], 0x00); // Success
    assert_eq!(buf[6], TypeId::Bitmap8.as_u8());
    assert_eq!(buf[7], 0x80);
}

#[test]
fn dispatch_add_group_returns_payload_response() {
    let mut server = Server::default();
    let mut buf = [0u8; 32];
    // ZCL cluster-specific: frame_ctrl=0x01, seq=1, cmd=0x00, payload=[gid=0x0001,
    // name_len=0]
    let req: &[u8] = &[0x01, 0x02, 0x00, 0x01, 0x00, 0x00];
    let (frame, _) = IncomingZclFrame::decode(req).unwrap();
    let n = zcl_cluster_dispatch(&mut server, &frame, unicast(), &mut buf)
        .unwrap()
        .response_len;
    assert!(n >= 3 + 3); // hdr(3) + status(1) + gid(2)
    assert_eq!(buf[3], Status::Success.as_u8());
    assert_eq!(u16::from_le_bytes([buf[4], buf[5]]), 0x0001);
}

#[test]
fn groups_unknown_command_returns_unsup_command() {
    let mut server = Server::default();
    let mut buf = [0u8; 16];
    let result = server
        .handle_command(CommandId::new(0xFF), &[], unicast(), &mut buf)
        .unwrap();
    assert!(matches!(
        result,
        CommandResult::DefaultResponse(Status::UnsupCommand)
    ));
}

// --- GroupEffect / take_dispatch_effects ---

#[test]
fn add_group_emits_added_effect() {
    let mut server = Server::default();
    let mut buf = [0u8; 32];
    let req: &[u8] = &[0x01, 0x01, 0x00, 0x01, 0x00, 0x00];
    let (frame, _) = IncomingZclFrame::decode(req).unwrap();
    let outcome = zcl_cluster_dispatch(&mut server, &frame, unicast(), &mut buf).unwrap();
    assert_eq!(outcome.effects.group, GroupEffect::Added(0x0001));
}

#[test]
fn add_group_duplicate_still_emits_added_effect() {
    // AddGroup returns Success even for duplicates; BDB deduplicates before
    // touching AIB.
    let mut server = Server::default();
    let mut buf = [0u8; 32];
    let req: &[u8] = &[0x01, 0x01, 0x00, 0x01, 0x00, 0x00];
    let (frame, _) = IncomingZclFrame::decode(req).unwrap();
    zcl_cluster_dispatch(&mut server, &frame, unicast(), &mut buf).unwrap();
    let outcome = zcl_cluster_dispatch(&mut server, &frame, unicast(), &mut buf).unwrap();
    assert_eq!(outcome.effects.group, GroupEffect::Added(0x0001));
}

#[test]
fn remove_group_found_emits_removed_effect() {
    let mut server = Server::default();
    let mut buf = [0u8; 32];
    // add first
    server
        .handle_command(
            CommandId::new(0x00),
            &[0x01, 0x00, 0x00],
            unicast(),
            &mut buf,
        )
        .unwrap();
    // remove
    let remove: &[u8] = &[0x01, 0x02, 0x03, 0x01, 0x00];
    let (frame, _) = IncomingZclFrame::decode(remove).unwrap();
    let outcome = zcl_cluster_dispatch(&mut server, &frame, unicast(), &mut buf).unwrap();
    assert_eq!(outcome.effects.group, GroupEffect::Removed(0x0001));
}

#[test]
fn remove_group_not_found_emits_no_effect() {
    let mut server = Server::default();
    let mut buf = [0u8; 32];
    let remove: &[u8] = &[0x01, 0x02, 0x03, 0x01, 0x00];
    let (frame, _) = IncomingZclFrame::decode(remove).unwrap();
    let outcome = zcl_cluster_dispatch(&mut server, &frame, unicast(), &mut buf).unwrap();
    assert_eq!(outcome.effects.group, GroupEffect::Nothing);
}

#[test]
fn remove_all_groups_emits_all_removed_effect() {
    let mut server = Server::default();
    let mut buf = [0u8; 32];
    let req: &[u8] = &[0x01, 0x03, 0x04];
    let (frame, _) = IncomingZclFrame::decode(req).unwrap();
    let outcome = zcl_cluster_dispatch(&mut server, &frame, unicast(), &mut buf).unwrap();
    assert_eq!(outcome.effects.group, GroupEffect::AllRemoved);
}

#[test]
fn effect_is_drained_after_read() {
    let mut server = Server::default();
    let mut buf = [0u8; 32];
    let req: &[u8] = &[0x01, 0x01, 0x00, 0x01, 0x00, 0x00];
    let (frame, _) = IncomingZclFrame::decode(req).unwrap();
    zcl_cluster_dispatch(&mut server, &frame, unicast(), &mut buf).unwrap();
    // second call returns empty effects (effect was already consumed)
    let req2: &[u8] = &[0x01, 0x02, 0x04]; // RemoveAllGroups (no queued effect yet)
    let (frame2, _) = IncomingZclFrame::decode(req2).unwrap();
    let outcome = zcl_cluster_dispatch(&mut server, &frame2, unicast(), &mut buf).unwrap();
    // This will be AllRemoved from the RemoveAllGroups, confirming the Add effect
    // was drained
    assert_eq!(outcome.effects.group, GroupEffect::AllRemoved);
}

// ---- the table ----

#[test]
fn listed_groups_carry_their_names() {
    let mut server = Server::new(0x80);
    let mut buf = [0u8; 32];
    server
        .handle_command(
            CommandId::new(0x00),
            &[0x01, 0x00, 3, b'B', b'a', b'r'],
            unicast(),
            &mut buf,
        )
        .unwrap();
    assert_eq!(server.groups().len(), 1);
    assert_eq!(server.groups()[0].name_bytes(), b"Bar");
}

#[test]
fn names_are_padded_with_zeros() {
    let mut server = Server::new(0x80);
    let mut buf = [0u8; 32];
    let longer = [0x02, 0x00, 5, b'a', b'b', b'c', b'd', b'e'];
    let shorter = [0x01, 0x00, 2, b'a', b'b'];
    server
        .handle_command(CommandId::new(0x00), &longer, unicast(), &mut buf)
        .unwrap();
    server
        .handle_command(CommandId::new(0x00), &shorter, unicast(), &mut buf)
        .unwrap();
    assert_eq!(server.groups()[0].name, *b"abcde\0\0\0\0\0\0\0\0\0\0\0");
    assert_eq!(server.groups()[1].name, *b"ab\0\0\0\0\0\0\0\0\0\0\0\0\0\0");
}

// ---- the buffer ----

#[test]
fn reply_leaves_the_bytes_behind_it() {
    let mut server = Server::new(0x80);
    let mut buf = [0xA5u8; 8];
    server
        .handle_command(CommandId::new(0x00), &[0x01, 0x00, 0], unicast(), &mut buf)
        .unwrap();
    assert_eq!(buf, [0, 0x01, 0x00, 0xA5, 0xA5, 0xA5, 0xA5, 0xA5]);
    let mut buf = [0xA5u8; 8];
    server
        .handle_command(CommandId::new(0x02), &[0], unicast(), &mut buf)
        .unwrap();
    assert_eq!(buf, [3, 1, 0x01, 0x00, 0xA5, 0xA5, 0xA5, 0xA5]);
    let mut buf = [0xA5u8; 8];
    server
        .handle_command(CommandId::new(0x04), &[], unicast(), &mut buf)
        .unwrap();
    assert_eq!(buf, [0xA5u8; 8]);
}

#[test]
fn membership_without_room_lists_what_fits() {
    let mut server = Server::new(0x80);
    let mut buf = [0u8; 8];
    for id in 1..=3u8 {
        server
            .handle_command(CommandId::new(0x00), &[id, 0x00, 0], unicast(), &mut buf)
            .unwrap();
    }
    let mut buf = [0xA5u8; 7];
    assert!(matches!(
        server.handle_command(CommandId::new(0x02), &[0], unicast(), &mut buf),
        Err(ZclError::BufferTooSmall)
    ));
    assert_eq!(buf, [1, 0xA5, 0x01, 0x00, 0x02, 0x00, 0xA5]);
    let mut buf = [0xA5u8; 1];
    assert!(matches!(
        server.handle_command(CommandId::new(0x02), &[0], unicast(), &mut buf),
        Err(ZclError::BufferTooSmall)
    ));
    assert_eq!(buf, [0xA5]);
}
