use zigbee_cluster_library::attribute_store::has_no_duplicate_keys;
use zigbee_cluster_library::attribute_store::is_sorted;
use zigbee_cluster_library::attribute_store::AttrDescriptor;
use zigbee_cluster_library::attribute_store::SplitAttributeStore;
use zigbee_cluster_library::attribute_store::StorageKind;
use zigbee_cluster_library::cluster_server::ClusterServer;
use zigbee_cluster_library::common::basic::BasicConfig;
use zigbee_cluster_library::common::basic::BasicServer;
use zigbee_cluster_library::common::identify::IdentifyServer;
use zigbee_cluster_library::common::time::TimeServer;
use zigbee_cluster_library::context::DispatchContext;
use zigbee_cluster_library::dispatch::zcl_cluster_dispatch;
use zigbee_cluster_library::dispatch::DispatchFrame;
use zigbee_cluster_library::frame::IncomingZclFrame;
use zigbee_cluster_library::hvac::thermostat::ThermostatServer;
use zigbee_cluster_library::lighting::color_control::hue_direction;
use zigbee_cluster_library::lighting::color_control::interpolate_hue;
use zigbee_cluster_library::lighting::color_control::tighter_deadline;
use zigbee_cluster_library::lighting::level_control::LevelControlServer;
use zigbee_cluster_library::lighting::on_off::OnOffServer;
use zigbee_cluster_library::lighting::transition::interpolate_linear;
use zigbee_cluster_library::lighting::transition::progress;
use zigbee_cluster_library::lighting::transition::remaining_tenths;
use zigbee_cluster_library::lighting::transition::wake_elapsed;
use zigbee_cluster_library::measurement::electrical::ElectricalMeasurementServer;
use zigbee_cluster_library::measurement::server::TemperatureMeasurementServer;
use zigbee_cluster_library::types::descriptors::AccessFlags;
use zigbee_cluster_library::types::error::AttrError;
use zigbee_cluster_library::types::error::ZclError;
use zigbee_cluster_library::types::ids::AttributeId;
use zigbee_cluster_library::types::ids::CommandId;
use zigbee_cluster_library::types::ids::TypeId;

fn unicast() -> DispatchContext {
    DispatchContext::unicast(0, None)
}

fn dispatch<CS: ClusterServer>(server: &mut CS, bytes: &[u8], buf: &mut [u8]) -> Result<usize, ZclError> {
    let (frame, _) = IncomingZclFrame::decode(bytes).unwrap();
    zcl_cluster_dispatch(server, &frame, unicast(), buf).map(|outcome| outcome.response_len)
}

/// A frame with `n` equal records.
fn frame_of(command: u8, record: &[u8], n: usize) -> Vec<u8> {
    let mut bytes = vec![0x00, 0x21, command];
    for _ in 0..n {
        bytes.extend_from_slice(record);
    }
    bytes
}

// ---- lists of bounded length ----

#[test]
fn sixteen_refused_undivided_writes_are_listed() {
    let mut server = OnOffServer::new(false);
    // The attribute on_off is read-only.
    let record = [0x00, 0x00, 0x10, 0x01];
    let mut buf = [0u8; 128];
    let n = dispatch(&mut server, &frame_of(0x03, &record, 16), &mut buf).unwrap();
    assert_eq!(n, 3 + 16 * 3);
    assert_eq!(&buf[..6], &[0x18, 0x21, 0x04, 0x88, 0x00, 0x00]);
    assert_eq!(
        dispatch(&mut server, &frame_of(0x03, &record, 17), &mut buf),
        Err(ZclError::BufferTooSmall)
    );
}

#[test]
fn sixteen_reporting_records_are_taken() {
    let mut server = TemperatureMeasurementServer::new();
    // Reporting of the tolerance cannot be configured.
    let record = [0x00, 0x03, 0x00, 0x21, 0x00, 0x00, 0x3c, 0x00, 0x01, 0x00];
    let mut buf = [0u8; 128];
    let n = dispatch(&mut server, &frame_of(0x06, &record, 16), &mut buf).unwrap();
    assert_eq!(n, 3 + 16 * 4);
    assert_eq!(&buf[..7], &[0x18, 0x21, 0x07, 0x8c, 0x00, 0x03, 0x00]);
    assert_eq!(&buf[n - 4..n], &[0x8c, 0x00, 0x03, 0x00]);
    assert_eq!(
        dispatch(&mut server, &frame_of(0x06, &record, 17), &mut buf),
        Err(ZclError::BufferTooSmall)
    );
}

// ---- writing and reading ----

fn written_is_read<CS: ClusterServer>(server: &mut CS, id: u16, type_id: TypeId, data: &[u8]) {
    let id = AttributeId::new(id);
    assert_eq!(server.check_write_attribute(id, type_id, data), Ok(()));
    assert_eq!(server.write_attribute(id, type_id, data), Ok(()));
    let mut buf = [0u8; 8];
    assert_eq!(
        server.read_attribute(id, &mut buf),
        Ok((type_id, data.len()))
    );
    assert_eq!(&buf[..data.len()], data);
}

#[test]
fn written_values_are_read_back() {
    let mut time = TimeServer::new();
    written_is_read(&mut time, 0x0000, TypeId::Uint32, &[1, 2, 3, 4]);
    written_is_read(&mut time, 0x0001, TypeId::Bitmap8, &[0x0f]);
    written_is_read(&mut time, 0x0002, TypeId::Int32, &[0xfe, 0xff, 0xff, 0xff]);
    let mut thermostat = ThermostatServer::new();
    written_is_read(&mut thermostat, 0x0011, TypeId::Int16, &[0x00, 0x0a]);
    written_is_read(&mut thermostat, 0x0012, TypeId::Int16, &[0x9c, 0xff]);
    written_is_read(&mut thermostat, 0x001c, TypeId::Enum8, &[0x04]);
    let mut on_off = OnOffServer::new(false);
    written_is_read(&mut on_off, 0x4001, TypeId::Uint16, &[0x34, 0x12]);
    written_is_read(&mut on_off, 0x4002, TypeId::Uint16, &[0x78, 0x56]);
    let mut identify = IdentifyServer::new();
    written_is_read(&mut identify, 0x0000, TypeId::Uint16, &[0x05, 0x00]);
    let mut level = LevelControlServer::new(Some(1));
    written_is_read(&mut level, 0x000f, TypeId::Bitmap8, &[0x03]);
}

#[test]
fn incompatible_modes_are_refused() {
    let mut server = ThermostatServer::new();
    let sequence = AttributeId::new(0x001b);
    let mode = AttributeId::new(0x001c);
    // Heating only, then cooling.
    assert_eq!(server.write_attribute(sequence, TypeId::Enum8, &[0x02]), Ok(()));
    assert_eq!(
        server.write_attribute(mode, TypeId::Enum8, &[0x03]),
        Err(AttrError::InvalidValue)
    );
    assert_eq!(server.write_attribute(mode, TypeId::Enum8, &[0x04]), Ok(()));
    // Heating, then cooling only.
    assert_eq!(
        server.write_attribute(sequence, TypeId::Enum8, &[0x00]),
        Err(AttrError::InvalidValue)
    );
}

#[test]
fn measurements_cannot_be_written() {
    let mut server = TemperatureMeasurementServer::new();
    for id in 0..4 {
        assert_eq!(
            server.write_attribute(AttributeId::new(id), TypeId::Int16, &[1, 0]),
            Err(AttrError::ReadOnly)
        );
    }
    assert_eq!(
        server.write_attribute(AttributeId::new(9), TypeId::Int16, &[1, 0]),
        Err(AttrError::UnsupportedAttribute)
    );
    assert_eq!(server.measured_value(), None);
}

fn descriptor(id: u16, index: usize) -> AttrDescriptor {
    AttrDescriptor {
        attr: AttributeId(id),
        access: AccessFlags::read_write(),
        type_id: TypeId::Uint16,
        storage: StorageKind::MutableScalar { index },
    }
}

#[test]
fn store_keeps_what_is_written() {
    let mut store = SplitAttributeStore::new(vec![descriptor(1, 0), descriptor(2, 1)], [7, 8]);
    assert_eq!(
        store.write_from(AttributeId(2), TypeId::Uint16, &[0xcd, 0xab]),
        Ok(())
    );
    let mut buf = [0u8; 4];
    assert_eq!(
        store.read_into(AttributeId(2), &mut buf),
        Ok((TypeId::Uint16, 2))
    );
    assert_eq!(buf, [0xcd, 0xab, 0, 0]);
    assert_eq!(
        store.read_into(AttributeId(1), &mut buf),
        Ok((TypeId::Uint16, 2))
    );
    assert_eq!(buf, [7, 0, 0, 0]);
    assert_eq!(
        store.read_into(AttributeId(3), &mut buf),
        Err(AttrError::UnsupportedAttribute)
    );
}

#[test]
fn descriptors_are_sorted_and_unique() {
    assert!(is_sorted(&vec![descriptor(1, 0), descriptor(2, 1)]));
    assert!(!is_sorted(&vec![descriptor(2, 0), descriptor(1, 1)]));
    assert!(has_no_duplicate_keys(&vec![descriptor(1, 0), descriptor(2, 1)]));
    assert!(!has_no_duplicate_keys(&vec![descriptor(1, 0), descriptor(1, 1)]));
}

// ---- dispatch ----

#[test]
fn response_carries_the_sequence_number() {
    let mut server = OnOffServer::new(true);
    let (frame, _) = IncomingZclFrame::decode(&[0x00, 0x77, 0x00, 0x00, 0x00]).unwrap();
    let mut buf = [0u8; 16];
    let outcome = server.dispatch(&frame, unicast(), &mut buf).unwrap();
    assert_eq!(
        &buf[..outcome.response_len],
        &[0x18, 0x77, 0x01, 0x00, 0x00, 0x00, 0x10, 0x01]
    );
}

#[test]
fn toggling_twice_switches_back() {
    let mut server = OnOffServer::new(true);
    for expected in [false, true] {
        server
            .handle_command(CommandId::new(0x02), &[], unicast(), &mut [])
            .unwrap();
        assert_eq!(server.on_off(), expected);
    }
}

// ---- transitions ----

#[test]
fn progress_reaches_its_end_and_no_further() {
    assert_eq!(progress(100, 0, 1000), 0);
    assert_eq!(progress(100, 505, 1000), 50);
    assert_eq!(progress(100, 999, 1000), 99);
    assert_eq!(interpolate_linear(10, 20, 500, 1000), 15);
    assert_eq!(interpolate_linear(20, 10, 500, 1000), 15);
    assert_eq!(interpolate_linear(20, 10, 1000, 1000), 10);
}

#[test]
fn wake_is_when_the_next_step_is_made() {
    for elapsed in [0, 1, 333, 500, 987] {
        let wake = wake_elapsed(7, elapsed, 1000);
        assert!(wake > elapsed);
        assert_eq!(progress(7, wake - 1, 1000), progress(7, elapsed, 1000));
        if wake < 1000 {
            assert!(progress(7, wake, 1000) > progress(7, elapsed, 1000));
        }
    }
}

#[test]
fn remaining_time_is_rounded_up() {
    assert_eq!(remaining_tenths(0, 1000, 0), 10);
    assert_eq!(remaining_tenths(0, 1000, 1), 10);
    assert_eq!(remaining_tenths(0, 1000, 901), 1);
    assert_eq!(remaining_tenths(0, 1000, 1000), 0);
}

#[test]
fn hue_goes_the_way_that_is_asked_for() {
    // Shortest, longest, up, down.
    assert_eq!(hue_direction(10, 30, 0), (true, 20));
    assert_eq!(hue_direction(30, 10, 0), (false, 20));
    assert_eq!(hue_direction(10, 250, 0).0, false);
    assert_eq!(hue_direction(10, 30, 1).0, false);
    assert_eq!(hue_direction(10, 30, 2), (true, 20));
    assert_eq!(hue_direction(10, 30, 3).0, false);
    let (up, arc) = hue_direction(10, 250, 0);
    assert_eq!(interpolate_hue(10, up, arc, 1000, 1000), 250);
}

#[test]
fn nearer_deadline_stands() {
    assert_eq!(tighter_deadline(None, None, 5), None);
    assert_eq!(tighter_deadline(Some(7), None, 5), Some(7));
    assert_eq!(tighter_deadline(None, Some(7), 5), Some(7));
    assert_eq!(tighter_deadline(Some(9), Some(7), 5), Some(7));
    // The clock wraps before the second one.
    assert_eq!(
        tighter_deadline(Some(u32::MAX), Some(3), u32::MAX - 2),
        Some(u32::MAX)
    );
}

// ---- setters ----

#[test]
fn setters_are_read_back() {
    let mut basic = BasicServer::new(BasicConfig::new(3, "ACME", "Sensor-1", 0x01, true));
    basic.set_device_enabled(false);
    assert!(!basic.device_enabled());
    basic.set_device_enabled(true);
    assert!(basic.device_enabled());

    let mut electrical = ElectricalMeasurementServer::new();
    electrical.set_measurement_type(0x0102_0304);
    assert_eq!(electrical.measurement_type(), 0x0102_0304);

    let mut level = LevelControlServer::new(Some(1));
    level.set_options(0x02);
    assert_eq!(level.options(), 0x02);
    level.set_max_level(200);
    level.set_min_level(10);
    assert_eq!((level.min_level(), level.max_level()), (10, 200));

    let mut on_off = OnOffServer::new(false);
    on_off.set_global_scene_control(false);
    on_off.set_on_time(7);
    on_off.set_off_wait_time(9);
    assert!(!on_off.global_scene_control());
    assert_eq!(on_off.on_time(), 7);
    assert_eq!(on_off.off_wait_time(), 9);
}

// ---- frames that are not answered ----

#[test]
fn unanswered_frames_leave_the_buffer_alone() {
    let frames: [&[u8]; 4] = [
        // A default response.
        &[0x18, 0x08, 0x0b, 0x00, 0x00],
        // A write without response, of a read-only attribute.
        &[0x00, 0x05, 0x05, 0x00, 0x00, 0x10, 0x01],
        // A response to a reporting configuration.
        &[0x18, 0x09, 0x07, 0x00],
        // A command from another server.
        &[0x09, 0x0a, 0x01],
    ];
    for bytes in frames {
        let mut server = OnOffServer::new(false);
        let mut buf = [0xA5u8; 16];
        assert_eq!(dispatch(&mut server, bytes, &mut buf), Ok(0));
        assert_eq!(buf, [0xA5u8; 16]);
        assert!(!server.on_off());
    }
}

#[test]
fn unsupported_broadcast_leaves_the_buffer_alone() {
    let (frame, _) = IncomingZclFrame::decode(&[0x00, 0x0c, 0x60]).unwrap();
    let mut server = OnOffServer::new(false);
    let mut buf = [0xA5u8; 16];
    let outcome =
        zcl_cluster_dispatch(&mut server, &frame, DispatchContext::broadcast(0), &mut buf).unwrap();
    assert_eq!(outcome.response_len, 0);
    assert_eq!(buf, [0xA5u8; 16]);
}

#[test]
fn responses_leave_the_bytes_behind_them() {
    let frames: [&[u8]; 8] = [
        // Read an attribute that is there, and one that is not.
        &[0x00, 0x01, 0x00, 0x00, 0x00, 0x34, 0x12],
        // Write a read-only attribute, divided and undivided.
        &[0x00, 0x02, 0x02, 0x00, 0x00, 0x10, 0x01],
        &[0x00, 0x03, 0x03, 0x00, 0x00, 0x10, 0x01],
        // Configure reporting, and read the configuration.
        &[0x00, 0x04, 0x06, 0x00, 0x00, 0x00, 0x10, 0x01, 0x00, 0x10, 0x00],
        &[0x00, 0x05, 0x08, 0x00, 0x00, 0x00],
        // Discover attributes and commands.
        &[0x00, 0x06, 0x0c, 0x00, 0x00, 0x02],
        &[0x00, 0x07, 0x11, 0x00, 0x02],
        // A command that is answered with a status.
        &[0x01, 0x08, 0x01],
    ];
    for bytes in frames {
        let mut server = OnOffServer::new(false);
        let mut buf = [0xA5u8; 48];
        let n = dispatch(&mut server, bytes, &mut buf).unwrap();
        assert!(n > 0);
        assert_eq!(buf[n..], [0xA5u8; 48][n..], "frame {bytes:02x?}");
    }

    let mut server = IdentifyServer::new();
    let mut buf = [0xA5u8; 16];
    let n = dispatch(&mut server, &[0x01, 0x09, 0x01], &mut buf).unwrap();
    assert_eq!(n, 5);
    assert_eq!(buf[..n], [0x19, 0x09, 0x00, 0x00, 0x00]);
    assert_eq!(buf[n..], [0xA5u8; 16][n..]);
}
