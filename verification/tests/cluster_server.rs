use zigbee_cluster_library::attribute_store::AttrDescriptor;
use zigbee_cluster_library::attribute_store::SplitAttributeStore;
use zigbee_cluster_library::attribute_store::StaticStringValue;
use zigbee_cluster_library::attribute_store::StorageKind;
use zigbee_cluster_library::attribute_store::has_no_duplicate_keys;
use zigbee_cluster_library::attribute_store::is_sorted;
use zigbee_cluster_library::cluster_server::ClusterServer;
use zigbee_cluster_library::context::ClusterReportReady;
use zigbee_cluster_library::context::ClusterTick;
use zigbee_cluster_library::context::CommandResult;
use zigbee_cluster_library::context::ConfigureReportingRecord;
use zigbee_cluster_library::context::DispatchContext;
use zigbee_cluster_library::context::DispatchEffects;
use zigbee_cluster_library::context::ReportDeliveryResult;
use zigbee_cluster_library::context::ReportToken;
use zigbee_cluster_library::context::ReportingDiagnostics;
use zigbee_cluster_library::dispatch::build_default_response;
use zigbee_cluster_library::dispatch::build_default_response_for_frame;
use zigbee_cluster_library::dispatch::should_send_default_response;
use zigbee_cluster_library::dispatch::zcl_cluster_dispatch;
use zigbee_cluster_library::frame::CommandIdentifier;
use zigbee_cluster_library::frame::IncomingZclFrame;
use zigbee_cluster_library::frame::Status;
use zigbee_cluster_library::reporting::ReportPayloadWriter;
use zigbee_cluster_library::reporting::write_not_found;
use zigbee_cluster_library::types::descriptors::AccessFlags;
use zigbee_cluster_library::types::descriptors::AttrInfo;
use zigbee_cluster_library::types::error::AttrError;
use zigbee_cluster_library::types::error::ZclError;
use zigbee_cluster_library::types::ids::AttributeId;
use zigbee_cluster_library::types::ids::CommandId;
use zigbee_cluster_library::types::ids::TypeId;

fn test_attrs() -> Vec<AttrDescriptor> {
    vec![
    AttrDescriptor {
        attr: AttributeId::new(0x0000),
        access: AccessFlags::read(),
        type_id: TypeId::Uint8,
        storage: StorageKind::ConstScalar(42),
    },
    AttrDescriptor {
        attr: AttributeId::new(0x0001),
        access: AccessFlags::read_write(),
        type_id: TypeId::Uint16,
        storage: StorageKind::MutableScalar { index: 0 },
    },
    AttrDescriptor {
        attr: AttributeId::new(0x0002),
        access: AccessFlags::read(),
        type_id: TypeId::CharacterString,
        storage: StorageKind::StaticString(StaticStringValue::Text(
            "hello",
        )),
    },
    ]
}

struct TestServer {
    store: SplitAttributeStore<1>,
}

impl TestServer {
    fn new() -> Self {
        let attrs = test_attrs();
        assert!(is_sorted(&attrs), "test attributes must be sorted");
        assert!(
            has_no_duplicate_keys(&attrs),
            "test attributes must have unique keys"
        );
        Self {
            store: SplitAttributeStore::new(attrs, [0u64]),
        }
    }
}

impl ClusterServer for TestServer {
    const CLUSTER_ID: u16 = 0xABCD;

    fn read_attribute(
        &self,
        id: AttributeId,
        buf: &mut [u8],
    ) -> Result<(TypeId, usize), AttrError> {
        self.store.read_into(id, buf)
    }

    fn check_write_attribute(
        &self,
        id: AttributeId,
        type_id: TypeId,
        data: &[u8],
    ) -> Result<(), AttrError> {
        self.store.check_write_from(id, type_id, data)
    }

    fn write_attribute(
        &mut self,
        id: AttributeId,
        type_id: TypeId,
        data: &[u8],
    ) -> Result<(), AttrError> {
        self.store.write_from(id, type_id, data)
    }

    fn attribute_list() -> Vec<AttrInfo> {
        vec![
            AttrInfo {
                id: AttributeId::new(0x0000),
                type_id: TypeId::Uint8,
                access: AccessFlags::read(),
            },
            AttrInfo {
                id: AttributeId::new(0x0001),
                type_id: TypeId::Uint16,
                access: AccessFlags::read_write(),
            },
            AttrInfo {
                id: AttributeId::new(0x0002),
                type_id: TypeId::CharacterString,
                access: AccessFlags::read(),
            },
        ]
    }

    fn handle_command(
        &mut self,
        _id: CommandId,
        _payload: &[u8],
        _ctx: DispatchContext,
        _buf: &mut [u8],
    ) -> Result<CommandResult, ZclError> {
        Ok(CommandResult::DefaultResponse(Status::UnsupCommand))
    }

    fn tick(&mut self, _now_ms: u32) -> ClusterTick {
        ClusterTick::idle()
    }

    fn take_dispatch_effects(&mut self) -> DispatchEffects {
        DispatchEffects::none()
    }

    fn snapshot(&self, _buf: &mut [u8]) -> usize {
        0
    }

    fn restore_snapshot(&mut self, _buf: &[u8]) {}

    fn configure_reporting(
        &mut self,
        _record: ConfigureReportingRecord<'_>,
        _ctx: DispatchContext,
    ) -> Status {
        Status::UnreportableAttribute
    }

    fn collect_reports(
        &mut self,
        _now_ms: u32,
        _out: &mut ReportPayloadWriter<'_>,
    ) -> Result<Option<ClusterReportReady>, ZclError> {
        Ok(None)
    }

    fn report_delivery_result(
        &mut self,
        _token: ReportToken,
        _result: ReportDeliveryResult,
        _now_ms: u32,
    ) {
    }

    fn take_reporting_diagnostics(&mut self) -> ReportingDiagnostics {
        ReportingDiagnostics::none()
    }

    fn read_reporting_config(&self, attr_id: AttributeId, direction: u8, buf: &mut [u8]) -> usize {
        write_not_found(attr_id, direction, buf)
    }

    fn commands_received() -> Vec<CommandId> {
        Vec::new()
    }

    fn commands_generated() -> Vec<CommandId> {
        Vec::new()
    }
}

struct PayloadServer;

impl ClusterServer for PayloadServer {
    const CLUSTER_ID: u16 = 0xBEEF;

    fn read_attribute(
        &self,
        _id: AttributeId,
        _buf: &mut [u8],
    ) -> Result<(TypeId, usize), AttrError> {
        Err(AttrError::UnsupportedAttribute)
    }

    fn check_write_attribute(
        &self,
        _id: AttributeId,
        _type_id: TypeId,
        _data: &[u8],
    ) -> Result<(), AttrError> {
        Err(AttrError::UnsupportedAttribute)
    }

    fn write_attribute(
        &mut self,
        _id: AttributeId,
        _type_id: TypeId,
        _data: &[u8],
    ) -> Result<(), AttrError> {
        Err(AttrError::UnsupportedAttribute)
    }

    fn handle_command(
        &mut self,
        id: CommandId,
        _payload: &[u8],
        _ctx: DispatchContext,
        buf: &mut [u8],
    ) -> Result<CommandResult, ZclError> {
        if id == CommandId::new(0x40) {
            if buf.len() < 2 {
                return Err(ZclError::BufferTooSmall);
            }
            buf[0] = 0xAA;
            buf[1] = 0xBB;
            Ok(CommandResult::Payload {
                command_id: CommandId::new(0x41),
                len: 2,
            })
        } else {
            Ok(CommandResult::DefaultResponse(Status::UnsupCommand))
        }
    }

    fn tick(&mut self, _now_ms: u32) -> ClusterTick {
        ClusterTick::idle()
    }

    fn take_dispatch_effects(&mut self) -> DispatchEffects {
        DispatchEffects::none()
    }

    fn snapshot(&self, _buf: &mut [u8]) -> usize {
        0
    }

    fn restore_snapshot(&mut self, _buf: &[u8]) {}

    fn configure_reporting(
        &mut self,
        _record: ConfigureReportingRecord<'_>,
        _ctx: DispatchContext,
    ) -> Status {
        Status::UnreportableAttribute
    }

    fn collect_reports(
        &mut self,
        _now_ms: u32,
        _out: &mut ReportPayloadWriter<'_>,
    ) -> Result<Option<ClusterReportReady>, ZclError> {
        Ok(None)
    }

    fn report_delivery_result(
        &mut self,
        _token: ReportToken,
        _result: ReportDeliveryResult,
        _now_ms: u32,
    ) {
    }

    fn take_reporting_diagnostics(&mut self) -> ReportingDiagnostics {
        ReportingDiagnostics::none()
    }

    fn read_reporting_config(&self, attr_id: AttributeId, direction: u8, buf: &mut [u8]) -> usize {
        write_not_found(attr_id, direction, buf)
    }

    fn attribute_list() -> Vec<AttrInfo> {
        Vec::new()
    }

    fn commands_received() -> Vec<CommandId> {
        Vec::new()
    }

    fn commands_generated() -> Vec<CommandId> {
        Vec::new()
    }
}

fn unicast() -> DispatchContext {
    DispatchContext::unicast(0, None)
}

fn broadcast() -> DispatchContext {
    DispatchContext::broadcast(0)
}

// -------------------------------------------------------------------
// ReadAttributes
// -------------------------------------------------------------------

#[test]
fn read_attributes_success_encodes_value() {
    // ReadAttributes for attr 0x0000 (Uint8 = 42)
    let req: &[u8] = &[
        0x00, // frame control: global, client→server
        0x01, // seq
        0x00, // ReadAttributes
        0x00, 0x00, // attr 0x0000
    ];
    let (frame, _) = IncomingZclFrame::decode(req).unwrap();
    let mut buf = [0u8; 32];
    let mut server = TestServer::new();
    let n = zcl_cluster_dispatch(&mut server, &frame, unicast(), &mut buf)
        .unwrap()
        .response_len;

    // Response: ZCL header(3) + attr_id(2) + status(1) + type_id(1) + value(1) = 8
    assert_eq!(n, 8);
    assert_eq!(buf[0], 0x18); // frame control
    assert_eq!(buf[1], 0x01); // seq echoed
    assert_eq!(buf[2], 0x01); // ReadAttributesResponse
    assert_eq!(buf[3..5], [0x00, 0x00]); // attr_id LE
    assert_eq!(buf[5], 0x00); // Success
    assert_eq!(buf[6], TypeId::Uint8.as_u8());
    assert_eq!(buf[7], 42); // value
}

#[test]
fn read_attributes_unknown_attr_returns_per_record_status() {
    let req: &[u8] = &[
        0x00, 0x02, 0x00, 0xFF, 0xFF, // unknown attr
    ];
    let (frame, _) = IncomingZclFrame::decode(req).unwrap();
    let mut buf = [0u8; 32];
    let mut server = TestServer::new();
    let n = zcl_cluster_dispatch(&mut server, &frame, unicast(), &mut buf)
        .unwrap()
        .response_len;

    // header(3) + attr_id(2) + status(1) = 6
    assert_eq!(n, 6);
    assert_eq!(buf[3..5], [0xFF, 0xFF]);
    assert_eq!(buf[5], Status::UnsupportedAttribute.as_u8());
}

// -------------------------------------------------------------------
// WriteAttributes
// -------------------------------------------------------------------

#[test]
fn write_attributes_success_returns_single_success_record() {
    // Write attr 0x0001 (Uint16, writable) = 0x1234
    let req: &[u8] = &[
        0x00, 0x03, 0x02, // header: global, seq=3, WriteAttributes
        0x01, 0x00, // attr_id
        0x21, // Uint16
        0x34, 0x12, // 0x1234 LE
    ];
    let (frame, _) = IncomingZclFrame::decode(req).unwrap();
    let mut buf = [0u8; 32];
    let mut server = TestServer::new();
    let n = zcl_cluster_dispatch(&mut server, &frame, unicast(), &mut buf)
        .unwrap()
        .response_len;

    // header(3) + success(1) = 4
    assert_eq!(n, 4);
    assert_eq!(buf[2], 0x04); // WriteAttributesResponse
    assert_eq!(buf[3], 0x00); // Success, no attr_id
}

#[test]
fn write_attributes_readonly_returns_failure_record() {
    // Write attr 0x0000 (read-only)
    let req: &[u8] = &[
        0x00, 0x04, 0x02, 0x00, 0x00, // attr_id 0x0000
        0x20, // Uint8
        0x05,
    ];
    let (frame, _) = IncomingZclFrame::decode(req).unwrap();
    let mut buf = [0u8; 32];
    let mut server = TestServer::new();
    let n = zcl_cluster_dispatch(&mut server, &frame, unicast(), &mut buf)
        .unwrap()
        .response_len;

    // header(3) + status(1) + attr_id(2) = 6
    assert_eq!(n, 6);
    assert_eq!(buf[3], Status::ReadOnly.as_u8());
    assert_eq!(buf[4..6], [0x00, 0x00]);
}

#[test]
fn write_attributes_unknown_type_id_returns_invalid_data_type_record() {
    // attr_id = 0x0001, type_id = 0xFF (Unknown) — value length is unknowable
    let req: &[u8] = &[
        0x00, 0x10, 0x02, // WriteAttributes
        0x01, 0x00, // attr_id
        0xFF, // Unknown type_id — no value bytes follow
    ];
    let (frame, _) = IncomingZclFrame::decode(req).unwrap();
    let mut buf = [0u8; 32];
    let mut server = TestServer::new();
    let n = zcl_cluster_dispatch(&mut server, &frame, unicast(), &mut buf)
        .unwrap()
        .response_len;

    // header(3) + status(1) + attr_id(2) = 6
    assert_eq!(n, 6);
    assert_eq!(buf[2], 0x04); // WriteAttributesResponse
    assert_eq!(buf[3], Status::InvalidDataType.as_u8());
    assert_eq!(buf[4..6], [0x01, 0x00]); // attr_id LE
}

#[test]
fn write_attributes_no_response_returns_ok_zero() {
    let req: &[u8] = &[
        0x00, 0x05, 0x05, // WriteAttributesNoResponse
        0x00, 0x00, // read-only attr
        0x20, 0x01,
    ];
    let (frame, _) = IncomingZclFrame::decode(req).unwrap();
    let mut buf = [0u8; 32];
    let mut server = TestServer::new();
    let n = zcl_cluster_dispatch(&mut server, &frame, unicast(), &mut buf)
        .unwrap()
        .response_len;
    assert_eq!(n, 0);
}

// -------------------------------------------------------------------
// WriteAttributesUndivided
// -------------------------------------------------------------------

#[test]
fn write_attributes_undivided_all_pass_writes_all() {
    // Two records: attr 0x0001 (writable) twice — both should succeed
    let req: &[u8] = &[
        0x00, 0x06, 0x03, // WriteAttributesUndivided
        0x01, 0x00, 0x21, 0x01, 0x00, // attr 0x0001 = 1
        0x01, 0x00, 0x21, 0x02, 0x00, // attr 0x0001 = 2 (second write wins)
    ];
    let (frame, _) = IncomingZclFrame::decode(req).unwrap();
    let mut buf = [0u8; 32];
    let mut server = TestServer::new();
    let n = zcl_cluster_dispatch(&mut server, &frame, unicast(), &mut buf)
        .unwrap()
        .response_len;

    assert_eq!(n, 4); // header(3) + success(1)
    assert_eq!(buf[3], 0x00);
}

#[test]
fn write_attributes_undivided_any_fail_writes_none() {
    // Record 1: writable attr. Record 2: read-only attr.
    // Both must fail → value unchanged after dispatch.
    let req: &[u8] = &[
        0x00, 0x07, 0x03, 0x01, 0x00, 0x21, 0x99, 0x00, // writable
        0x00, 0x00, 0x20, 0x01, // read-only attr 0x0000
    ];
    let (frame, _) = IncomingZclFrame::decode(req).unwrap();
    let mut buf = [0u8; 32];
    let mut server = TestServer::new();
    let n = zcl_cluster_dispatch(&mut server, &frame, unicast(), &mut buf)
        .unwrap()
        .response_len;

    // Should contain only the failure record for attr 0x0000
    assert!(n > 4);
    let found_readonly = buf[3..n].chunks(3).any(|chunk| {
        chunk.len() == 3
            && chunk[0] == Status::ReadOnly.as_u8()
            && u16::from_le_bytes([chunk[1], chunk[2]]) == 0x0000
    });
    assert!(
        found_readonly,
        "expected ReadOnly failure record for attr 0x0000"
    );

    // Confirm the writable attr was NOT written (value unchanged = 0)
    let mut rbuf = [0u8; 4];
    server
        .store
        .read_into(AttributeId::new(0x0001), &mut rbuf)
        .unwrap();
    assert_eq!(u16::from_le_bytes([rbuf[0], rbuf[1]]), 0u16);
}

// -------------------------------------------------------------------
// DefaultResponse (incoming)
// -------------------------------------------------------------------

#[test]
fn incoming_default_response_returns_ok_zero() {
    let req: &[u8] = &[
        0x18, // server→client, disable DR
        0x08, 0x0b, // DefaultResponse command
        0x00, // responding to ReadAttributes
        0x00, // Success
    ];
    let (frame, _) = IncomingZclFrame::decode(req).unwrap();
    let mut buf = [0u8; 32];
    let mut server = TestServer::new();
    let n = zcl_cluster_dispatch(&mut server, &frame, unicast(), &mut buf)
        .unwrap()
        .response_len;
    assert_eq!(n, 0);
}

#[test]
fn discover_attributes_all_fit_returns_complete() {
    let req: &[u8] = &[
        0x00, 0x09, 0x0c, // DiscoverAttributes
        0x00, 0x00, // start_attr = 0x0000
        0xFF, // max_count = 255
    ];
    let (frame, _) = IncomingZclFrame::decode(req).unwrap();
    let mut buf = [0u8; 64];
    let mut server = TestServer::new();
    let n = zcl_cluster_dispatch(&mut server, &frame, unicast(), &mut buf)
        .unwrap()
        .response_len;

    // header(3) + discovery_complete(1) + 3 records × 3 bytes = 13
    assert_eq!(n, 13);
    assert_eq!(buf[2], 0x0d); // DiscoverAttributesResponse
    assert_eq!(buf[3], 0x01); // discovery_complete = true
    // First record: attr 0x0000, Uint8
    assert_eq!(buf[4..6], [0x00, 0x00]);
    assert_eq!(buf[6], TypeId::Uint8.as_u8());
}

#[test]
fn discover_attributes_truncated_returns_incomplete() {
    let req: &[u8] = &[
        0x00, 0x0a, 0x0c, 0x00, 0x00, // start_attr = 0x0000
        0x01, // max_count = 1
    ];
    let (frame, _) = IncomingZclFrame::decode(req).unwrap();
    let mut buf = [0u8; 32];
    let mut server = TestServer::new();
    let n = zcl_cluster_dispatch(&mut server, &frame, unicast(), &mut buf)
        .unwrap()
        .response_len;

    assert_eq!(buf[3], 0x00); // discovery_complete = false (more exist)
    // Only 1 record: attr 0x0000, Uint8
    let _ = n;
}

// -------------------------------------------------------------------
// ClusterSpecific direction bit
// -------------------------------------------------------------------

#[test]
fn cluster_specific_server_to_client_returns_ok_zero() {
    // direction bit = 1 (server→client): server ignores it
    let req: &[u8] = &[
        0x09, // cluster-specific | direction=server-to-client
        0x0b, 0x00, // command 0x00
    ];
    let (frame, _) = IncomingZclFrame::decode(req).unwrap();
    let mut buf = [0u8; 32];
    let mut server = TestServer::new();
    let n = zcl_cluster_dispatch(&mut server, &frame, unicast(), &mut buf)
        .unwrap()
        .response_len;
    assert_eq!(n, 0);
}

#[test]
fn cluster_specific_payload_response_uses_cluster_specific_header() {
    let req: &[u8] = &[
        0x01, // cluster-specific | client→server
        0x22, 0x40,
    ];
    let (frame, _) = IncomingZclFrame::decode(req).unwrap();
    let mut buf = [0u8; 32];
    let mut server = PayloadServer;
    let n = zcl_cluster_dispatch(&mut server, &frame, unicast(), &mut buf)
        .unwrap()
        .response_len;

    assert_eq!(n, 5);
    assert_eq!(buf[0], 0x19);
    assert_eq!(buf[1], 0x22);
    assert_eq!(buf[2], 0x41);
    assert_eq!(&buf[3..5], &[0xAA, 0xBB]);
}

// -------------------------------------------------------------------
// Default Response suppression rules
// -------------------------------------------------------------------

#[test]
fn configure_reporting_broadcast_returns_ok_zero() {
    // ConfigureReporting broadcast → no response
    let req: &[u8] = &[0x00, 0x0c, 0x06];
    let (frame, _) = IncomingZclFrame::decode(req).unwrap();
    let mut buf = [0u8; 32];
    let mut server = TestServer::new();
    let n = zcl_cluster_dispatch(&mut server, &frame, broadcast(), &mut buf)
        .unwrap()
        .response_len;
    assert_eq!(n, 0);
}

#[test]
fn configure_reporting_empty_unicast_returns_success() {
    // ConfigureReporting with no records → ConfigureReportingResponse(Success)
    let req: &[u8] = &[0x00, 0x0d, 0x06];
    let (frame, _) = IncomingZclFrame::decode(req).unwrap();
    let mut buf = [0u8; 32];
    let mut server = TestServer::new();
    let n = zcl_cluster_dispatch(&mut server, &frame, unicast(), &mut buf)
        .unwrap()
        .response_len;
    assert_eq!(n, 4);
    assert_eq!(buf[2], 0x07); // ConfigureReportingResponse
    assert_eq!(buf[3], 0x00); // Success
}

#[test]
fn configure_reporting_manufacturer_specific_preserves_manufacturer_code() {
    let req: &[u8] = &[
        0x04, // global | manufacturer-specific | client→server
        0x34, 0x12, // manufacturer code
        0x55, // sequence
        0x06, // ConfigureReporting (no records)
    ];
    let (frame, _) = IncomingZclFrame::decode(req).unwrap();
    let mut buf = [0u8; 32];
    let mut server = TestServer::new();
    let n = zcl_cluster_dispatch(&mut server, &frame, unicast(), &mut buf)
        .unwrap()
        .response_len;

    assert_eq!(n, 6);
    assert_eq!(buf[0], 0x1c);
    assert_eq!(&buf[1..3], &[0x34, 0x12]);
    assert_eq!(buf[3], 0x55);
    assert_eq!(buf[4], 0x07); // ConfigureReportingResponse
    assert_eq!(buf[5], 0x00); // Success
}

#[test]
fn configure_reporting_with_records_returns_unreportable() {
    // ConfigureReporting: direction=0, attr_id=0x0001, type=Uint16(0x21),
    // min=0x0000, max=0x003C, reportable_change=0x0001
    let req: &[u8] = &[
        0x00, 0x10, 0x06, // global, seq=0x10, ConfigureReporting
        0x00, // direction=0 (server sends to client)
        0x01, 0x00, // attr_id=0x0001
        0x21, // type=Uint16
        0x00, 0x00, // min_interval=0
        0x3C, 0x00, // max_interval=60
        0x01, 0x00, // reportable_change=1
    ];
    let (frame, _) = IncomingZclFrame::decode(req).unwrap();
    let mut buf = [0u8; 32];
    let mut server = TestServer::new();
    let n = zcl_cluster_dispatch(&mut server, &frame, unicast(), &mut buf)
        .unwrap()
        .response_len;

    // header(3) + status(1) + direction(1) + attr_id(2) = 7
    assert_eq!(n, 7);
    assert_eq!(buf[2], 0x07); // ConfigureReportingResponse
    assert_eq!(buf[3], Status::UnreportableAttribute.as_u8());
    assert_eq!(buf[4], 0x00); // direction
    assert_eq!(&buf[5..7], &[0x01, 0x00]); // attr_id LE
}

#[test]
fn read_reporting_configuration_unconfigured_attr_returns_not_found() {
    // ReadReportingConfiguration: direction=0, attr_id=0x0000
    let req: &[u8] = &[
        0x00, 0x20, 0x08, // global, seq=0x20, ReadReportingConfiguration
        0x00, 0x00, 0x00, // direction=0, attr_id=0x0000
    ];
    let (frame, _) = IncomingZclFrame::decode(req).unwrap();
    let mut buf = [0u8; 32];
    let mut server = TestServer::new();
    let n = zcl_cluster_dispatch(&mut server, &frame, unicast(), &mut buf)
        .unwrap()
        .response_len;
    // header(3) + status(1) + direction(1) + attr_id(2) = 7
    assert_eq!(n, 7);
    assert_eq!(buf[2], 0x09); // ReadReportingConfigurationResponse
    assert_eq!(buf[3], 0x8b); // NOT_FOUND
    assert_eq!(buf[4], 0x00); // direction
    assert_eq!(&buf[5..7], &[0x00, 0x00]); // attr_id LE
}

#[test]
fn read_reporting_configuration_empty_request_returns_header_only() {
    let req: &[u8] = &[0x00, 0x21, 0x08]; // no records
    let (frame, _) = IncomingZclFrame::decode(req).unwrap();
    let mut buf = [0u8; 32];
    let mut server = TestServer::new();
    let n = zcl_cluster_dispatch(&mut server, &frame, unicast(), &mut buf)
        .unwrap()
        .response_len;
    assert_eq!(n, 3); // just the header
    assert_eq!(buf[2], 0x09);
}

#[test]
fn read_reporting_configuration_multiple_attrs_each_get_not_found() {
    let req: &[u8] = &[
        0x00, 0x22, 0x08, 0x00, 0x00, 0x00, // attr 0x0000
        0x00, 0x01, 0x00, // attr 0x0001
    ];
    let (frame, _) = IncomingZclFrame::decode(req).unwrap();
    let mut buf = [0u8; 32];
    let mut server = TestServer::new();
    let n = zcl_cluster_dispatch(&mut server, &frame, unicast(), &mut buf)
        .unwrap()
        .response_len;
    // header(3) + 2×record(4) = 11
    assert_eq!(n, 11);
    assert_eq!(buf[2], 0x09);
    assert_eq!(buf[3], 0x8b); // record 1 NOT_FOUND
    assert_eq!(&buf[4..6], &[0x00, 0x00, 0x00][..2]); // direction+attr_id_lo
    assert_eq!(buf[7], 0x8b); // record 2 NOT_FOUND
}

#[test]
fn sequence_number_is_echoed_in_response() {
    let req: &[u8] = &[
        0x00, 0xAB, 0x00, // seq = 0xAB, ReadAttributes
        0x00, 0x00,
    ];
    let (frame, _) = IncomingZclFrame::decode(req).unwrap();
    let mut buf = [0u8; 32];
    let mut server = TestServer::new();
    let _ = zcl_cluster_dispatch(&mut server, &frame, unicast(), &mut buf)
        .unwrap()
        .response_len;
    assert_eq!(buf[1], 0xAB);
}

// -------------------------------------------------------------------
// build_default_response / should_send_default_response
// -------------------------------------------------------------------

#[test]
fn build_default_response_writes_correct_bytes() {
    let mut buf = [0u8; 8];
    let n = build_default_response(
        CommandIdentifier::ReadAttributes,
        Status::UnsupportedAttribute,
        0x42,
        &mut buf,
    )
    .unwrap();
    assert_eq!(n, 5);
    assert_eq!(buf[0], 0x18);
    assert_eq!(buf[1], 0x42);
    assert_eq!(buf[2], 0x0b);
    assert_eq!(buf[3], 0x00); // ReadAttributes raw
    assert_eq!(buf[4], Status::UnsupportedAttribute.as_u8());
}

#[test]
fn build_default_response_for_frame_preserves_manufacturer_code() {
    let req: &[u8] = &[
        0x04, // global | manufacturer-specific | client→server
        0x78, 0x56, // manufacturer code
        0x42, 0x00,
    ];
    let (frame, _) = IncomingZclFrame::decode(req).unwrap();
    let mut buf = [0u8; 8];
    let n =
        build_default_response_for_frame(&frame, Status::UnsupportedCluster, &mut buf).unwrap();

    assert_eq!(n, 7);
    assert_eq!(buf[0], 0x1c);
    assert_eq!(&buf[1..3], &[0x78, 0x56]);
    assert_eq!(buf[3], 0x42);
    assert_eq!(buf[4], 0x0b);
    assert_eq!(buf[5], 0x00);
    assert_eq!(buf[6], Status::UnsupportedCluster.as_u8());
}
#[test]
fn should_send_default_response_suppressed_on_broadcast() {
    let req: &[u8] = &[0x00, 0x01, 0x06];
    let (frame, _) = IncomingZclFrame::decode(req).unwrap();
    assert!(!should_send_default_response(
        &frame,
        broadcast(),
        Status::UnsupCommand
    ));
}

#[test]
fn should_send_default_response_suppressed_for_success_with_disable_bit() {
    // frame_control 0x10 = disable-default-response bit set
    let req: &[u8] = &[0x10, 0x01, 0x06];
    let (frame, _) = IncomingZclFrame::decode(req).unwrap();
    assert!(!should_send_default_response(
        &frame,
        unicast(),
        Status::Success
    ));
}

#[test]
fn should_send_default_response_error_ignores_disable_bit() {
    let req: &[u8] = &[0x10, 0x01, 0x06];
    let (frame, _) = IncomingZclFrame::decode(req).unwrap();
    assert!(should_send_default_response(
        &frame,
        unicast(),
        Status::UnsupCommand
    ));
}

#[test]
fn should_send_default_response_suppressed_for_incoming_default_response() {
    let req: &[u8] = &[
        0x18, // global | server→client | disable default response
        0x01, 0x0b, 0x00, 0x00,
    ];
    let (frame, _) = IncomingZclFrame::decode(req).unwrap();
    assert!(!should_send_default_response(
        &frame,
        unicast(),
        Status::UnsupportedCluster
    ));
}

#[test]
fn should_send_default_response_suppressed_for_write_no_response() {
    let req: &[u8] = &[0x00, 0x01, 0x05, 0x00, 0x00, 0x20, 0x01];
    let (frame, _) = IncomingZclFrame::decode(req).unwrap();
    assert!(!should_send_default_response(
        &frame,
        unicast(),
        Status::UnsupportedCluster
    ));
}

// -------------------------------------------------------------------
// DiscoverCommandsReceived / DiscoverCommandsGenerated
// -------------------------------------------------------------------

struct CommandServer;

impl ClusterServer for CommandServer {
    const CLUSTER_ID: u16 = 0xCAFE;

    fn read_attribute(
        &self,
        _id: AttributeId,
        _buf: &mut [u8],
    ) -> Result<(TypeId, usize), AttrError> {
        Err(AttrError::UnsupportedAttribute)
    }

    fn commands_received() -> Vec<CommandId> {
        vec![
            CommandId::new(0x00),
            CommandId::new(0x01),
            CommandId::new(0x02),
        ]
    }

    fn commands_generated() -> Vec<CommandId> {
        vec![CommandId::new(0x00)]
    }

    fn check_write_attribute(
        &self,
        _id: AttributeId,
        _type_id: TypeId,
        _data: &[u8],
    ) -> Result<(), AttrError> {
        Err(AttrError::UnsupportedAttribute)
    }

    fn write_attribute(
        &mut self,
        _id: AttributeId,
        _type_id: TypeId,
        _data: &[u8],
    ) -> Result<(), AttrError> {
        Err(AttrError::UnsupportedAttribute)
    }

    fn handle_command(
        &mut self,
        _id: CommandId,
        _payload: &[u8],
        _ctx: DispatchContext,
        _buf: &mut [u8],
    ) -> Result<CommandResult, ZclError> {
        Ok(CommandResult::DefaultResponse(Status::UnsupCommand))
    }

    fn tick(&mut self, _now_ms: u32) -> ClusterTick {
        ClusterTick::idle()
    }

    fn take_dispatch_effects(&mut self) -> DispatchEffects {
        DispatchEffects::none()
    }

    fn snapshot(&self, _buf: &mut [u8]) -> usize {
        0
    }

    fn restore_snapshot(&mut self, _buf: &[u8]) {}

    fn configure_reporting(
        &mut self,
        _record: ConfigureReportingRecord<'_>,
        _ctx: DispatchContext,
    ) -> Status {
        Status::UnreportableAttribute
    }

    fn collect_reports(
        &mut self,
        _now_ms: u32,
        _out: &mut ReportPayloadWriter<'_>,
    ) -> Result<Option<ClusterReportReady>, ZclError> {
        Ok(None)
    }

    fn report_delivery_result(
        &mut self,
        _token: ReportToken,
        _result: ReportDeliveryResult,
        _now_ms: u32,
    ) {
    }

    fn take_reporting_diagnostics(&mut self) -> ReportingDiagnostics {
        ReportingDiagnostics::none()
    }

    fn read_reporting_config(&self, attr_id: AttributeId, direction: u8, buf: &mut [u8]) -> usize {
        write_not_found(attr_id, direction, buf)
    }

    fn attribute_list() -> Vec<AttrInfo> {
        Vec::new()
    }
}

#[test]
fn discover_commands_received_empty_cluster_returns_complete() {
    // TestServer has no commands_received (default empty)
    let req: &[u8] = &[
        0x00, 0x20, 0x11, // DiscoverCommandsReceived
        0x00, // start_cmd = 0
        0xFF, // max_count = 255
    ];
    let (frame, _) = IncomingZclFrame::decode(req).unwrap();
    let mut buf = [0u8; 32];
    let mut server = TestServer::new();
    let n = zcl_cluster_dispatch(&mut server, &frame, unicast(), &mut buf)
        .unwrap()
        .response_len;

    // header(3) + discovery_complete(1) = 4, no command records
    assert_eq!(n, 4);
    assert_eq!(buf[2], 0x12); // DiscoverCommandsReceivedResponse
    assert_eq!(buf[3], 0x01); // discovery_complete = true
}

#[test]
fn discover_commands_received_all_fit_returns_complete() {
    let req: &[u8] = &[
        0x00, 0x21, 0x11, // DiscoverCommandsReceived
        0x00, // start_cmd = 0
        0xFF, // max_count = 255
    ];
    let (frame, _) = IncomingZclFrame::decode(req).unwrap();
    let mut buf = [0u8; 32];
    let mut server = CommandServer;
    let n = zcl_cluster_dispatch(&mut server, &frame, unicast(), &mut buf)
        .unwrap()
        .response_len;

    // header(3) + discovery_complete(1) + 3 command records × 1 byte = 7
    assert_eq!(n, 7);
    assert_eq!(buf[2], 0x12); // DiscoverCommandsReceivedResponse
    assert_eq!(buf[3], 0x01); // discovery_complete = true
    assert_eq!(buf[4], 0x00); // cmd 0x00
    assert_eq!(buf[5], 0x01); // cmd 0x01
    assert_eq!(buf[6], 0x02); // cmd 0x02
}

#[test]
fn discover_commands_received_truncated_returns_incomplete() {
    let req: &[u8] = &[
        0x00, 0x22, 0x11, // DiscoverCommandsReceived
        0x00, // start_cmd = 0
        0x02, // max_count = 2
    ];
    let (frame, _) = IncomingZclFrame::decode(req).unwrap();
    let mut buf = [0u8; 32];
    let mut server = CommandServer;
    let n = zcl_cluster_dispatch(&mut server, &frame, unicast(), &mut buf)
        .unwrap()
        .response_len;

    // header(3) + discovery_complete(1) + 2 records = 6
    assert_eq!(n, 6);
    assert_eq!(buf[3], 0x00); // discovery_complete = false
    assert_eq!(buf[4], 0x00); // cmd 0x00
    assert_eq!(buf[5], 0x01); // cmd 0x01
}

#[test]
fn discover_commands_received_start_offset_skips_earlier_commands() {
    let req: &[u8] = &[
        0x00, 0x23, 0x11, // DiscoverCommandsReceived
        0x01, // start_cmd = 1 (skip 0x00)
        0xFF,
    ];
    let (frame, _) = IncomingZclFrame::decode(req).unwrap();
    let mut buf = [0u8; 32];
    let mut server = CommandServer;
    let n = zcl_cluster_dispatch(&mut server, &frame, unicast(), &mut buf)
        .unwrap()
        .response_len;

    // header(3) + complete(1) + 2 records (0x01, 0x02) = 6
    assert_eq!(n, 6);
    assert_eq!(buf[3], 0x01); // complete
    assert_eq!(buf[4], 0x01);
    assert_eq!(buf[5], 0x02);
}

#[test]
fn discover_commands_generated_returns_correct_response_id() {
    let req: &[u8] = &[
        0x00, 0x24, 0x13, // DiscoverCommandsGenerated
        0x00, 0xFF,
    ];
    let (frame, _) = IncomingZclFrame::decode(req).unwrap();
    let mut buf = [0u8; 32];
    let mut server = CommandServer;
    let n = zcl_cluster_dispatch(&mut server, &frame, unicast(), &mut buf)
        .unwrap()
        .response_len;

    // header(3) + complete(1) + 1 record = 5
    assert_eq!(n, 5);
    assert_eq!(buf[2], 0x14); // DiscoverCommandsGeneratedResponse
    assert_eq!(buf[3], 0x01); // complete
    assert_eq!(buf[4], 0x00); // cmd 0x00
}

// -------------------------------------------------------------------
// DiscoverAttributesExtended
// -------------------------------------------------------------------

#[test]
fn discover_attributes_extended_all_fit_returns_complete_with_access() {
    let req: &[u8] = &[
        0x00, 0x30, 0x15, // DiscoverAttributesExtended
        0x00, 0x00, // start_attr = 0x0000
        0xFF, // max_count = 255
    ];
    let (frame, _) = IncomingZclFrame::decode(req).unwrap();
    let mut buf = [0u8; 64];
    let mut server = TestServer::new();
    let n = zcl_cluster_dispatch(&mut server, &frame, unicast(), &mut buf)
        .unwrap()
        .response_len;

    // header(3) + discovery_complete(1) + 3 records × 4 bytes = 16
    assert_eq!(n, 16);
    assert_eq!(buf[2], 0x16); // DiscoverAttributesExtendedResponse
    assert_eq!(buf[3], 0x01); // discovery_complete = true

    // First record: attr 0x0000, Uint8, READ (0x01)
    assert_eq!(buf[4..6], [0x00, 0x00]);
    assert_eq!(buf[6], TypeId::Uint8.as_u8());
    assert_eq!(buf[7], AccessFlags::read().as_u8());

    // Second record: attr 0x0001, Uint16, READ_WRITE (0x03)
    assert_eq!(buf[8..10], [0x01, 0x00]);
    assert_eq!(buf[10], TypeId::Uint16.as_u8());
    assert_eq!(buf[11], AccessFlags::read_write().as_u8());
}

#[test]
fn discover_attributes_extended_truncated_returns_incomplete() {
    let req: &[u8] = &[
        0x00, 0x31, 0x15, 0x00, 0x00, // start_attr = 0x0000
        0x01, // max_count = 1
    ];
    let (frame, _) = IncomingZclFrame::decode(req).unwrap();
    let mut buf = [0u8; 32];
    let mut server = TestServer::new();
    let n = zcl_cluster_dispatch(&mut server, &frame, unicast(), &mut buf)
        .unwrap()
        .response_len;

    // header(3) + complete(1) + 1 record × 4 bytes = 8
    assert_eq!(n, 8);
    assert_eq!(buf[3], 0x00); // discovery_complete = false
}
