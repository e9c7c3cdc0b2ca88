//! The basic cluster.

use vstd::prelude::*;

use crate::cluster_server::ClusterServer;
use crate::context::ClusterReportReady;
use crate::context::ClusterTick;
use crate::context::CommandResult;
use crate::context::ConfigureReportingRecord;
use crate::context::DispatchContext;
use crate::context::DispatchEffects;
use crate::context::ReportDeliveryResult;
use crate::context::ReportToken;
use crate::context::ReportingDiagnostics;
use crate::frame::Status;
use crate::reporting::ReportPayloadWriter;
use crate::types::codec::encode_attr;
use crate::types::codec::AttrValue;
use crate::types::codec::ReadSpec;
use crate::types::descriptors::AttrInfo;
use crate::types::error::AttrError;
use crate::types::error::ZclError;
use crate::types::ids::AttributeId;
use crate::types::ids::CommandId;
use crate::types::ids::TypeId;
use crate::attribute_store::encode_short_text;
use crate::attribute_store::AttrDescriptor;
use crate::attribute_store::SplitAttributeStore;
use crate::attribute_store::StorageKind;
use crate::attribute_store::StoreState;
use crate::bytes::Le;
use crate::types::descriptors::AccessFlags;

verus! {

/// Static configuration of the basic cluster.
#[derive(Debug, Clone, Copy, PartialEq, Eq)]
pub struct BasicConfig {
    /// Attribute 0x0000.
    pub zcl_version: u8,
    /// Attribute 0x0004.
    pub manufacturer_name: &'static str,
    /// Attribute 0x0005.
    pub model_identifier: &'static str,
    /// Attribute 0x0007.
    pub power_source: u8,
    /// Attribute 0x0012, at first.
    pub device_enabled: bool,
}

impl BasicConfig {
    pub fn new(
        zcl_version: u8,
        manufacturer_name: &'static str,
        model_identifier: &'static str,
        power_source: u8,
        device_enabled: bool,
    ) -> (config: Self)
        ensures
            config.zcl_version == zcl_version,
            config.manufacturer_name@ == manufacturer_name@,
            config.model_identifier@ == model_identifier@,
            config.power_source == power_source,
            config.device_enabled == device_enabled,
    {
        BasicConfig {
            zcl_version,
            manufacturer_name,
            model_identifier,
            power_source,
            device_enabled,
        }
    }
}

/// Basic, cluster 0x0000.
///
/// Static strings and scalars come from [`BasicConfig`]. Whether the device is
/// enabled is mutable.
pub struct BasicServer {
    zcl_version: u8,
    manufacturer_name: &'static str,
    model_identifier: &'static str,
    power_source: u8,
    device_enabled: SplitAttributeStore<1>,
}

/// The state of a basic server.
pub struct BasicState {
    pub zcl_version: u8,
    pub manufacturer_name: Seq<char>,
    pub model_identifier: Seq<char>,
    pub power_source: u8,
    pub device_enabled: bool,
}

impl View for BasicServer {
    type V = BasicState;

    closed spec fn view(&self) -> BasicState {
        BasicState {
            zcl_version: self.zcl_version,
            manufacturer_name: self.manufacturer_name@,
            model_identifier: self.model_identifier@,
            power_source: self.power_source,
            device_enabled: self.device_enabled@.scalars[0] == 1,
        }
    }
}

impl BasicState {
    /// What reading an attribute gives.
    pub open spec fn read(self, id: AttributeId, cap: nat) -> ReadSpec {
        match id.0 {
            0x0000 => AttrValue::Uint8(self.zcl_version).read(cap),
            0x0004 => crate::attribute_store::short_text(
                vstd::utf8::encode_utf8(self.manufacturer_name),
                cap,
            ),
            0x0005 => crate::attribute_store::short_text(
                vstd::utf8::encode_utf8(self.model_identifier),
                cap,
            ),
            0x0007 => AttrValue::Uint8(self.power_source).read(cap),
            0x0012 => AttrValue::Boolean(self.device_enabled).read(cap),
            _ => Err(AttrError::UnsupportedAttribute),
        }
    }

    /// The state after a write, or why there is none. Only whether the device is
    /// enabled is writable.
    pub open spec fn written(self, id: AttributeId, type_id: TypeId, data: Seq<u8>) -> Result<
        Self,
        AttrError,
    > {
        match id.0 {
            0x0012 => if type_id != TypeId::Boolean {
                Err(AttrError::InvalidDataType)
            } else if data.len() < 1 {
                Err(AttrError::Codec(ZclError::InsufficientBytes))
            } else if data.len() > 1 {
                Err(AttrError::Codec(ZclError::InvalidLength))
            } else if data[0] > 1 {
                Err(AttrError::Codec(ZclError::InvalidValue))
            } else {
                Ok(BasicState { device_enabled: data[0] == 1, ..self })
            },
            0x0000 | 0x0004 | 0x0005 | 0x0007 => Err(AttrError::ReadOnly),
            _ => Err(AttrError::UnsupportedAttribute),
        }
    }
}

/// The one attribute that is kept in the store.
spec fn enabled_attr() -> AttrDescriptor {
    AttrDescriptor {
        attr: AttributeId(0x0012),
        access: AccessFlags { readable: true, writable: true, reportable: false },
        type_id: TypeId::Boolean,
        storage: StorageKind::MutableScalar { index: 0 },
    }
}

/// What the store holds of whether the device is enabled.
proof fn lemma_store(s: StoreState, type_id: TypeId, data: Seq<u8>, cap: nat)
    requires
        s.attrs == seq![enabled_attr()],
        s.scalars.len() == 1,
        s.scalars[0] <= 1,
    ensures
        s.find(AttributeId(0x0012)) == Some(enabled_attr()),
        s.read(AttributeId(0x0012), cap) == AttrValue::Boolean(s.scalars[0] == 1).read(cap),
        type_id == TypeId::Boolean && data.len() == 1 ==> Le::value(data) == data[0],
{
    assert(s.is_at(AttributeId(0x0012), 0));
    let k = choose|i: int| s.is_at(AttributeId(0x0012), i);
    assert(s.is_at(AttributeId(0x0012), k));
    reveal_with_fuel(Le::bytes, 2);
    reveal_with_fuel(Le::value, 2);
    assert(Le::bytes(s.scalars[0] as nat, 1) =~= seq![s.scalars[0] as u8]);
}

impl BasicServer {
    /// A server that hides how its attributes are stored.
    pub fn new(config: BasicConfig) -> (server: Self)
        ensures
            server.wf(),
            server@ == (BasicState {
                zcl_version: config.zcl_version,
                manufacturer_name: config.manufacturer_name@,
                model_identifier: config.model_identifier@,
                power_source: config.power_source,
                device_enabled: config.device_enabled,
            }),
    {
        let enabled: u64 = if config.device_enabled {
            1
        } else {
            0
        };
        let attrs: Vec<AttrDescriptor> =
            vec![
            AttrDescriptor {
                attr: AttributeId::new(0x0012),
                access: AccessFlags::read_write(),
                type_id: TypeId::Boolean,
                storage: StorageKind::MutableScalar { index: 0 },
            },
        ];
        assert(attrs@ =~= seq![enabled_attr()]);
        BasicServer {
            zcl_version: config.zcl_version,
            manufacturer_name: config.manufacturer_name,
            model_identifier: config.model_identifier,
            power_source: config.power_source,
            device_enabled: SplitAttributeStore::new(attrs, [enabled]),
        }
    }

    pub fn device_enabled(&self) -> (yes: bool)
        requires
            self.wf(),
        ensures
            yes == self@.device_enabled,
    {
        let mut buf: [u8; 1] = [0];
        proof {
            lemma_store(self.device_enabled@, TypeId::Boolean, Seq::empty(), 1);
        }
        match self.device_enabled.read_into(AttributeId::new(0x0012), &mut buf) {
            Ok((_, n)) => n == 1 && buf[0] == 0x01,
            Err(_) => false,
        }
    }

    pub fn set_device_enabled(&mut self, enabled: bool)
        requires
            old(self).wf(),
        ensures
            final(self).wf(),
            final(self)@ == (BasicState { device_enabled: enabled, ..old(self)@ }),
    {
        let byte: u8 = if enabled {
            1
        } else {
            0
        };
        let data: [u8; 1] = [byte];
        proof {
            lemma_store(self.device_enabled@, TypeId::Boolean, data@, 1);
        }
        let _stored: Result<(), AttrError> = self.device_enabled.write_from(
            AttributeId::new(0x0012),
            TypeId::Boolean,
            &data,
        );
    }
}

impl ClusterServer for BasicServer {
    const CLUSTER_ID: u16 = 0x0000;

    closed spec fn wf(&self) -> bool {
        &&& self.device_enabled.wf()
        &&& self.device_enabled@.attrs == seq![enabled_attr()]
        &&& self.device_enabled@.scalars.len() == 1
        &&& self.device_enabled@.scalars[0] <= 1
    }

    open spec fn attr(&self, id: AttributeId, cap: nat) -> ReadSpec {
        self@.read(id, cap)
    }

    open spec fn write_check(&self, id: AttributeId, type_id: TypeId, data: Seq<u8>) -> Result<
        (),
        AttrError,
    > {
        match self@.written(id, type_id, data) {
            Ok(_) => Ok(()),
            Err(e) => Err(e),
        }
    }

    open spec fn wrote(
        pre: Self,
        id: AttributeId,
        type_id: TypeId,
        data: Seq<u8>,
        post: Self,
        r: Result<(), AttrError>,
    ) -> bool {
        match pre@.written(id, type_id, data) {
            Ok(next) => post@ == next && r == Ok::<(), AttrError>(()),
            Err(e) => post@ == pre@ && r == Err::<(), AttrError>(e),
        }
    }

    open spec fn handled(
        pre: Self,
        id: CommandId,
        payload: Seq<u8>,
        ctx: DispatchContext,
        before: Seq<u8>,
        post: Self,
        body: Seq<u8>,
        r: Result<CommandResult, ZclError>,
    ) -> bool {
        post@ == pre@ && body == before && r == Ok::<CommandResult, ZclError>(
            CommandResult::DefaultResponse(Status::UnsupCommand),
        )
    }

    open spec fn attribute_infos() -> Seq<AttrInfo> {
        seq![
            AttrInfo::ro(0x0000, TypeId::Uint8),
            AttrInfo::ro(0x0004, TypeId::CharacterString),
            AttrInfo::ro(0x0005, TypeId::CharacterString),
            AttrInfo::ro(0x0007, TypeId::Uint8),
            AttrInfo::rw(0x0012, TypeId::Boolean),
        ]
    }

    fn read_attribute(&self, id: AttributeId, buf: &mut [u8]) -> (r: Result<
        (TypeId, usize),
        AttrError,
    >) {
        match id.0 {
            0x0000 => encode_attr(AttrValue::Uint8(self.zcl_version), buf),
            0x0004 => encode_short_text(self.manufacturer_name, buf),
            0x0005 => encode_short_text(self.model_identifier, buf),
            0x0007 => encode_attr(AttrValue::Uint8(self.power_source), buf),
            0x0012 => {
                proof {
                    lemma_store(
                        self.device_enabled@,
                        TypeId::Boolean,
                        Seq::empty(),
                        buf@.len(),
                    );
                }
                self.device_enabled.read_into(id, buf)
            },
            _ => Err(AttrError::UnsupportedAttribute),
        }
    }

    fn check_write_attribute(&self, id: AttributeId, type_id: TypeId, data: &[u8]) -> (r: Result<
        (),
        AttrError,
    >) {
        match id.0 {
            0x0012 => {
                proof {
                    lemma_store(self.device_enabled@, type_id, data@, 1);
                }
                self.device_enabled.check_write_from(id, type_id, data)
            },
            0x0000 | 0x0004 | 0x0005 | 0x0007 => Err(AttrError::ReadOnly),
            _ => Err(AttrError::UnsupportedAttribute),
        }
    }

    fn write_attribute(&mut self, id: AttributeId, type_id: TypeId, data: &[u8]) -> (r: Result<
        (),
        AttrError,
    >) {
        match id.0 {
            0x0012 => {
                proof {
                    lemma_store(self.device_enabled@, type_id, data@, 1);
                }
                self.device_enabled.write_from(id, type_id, data)
            },
            0x0000 | 0x0004 | 0x0005 | 0x0007 => Err(AttrError::ReadOnly),
            _ => Err(AttrError::UnsupportedAttribute),
        }
    }

    fn handle_command(
        &mut self,
        id: CommandId,
        payload: &[u8],
        ctx: DispatchContext,
        buf: &mut [u8],
    ) -> (r: Result<CommandResult, ZclError>) {
        Ok(CommandResult::DefaultResponse(Status::UnsupCommand))
    }

    fn tick(&mut self, now_ms: u32) -> (r: ClusterTick) {
        ClusterTick::idle()
    }

    fn take_dispatch_effects(&mut self) -> (r: DispatchEffects) {
        DispatchEffects::none()
    }

    fn snapshot(&self, buf: &mut [u8]) -> (n: usize) {
        assert(buf@ =~= Seq::<u8>::empty() + buf@.skip(0));
        0
    }

    fn restore_snapshot(&mut self, buf: &[u8]) {
    }

    fn configure_reporting(
        &mut self,
        record: ConfigureReportingRecord<'_>,
        ctx: DispatchContext,
    ) -> (r: Status) {
        Status::UnreportableAttribute
    }

    fn collect_reports(&mut self, now_ms: u32, out: &mut ReportPayloadWriter<'_>) -> (r: Result<
        Option<ClusterReportReady>,
        ZclError,
    >) {
        Ok(None)
    }

    fn report_delivery_result(
        &mut self,
        token: ReportToken,
        result: ReportDeliveryResult,
        now_ms: u32,
    ) {
    }

    fn take_reporting_diagnostics(&mut self) -> (r: ReportingDiagnostics) {
        ReportingDiagnostics::none()
    }

    fn read_reporting_config(&self, attr_id: AttributeId, direction: u8, buf: &mut [u8]) -> (n:
        usize) {
        crate::reporting::write_not_found(attr_id, direction, buf)
    }

    fn attribute_list() -> (list: Vec<AttrInfo>) {
        vec![
            AttrInfo::read_only(0x0000, TypeId::Uint8),
            AttrInfo::read_only(0x0004, TypeId::CharacterString),
            AttrInfo::read_only(0x0005, TypeId::CharacterString),
            AttrInfo::read_only(0x0007, TypeId::Uint8),
            AttrInfo::read_write(0x0012, TypeId::Boolean),
        ]
    }

    fn commands_received() -> (list: Vec<CommandId>) {
        Vec::new()
    }

    fn commands_generated() -> (list: Vec<CommandId>) {
        Vec::new()
    }
}

/// A value that was written is read back, and no other attribute changes.
pub proof fn law_written_value_is_read(
    pre: BasicServer,
    id: AttributeId,
    type_id: TypeId,
    data: Seq<u8>,
    post: BasicServer,
    other: AttributeId,
    cap: nat,
)
    requires
        BasicServer::wrote(pre, id, type_id, data, post, Ok(())),
        cap >= data.len(),
    ensures
        post.attr(id, cap) == Ok::<(TypeId, Seq<u8>), AttrError>((type_id, data)),
        other != id ==> post.attr(other, cap) == pre.attr(other, cap),
{
    assert(seq![data[0]] =~= data);
}

} // verus!
