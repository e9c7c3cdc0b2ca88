//! Cluster library frames.

use vstd::prelude::*;

use crate::bytes::read_u16;
use crate::bytes::Le;
use crate::payload::WriteAttributesPayload;
use crate::types::error::ZclError;
use crate::types::ids::AttributeId;
use crate::types::ids::CommandId;
use crate::types::ids::ManufacturerCode;

verus! {

/// Outcome of a request, as reported to the requester.
#[derive(Clone, Copy, Debug, PartialEq, Eq, Structural)]
pub enum Status {
    Success,
    Failure,
    NotAuthorized,
    MalformedCommand,
    UnsupCommand,
    UnsupGeneralCommand,
    UnsupManufacturerCommand,
    UnsupManufacturerGeneralCommand,
    InvalidField,
    UnsupportedAttribute,
    InvalidValue,
    ReadOnly,
    InsufficientSpace,
    DuplicateExists,
    NotFound,
    UnreportableAttribute,
    InvalidDataType,
    InvalidSelector,
    WriteOnly,
    Timeout,
    Abort,
    HardwareFailure,
    SoftwareFailure,
    UnsupportedCluster,
}

impl Status {
    /// The status byte.
    pub open spec fn code(self) -> u8 {
        match self {
            Status::Success => 0x00,
            Status::Failure => 0x01,
            Status::NotAuthorized => 0x7e,
            Status::MalformedCommand => 0x80,
            Status::UnsupCommand => 0x81,
            Status::UnsupGeneralCommand => 0x82,
            Status::UnsupManufacturerCommand => 0x83,
            Status::UnsupManufacturerGeneralCommand => 0x84,
            Status::InvalidField => 0x85,
            Status::UnsupportedAttribute => 0x86,
            Status::InvalidValue => 0x87,
            Status::ReadOnly => 0x88,
            Status::InsufficientSpace => 0x89,
            Status::DuplicateExists => 0x8a,
            Status::NotFound => 0x8b,
            Status::UnreportableAttribute => 0x8c,
            Status::InvalidDataType => 0x8d,
            Status::InvalidSelector => 0x8e,
            Status::WriteOnly => 0x8f,
            Status::Timeout => 0x94,
            Status::Abort => 0x95,
            Status::HardwareFailure => 0xc0,
            Status::SoftwareFailure => 0xc1,
            Status::UnsupportedCluster => 0xc3,
        }
    }

    pub fn as_u8(self) -> (raw: u8)
        ensures
            raw == self.code(),
    {
        match self {
            Status::Success => 0x00,
            Status::Failure => 0x01,
            Status::NotAuthorized => 0x7e,
            Status::MalformedCommand => 0x80,
            Status::UnsupCommand => 0x81,
            Status::UnsupGeneralCommand => 0x82,
            Status::UnsupManufacturerCommand => 0x83,
            Status::UnsupManufacturerGeneralCommand => 0x84,
            Status::InvalidField => 0x85,
            Status::UnsupportedAttribute => 0x86,
            Status::InvalidValue => 0x87,
            Status::ReadOnly => 0x88,
            Status::InsufficientSpace => 0x89,
            Status::DuplicateExists => 0x8a,
            Status::NotFound => 0x8b,
            Status::UnreportableAttribute => 0x8c,
            Status::InvalidDataType => 0x8d,
            Status::InvalidSelector => 0x8e,
            Status::WriteOnly => 0x8f,
            Status::Timeout => 0x94,
            Status::Abort => 0x95,
            Status::HardwareFailure => 0xc0,
            Status::SoftwareFailure => 0xc1,
            Status::UnsupportedCluster => 0xc3,
        }
    }
}

/// Which side of a cluster sent a frame.
#[derive(Clone, Copy, Debug, PartialEq, Eq, Structural)]
pub enum Direction {
    ClientToServer,
    ServerToClient,
}

/// A command that every cluster understands.
#[derive(Clone, Copy, Debug, PartialEq, Eq, Structural)]
pub enum CommandIdentifier {
    ReadAttributes,
    ReadAttributesResponse,
    WriteAttributes,
    WriteAttributesUndivided,
    WriteAttributesResponse,
    WriteAttributesNoResponse,
    ConfigureReporting,
    ConfigureReportingResponse,
    ReadReportingConfiguration,
    ReadReportingConfigurationResponse,
    ReportAttributes,
    DefaultResponse,
    DiscoverAttributes,
    DiscoverAttributesResponse,
    ReadAttributesStructured,
    WriteAttributesStructured,
    WriteAttributesStructuredResponse,
    DiscoverCommandsReceived,
    DiscoverCommandsReceivedResponse,
    DiscoverCommandsGenerated,
    DiscoverCommandsGeneratedResponse,
    DiscoverAttributesExtended,
    DiscoverAttributesExtendedResponse,
}

impl CommandIdentifier {
    /// The command byte.
    pub open spec fn code(self) -> u8 {
        match self {
            CommandIdentifier::ReadAttributes => 0x00,
            CommandIdentifier::ReadAttributesResponse => 0x01,
            CommandIdentifier::WriteAttributes => 0x02,
            CommandIdentifier::WriteAttributesUndivided => 0x03,
            CommandIdentifier::WriteAttributesResponse => 0x04,
            CommandIdentifier::WriteAttributesNoResponse => 0x05,
            CommandIdentifier::ConfigureReporting => 0x06,
            CommandIdentifier::ConfigureReportingResponse => 0x07,
            CommandIdentifier::ReadReportingConfiguration => 0x08,
            CommandIdentifier::ReadReportingConfigurationResponse => 0x09,
            CommandIdentifier::ReportAttributes => 0x0a,
            CommandIdentifier::DefaultResponse => 0x0b,
            CommandIdentifier::DiscoverAttributes => 0x0c,
            CommandIdentifier::DiscoverAttributesResponse => 0x0d,
            CommandIdentifier::ReadAttributesStructured => 0x0e,
            CommandIdentifier::WriteAttributesStructured => 0x0f,
            CommandIdentifier::WriteAttributesStructuredResponse => 0x10,
            CommandIdentifier::DiscoverCommandsReceived => 0x11,
            CommandIdentifier::DiscoverCommandsReceivedResponse => 0x12,
            CommandIdentifier::DiscoverCommandsGenerated => 0x13,
            CommandIdentifier::DiscoverCommandsGeneratedResponse => 0x14,
            CommandIdentifier::DiscoverAttributesExtended => 0x15,
            CommandIdentifier::DiscoverAttributesExtendedResponse => 0x16,
        }
    }

    pub fn raw(self) -> (raw: u8)
        ensures
            raw == self.code(),
    {
        match self {
            CommandIdentifier::ReadAttributes => 0x00,
            CommandIdentifier::ReadAttributesResponse => 0x01,
            CommandIdentifier::WriteAttributes => 0x02,
            CommandIdentifier::WriteAttributesUndivided => 0x03,
            CommandIdentifier::WriteAttributesResponse => 0x04,
            CommandIdentifier::WriteAttributesNoResponse => 0x05,
            CommandIdentifier::ConfigureReporting => 0x06,
            CommandIdentifier::ConfigureReportingResponse => 0x07,
            CommandIdentifier::ReadReportingConfiguration => 0x08,
            CommandIdentifier::ReadReportingConfigurationResponse => 0x09,
            CommandIdentifier::ReportAttributes => 0x0a,
            CommandIdentifier::DefaultResponse => 0x0b,
            CommandIdentifier::DiscoverAttributes => 0x0c,
            CommandIdentifier::DiscoverAttributesResponse => 0x0d,
            CommandIdentifier::ReadAttributesStructured => 0x0e,
            CommandIdentifier::WriteAttributesStructured => 0x0f,
            CommandIdentifier::WriteAttributesStructuredResponse => 0x10,
            CommandIdentifier::DiscoverCommandsReceived => 0x11,
            CommandIdentifier::DiscoverCommandsReceivedResponse => 0x12,
            CommandIdentifier::DiscoverCommandsGenerated => 0x13,
            CommandIdentifier::DiscoverCommandsGeneratedResponse => 0x14,
            CommandIdentifier::DiscoverAttributesExtended => 0x15,
            CommandIdentifier::DiscoverAttributesExtendedResponse => 0x16,
        }
    }

    /// The command with byte `raw`, if there is one.
    pub fn from_raw(raw: u8) -> (found: Option<CommandIdentifier>)
        ensures
            match found {
                Some(id) => id.code() == raw,
                None => raw > 0x16,
            },
    {
        match raw {
            0x00 => Some(CommandIdentifier::ReadAttributes),
            0x01 => Some(CommandIdentifier::ReadAttributesResponse),
            0x02 => Some(CommandIdentifier::WriteAttributes),
            0x03 => Some(CommandIdentifier::WriteAttributesUndivided),
            0x04 => Some(CommandIdentifier::WriteAttributesResponse),
            0x05 => Some(CommandIdentifier::WriteAttributesNoResponse),
            0x06 => Some(CommandIdentifier::ConfigureReporting),
            0x07 => Some(CommandIdentifier::ConfigureReportingResponse),
            0x08 => Some(CommandIdentifier::ReadReportingConfiguration),
            0x09 => Some(CommandIdentifier::ReadReportingConfigurationResponse),
            0x0a => Some(CommandIdentifier::ReportAttributes),
            0x0b => Some(CommandIdentifier::DefaultResponse),
            0x0c => Some(CommandIdentifier::DiscoverAttributes),
            0x0d => Some(CommandIdentifier::DiscoverAttributesResponse),
            0x0e => Some(CommandIdentifier::ReadAttributesStructured),
            0x0f => Some(CommandIdentifier::WriteAttributesStructured),
            0x10 => Some(CommandIdentifier::WriteAttributesStructuredResponse),
            0x11 => Some(CommandIdentifier::DiscoverCommandsReceived),
            0x12 => Some(CommandIdentifier::DiscoverCommandsReceivedResponse),
            0x13 => Some(CommandIdentifier::DiscoverCommandsGenerated),
            0x14 => Some(CommandIdentifier::DiscoverCommandsGeneratedResponse),
            0x15 => Some(CommandIdentifier::DiscoverAttributesExtended),
            0x16 => Some(CommandIdentifier::DiscoverAttributesExtendedResponse),
            _ => None,
        }
    }
}

/// A received global command.
#[derive(Clone, Copy)]
pub enum IncomingGlobalCommand<'a> {
    /// Two-byte attribute identifiers, one after the other.
    ReadAttributes(&'a [u8]),
    WriteAttributes(WriteAttributesPayload<'a>),
    WriteAttributesUndivided(WriteAttributesPayload<'a>),
    WriteAttributesNoResponse(WriteAttributesPayload<'a>),
    DefaultResponse { answered: u8, status: u8 },
    DiscoverAttributes { start_attr: AttributeId, max_count: u8 },
    DiscoverCommandsReceived { start_cmd: u8, max_count: u8 },
    DiscoverCommandsGenerated { start_cmd: u8, max_count: u8 },
    DiscoverAttributesExtended { start_attr: AttributeId, max_count: u8 },
    /// A defined command whose payload is left to the receiver.
    KnownUnhandled { command_id: CommandIdentifier, data: &'a [u8] },
    Unknown { code: u8, data: &'a [u8] },
}

/// A received command.
#[derive(Clone, Copy)]
pub enum IncomingZclCommand<'a> {
    Global(IncomingGlobalCommand<'a>),
    ClusterSpecific { command_id: CommandId, data: &'a [u8] },
}

impl<'a> IncomingZclCommand<'a> {
    /// The command byte.
    pub open spec fn code(self) -> u8 {
        match self {
            IncomingZclCommand::ClusterSpecific { command_id, .. } => command_id.0,
            IncomingZclCommand::Global(global) => match global {
                IncomingGlobalCommand::ReadAttributes(_) => 0x00,
                IncomingGlobalCommand::WriteAttributes(_) => 0x02,
                IncomingGlobalCommand::WriteAttributesUndivided(_) => 0x03,
                IncomingGlobalCommand::WriteAttributesNoResponse(_) => 0x05,
                IncomingGlobalCommand::DefaultResponse { .. } => 0x0b,
                IncomingGlobalCommand::DiscoverAttributes { .. } => 0x0c,
                IncomingGlobalCommand::DiscoverCommandsReceived { .. } => 0x11,
                IncomingGlobalCommand::DiscoverCommandsGenerated { .. } => 0x13,
                IncomingGlobalCommand::DiscoverAttributesExtended { .. } => 0x15,
                IncomingGlobalCommand::KnownUnhandled { command_id, .. } => command_id.code(),
                IncomingGlobalCommand::Unknown { code, .. } => code,
            },
        }
    }

    pub fn raw(&self) -> (raw: u8)
        ensures
            raw == self.code(),
    {
        match self {
            IncomingZclCommand::ClusterSpecific { command_id, .. } => command_id.0,
            IncomingZclCommand::Global(global) => match global {
                IncomingGlobalCommand::ReadAttributes(_) => 0x00,
                IncomingGlobalCommand::WriteAttributes(_) => 0x02,
                IncomingGlobalCommand::WriteAttributesUndivided(_) => 0x03,
                IncomingGlobalCommand::WriteAttributesNoResponse(_) => 0x05,
                IncomingGlobalCommand::DefaultResponse { .. } => 0x0b,
                IncomingGlobalCommand::DiscoverAttributes { .. } => 0x0c,
                IncomingGlobalCommand::DiscoverCommandsReceived { .. } => 0x11,
                IncomingGlobalCommand::DiscoverCommandsGenerated { .. } => 0x13,
                IncomingGlobalCommand::DiscoverAttributesExtended { .. } => 0x15,
                IncomingGlobalCommand::KnownUnhandled { command_id, .. } => command_id.raw(),
                IncomingGlobalCommand::Unknown { code, .. } => *code,
            },
        }
    }

    /// The command is an answer, or a request that asks for none.
    pub open spec fn is_final(self) -> bool {
        match self {
            IncomingZclCommand::Global(IncomingGlobalCommand::DefaultResponse { .. }) => true,
            IncomingZclCommand::Global(IncomingGlobalCommand::WriteAttributesNoResponse(_)) => true,
            _ => false,
        }
    }
}

/// The fields of a frame's bytes.
pub struct FrameFields {
    pub cluster_specific: bool,
    pub manufacturer_code: Option<ManufacturerCode>,
    pub direction: Direction,
    pub disable_default_response: bool,
    pub sequence_number: u8,
    pub command: u8,
    pub payload: Seq<u8>,
}

impl FrameFields {
    /// Splits a frame into its fields: a frame control byte, two bytes of
    /// manufacturer code where control bit 2 is set, the sequence number, the
    /// command and the payload.
    pub open spec fn of(bytes: Seq<u8>) -> Result<FrameFields, ZclError> {
        if bytes.len() == 0 {
            Err(ZclError::InsufficientBytes)
        } else if bytes[0] % 4 >= 2 {
            Err(ZclError::InvalidValue)
        } else {
            let mfr = bytes[0] / 4 % 2 == 1;
            let at = if mfr { 3int } else { 1int };
            if bytes.len() < at + 2 {
                Err(ZclError::InsufficientBytes)
            } else {
                Ok(
                    FrameFields {
                        cluster_specific: bytes[0] % 4 == 1,
                        manufacturer_code: if mfr {
                            Some(ManufacturerCode(Le::u16_at(bytes, 1)))
                        } else {
                            None
                        },
                        direction: if bytes[0] / 8 % 2 == 1 {
                            Direction::ServerToClient
                        } else {
                            Direction::ClientToServer
                        },
                        disable_default_response: bytes[0] / 16 % 2 == 1,
                        sequence_number: bytes[at],
                        command: bytes[at + 1],
                        payload: bytes.skip(at + 2),
                    },
                )
            }
        }
    }

    /// The payload ends before the fields of its command do.
    pub open spec fn truncated(self) -> bool {
        !self.cluster_specific && match self.command {
            0x00u8 => self.payload.len() % 2 != 0,
            0x0bu8 | 0x11u8 | 0x13u8 => self.payload.len() < 2,
            0x0cu8 | 0x15u8 => self.payload.len() < 3,
            _ => false,
        }
    }

    /// `command` holds these fields' command and payload.
    pub open spec fn describes(self, command: IncomingZclCommand) -> bool {
        command.code() == self.command && match command {
            IncomingZclCommand::ClusterSpecific { data, .. } => {
                &&& self.cluster_specific
                &&& data@ == self.payload
            },
            IncomingZclCommand::Global(global) => !self.cluster_specific && match global {
                IncomingGlobalCommand::ReadAttributes(data) => data@ == self.payload,
                IncomingGlobalCommand::WriteAttributes(p) => p.data@ == self.payload,
                IncomingGlobalCommand::WriteAttributesUndivided(p) => p.data@ == self.payload,
                IncomingGlobalCommand::WriteAttributesNoResponse(p) => p.data@ == self.payload,
                IncomingGlobalCommand::DefaultResponse { answered, status } => {
                    &&& answered == self.payload[0]
                    &&& status == self.payload[1]
                },
                IncomingGlobalCommand::DiscoverAttributes { start_attr, max_count }
                | IncomingGlobalCommand::DiscoverAttributesExtended { start_attr, max_count } => {
                    &&& start_attr.0 == Le::u16_at(self.payload, 0)
                    &&& max_count == self.payload[2]
                },
                IncomingGlobalCommand::DiscoverCommandsReceived { start_cmd, max_count }
                | IncomingGlobalCommand::DiscoverCommandsGenerated { start_cmd, max_count } => {
                    &&& start_cmd == self.payload[0]
                    &&& max_count == self.payload[1]
                },
                IncomingGlobalCommand::KnownUnhandled { command_id, data } => {
                    &&& !Self::has_own_variant(command_id)
                    &&& data@ == self.payload
                },
                IncomingGlobalCommand::Unknown { code, data } => {
                    &&& code > 0x16
                    &&& data@ == self.payload
                },
            },
        }
    }

    /// Commands that are decoded further than their identifier.
    pub open spec fn has_own_variant(id: CommandIdentifier) -> bool {
        match id {
            CommandIdentifier::ReadAttributes
            | CommandIdentifier::WriteAttributes
            | CommandIdentifier::WriteAttributesUndivided
            | CommandIdentifier::WriteAttributesNoResponse
            | CommandIdentifier::DefaultResponse
            | CommandIdentifier::DiscoverAttributes
            | CommandIdentifier::DiscoverCommandsReceived
            | CommandIdentifier::DiscoverCommandsGenerated
            | CommandIdentifier::DiscoverAttributesExtended => true,
            _ => false,
        }
    }
}

/// A received frame.
#[derive(Clone, Copy)]
pub struct IncomingZclFrame<'a> {
    pub direction: Direction,
    pub manufacturer_code: Option<ManufacturerCode>,
    pub sequence_number: u8,
    pub disable_default_response: bool,
    pub command: IncomingZclCommand<'a>,
}

impl<'a> IncomingZclFrame<'a> {
    /// The frame holds these fields.
    pub open spec fn holds(self, fields: FrameFields) -> bool {
        &&& self.direction == fields.direction
        &&& self.manufacturer_code == fields.manufacturer_code
        &&& self.sequence_number == fields.sequence_number
        &&& self.disable_default_response == fields.disable_default_response
        &&& fields.describes(self.command)
    }

    /// Decode a frame. Returns it with the number of bytes taken, which is all
    /// of them.
    pub fn decode(bytes: &'a [u8]) -> (r: Result<(IncomingZclFrame<'a>, usize), ZclError>)
        ensures
            match FrameFields::of(bytes@) {
                Err(e) => r is Err && r->Err_0 == e,
                Ok(fields) => if fields.truncated() {
                    r is Err && r->Err_0 == ZclError::InsufficientBytes
                } else {
                    r is Ok && r->Ok_0.1 == bytes@.len() && r->Ok_0.0.holds(fields)
                },
            },
    {
        if bytes.len() == 0 {
            return Err(ZclError::InsufficientBytes);
        }
        let control: u8 = bytes[0];
        if control % 4 >= 2 {
            return Err(ZclError::InvalidValue);
        }
        let has_mfr: bool = control / 4 % 2 == 1;
        let at: usize = if has_mfr { 3 } else { 1 };
        if bytes.len() < at + 2 {
            return Err(ZclError::InsufficientBytes);
        }
        let manufacturer_code: Option<ManufacturerCode> = if has_mfr {
            Some(ManufacturerCode(read_u16(bytes, 1)))
        } else {
            None
        };
        let direction: Direction = if control / 8 % 2 == 1 {
            Direction::ServerToClient
        } else {
            Direction::ClientToServer
        };
        let command_byte: u8 = bytes[at + 1];
        let payload: &'a [u8] = &bytes[at + 2..bytes.len()];
        assert(payload@ =~= bytes@.skip(at + 2));
        let ghost fields = FrameFields::of(bytes@)->Ok_0;
        let command: IncomingZclCommand<'a> = if control % 4 == 1 {
            IncomingZclCommand::ClusterSpecific {
                command_id: CommandId(command_byte),
                data: payload,
            }
        } else {
            match decode_global(command_byte, payload, Ghost(fields)) {
                Ok(global) => IncomingZclCommand::Global(global),
                Err(e) => {
                    return Err(e);
                },
            }
        };
        Ok(
            (
                IncomingZclFrame {
                    direction,
                    manufacturer_code,
                    sequence_number: bytes[at],
                    disable_default_response: control / 16 % 2 == 1,
                    command,
                },
                bytes.len(),
            ),
        )
    }

    pub fn command(&self) -> (command: &IncomingZclCommand<'a>)
        ensures
            *command == self.command,
    {
        &self.command
    }

    pub fn direction(&self) -> (direction: Direction)
        ensures
            direction == self.direction,
    {
        self.direction
    }

    pub fn manufacturer_code(&self) -> (code: Option<ManufacturerCode>)
        ensures
            code == self.manufacturer_code,
    {
        self.manufacturer_code
    }

    pub fn sequence_number(&self) -> (number: u8)
        ensures
            number == self.sequence_number,
    {
        self.sequence_number
    }

    pub fn disable_default_response(&self) -> (disabled: bool)
        ensures
            disabled == self.disable_default_response,
    {
        self.disable_default_response
    }
}

/// Decode the payload of global command `command`.
fn decode_global<'a>(command: u8, payload: &'a [u8], fields: Ghost<FrameFields>) -> (r: Result<
    IncomingGlobalCommand<'a>,
    ZclError,
>)
    requires
        !fields@.cluster_specific,
        fields@.command == command,
        fields@.payload == payload@,
    ensures
        fields@.truncated() ==> r is Err && r->Err_0 == ZclError::InsufficientBytes,
        !fields@.truncated() ==> r is Ok && fields@.describes(IncomingZclCommand::Global(r->Ok_0)),
{
    let n: usize = payload.len();
    let id: CommandIdentifier = match CommandIdentifier::from_raw(command) {
        Some(id) => id,
        None => {
            return Ok(IncomingGlobalCommand::Unknown { code: command, data: payload });
        },
    };
    let written: WriteAttributesPayload<'a> = WriteAttributesPayload { data: payload };
    match id {
        CommandIdentifier::ReadAttributes => if n % 2 != 0 {
            Err(ZclError::InsufficientBytes)
        } else {
            Ok(IncomingGlobalCommand::ReadAttributes(payload))
        },
        CommandIdentifier::WriteAttributes => Ok(IncomingGlobalCommand::WriteAttributes(written)),
        CommandIdentifier::WriteAttributesUndivided => Ok(
            IncomingGlobalCommand::WriteAttributesUndivided(written),
        ),
        CommandIdentifier::WriteAttributesNoResponse => Ok(
            IncomingGlobalCommand::WriteAttributesNoResponse(written),
        ),
        CommandIdentifier::DefaultResponse => if n < 2 {
            Err(ZclError::InsufficientBytes)
        } else {
            Ok(
                IncomingGlobalCommand::DefaultResponse {
                    answered: payload[0],
                    status: payload[1],
                },
            )
        },
        CommandIdentifier::DiscoverAttributes => if n < 3 {
            Err(ZclError::InsufficientBytes)
        } else {
            Ok(
                IncomingGlobalCommand::DiscoverAttributes {
                    start_attr: AttributeId(read_u16(payload, 0)),
                    max_count: payload[2],
                },
            )
        },
        CommandIdentifier::DiscoverAttributesExtended => if n < 3 {
            Err(ZclError::InsufficientBytes)
        } else {
            Ok(
                IncomingGlobalCommand::DiscoverAttributesExtended {
                    start_attr: AttributeId(read_u16(payload, 0)),
                    max_count: payload[2],
                },
            )
        },
        CommandIdentifier::DiscoverCommandsReceived => if n < 2 {
            Err(ZclError::InsufficientBytes)
        } else {
            Ok(
                IncomingGlobalCommand::DiscoverCommandsReceived {
                    start_cmd: payload[0],
                    max_count: payload[1],
                },
            )
        },
        CommandIdentifier::DiscoverCommandsGenerated => if n < 2 {
            Err(ZclError::InsufficientBytes)
        } else {
            Ok(
                IncomingGlobalCommand::DiscoverCommandsGenerated {
                    start_cmd: payload[0],
                    max_count: payload[1],
                },
            )
        },
        _ => Ok(IncomingGlobalCommand::KnownUnhandled { command_id: id, data: payload }),
    }
}

} // verus!
