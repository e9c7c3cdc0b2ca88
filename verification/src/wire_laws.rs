//! What the bytes of frames mean: how requests are read, and what their responses hold.

use vstd::prelude::*;

use crate::bytes::Le;
use crate::cluster_server::ClusterServer;
use crate::context::CommandResult;
use crate::context::DispatchContext;
use crate::context::DispatchOutcome;
use crate::context::RecordFields;
use crate::dispatch::Dispatch;
use crate::frame::CommandIdentifier;
use crate::frame::Direction;
use crate::frame::FrameFields;
use crate::frame::IncomingGlobalCommand;
use crate::frame::IncomingZclCommand;
use crate::frame::IncomingZclFrame;
use crate::frame::Status;
use crate::payload::WriteItem;
use crate::reporting::LatestReportingTable;
use crate::reporting::TableState;
use crate::types::descriptors::AttrInfo;
use crate::types::error::AttrError;
use crate::types::error::ZclError;
use crate::types::ids::AttributeId;
use crate::types::ids::CommandId;
use crate::types::ids::TypeId;
use crate::types::ids::ValueWidth;

verus! {

// ---------------------------------------------------------------------------
// Frames
// ---------------------------------------------------------------------------

/// A frame is its control byte, the manufacturer code where bit 2 of the control byte is
/// set, the sequence number, the command and the payload. Of the control byte, the lowest
/// bit tells a cluster-specific command from a general one, bit 3 what a server sends
/// from what a client sends, and bit 4 asks for no default response.
pub proof fn law_frame_is_read_field_by_field(
    specific: bool,
    code: Option<(u8, u8)>,
    from_server: bool,
    disabled: bool,
    high_bits: u8,
    sequence_number: u8,
    command: u8,
    payload: Seq<u8>,
)
    requires
        high_bits < 8,
    ensures
        ({
            let control = (if specific {
                1int
            } else {
                0
            }) + (if code is Some {
                4int
            } else {
                0
            }) + (if from_server {
                8int
            } else {
                0
            }) + (if disabled {
                16int
            } else {
                0
            }) + 32 * high_bits;
            let bytes = seq![control as u8] + (match code {
                Some((low, high)) => seq![low, high],
                None => Seq::empty(),
            }) + seq![sequence_number, command] + payload;
            FrameFields::of(bytes) matches Ok(f) && {
                &&& f.cluster_specific == specific
                &&& match code {
                    Some((low, high)) => f.manufacturer_code matches Some(m) && m.0 == low + 256
                        * high,
                    None => f.manufacturer_code is None,
                }
                &&& f.direction == if from_server {
                    Direction::ServerToClient
                } else {
                    Direction::ClientToServer
                }
                &&& f.disable_default_response == disabled
                &&& f.sequence_number == sequence_number
                &&& f.command == command
                &&& f.payload == payload
            }
        }),
{
    let control = (if specific {
        1int
    } else {
        0
    }) + (if code is Some {
        4int
    } else {
        0
    }) + (if from_server {
        8int
    } else {
        0
    }) + (if disabled {
        16int
    } else {
        0
    }) + 32 * high_bits;
    assert(0 <= control <= 255);
    let middle = match code {
        Some((low, high)) => seq![low, high],
        None => Seq::empty(),
    };
    let bytes = seq![control as u8] + middle + seq![sequence_number, command] + payload;
    let at = if code is Some {
        3int
    } else {
        1int
    };
    assert(bytes.skip(at + 2) =~= payload);
}

/// A frame of another type, or one that ends before its command does, is refused.
pub proof fn law_broken_frames_are_refused(bytes: Seq<u8>)
    ensures
        bytes.len() < 3 ==> FrameFields::of(bytes) is Err,
        bytes.len() >= 1 && (bytes[0] % 4 == 2 || bytes[0] % 4 == 3) ==> FrameFields::of(bytes)
            == Err::<FrameFields, ZclError>(ZclError::InvalidValue),
        bytes.len() >= 3 && bytes[0] % 4 <= 1 && bytes[0] % 8 < 4 ==> FrameFields::of(bytes) is Ok,
        bytes.len() >= 5 && bytes[0] % 4 <= 1 ==> FrameFields::of(bytes) is Ok,
        3 <= bytes.len() < 5 && bytes[0] % 8 >= 4 ==> FrameFields::of(bytes) is Err,
{
}

/// What a general command with each byte is read as: the requests that are taken further
/// with their fields, the others with their payload; and a byte above the last one is
/// unknown.
pub proof fn law_general_commands_are_told_apart(
    fields: FrameFields,
    command: IncomingZclCommand,
)
    requires
        fields.describes(command),
        !fields.truncated(),
        !fields.cluster_specific,
    ensures
        command matches IncomingZclCommand::Global(global) && {
            let c = fields.command;
            let p = fields.payload;
            &&& c == 0x00 ==> (global matches IncomingGlobalCommand::ReadAttributes(d) && d@ == p)
            &&& c == 0x02 ==> (global matches IncomingGlobalCommand::WriteAttributes(d) && d.data@
                == p)
            &&& c == 0x03 ==> (global matches IncomingGlobalCommand::WriteAttributesUndivided(d)
                && d.data@ == p)
            &&& c == 0x05 ==> (global matches IncomingGlobalCommand::WriteAttributesNoResponse(d)
                && d.data@ == p)
            &&& c == 0x06 ==> (global matches IncomingGlobalCommand::KnownUnhandled {
                command_id,
                data,
            } && command_id == CommandIdentifier::ConfigureReporting && data@ == p)
            &&& c == 0x07 ==> (global matches IncomingGlobalCommand::KnownUnhandled {
                command_id,
                data,
            } && command_id == CommandIdentifier::ConfigureReportingResponse && data@ == p)
            &&& c == 0x08 ==> (global matches IncomingGlobalCommand::KnownUnhandled {
                command_id,
                data,
            } && command_id == CommandIdentifier::ReadReportingConfiguration && data@ == p)
            &&& c == 0x0b ==> (global matches IncomingGlobalCommand::DefaultResponse {
                answered,
                status,
            } && answered == p[0] && status == p[1] && p.len() >= 2)
            &&& c == 0x0c ==> (global matches IncomingGlobalCommand::DiscoverAttributes {
                start_attr,
                max_count,
            } && start_attr.0 == p[0] + 256 * p[1] && max_count == p[2] && p.len() >= 3)
            &&& c == 0x11 ==> (global matches IncomingGlobalCommand::DiscoverCommandsReceived {
                start_cmd,
                max_count,
            } && start_cmd == p[0] && max_count == p[1] && p.len() >= 2)
            &&& c == 0x13 ==> (global matches IncomingGlobalCommand::DiscoverCommandsGenerated {
                start_cmd,
                max_count,
            } && start_cmd == p[0] && max_count == p[1] && p.len() >= 2)
            &&& c == 0x15 ==> (global matches IncomingGlobalCommand::DiscoverAttributesExtended {
                start_attr,
                max_count,
            } && start_attr.0 == p[0] + 256 * p[1] && max_count == p[2] && p.len() >= 3)
            &&& c == 0x01 || c == 0x04 || c == 0x09 || c == 0x0a || 0x0d <= c <= 0x10 || c == 0x12
                || c == 0x14 || c == 0x16 ==> (global matches IncomingGlobalCommand::KnownUnhandled {
                command_id,
                data,
            } && command_id.code() == c && data@ == p)
            &&& c > 0x16 ==> (global matches IncomingGlobalCommand::Unknown { code, data } && code
                == c && data@ == p)
        },
{
}

/// A cluster-specific command is read as its byte and its payload, whatever they are.
pub proof fn law_cluster_commands_are_kept(fields: FrameFields, command: IncomingZclCommand)
    requires
        fields.describes(command),
        fields.cluster_specific,
    ensures
        !fields.truncated(),
        command matches IncomingZclCommand::ClusterSpecific { command_id, data } && command_id.0
            == fields.command && data@ == fields.payload,
{
}

/// A read request holds whole identifiers, and a request with fields of its own holds them
/// all; any other payload may have any length.
pub proof fn law_short_payloads(fields: FrameFields)
    requires
        !fields.cluster_specific,
    ensures
        fields.command == 0x00 ==> (fields.truncated() <==> fields.payload.len() % 2 == 1),
        fields.command == 0x0b || fields.command == 0x11 || fields.command == 0x13 ==> (
        fields.truncated() <==> fields.payload.len() < 2),
        fields.command == 0x0c || fields.command == 0x15 ==> (fields.truncated()
            <==> fields.payload.len() < 3),
        fields.command == 0x02 || fields.command == 0x03 || 0x05 <= fields.command <= 0x0a
            || fields.command == 0x0d || fields.command > 0x15 ==> !fields.truncated(),
{
}

/// The command bytes of the general commands.
pub proof fn law_command_bytes()
    ensures
        CommandIdentifier::ReadAttributes.code() == 0x00,
        CommandIdentifier::ReadAttributesResponse.code() == 0x01,
        CommandIdentifier::WriteAttributes.code() == 0x02,
        CommandIdentifier::WriteAttributesUndivided.code() == 0x03,
        CommandIdentifier::WriteAttributesResponse.code() == 0x04,
        CommandIdentifier::WriteAttributesNoResponse.code() == 0x05,
        CommandIdentifier::ConfigureReporting.code() == 0x06,
        CommandIdentifier::ConfigureReportingResponse.code() == 0x07,
        CommandIdentifier::ReadReportingConfiguration.code() == 0x08,
        CommandIdentifier::ReadReportingConfigurationResponse.code() == 0x09,
        CommandIdentifier::ReportAttributes.code() == 0x0a,
        CommandIdentifier::DefaultResponse.code() == 0x0b,
        CommandIdentifier::DiscoverAttributes.code() == 0x0c,
        CommandIdentifier::DiscoverAttributesResponse.code() == 0x0d,
        CommandIdentifier::ReadAttributesStructured.code() == 0x0e,
        CommandIdentifier::WriteAttributesStructured.code() == 0x0f,
        CommandIdentifier::WriteAttributesStructuredResponse.code() == 0x10,
        CommandIdentifier::DiscoverCommandsReceived.code() == 0x11,
        CommandIdentifier::DiscoverCommandsReceivedResponse.code() == 0x12,
        CommandIdentifier::DiscoverCommandsGenerated.code() == 0x13,
        CommandIdentifier::DiscoverCommandsGeneratedResponse.code() == 0x14,
        CommandIdentifier::DiscoverAttributesExtended.code() == 0x15,
        CommandIdentifier::DiscoverAttributesExtendedResponse.code() == 0x16,
{
}

/// The status bytes.
pub proof fn law_status_bytes()
    ensures
        Status::Success.code() == 0x00,
        Status::Failure.code() == 0x01,
        Status::NotAuthorized.code() == 0x7e,
        Status::MalformedCommand.code() == 0x80,
        Status::UnsupCommand.code() == 0x81,
        Status::UnsupGeneralCommand.code() == 0x82,
        Status::UnsupManufacturerCommand.code() == 0x83,
        Status::UnsupManufacturerGeneralCommand.code() == 0x84,
        Status::InvalidField.code() == 0x85,
        Status::UnsupportedAttribute.code() == 0x86,
        Status::InvalidValue.code() == 0x87,
        Status::ReadOnly.code() == 0x88,
        Status::InsufficientSpace.code() == 0x89,
        Status::DuplicateExists.code() == 0x8a,
        Status::NotFound.code() == 0x8b,
        Status::UnreportableAttribute.code() == 0x8c,
        Status::InvalidDataType.code() == 0x8d,
        Status::InvalidSelector.code() == 0x8e,
        Status::WriteOnly.code() == 0x8f,
        Status::Timeout.code() == 0x94,
        Status::Abort.code() == 0x95,
        Status::HardwareFailure.code() == 0xc0,
        Status::SoftwareFailure.code() == 0xc1,
        Status::UnsupportedCluster.code() == 0xc3,
{
}

/// How many bytes a value of a data type takes, by the type's byte: one to eight for the
/// eight types each of general data, bitmaps, unsigned and signed integers, and so on.
pub proof fn law_value_widths(t: TypeId)
    ensures
        ({
            let c = t.code();
            &&& c == 0x00 ==> t.width() == ValueWidth::Fixed(0)
            &&& 0x08 <= c <= 0x0f ==> t.width() == ValueWidth::Fixed((c - 0x07) as u8)
            &&& c == 0x10 ==> t.width() == ValueWidth::Fixed(1)
            &&& 0x18 <= c <= 0x1f ==> t.width() == ValueWidth::Fixed((c - 0x17) as u8)
            &&& 0x20 <= c <= 0x27 ==> t.width() == ValueWidth::Fixed((c - 0x1f) as u8)
            &&& 0x28 <= c <= 0x2f ==> t.width() == ValueWidth::Fixed((c - 0x27) as u8)
            &&& c == 0x30 ==> t.width() == ValueWidth::Fixed(1)
            &&& c == 0x31 || c == 0x38 || c == 0xe8 || c == 0xe9 ==> t.width()
                == ValueWidth::Fixed(2)
            &&& c == 0x39 || 0xe0 <= c <= 0xe2 || c == 0xea ==> t.width() == ValueWidth::Fixed(4)
            &&& c == 0x3a || c == 0xf0 ==> t.width() == ValueWidth::Fixed(8)
            &&& c == 0x41 || c == 0x42 ==> t.width() == ValueWidth::ShortString
            &&& c == 0x43 || c == 0x44 ==> t.width() == ValueWidth::LongString
            &&& c == 0x48 || c == 0x4c || c == 0x50 || c == 0x51 ==> t.width()
                == ValueWidth::Composite
            &&& c == 0xf1 ==> t.width() == ValueWidth::Fixed(16)
        }),
{
}

/// The bytes of the data types that the clusters use.
pub proof fn law_type_bytes()
    ensures
        TypeId::NoData.code() == 0x00,
        TypeId::Boolean.code() == 0x10,
        TypeId::Bitmap8.code() == 0x18,
        TypeId::Bitmap16.code() == 0x19,
        TypeId::Bitmap32.code() == 0x1b,
        TypeId::Uint8.code() == 0x20,
        TypeId::Uint16.code() == 0x21,
        TypeId::Uint24.code() == 0x22,
        TypeId::Uint32.code() == 0x23,
        TypeId::Uint48.code() == 0x25,
        TypeId::Uint64.code() == 0x27,
        TypeId::Int8.code() == 0x28,
        TypeId::Int16.code() == 0x29,
        TypeId::Int24.code() == 0x2a,
        TypeId::Int32.code() == 0x2b,
        TypeId::Int64.code() == 0x2f,
        TypeId::Enum8.code() == 0x30,
        TypeId::Enum16.code() == 0x31,
        TypeId::SemiPrecision.code() == 0x38,
        TypeId::SinglePrecision.code() == 0x39,
        TypeId::DoublePrecision.code() == 0x3a,
        TypeId::OctetString.code() == 0x41,
        TypeId::CharacterString.code() == 0x42,
        TypeId::LongOctetString.code() == 0x43,
        TypeId::LongCharacterString.code() == 0x44,
        TypeId::Array.code() == 0x48,
        TypeId::Structure.code() == 0x4c,
        TypeId::TimeOfDay.code() == 0xe0,
        TypeId::Date.code() == 0xe1,
        TypeId::UtcTime.code() == 0xe2,
        TypeId::ClusterIdentifier.code() == 0xe8,
        TypeId::AttributeIdentifier.code() == 0xe9,
        TypeId::IeeeAddress.code() == 0xf0,
        TypeId::SecurityKey.code() == 0xf1,
{
}

/// What the requester is told of an attribute that cannot be read or written. A value that
/// cannot be encoded or decoded aborts the whole request.
pub proof fn law_attribute_errors_have_statuses(e: ZclError)
    ensures
        AttrError::UnsupportedAttribute.status() == Some(Status::UnsupportedAttribute),
        AttrError::ReadOnly.status() == Some(Status::ReadOnly),
        AttrError::InvalidDataType.status() == Some(Status::InvalidDataType),
        AttrError::InvalidValue.status() == Some(Status::InvalidValue),
        AttrError::Codec(e).status() is None,
{
}

// ---------------------------------------------------------------------------
// Responses
// ---------------------------------------------------------------------------

/// The header of a response: general or cluster-specific, from the server, asking for no
/// default response; with the request's manufacturer code and sequence number.
pub open spec fn answer_header(frame: IncomingZclFrame, specific: bool, command: u8) -> Seq<u8> {
    let kind = if specific {
        1int
    } else {
        0
    };
    match frame.manufacturer_code {
        None => seq![(0x18 + kind) as u8, frame.sequence_number, command],
        Some(code) => seq![
            (0x1c + kind) as u8,
            (code.0 % 256) as u8,
            (code.0 / 256) as u8,
            frame.sequence_number,
            command,
        ],
    }
}

proof fn lemma_headers(frame: IncomingZclFrame, command: u8)
    ensures
        Dispatch::global_header(frame, command) == answer_header(frame, false, command),
        Dispatch::cluster_header(frame, command) == answer_header(frame, true, command),
{
    assert(Dispatch::global_header(frame, command) =~= answer_header(frame, false, command));
    assert(Dispatch::cluster_header(frame, command) =~= answer_header(frame, true, command));
}

/// The response is `bytes`, at the front of a buffer that is left with `after`.
pub open spec fn answered(
    bytes: Seq<u8>,
    after: Seq<u8>,
    r: Result<DispatchOutcome, ZclError>,
) -> bool {
    &&& r is Ok
    &&& r->Ok_0.response_len == bytes.len()
    &&& bytes.len() <= after.len()
    &&& after.take(bytes.len() as int) == bytes
}

/// A default response names the command that it answers and the status.
pub proof fn law_default_response_layout(
    frame: IncomingZclFrame,
    ctx: DispatchContext,
    status: Status,
    cap: nat,
)
    requires
        ctx.is_unicast(),
        !(status == Status::Success && frame.disable_default_response),
        !(frame.command matches IncomingZclCommand::Global(
            IncomingGlobalCommand::DefaultResponse { .. },
        )),
        !(frame.command matches IncomingZclCommand::Global(
            IncomingGlobalCommand::WriteAttributesNoResponse(_),
        )),
        cap >= 7,
    ensures
        Dispatch::status_response(frame, ctx, status, cap) == Ok::<Seq<u8>, ZclError>(
            answer_header(frame, false, 0x0b) + seq![frame.command.code(), status.code()],
        ),
{
    lemma_headers(frame, 0x0b);
}

/// A command that the server answers with a status is answered with a default response of
/// that status, where one is due; one that it answers with a payload, with the payload
/// behind a cluster-specific header; and one that it answers with nothing, with nothing.
pub proof fn law_command_is_answered_as_the_server_says<CS: ClusterServer>(
    pre: CS,
    frame: IncomingZclFrame,
    ctx: DispatchContext,
    id: CommandId,
    data: Seq<u8>,
    before: Seq<u8>,
    mid: CS,
    body: Seq<u8>,
    h: Result<CommandResult, ZclError>,
    post: CS,
    after: Seq<u8>,
    r: Result<DispatchOutcome, ZclError>,
)
    requires
        before.len() <= usize::MAX,
        Dispatch::command_run(pre, frame, ctx, id, data, before, mid, body, h, post, after, r),
    ensures
        h matches Err(e) ==> r == Err::<DispatchOutcome, ZclError>(e) && post == mid,
        h == Ok::<CommandResult, ZclError>(CommandResult::Suppress) ==> answered(
            Seq::empty(),
            after,
            r,
        ),
        h matches Ok(CommandResult::Payload { command_id, len }) ==> {
            let header = answer_header(frame, true, command_id.0);
            if header.len() + len <= before.len() {
                answered(header + body.take(len as int), after, r)
            } else {
                r == Err::<DispatchOutcome, ZclError>(ZclError::BufferTooSmall)
            }
        },
        h matches Ok(CommandResult::DefaultResponse(status)) ==> before.len() >= 7 ==> {
            if ctx.is_unicast() && !frame.command.is_final() && !(status == Status::Success
                && frame.disable_default_response) {
                answered(
                    answer_header(frame, false, 0x0b) + seq![frame.command.code(), status.code()],
                    after,
                    r,
                )
            } else {
                answered(Seq::empty(), after, r)
            }
        },
{
    lemma_headers(frame, 0x0b);
    if let Ok(CommandResult::Payload { command_id, len }) = h {
        lemma_headers(frame, command_id.0);
    }
    assert(after.take(0) =~= Seq::<u8>::empty());
}

// ---------------------------------------------------------------------------
// Reading attributes
// ---------------------------------------------------------------------------

/// Each attribute that is asked for adds its identifier, then success, data type and value,
/// or the status of what is wrong; and what is asked for next is answered behind it.
pub proof fn law_read_answers_each_attribute<CS: ClusterServer>(
    server: CS,
    low: u8,
    high: u8,
    rest: Seq<u8>,
    acc: Seq<u8>,
    cap: nat,
)
    requires
        acc.len() + 4 <= cap,
    ensures
        ({
            let id = AttributeId((low + 256 * high) as u16);
            let all = Dispatch::read_run(server, seq![low, high] + rest, acc, cap);
            match server.attr(id, (cap - acc.len() - 4) as nat) {
                Ok((type_id, value)) => all == Dispatch::read_run(
                    server,
                    rest,
                    acc + seq![low, high, 0u8, type_id.code()] + value,
                    cap,
                ),
                Err(AttrError::Codec(e)) => all == Err::<Seq<u8>, ZclError>(e),
                Err(AttrError::UnsupportedAttribute) => all == Dispatch::read_run(
                    server,
                    rest,
                    acc + seq![low, high, 0x86u8],
                    cap,
                ),
                Err(AttrError::ReadOnly) => all == Dispatch::read_run(
                    server,
                    rest,
                    acc + seq![low, high, 0x88u8],
                    cap,
                ),
                Err(AttrError::InvalidDataType) => all == Dispatch::read_run(
                    server,
                    rest,
                    acc + seq![low, high, 0x8du8],
                    cap,
                ),
                Err(AttrError::InvalidValue) => all == Dispatch::read_run(
                    server,
                    rest,
                    acc + seq![low, high, 0x87u8],
                    cap,
                ),
            }
        }),
{
    let ids = seq![low, high] + rest;
    let id = AttributeId((low + 256 * high) as u16);
    assert(ids.skip(2) =~= rest);
    assert(Le::u16_at(ids, 0) == id.0);
    match server.attr(id, (cap - acc.len() - 4) as nat) {
        Ok((type_id, value)) => {
            assert(acc + Le::u16(id.0) + seq![0u8, type_id.code()] + value =~= acc + seq![
                low,
                high,
                0u8,
                type_id.code(),
            ] + value);
        },
        Err(e) => {
            if let Some(status) = e.status() {
                assert(acc + Le::u16(id.0) + seq![status.code()] =~= acc + seq![
                    low,
                    high,
                    status.code(),
                ]);
            }
        },
    }
}

/// A read request is answered with a read response: its header, and the answers.
pub proof fn law_read_response_layout<CS: ClusterServer>(
    server: CS,
    frame: IncomingZclFrame,
    ids: Seq<u8>,
    cap: nat,
)
    requires
        cap >= 5,
    ensures
        Dispatch::read_response(server, frame, ids, cap) == Dispatch::read_run(
            server,
            ids,
            answer_header(frame, false, 0x01),
            cap,
        ),
        ids.len() < 2 ==> Dispatch::read_response(server, frame, ids, cap) == Ok::<
            Seq<u8>,
            ZclError,
        >(answer_header(frame, false, 0x01)),
{
    lemma_headers(frame, 0x01);
}

// ---------------------------------------------------------------------------
// Writing attributes
// ---------------------------------------------------------------------------

/// A record of a write request is the attribute, lower byte first, the data type and the
/// value, as long as the type says; a string carries its length in front.
pub proof fn law_write_record_is_read_field_by_field(
    low: u8,
    high: u8,
    t: TypeId,
    value: Seq<u8>,
    rest: Seq<u8>,
)
    requires
        match t.width() {
            ValueWidth::Fixed(n) => value.len() == n,
            ValueWidth::ShortString => value.len() >= 1 && value.len() == 1 + value[0],
            ValueWidth::LongString => value.len() >= 2 && value.len() == 2 + value[0] + 256
                * value[1],
            ValueWidth::Composite => false,
        },
    ensures
        ({
            let data = seq![low, high, t.code()] + value + rest;
            &&& WriteItem::first(data) == (WriteItem::Record {
                attr_id: AttributeId((low + 256 * high) as u16),
                type_id: t,
                value,
            })
            &&& WriteItem::after(data) == rest
        }),
{
    let data = seq![low, high, t.code()] + value + rest;
    assert(data[2] == t.code());
    let chosen = choose|u: TypeId| #[trigger] u.code() == data[2];
    crate::types::ids::lemma_type_codes_distinct(t, chosen);
    assert(data.skip(3) =~= value + rest);
    assert(data.subrange(3, 3 + value.len() as int) =~= value);
    assert(data.skip(3 + value.len() as int) =~= rest);
}

/// A record that is cut short is told from one whose type says nothing of its length.
pub proof fn law_broken_write_records(data: Seq<u8>, t: TypeId)
    ensures
        data.len() == 0 ==> WriteItem::first(data) == WriteItem::End,
        1 <= data.len() < 3 ==> WriteItem::first(data) == WriteItem::Truncated,
        data.len() >= 3 && data[2] == t.code() && (t.width() matches ValueWidth::Fixed(n) && data.len()
            < 3 + n) ==> WriteItem::first(data) == WriteItem::Truncated,
        data.len() >= 3 && data[2] == t.code() && t.width() == ValueWidth::Composite
            ==> WriteItem::first(data) == WriteItem::UnknownType(
            AttributeId((data[0] + 256 * data[1]) as u16),
        ),
        data.len() >= 3 && (forall|u: TypeId| #[trigger] u.code() != data[2]) ==> WriteItem::first(
            data,
        ) == WriteItem::UnknownType(AttributeId((data[0] + 256 * data[1]) as u16)),
{
    if data.len() >= 3 && data[2] == t.code() {
        let chosen = choose|u: TypeId| #[trigger] u.code() == data[2];
        crate::types::ids::lemma_type_codes_distinct(t, chosen);
    }
}

/// A write request of one record writes that attribute. Where that succeeds, a single
/// success is answered; where not, the status and the attribute, and nothing is written
/// but what the server did.
pub proof fn law_one_write_is_answered<CS: ClusterServer>(
    pre: CS,
    frame: IncomingZclFrame,
    low: u8,
    high: u8,
    t: TypeId,
    value: Seq<u8>,
    cap: nat,
    post: CS,
    response: Result<Seq<u8>, ZclError>,
)
    requires
        t.width() matches ValueWidth::Fixed(n) && value.len() == n,
        cap >= 8,
        Dispatch::write_answered(
            pre,
            frame,
            seq![low, high, t.code()] + value,
            cap,
            post,
            response,
        ),
    ensures
        exists|w: Result<(), AttrError>| #[trigger]
            CS::wrote(pre, AttributeId((low + 256 * high) as u16), t, value, post, w) && response
                == match w {
                Ok(()) => Ok(answer_header(frame, false, 0x04) + seq![0u8]),
                Err(AttrError::Codec(e)) => Err(e),
                Err(AttrError::UnsupportedAttribute) => Ok(
                    answer_header(frame, false, 0x04) + seq![0x86u8, low, high],
                ),
                Err(AttrError::ReadOnly) => Ok(
                    answer_header(frame, false, 0x04) + seq![0x88u8, low, high],
                ),
                Err(AttrError::InvalidDataType) => Ok(
                    answer_header(frame, false, 0x04) + seq![0x8du8, low, high],
                ),
                Err(AttrError::InvalidValue) => Ok(
                    answer_header(frame, false, 0x04) + seq![0x87u8, low, high],
                ),
            },
{
    lemma_headers(frame, 0x04);
    let header = answer_header(frame, false, 0x04);
    let data = seq![low, high, t.code()] + value;
    let id = AttributeId((low + 256 * high) as u16);
    assert(data =~= seq![low, high, t.code()] + value + Seq::<u8>::empty());
    law_write_record_is_read_field_by_field(low, high, t, value, Seq::empty());
    let run = choose|run: Result<Seq<u8>, ZclError>| #[trigger]
        Dispatch::write_run(pre, data, header, cap, post, run) && response == match run {
            Ok(bytes) => if bytes == header {
                Dispatch::fit(header + seq![0u8], cap)
            } else {
                Ok(bytes)
            },
            Err(e) => Err(e),
        };
    let (mid, w) = choose|mid: CS, w: Result<(), AttrError>| #[trigger]
        CS::wrote(pre, id, t, value, mid, w) && match w {
            Ok(()) => Dispatch::write_run(mid, WriteItem::after(data), header, cap, post, run),
            Err(e) => match e.status() {
                None => post == mid && run == Err::<Seq<u8>, ZclError>(Dispatch::abort(e)),
                Some(status) => match Dispatch::fit(
                    header + Dispatch::write_failure(status, id),
                    cap,
                ) {
                    Err(full) => post == mid && run == Err::<Seq<u8>, ZclError>(full),
                    Ok(more) => Dispatch::write_run(
                        mid,
                        WriteItem::after(data),
                        more,
                        cap,
                        post,
                        run,
                    ),
                },
            },
        };
    assert(WriteItem::first(Seq::empty()) == WriteItem::End);
    if let Err(e) = w {
        if let Some(status) = e.status() {
            let more = header + Dispatch::write_failure(status, id);
            assert(more =~= header + seq![status.code(), low, high]);
            assert(more.len() != header.len());
            assert(Dispatch::write_run(mid, WriteItem::after(data), more, cap, post, run));
        }
    }
    assert(CS::wrote(pre, id, t, value, post, w));
}

/// An undivided write of one record writes that attribute if the server's check lets it,
/// and is answered as a write is; if not, nothing is written.
pub proof fn law_one_undivided_write_is_answered<CS: ClusterServer>(
    pre: CS,
    frame: IncomingZclFrame,
    low: u8,
    high: u8,
    t: TypeId,
    value: Seq<u8>,
    cap: nat,
    post: CS,
    response: Result<Seq<u8>, ZclError>,
)
    requires
        t.width() matches ValueWidth::Fixed(n) && value.len() == n,
        cap >= 8,
        Dispatch::undivided_answered(
            pre,
            frame,
            seq![low, high, t.code()] + value,
            cap,
            post,
            response,
        ),
    ensures
        match pre.write_check(AttributeId((low + 256 * high) as u16), t, value) {
            Ok(()) => exists|w: Result<(), AttrError>| #[trigger]
                CS::wrote(pre, AttributeId((low + 256 * high) as u16), t, value, post, w) && (w is Ok
                    ==> response == Ok::<Seq<u8>, ZclError>(
                    answer_header(frame, false, 0x04) + seq![0u8],
                )),
            Err(e) => post == pre && match e {
                AttrError::Codec(ze) => response == Err::<Seq<u8>, ZclError>(ze),
                AttrError::UnsupportedAttribute => response == Ok::<Seq<u8>, ZclError>(
                    answer_header(frame, false, 0x04) + seq![0x86u8, low, high],
                ),
                AttrError::ReadOnly => response == Ok::<Seq<u8>, ZclError>(
                    answer_header(frame, false, 0x04) + seq![0x88u8, low, high],
                ),
                AttrError::InvalidDataType => response == Ok::<Seq<u8>, ZclError>(
                    answer_header(frame, false, 0x04) + seq![0x8du8, low, high],
                ),
                AttrError::InvalidValue => response == Ok::<Seq<u8>, ZclError>(
                    answer_header(frame, false, 0x04) + seq![0x87u8, low, high],
                ),
            },
        },
{
    lemma_headers(frame, 0x04);
    let header = answer_header(frame, false, 0x04);
    let data = seq![low, high, t.code()] + value;
    let id = AttributeId((low + 256 * high) as u16);
    assert(data =~= seq![low, high, t.code()] + value + Seq::<u8>::empty());
    law_write_record_is_read_field_by_field(low, high, t, value, Seq::empty());
    assert(WriteItem::first(Seq::empty()) == WriteItem::End);
    let none = Seq::<(u16, u8)>::empty();
    match pre.write_check(id, t, value) {
        Ok(()) => {
            assert(Dispatch::check_run(pre, WriteItem::after(data), none) == Ok::<
                Seq<(u16, u8)>,
                ZclError,
            >(none));
            let r = choose|r: Result<(), ZclError>| #[trigger]
                Dispatch::commit_run(pre, data, post, r) && response == match r {
                    Ok(()) => Dispatch::fit(header + seq![0u8], cap),
                    Err(e) => Err(e),
                };
            lemma_commit_one(pre, data, id, t, value, post, r);
        },
        Err(e) => {
            if let Some(status) = e.status() {
                let one = none.push((id.0, status.code()));
                assert(Dispatch::check_run(pre, WriteItem::after(data), one) == Ok::<
                    Seq<(u16, u8)>,
                    ZclError,
                >(one));
                assert(one.skip(1) =~= none);
                assert(Dispatch::failure_records(
                    header + seq![status.code()] + Le::u16(id.0),
                    one.skip(1),
                ) == header + seq![status.code()] + Le::u16(id.0));
                assert(header + seq![status.code()] + Le::u16(id.0) =~= header + seq![
                    status.code(),
                    low,
                    high,
                ]);
            }
        },
    }
}

proof fn lemma_commit_one<CS: ClusterServer>(
    pre: CS,
    data: Seq<u8>,
    id: AttributeId,
    t: TypeId,
    value: Seq<u8>,
    post: CS,
    r: Result<(), ZclError>,
)
    requires
        WriteItem::first(data) == (WriteItem::Record { attr_id: id, type_id: t, value }),
        WriteItem::after(data).len() == 0,
        Dispatch::commit_run(pre, data, post, r),
    ensures
        exists|w: Result<(), AttrError>| #[trigger]
            CS::wrote(pre, id, t, value, post, w) && (w is Ok ==> r is Ok),
{
    let (mid, w) = choose|mid: CS, w: Result<(), AttrError>| #[trigger]
        CS::wrote(pre, id, t, value, mid, w) && match w {
            Err(AttrError::Codec(ze)) => post == mid && r == Err::<(), ZclError>(ze),
            _ => Dispatch::commit_run(mid, WriteItem::after(data), post, r),
        };
    assert(WriteItem::first(WriteItem::after(data)) == WriteItem::End);
    assert(CS::wrote(pre, id, t, value, post, w));
}

/// A write that asks for no response writes its attributes like any other.
pub proof fn law_one_silent_write<CS: ClusterServer>(
    pre: CS,
    low: u8,
    high: u8,
    t: TypeId,
    value: Seq<u8>,
    post: CS,
)
    requires
        t.width() matches ValueWidth::Fixed(n) && value.len() == n,
        Dispatch::silent_run(pre, seq![low, high, t.code()] + value, post),
    ensures
        exists|w: Result<(), AttrError>| #[trigger]
            CS::wrote(pre, AttributeId((low + 256 * high) as u16), t, value, post, w),
{
    let data = seq![low, high, t.code()] + value;
    assert(data =~= seq![low, high, t.code()] + value + Seq::<u8>::empty());
    law_write_record_is_read_field_by_field(low, high, t, value, Seq::empty());
    assert(WriteItem::first(Seq::empty()) == WriteItem::End);
    let (mid, w) = choose|mid: CS, w: Result<(), AttrError>| #[trigger]
        CS::wrote(pre, AttributeId((low + 256 * high) as u16), t, value, mid, w)
            && Dispatch::silent_run(mid, WriteItem::after(data), post);
    assert(mid == post);
}

// ---------------------------------------------------------------------------
// Discovery
// ---------------------------------------------------------------------------

/// Each attribute's discovery record is its identifier, lower byte first, its data type,
/// and in the extended form its access: 1 for readable, 2 for writable, 4 for reportable.
/// The records stand one after the other.
pub proof fn law_discovery_records_layout(
    acc: Seq<u8>,
    list: Seq<AttrInfo>,
    extended: bool,
    i: int,
)
    requires
        0 <= i < list.len(),
    ensures
        ({
            let width = if extended {
                4int
            } else {
                3int
            };
            let bytes = Dispatch::attribute_records(acc, list, extended);
            let at = acc.len() + width * i;
            &&& bytes.len() == acc.len() + width * list.len()
            &&& bytes.take(acc.len() as int) == acc
            &&& bytes[at] + 256 * bytes[at + 1] == list[i].id.0
            &&& bytes[at + 2] == list[i].type_id.code()
            &&& extended ==> bytes[at + 3] == (if list[i].access.readable {
                1int
            } else {
                0
            }) + (if list[i].access.writable {
                2int
            } else {
                0
            }) + (if list[i].access.reportable {
                4int
            } else {
                0
            })
        }),
    decreases list.len(),
{
    let width = if extended {
        4int
    } else {
        3int
    };
    let first = Dispatch::attribute_record(list[0], extended);
    let more = acc + first;
    let bytes = Dispatch::attribute_records(acc, list, extended);
    assert(first.len() == width);
    assert(bytes == Dispatch::attribute_records(more, list.skip(1), extended));
    if list.len() > 1 {
        law_discovery_records_layout(more, list.skip(1), extended, if i > 0 {
            i - 1
        } else {
            0
        });
    } else {
        assert(bytes == more);
        assert(bytes.take(more.len() as int) =~= more);
    }
    assert forall|k: int| 0 <= k < more.len() implies bytes[k] == more[k] by {
        assert(bytes.take(more.len() as int)[k] == more[k]);
    }
    assert(bytes.take(acc.len() as int) =~= acc);
    if i > 0 {
        assert(list.skip(1)[i - 1] == list[i]);
    }
}

/// A discovery of attributes is answered with whether the list ends here, and the records
/// of as many of the attributes from the start on as were asked for.
pub proof fn law_discovery_response_layout(
    list: Seq<AttrInfo>,
    start: u16,
    max_count: u8,
    frame: IncomingZclFrame,
    extended: bool,
    cap: nat,
)
    requires
        Dispatch::discover_attributes(list, start, max_count, frame, extended, cap) is Ok,
    ensures
        ({
            let found = Dispatch::attributes_from(list, start);
            let bytes = Dispatch::discover_attributes(
                list,
                start,
                max_count,
                frame,
                extended,
                cap,
            )->Ok_0;
            let header = answer_header(frame, false, if extended {
                0x16
            } else {
                0x0d
            });
            if found.len() <= max_count {
                bytes == Dispatch::attribute_records(header + seq![1u8], found, extended)
            } else {
                bytes == Dispatch::attribute_records(
                    header + seq![0u8],
                    found.take(max_count as int),
                    extended,
                )
            }
        }),
{
    lemma_headers(frame, if extended {
        0x16
    } else {
        0x0d
    });
    let found = Dispatch::attributes_from(list, start);
    if found.len() <= max_count {
        assert(found.take(found.len() as int) =~= found);
    }
}

/// Discovery from `start` lists exactly the commands from `start` on.
pub proof fn law_command_discovery_is_complete(list: Seq<CommandId>, start: u8, id: CommandId)
    requires
        CommandId::sorted(list),
    ensures
        Dispatch::commands_from(list, start).contains(id) <==> list.contains(id) && id.0 >= start,
        CommandId::sorted(Dispatch::commands_from(list, start)),
    decreases list.len(),
{
    if list.len() > 0 && list[0].0 < start {
        let tail = list.skip(1);
        assert forall|i: int, j: int| 0 <= i < j < tail.len() implies #[trigger] tail[i].0
            < #[trigger] tail[j].0 by {
            assert(list[i + 1].0 < list[j + 1].0);
        }
        law_command_discovery_is_complete(tail, start, id);
        if list.contains(id) && id.0 >= start {
            let k = choose|k: int| 0 <= k < list.len() && list[k] == id;
            assert(tail[k - 1] == id);
        }
        if tail.contains(id) {
            let k = choose|k: int| 0 <= k < tail.len() && tail[k] == id;
            assert(list[k + 1] == id);
        }
    } else if list.contains(id) {
        let k = choose|k: int| 0 <= k < list.len() && list[k] == id;
        assert(list[0].0 <= list[k].0);
    }
}

/// A discovery of commands is answered with whether the list ends here, and a byte for each
/// of as many of the commands from the start on as were asked for.
pub proof fn law_command_discovery_layout(
    response: u8,
    list: Seq<CommandId>,
    start: u8,
    max_count: u8,
    frame: IncomingZclFrame,
    cap: nat,
    i: int,
)
    requires
        Dispatch::discover_commands(response, list, start, max_count, frame, cap) is Ok,
    ensures
        ({
            let found = Dispatch::commands_from(list, start);
            let bytes = Dispatch::discover_commands(response, list, start, max_count, frame, cap)->Ok_0;
            let header = answer_header(frame, false, response);
            let n = header.len();
            &&& bytes.take(n as int) == header
            &&& found.len() <= max_count ==> bytes[n as int] == 1 && bytes.len() == n + 1
                + found.len()
            &&& found.len() > max_count ==> bytes[n as int] == 0 && bytes.len() == n + 1 + max_count
            &&& 0 <= i < found.len() && i < max_count ==> bytes[n + 1 + i] == found[i].0
        }),
{
    lemma_headers(frame, response);
    let found = Dispatch::commands_from(list, start);
    let bytes = Dispatch::discover_commands(response, list, start, max_count, frame, cap)->Ok_0;
    let header = answer_header(frame, false, response);
    assert(bytes.take(header.len() as int) =~= header);
}

// ---------------------------------------------------------------------------
// Reporting configuration
// ---------------------------------------------------------------------------

/// How many bytes the reportable change of a data type takes, by the type's byte: as many
/// as a value, for integers and floating-point numbers; none for other types.
pub open spec fn change_width(code: u8) -> int {
    if 0x20 <= code <= 0x27 {
        code - 0x1f
    } else if 0x28 <= code <= 0x2f {
        code - 0x27
    } else if code == 0x38 {
        2
    } else if code == 0x39 {
        4
    } else if code == 0x3a {
        8
    } else {
        0
    }
}

/// A record that configures sending is its direction, the attribute, the data type, the
/// minimum interval, the maximum interval and the reportable change, each with the lower
/// byte first; only the lowest bit of the direction counts. What follows it is read next.
pub proof fn law_send_record_is_read_field_by_field(
    direction: u8,
    attr_low: u8,
    attr_high: u8,
    code: u8,
    min_low: u8,
    min_high: u8,
    max_low: u8,
    max_high: u8,
    change: Seq<u8>,
    rest: Seq<u8>,
    acc: Seq<RecordFields>,
)
    requires
        direction % 2 == 0,
        change.len() == change_width(code),
        acc.len() < 16,
    ensures
        ({
            let data = seq![
                direction,
                attr_low,
                attr_high,
                code,
                min_low,
                min_high,
                max_low,
                max_high,
            ] + change + rest;
            let record = Dispatch::record_at(data);
            &&& Dispatch::records_of(data, acc) == Dispatch::records_of(rest, acc.push(record))
            &&& record.direction == 0
            &&& record.attr_id.0 == attr_low + 256 * attr_high
            &&& record.attr_type == code
            &&& record.min_interval == min_low + 256 * min_high
            &&& record.max_interval == max_low + 256 * max_high
            &&& record.reportable_change == change
        }),
{
    let data = seq![
        direction,
        attr_low,
        attr_high,
        code,
        min_low,
        min_high,
        max_low,
        max_high,
    ] + change + rest;
    assert(data.skip(8 + change.len() as int) =~= rest);
    assert(data.subrange(8, 8 + change.len() as int) =~= change);
    assert(Dispatch::change_len(code) == change.len());
    assert(Dispatch::record_len(data) == Some((8 + change.len()) as nat));
}

/// A record that configures receiving is its direction, the attribute and the timeout.
pub proof fn law_receive_record_is_read_field_by_field(
    direction: u8,
    attr_low: u8,
    attr_high: u8,
    low: u8,
    high: u8,
    rest: Seq<u8>,
    acc: Seq<RecordFields>,
)
    requires
        direction % 2 == 1,
        acc.len() < 16,
    ensures
        ({
            let data = seq![direction, attr_low, attr_high, low, high] + rest;
            let record = Dispatch::record_at(data);
            &&& Dispatch::records_of(data, acc) == Dispatch::records_of(rest, acc.push(record))
            &&& record.direction == 1
            &&& record.attr_id.0 == attr_low + 256 * attr_high
            &&& record.timeout_period == low + 256 * high
        }),
{
    let data = seq![direction, attr_low, attr_high, low, high] + rest;
    assert(data.skip(5) =~= rest);
}

/// A configuration request of no more records has been read whole; one that is cut short is
/// refused, and so is one of more than sixteen records.
pub proof fn law_configuration_request_ends(data: Seq<u8>, acc: Seq<RecordFields>)
    ensures
        data.len() == 0 ==> Dispatch::records_of(data, acc) == Ok::<Seq<RecordFields>, ZclError>(
            acc,
        ),
        1 <= data.len() < 3 ==> Dispatch::records_of(data, acc) == Err::<
            Seq<RecordFields>,
            ZclError,
        >(ZclError::InsufficientBytes),
        data.len() >= 3 && data[0] % 2 == 0 && (data.len() < 8 || data.len() < 8 + change_width(
            data[3],
        )) ==> Dispatch::records_of(data, acc) == Err::<Seq<RecordFields>, ZclError>(
            ZclError::InsufficientBytes,
        ),
        3 <= data.len() < 5 && data[0] % 2 == 1 ==> Dispatch::records_of(data, acc) == Err::<
            Seq<RecordFields>,
            ZclError,
        >(ZclError::InsufficientBytes),
{
}

/// What a send record configured is what is answered when asked for it, byte for byte:
/// data type, minimum interval, maximum interval and reportable change as the request
/// carried them.
pub proof fn law_configuration_reads_back<const N: usize, const VALUE_BYTES: usize>(
    table: TableState,
    attr_low: u8,
    attr_high: u8,
    code: u8,
    min_low: u8,
    min_high: u8,
    max_low: u8,
    max_high: u8,
    change: Seq<u8>,
    rest: Seq<u8>,
    ctx: DispatchContext,
    list: Seq<AttrInfo>,
    room: nat,
)
    requires
        table.distinct(),
        change.len() == change_width(code),
        9 + change.len() <= room,
        !(max_low == 0xFF && max_high == 0xFF),
        LatestReportingTable::<N, VALUE_BYTES>::configured_by(
            table,
            Dispatch::record_at(
                seq![0u8, attr_low, attr_high, code, min_low, min_high, max_low, max_high] + change
                    + rest,
            ),
            ctx,
            list,
        ).1 == Status::Success,
    ensures
        ({
            let post = LatestReportingTable::<N, VALUE_BYTES>::configured_by(
                table,
                Dispatch::record_at(
                    seq![0u8, attr_low, attr_high, code, min_low, min_high, max_low, max_high]
                        + change + rest,
                ),
                ctx,
                list,
            ).0;
            let id = AttributeId((attr_low + 256 * attr_high) as u16);
            &&& post.answer(id, 0, room) == seq![
                0u8,
                0u8,
                attr_low,
                attr_high,
                code,
                min_low,
                min_high,
                max_low,
                max_high,
            ] + change
            &&& post.has(id)
            &&& post.entry(id).last_report_ms == ctx.now_ms
            &&& match ctx.source {
                Some(peer) => post.entry(id).destination == Some(
                    crate::context::ReportDestination::Unicast(peer),
                ),
                None => post.entry(id).destination is None,
            }
        }),
{
    let data = seq![0u8, attr_low, attr_high, code, min_low, min_high, max_low, max_high] + change
        + rest;
    law_send_record_is_read_field_by_field(
        0,
        attr_low,
        attr_high,
        code,
        min_low,
        min_high,
        max_low,
        max_high,
        change,
        rest,
        Seq::empty(),
    );
    let record = Dispatch::record_at(data);
    let request = LatestReportingTable::<N, VALUE_BYTES>::request_of(record, ctx);
    let id = AttributeId((attr_low + 256 * attr_high) as u16);
    crate::reporting_laws::law_configuration_is_answered(
        table,
        N as nat,
        VALUE_BYTES as nat,
        request,
        list,
        room,
    );
    crate::reporting_laws::law_accepted_configuration_starts_afresh(
        table,
        N as nat,
        VALUE_BYTES as nat,
        request,
        list,
    );
    assert(seq![0u8, 0u8] + Le::u16(id.0) + seq![code] + Le::u16(request.min_interval) + Le::u16(
        request.max_interval,
    ) + change =~= seq![
        0u8,
        0u8,
        attr_low,
        attr_high,
        code,
        min_low,
        min_high,
        max_low,
        max_high,
    ] + change);
}

/// A record that configures receiving is refused: a server only sends.
pub proof fn law_receiving_is_refused<const N: usize, const VALUE_BYTES: usize>(
    table: TableState,
    record: RecordFields,
    ctx: DispatchContext,
    list: Seq<AttrInfo>,
)
    requires
        record.direction == 1,
    ensures
        LatestReportingTable::<N, VALUE_BYTES>::configured_by(table, record, ctx, list) == (
            table,
            Status::UnreportableAttribute,
        ),
{
}

/// Each record of a configuration request is handed to the server in turn. One that is
/// accepted is counted where it configures sending; one that is refused is listed with its
/// status, direction and attribute.
pub proof fn law_each_record_is_configured<CS: ClusterServer>(
    pre: CS,
    records: Seq<RecordFields>,
    ctx: DispatchContext,
    accepted: u8,
    refused: Seq<(u8, u16, u8)>,
    post: CS,
    total: u8,
    failures: Seq<(u8, u16, u8)>,
)
    requires
        records.len() > 0,
        accepted < 255,
        refused.len() < 16,
        Dispatch::configure_run(pre, records, ctx, accepted, refused, post, total, failures),
    ensures
        exists|mid: CS, status: Status| #[trigger]
            CS::reporting_set(pre, records[0], ctx, mid, status) && (if status == Status::Success {
                Dispatch::configure_run(
                    mid,
                    records.skip(1),
                    ctx,
                    (accepted + (if records[0].direction == 0 {
                        1int
                    } else {
                        0
                    })) as u8,
                    refused,
                    post,
                    total,
                    failures,
                )
            } else {
                Dispatch::configure_run(
                    mid,
                    records.skip(1),
                    ctx,
                    accepted,
                    refused.push((records[0].direction, records[0].attr_id.0, status.code())),
                    post,
                    total,
                    failures,
                )
            }),
{
    let (mid, status) = choose|mid: CS, status: Status| #[trigger]
        CS::reporting_set(pre, records[0], ctx, mid, status) && Dispatch::configure_run(
            mid,
            records.skip(1),
            ctx,
            Dispatch::accepted_after(accepted, records[0], status),
            Dispatch::refused_after(refused, records[0], status),
            post,
            total,
            failures,
        );
    assert(CS::reporting_set(pre, records[0], ctx, mid, status));
}

/// Refused records are answered with status, direction and attribute each, one after the
/// other.
pub proof fn law_refusals_layout(acc: Seq<u8>, failures: Seq<(u8, u16, u8)>, i: int)
    requires
        0 <= i < failures.len(),
    ensures
        ({
            let bytes = Dispatch::refusal_records(acc, failures);
            let at = acc.len() + 4 * i;
            &&& bytes.len() == acc.len() + 4 * failures.len()
            &&& bytes.take(acc.len() as int) == acc
            &&& bytes[at] == failures[i].2
            &&& bytes[at + 1] == failures[i].0
            &&& bytes[at + 2] + 256 * bytes[at + 3] == failures[i].1
        }),
    decreases failures.len(),
{
    let more = acc + seq![failures[0].2, failures[0].0] + Le::u16(failures[0].1);
    let bytes = Dispatch::refusal_records(acc, failures);
    assert(bytes == Dispatch::refusal_records(more, failures.skip(1)));
    if failures.len() > 1 {
        law_refusals_layout(more, failures.skip(1), if i > 0 {
            i - 1
        } else {
            0
        });
    } else {
        assert(bytes == more);
        assert(bytes.take(more.len() as int) =~= more);
    }
    assert forall|k: int| 0 <= k < more.len() implies bytes[k] == more[k] by {
        assert(bytes.take(more.len() as int)[k] == more[k]);
    }
    assert(bytes.take(acc.len() as int) =~= acc);
    if i > 0 {
        assert(failures.skip(1)[i - 1] == failures[i]);
    }
}

/// Refused writes are answered with status and attribute each, one after the other.
pub proof fn law_write_failures_layout(acc: Seq<u8>, failures: Seq<(u16, u8)>, i: int)
    requires
        0 <= i < failures.len(),
    ensures
        ({
            let bytes = Dispatch::failure_records(acc, failures);
            let at = acc.len() + 3 * i;
            &&& bytes.len() == acc.len() + 3 * failures.len()
            &&& bytes.take(acc.len() as int) == acc
            &&& bytes[at] == failures[i].1
            &&& bytes[at + 1] + 256 * bytes[at + 2] == failures[i].0
        }),
    decreases failures.len(),
{
    let more = acc + seq![failures[0].1] + Le::u16(failures[0].0);
    let bytes = Dispatch::failure_records(acc, failures);
    assert(bytes == Dispatch::failure_records(more, failures.skip(1)));
    if failures.len() > 1 {
        law_write_failures_layout(more, failures.skip(1), if i > 0 {
            i - 1
        } else {
            0
        });
    } else {
        assert(bytes == more);
        assert(bytes.take(more.len() as int) =~= more);
    }
    assert forall|k: int| 0 <= k < more.len() implies bytes[k] == more[k] by {
        assert(bytes.take(more.len() as int)[k] == more[k]);
    }
    assert(bytes.take(acc.len() as int) =~= acc);
    if i > 0 {
        assert(failures.skip(1)[i - 1] == failures[i]);
    }
}

/// Each question about an attribute's reporting is a direction and the attribute, and is
/// answered in turn.
pub proof fn law_each_configuration_is_answered<CS: ClusterServer>(
    server: CS,
    direction: u8,
    low: u8,
    high: u8,
    rest: Seq<u8>,
    acc: Seq<u8>,
    cap: nat,
)
    requires
        acc.len() <= cap,
    ensures
        Dispatch::reporting_run(server, seq![direction, low, high] + rest, acc, cap)
            == Dispatch::reporting_run(
            server,
            rest,
            acc + server.reporting_answer(
                AttributeId((low + 256 * high) as u16),
                direction,
                (cap - acc.len()) as nat,
            ),
            cap,
        ),
        rest.len() < 3 ==> Dispatch::reporting_run(server, rest, acc, cap) == acc,
{
    let data = seq![direction, low, high] + rest;
    assert(data.skip(3) =~= rest);
}

/// What is answered of an attribute that is not reported: "not found", the direction and
/// the attribute.
pub proof fn law_unconfigured_attribute_is_not_found(
    table: TableState,
    low: u8,
    high: u8,
    direction: u8,
    cap: nat,
)
    requires
        cap >= 4,
        direction % 2 == 1 || !table.has(AttributeId((low + 256 * high) as u16)),
    ensures
        table.answer(AttributeId((low + 256 * high) as u16), direction, cap) == seq![
            0x8bu8,
            direction % 2,
            low,
            high,
        ],
{
    let id = AttributeId((low + 256 * high) as u16);
    assert(table.answer(id, direction, cap) =~= seq![0x8bu8, direction % 2, low, high]);
}

} // verus!
