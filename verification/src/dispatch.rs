//! Dispatch of one received frame to a cluster server.

use vstd::prelude::*;

use crate::bounded::push_reporting_failure;
use crate::bounded::push_reporting_record;
use crate::bounded::push_write_failure;
use crate::bounded::reporting_failure_slice;
use crate::bounded::reporting_failures;
use crate::bounded::reporting_record_slice;
use crate::bounded::reporting_records;
use crate::bounded::write_failure_slice;
use crate::bounded::write_failures;
use crate::bytes::Le;
use crate::bytes::put_byte;
use crate::bytes::put_u16_le;
use crate::bytes::read_u16;
use crate::bytes::same_from;
use crate::cluster_server::ClusterServer;
use crate::context::CommandResult;
use crate::context::ConfigureReportingEffect;
use crate::context::ConfigureReportingRecord;
use crate::context::DispatchContext;
use crate::context::DispatchEffects;
use crate::context::DispatchOutcome;
use crate::context::GroupEffect;
use crate::context::RecordFields;
use crate::frame::CommandIdentifier;
use crate::frame::Direction;
use crate::frame::IncomingGlobalCommand;
use crate::frame::IncomingZclCommand;
use crate::frame::IncomingZclFrame;
use crate::frame::Status;
use crate::payload::WriteAttributesPayload;
use crate::payload::WriteItem;
use crate::payload::WriteStep;
use crate::types::descriptors::AttrInfo;
use crate::types::error::AttrError;
use crate::types::error::ZclError;
use crate::types::ids::AttributeId;
use crate::types::ids::CommandId;
use crate::types::ids::ManufacturerCode;

verus! {

// ---------------------------------------------------------------------------
// Response headers and default responses
// ---------------------------------------------------------------------------

/// Specification functions of dispatching.
pub struct Dispatch;

impl Dispatch {
    /// The header of a response: frame control `base`, with bit 2 set and the
    /// manufacturer code behind it where there is one, the sequence number and
    /// the command.
    pub open spec fn header(
        base: u8,
        manufacturer_code: Option<ManufacturerCode>,
        sequence_number: u8,
        command: u8,
    ) -> Seq<u8> {
        match manufacturer_code {
            Some(code) => seq![(base + 4) as u8] + Le::u16(code.0) + seq![sequence_number, command],
            None => seq![base, sequence_number, command],
        }
    }

    /// The header of a response to `frame` with a global command.
    pub open spec fn global_header(frame: IncomingZclFrame, command: u8) -> Seq<u8> {
        Self::header(0x18, frame.manufacturer_code, frame.sequence_number, command)
    }

    /// The header of a response to `frame` with a cluster-specific command.
    pub open spec fn cluster_header(frame: IncomingZclFrame, command: u8) -> Seq<u8> {
        Self::header(0x19, frame.manufacturer_code, frame.sequence_number, command)
    }

    /// `bytes`, if they fit a buffer of `cap` bytes.
    pub open spec fn fit(bytes: Seq<u8>, cap: nat) -> Result<Seq<u8>, ZclError> {
        if bytes.len() <= cap {
            Ok(bytes)
        } else {
            Err(ZclError::BufferTooSmall)
        }
    }

    /// The outcome `r` is that of response `response`, which was put to the front of a
    /// buffer that held `before` and left with `after`.
    pub open spec fn sent(
        response: Result<Seq<u8>, ZclError>,
        before: Seq<u8>,
        after: Seq<u8>,
        r: Result<usize, ZclError>,
    ) -> bool {
        match response {
            Ok(bytes) => {
                &&& r is Ok
                &&& r->Ok_0 == bytes.len()
                &&& bytes.len() <= after.len()
                &&& after.take(bytes.len() as int) == bytes
                &&& same_from(before, after, bytes.len() as int)
            },
            Err(e) => r is Err && r->Err_0 == e,
        }
    }

    /// A default response to command `command`.
    pub open spec fn default_response(
        command: u8,
        status: Status,
        sequence_number: u8,
        manufacturer_code: Option<ManufacturerCode>,
    ) -> Seq<u8> {
        Self::header(0x18, manufacturer_code, sequence_number, 0x0b) + seq![command, status.code()]
    }

    /// The default response to `frame`; none to a default response.
    pub open spec fn default_response_to(frame: IncomingZclFrame, status: Status) -> Seq<u8> {
        match frame.command {
            IncomingZclCommand::Global(IncomingGlobalCommand::DefaultResponse { .. }) => Seq::empty(),
            _ => Self::default_response(
                frame.command.code(),
                status,
                frame.sequence_number,
                frame.manufacturer_code,
            ),
        }
    }

    /// A default response is due: the frame was for this device alone, it is
    /// neither an answer nor a request that wants none, and it did not ask to be
    /// spared the report of a success.
    pub open spec fn default_response_due(
        frame: IncomingZclFrame,
        ctx: DispatchContext,
        status: Status,
    ) -> bool {
        &&& ctx.is_unicast()
        &&& !frame.command.is_final()
        &&& !(status == Status::Success && frame.disable_default_response)
    }

    /// The response to `frame` that reports `status`, if one is due.
    pub open spec fn status_response(
        frame: IncomingZclFrame,
        ctx: DispatchContext,
        status: Status,
        cap: nat,
    ) -> Result<Seq<u8>, ZclError> {
        if Self::default_response_due(frame, ctx, status) {
            Self::fit(Self::default_response_to(frame, status), cap)
        } else {
            Ok(Seq::empty())
        }
    }

    /// The bytes that an error aborts a request with.
    pub open spec fn abort(e: AttrError) -> ZclError {
        match e {
            AttrError::Codec(ze) => ze,
            _ => ZclError::InvalidValue,
        }
    }
}

/// Build a non-manufacturer-specific `DefaultResponse` frame into `buf`.
/// Returns bytes written.
pub fn build_default_response(
    request_command: CommandIdentifier,
    status: Status,
    seq: u8,
    buf: &mut [u8],
) -> (r: Result<usize, ZclError>)
    ensures
        final(buf)@.len() == old(buf)@.len(),
        Dispatch::sent(
            Dispatch::fit(
                Dispatch::default_response(request_command.code(), status, seq, None),
                old(buf)@.len(),
            ),
            old(buf)@,
            final(buf)@,
            r,
        ),
{
    build_default_response_with_mfr(request_command, status, seq, None, buf)
}

/// Build a `DefaultResponse` frame for `frame`, preserving
/// manufacturer-specific framing. Writes nothing for a frame that is itself a
/// `DefaultResponse`.
pub fn build_default_response_for_frame(
    frame: &IncomingZclFrame<'_>,
    status: Status,
    buf: &mut [u8],
) -> (r: Result<usize, ZclError>)
    ensures
        final(buf)@.len() == old(buf)@.len(),
        Dispatch::sent(
            Dispatch::fit(Dispatch::default_response_to(*frame, status), old(buf)@.len()),
            old(buf)@,
            final(buf)@,
            r,
        ),
{
    match frame.command() {
        IncomingZclCommand::Global(IncomingGlobalCommand::DefaultResponse { .. }) => {
            assert(buf@.take(0) =~= Seq::<u8>::empty());
            Ok(0)
        },
        _ => write_default_response(
            frame.command().raw(),
            status,
            frame.sequence_number(),
            frame.manufacturer_code(),
            buf,
        ),
    }
}

/// Build a `DefaultResponse` frame into `buf`, optionally preserving a
/// manufacturer code.
pub fn build_default_response_with_mfr(
    request_command: CommandIdentifier,
    status: Status,
    seq: u8,
    manufacturer_code: Option<ManufacturerCode>,
    buf: &mut [u8],
) -> (r: Result<usize, ZclError>)
    ensures
        final(buf)@.len() == old(buf)@.len(),
        Dispatch::sent(
            Dispatch::fit(
                Dispatch::default_response(request_command.code(), status, seq, manufacturer_code),
                old(buf)@.len(),
            ),
            old(buf)@,
            final(buf)@,
            r,
        ),
{
    write_default_response(request_command.raw(), status, seq, manufacturer_code, buf)
}

fn write_default_response(
    command: u8,
    status: Status,
    seq: u8,
    manufacturer_code: Option<ManufacturerCode>,
    buf: &mut [u8],
) -> (r: Result<usize, ZclError>)
    ensures
        final(buf)@.len() == old(buf)@.len(),
        Dispatch::sent(
            Dispatch::fit(
                Dispatch::default_response(command, status, seq, manufacturer_code),
                old(buf)@.len(),
            ),
            old(buf)@,
            final(buf)@,
            r,
        ),
{
    let pos: usize = match write_response_header_parts(buf, manufacturer_code, seq, 0x0b, 0x18) {
        Ok(pos) => pos,
        Err(e) => {
            return Err(e);
        },
    };
    let pos: usize = match put_byte(buf, pos, command) {
        Ok(pos) => pos,
        Err(e) => {
            return Err(e);
        },
    };
    let r: Result<usize, ZclError> = put_byte(buf, pos, status.as_u8());
    assert(Dispatch::default_response(command, status, seq, manufacturer_code) =~= Dispatch::header(
        0x18,
        manufacturer_code,
        seq,
        0x0b,
    ) + seq![command] + seq![status.code()]);
    r
}

/// True when a `DefaultResponse` may be sent for this frame, context and status.
pub fn should_send_default_response(
    frame: &IncomingZclFrame<'_>,
    ctx: DispatchContext,
    status: Status,
) -> (yes: bool)
    ensures
        yes == Dispatch::default_response_due(*frame, ctx, status),
{
    if !ctx.allows_default_response() {
        return false;
    }
    match frame.command() {
        IncomingZclCommand::Global(IncomingGlobalCommand::DefaultResponse { .. })
        | IncomingZclCommand::Global(IncomingGlobalCommand::WriteAttributesNoResponse(_)) => {
            return false;
        },
        _ => {},
    }
    if status == Status::Success && frame.disable_default_response() {
        return false;
    }
    true
}

fn response_header_len(manufacturer_code: Option<ManufacturerCode>) -> (n: usize)
    ensures
        n == (if manufacturer_code is Some { 5int } else { 3int }),
{
    if manufacturer_code.is_some() {
        5
    } else {
        3
    }
}

fn write_response_header_parts(
    buf: &mut [u8],
    manufacturer_code: Option<ManufacturerCode>,
    sequence_number: u8,
    cmd_id: u8,
    frame_control_base: u8,
) -> (r: Result<usize, ZclError>)
    requires
        frame_control_base <= 0xfb,
    ensures
        final(buf)@.len() == old(buf)@.len(),
        Dispatch::sent(
            Dispatch::fit(
                Dispatch::header(frame_control_base, manufacturer_code, sequence_number, cmd_id),
                old(buf)@.len(),
            ),
            old(buf)@,
            final(buf)@,
            r,
        ),
{
    let needed: usize = response_header_len(manufacturer_code);
    if buf.len() < needed {
        return Err(ZclError::BufferTooSmall);
    }
    match manufacturer_code {
        Some(code) => {
            buf[0] = frame_control_base + 4;
            buf[1] = crate::bytes::low_byte(code.0);
            buf[2] = crate::bytes::high_byte(code.0);
            buf[3] = sequence_number;
            buf[4] = cmd_id;
        },
        None => {
            buf[0] = frame_control_base;
            buf[1] = sequence_number;
            buf[2] = cmd_id;
        },
    }
    assert(buf@.take(needed as int) =~= Dispatch::header(
        frame_control_base,
        manufacturer_code,
        sequence_number,
        cmd_id,
    ));
    Ok(needed)
}

fn write_global_response_header(buf: &mut [u8], frame: &IncomingZclFrame<'_>, cmd_id: u8) -> (r:
    Result<usize, ZclError>)
    ensures
        final(buf)@.len() == old(buf)@.len(),
        Dispatch::sent(
            Dispatch::fit(Dispatch::global_header(*frame, cmd_id), old(buf)@.len()),
            old(buf)@,
            final(buf)@,
            r,
        ),
{
    write_response_header_parts(
        buf,
        frame.manufacturer_code(),
        frame.sequence_number(),
        cmd_id,
        0x18,
    )
}

fn write_cluster_response_header(buf: &mut [u8], frame: &IncomingZclFrame<'_>, cmd_id: u8) -> (r:
    Result<usize, ZclError>)
    ensures
        final(buf)@.len() == old(buf)@.len(),
        Dispatch::sent(
            Dispatch::fit(Dispatch::cluster_header(*frame, cmd_id), old(buf)@.len()),
            old(buf)@,
            final(buf)@,
            r,
        ),
{
    write_response_header_parts(
        buf,
        frame.manufacturer_code(),
        frame.sequence_number(),
        cmd_id,
        0x19,
    )
}

// ---------------------------------------------------------------------------
// Reading attributes
// ---------------------------------------------------------------------------

impl Dispatch {
    /// The response to a read request for the attributes in `ids`, after `acc`,
    /// in a buffer of `cap` bytes. Each attribute that reads gives its
    /// identifier, success, data type and value; each that does not, its
    /// identifier and status. A codec error aborts the request.
    pub open spec fn read_run<CS: ClusterServer>(
        server: CS,
        ids: Seq<u8>,
        acc: Seq<u8>,
        cap: nat,
    ) -> Result<Seq<u8>, ZclError>
        decreases ids.len(),
    {
        if ids.len() < 2 {
            Ok(acc)
        } else if acc.len() + 4 > cap {
            Err(ZclError::BufferTooSmall)
        } else {
            let id = Le::u16_at(ids, 0);
            match server.attr(AttributeId(id), (cap - acc.len() - 4) as nat) {
                Ok((type_id, value)) => Self::read_run(
                    server,
                    ids.skip(2),
                    acc + Le::u16(id) + seq![0u8, type_id.code()] + value,
                    cap,
                ),
                Err(e) => match e.status() {
                    Some(status) => Self::read_run(
                        server,
                        ids.skip(2),
                        acc + Le::u16(id) + seq![status.code()],
                        cap,
                    ),
                    None => Err(Self::abort(e)),
                },
            }
        }
    }

    /// The response to a read request.
    pub open spec fn read_response<CS: ClusterServer>(
        server: CS,
        frame: IncomingZclFrame,
        ids: Seq<u8>,
        cap: nat,
    ) -> Result<Seq<u8>, ZclError> {
        match Self::fit(Self::global_header(frame, 0x01), cap) {
            Err(e) => Err(e),
            Ok(header) => Self::read_run(server, ids, header, cap),
        }
    }
}

/// The error that a failed attribute access aborts a request with.
fn abort_error(e: AttrError) -> (r: ZclError)
    ensures
        r == Dispatch::abort(e),
{
    match e {
        AttrError::Codec(ze) => ze,
        _ => ZclError::InvalidValue,
    }
}

#[verifier::loop_isolation(false)]
fn dispatch_read_attributes<CS: ClusterServer>(
    server: &CS,
    ids: &[u8],
    frame: &IncomingZclFrame<'_>,
    buf: &mut [u8],
) -> (r: Result<usize, ZclError>)
    requires
        server.wf(),
    ensures
        final(buf)@.len() == old(buf)@.len(),
        Dispatch::sent(
            Dispatch::read_response(*server, *frame, ids@, old(buf)@.len()),
            old(buf)@,
            final(buf)@,
            r,
        ),
{
    let hdr_len: usize = match write_global_response_header(buf, frame, 0x01) {
        Ok(n) => n,
        Err(e) => {
            return Err(e);
        },
    };
    let ghost cap = buf@.len();
    let ghost whole = Dispatch::read_response(*server, *frame, ids@, cap);
    let mut pos: usize = hdr_len;
    let mut at: usize = 0;
    assert(ids@.skip(0) =~= ids@);
    while ids.len() - at >= 2
        invariant
            server.wf(),
            at <= ids@.len(),
            pos <= buf@.len(),
            buf@.len() == cap,
            whole == Dispatch::read_run(*server, ids@.skip(at as int), buf@.take(pos as int), cap),
            same_from(old(buf)@, buf@, pos as int),
        decreases ids@.len() - at,
    {
        let ghost rest = ids@.skip(at as int);
        let ghost acc = buf@.take(pos as int);
        let id: u16 = read_u16(ids, at);
        assert(id == Le::u16_at(rest, 0));
        assert(rest.skip(2) =~= ids@.skip(at + 2));
        pos = match put_u16_le(buf, pos, id) {
            Ok(next) => next,
            Err(e) => {
                return Err(e);
            },
        };
        if buf.len() - pos < 2 {
            return Err(ZclError::BufferTooSmall);
        }
        let ghost prefix = buf@.take(pos as int);
        // The status goes to `pos`, the data type after it, the value behind them.
        let (head, tail) = buf.split_at_mut(pos + 2);
        let ghost head0 = head@;
        match server.read_attribute(AttributeId(id), tail) {
            Ok((type_id, n)) => {
                head[pos] = 0x00;
                head[pos + 1] = type_id.as_u8();
                pos = pos + 2 + n;
                proof {
                    let value = server.attr(AttributeId(id), (cap - acc.len() - 4) as nat)->Ok_0.1;
                    assert(buf@.take(pos as int) =~= acc + Le::u16(id) + seq![0u8, type_id.code()]
                        + value);
                }
            },
            Err(e) => {
                match e.to_status() {
                    Some(status) => {
                        head[pos] = status.as_u8();
                        pos = pos + 1;
                        assert(buf@.take(pos as int) =~= acc + Le::u16(id) + seq![status.code()]);
                    },
                    None => {
                        return Err(abort_error(e));
                    },
                }
            },
        }
        at = at + 2;
    }
    Ok(pos)
}

// ---------------------------------------------------------------------------
// Writing attributes
// ---------------------------------------------------------------------------

impl Dispatch {
    /// A failure record of a write response.
    pub open spec fn write_failure(status: Status, id: AttributeId) -> Seq<u8> {
        seq![status.code()] + Le::u16(id.0)
    }

    /// Writing the records of `rest` took `pre` to `post`, and the failure
    /// records, appended to `acc`, come to `response`. A record of unknown data
    /// type is reported and ends the request; a truncated record or a codec
    /// error aborts it.
    pub open spec fn write_run<CS: ClusterServer>(
        pre: CS,
        rest: Seq<u8>,
        acc: Seq<u8>,
        cap: nat,
        post: CS,
        response: Result<Seq<u8>, ZclError>,
    ) -> bool
        decreases rest.len(),
    {
        match WriteItem::first(rest) {
            WriteItem::End => post == pre && response == Ok::<Seq<u8>, ZclError>(acc),
            WriteItem::Truncated => post == pre && response == Err::<Seq<u8>, ZclError>(
                ZclError::InsufficientBytes,
            ),
            WriteItem::UnknownType(id) => post == pre && response == Self::fit(
                acc + Self::write_failure(Status::InvalidDataType, id),
                cap,
            ),
            WriteItem::Record { attr_id, type_id, value } => exists|mid: CS, w: Result<(), AttrError>| #[trigger]
                CS::wrote(pre, attr_id, type_id, value, mid, w) && match w {
                    Ok(()) => Self::write_run(mid, WriteItem::after(rest), acc, cap, post, response),
                    Err(e) => match e.status() {
                        None => post == mid && response == Err::<Seq<u8>, ZclError>(Self::abort(e)),
                        Some(status) => match Self::fit(
                            acc + Self::write_failure(status, attr_id),
                            cap,
                        ) {
                            Err(full) => post == mid && response == Err::<Seq<u8>, ZclError>(full),
                            Ok(more) => Self::write_run(
                                mid,
                                WriteItem::after(rest),
                                more,
                                cap,
                                post,
                                response,
                            ),
                        },
                    },
                },
        }
    }

    /// A write request took `pre` to `post` and is answered with `response`: a
    /// single success where every record was written, else the failure records.
    pub open spec fn write_answered<CS: ClusterServer>(
        pre: CS,
        frame: IncomingZclFrame,
        data: Seq<u8>,
        cap: nat,
        post: CS,
        response: Result<Seq<u8>, ZclError>,
    ) -> bool {
        match Self::fit(Self::global_header(frame, 0x04), cap) {
            Err(e) => post == pre && response == Err::<Seq<u8>, ZclError>(e),
            Ok(header) => exists|run: Result<Seq<u8>, ZclError>| #[trigger]
                Self::write_run(pre, data, header, cap, post, run) && response == match run {
                    Ok(bytes) => if bytes == header {
                        Self::fit(header + seq![0u8], cap)
                    } else {
                        Ok(bytes)
                    },
                    Err(e) => Err(e),
                },
        }
    }

    /// Writing the records of `rest` without a response took `pre` to `post`: the
    /// records up to the first that does not parse are written, whatever comes of
    /// each.
    pub open spec fn silent_run<CS: ClusterServer>(pre: CS, rest: Seq<u8>, post: CS) -> bool
        decreases rest.len(),
    {
        match WriteItem::first(rest) {
            WriteItem::Record { attr_id, type_id, value } => exists|
                mid: CS,
                w: Result<(), AttrError>,
            | #[trigger]
                CS::wrote(pre, attr_id, type_id, value, mid, w) && Self::silent_run(
                    mid,
                    WriteItem::after(rest),
                    post,
                ),
            WriteItem::End | WriteItem::Truncated | WriteItem::UnknownType(_) => post == pre,
        }
    }

    /// The failures found by checking the records of `rest`, appended to
    /// `failures`. There is room for sixteen.
    pub open spec fn check_run<CS: ClusterServer>(
        server: CS,
        rest: Seq<u8>,
        failures: Seq<(u16, u8)>,
    ) -> Result<Seq<(u16, u8)>, ZclError>
        decreases rest.len(),
    {
        match WriteItem::first(rest) {
            WriteItem::End => Ok(failures),
            WriteItem::Truncated => Err(ZclError::InsufficientBytes),
            WriteItem::UnknownType(id) => if failures.len() >= 16 {
                Err(ZclError::BufferTooSmall)
            } else {
                Ok(failures.push((id.0, Status::InvalidDataType.code())))
            },
            WriteItem::Record { attr_id, type_id, value } => match server.write_check(
                attr_id,
                type_id,
                value,
            ) {
                Ok(()) => Self::check_run(server, WriteItem::after(rest), failures),
                Err(e) => match e.status() {
                    None => Err(Self::abort(e)),
                    Some(status) => if failures.len() >= 16 {
                        Err(ZclError::BufferTooSmall)
                    } else {
                        Self::check_run(
                            server,
                            WriteItem::after(rest),
                            failures.push((attr_id.0, status.code())),
                        )
                    },
                },
            },
        }
    }

    /// Writing the checked records of `rest` took `pre` to `post` with result
    /// `r`. Only a codec error stops it.
    pub open spec fn commit_run<CS: ClusterServer>(
        pre: CS,
        rest: Seq<u8>,
        post: CS,
        r: Result<(), ZclError>,
    ) -> bool
        decreases rest.len(),
    {
        match WriteItem::first(rest) {
            WriteItem::End => post == pre && r == Ok::<(), ZclError>(()),
            WriteItem::Truncated | WriteItem::UnknownType(_) => post == pre && r == Err::<
                (),
                ZclError,
            >(ZclError::InsufficientBytes),
            WriteItem::Record { attr_id, type_id, value } => exists|
                mid: CS,
                w: Result<(), AttrError>,
            | #[trigger]
                CS::wrote(pre, attr_id, type_id, value, mid, w) && match w {
                    Err(AttrError::Codec(ze)) => post == mid && r == Err::<(), ZclError>(ze),
                    _ => Self::commit_run(mid, WriteItem::after(rest), post, r),
                },
        }
    }

    /// The failure records of a list of failures, after `acc`.
    pub open spec fn failure_records(acc: Seq<u8>, failures: Seq<(u16, u8)>) -> Seq<u8>
        decreases failures.len(),
    {
        if failures.len() == 0 {
            acc
        } else {
            Self::failure_records(
                acc + seq![failures[0].1] + Le::u16(failures[0].0),
                failures.skip(1),
            )
        }
    }

    /// An undivided write request took `pre` to `post` and is answered with
    /// `response`: nothing is written unless every record checks out.
    pub open spec fn undivided_answered<CS: ClusterServer>(
        pre: CS,
        frame: IncomingZclFrame,
        data: Seq<u8>,
        cap: nat,
        post: CS,
        response: Result<Seq<u8>, ZclError>,
    ) -> bool {
        match Self::fit(Self::global_header(frame, 0x04), cap) {
            Err(e) => post == pre && response == Err::<Seq<u8>, ZclError>(e),
            Ok(header) => match Self::check_run(pre, data, Seq::empty()) {
                Err(e) => post == pre && response == Err::<Seq<u8>, ZclError>(e),
                Ok(failures) => if failures.len() > 0 {
                    post == pre && response == Self::fit(
                        Self::failure_records(header, failures),
                        cap,
                    )
                } else {
                    exists|r: Result<(), ZclError>| #[trigger]
                        Self::commit_run(pre, data, post, r) && response == match r {
                            Ok(()) => Self::fit(header + seq![0u8], cap),
                            Err(e) => Err(e),
                        }
                },
            },
        }
    }
}

proof fn lemma_silent_step<CS: ClusterServer>(
    pre: CS,
    rest: Seq<u8>,
    mid: CS,
    w: Result<(), AttrError>,
    post: CS,
)
    requires
        WriteItem::first(rest) is Record,
        CS::wrote(
            pre,
            WriteItem::first(rest)->attr_id,
            WriteItem::first(rest)->type_id,
            WriteItem::first(rest)->value,
            mid,
            w,
        ),
        Dispatch::silent_run(mid, WriteItem::after(rest), post),
    ensures
        Dispatch::silent_run(pre, rest, post),
{
}

#[verifier::loop_isolation(false)]
fn dispatch_write_attributes_no_response<CS: ClusterServer>(
    server: &mut CS,
    payload: &WriteAttributesPayload<'_>,
) -> (n: usize)
    requires
        old(server).wf(),
    ensures
        n == 0,
        final(server).wf(),
        Dispatch::silent_run(*old(server), payload.data@, *final(server)),
{
    let ghost data = payload.data@;
    let mut pos: usize = 0;
    assert(data.skip(0) =~= data);
    loop
        invariant
            server.wf(),
            pos <= data.len(),
            forall|post: CS|
                Dispatch::silent_run(*server, data.skip(pos as int), post)
                    ==> #[trigger] Dispatch::silent_run(*old(server), data, post),
        decreases data.len() - pos,
    {
        let ghost pre = *server;
        match payload.step(pos) {
            WriteStep::Record(record, next) => {
                let w: Result<(), AttrError> = server.write_attribute(
                    record.attr_id,
                    record.type_id,
                    record.value,
                );
                assert(CS::wrote(
                    pre,
                    record.attr_id,
                    record.type_id,
                    record.value@,
                    *server,
                    w,
                ));
                proof {
                    let now = *server;
                    assert forall|post: CS|
                        Dispatch::silent_run(now, data.skip(next as int), post) implies #[trigger]
                    Dispatch::silent_run(*old(server), data, post) by {
                        lemma_silent_step(pre, data.skip(pos as int), now, w, post);
                    }
                }
                pos = next;
            },
            _ => {
                return 0;
            },
        }
    }
}

#[verifier::loop_isolation(false)]
fn dispatch_write_attributes<CS: ClusterServer>(
    server: &mut CS,
    payload: &WriteAttributesPayload<'_>,
    frame: &IncomingZclFrame<'_>,
    buf: &mut [u8],
) -> (r: Result<usize, ZclError>)
    requires
        old(server).wf(),
    ensures
        final(server).wf(),
        final(buf)@.len() == old(buf)@.len(),
        exists|response: Result<Seq<u8>, ZclError>| #[trigger]
            Dispatch::write_answered(
                *old(server),
                *frame,
                payload.data@,
                old(buf)@.len(),
                *final(server),
                response,
            ) && Dispatch::sent(response, old(buf)@, final(buf)@, r),
{
    let ghost cap = buf@.len();
    let ghost data = payload.data@;
    let ghost header = Dispatch::global_header(*frame, 0x04);
    let hdr_len: usize = match write_global_response_header(buf, frame, 0x04) {
        Ok(n) => n,
        Err(e) => {
            assert(Dispatch::write_answered(
                *old(server),
                *frame,
                data,
                cap,
                *server,
                Err::<Seq<u8>, ZclError>(e),
            ));
            return Err(e);
        },
    };
    let mut pos: usize = hdr_len;
    let mut at: usize = 0;
    assert(data.skip(0) =~= data);
    assert(buf@.take(pos as int) =~= header);
    loop
        invariant
            server.wf(),
            at <= data.len(),
            hdr_len <= pos <= buf@.len(),
            buf@.len() == cap,
            header.len() == hdr_len,
            buf@.take(hdr_len as int) == header,
            same_from(old(buf)@, buf@, pos as int),
            forall|post: CS, run: Result<Seq<u8>, ZclError>|
                Dispatch::write_run(
                    *server,
                    data.skip(at as int),
                    buf@.take(pos as int),
                    cap,
                    post,
                    run,
                ) ==> #[trigger] Dispatch::write_run(*old(server), data, header, cap, post, run),
        decreases data.len() - at,
    {
        let ghost pre = *server;
        let ghost acc = buf@.take(pos as int);
        match payload.step(at) {
            WriteStep::End => {
                assert(Dispatch::write_run(
                    *old(server),
                    data,
                    header,
                    cap,
                    *server,
                    Ok::<Seq<u8>, ZclError>(acc),
                ));
                break ;
            },
            WriteStep::UnknownType(id) => {
                // The position of what follows a value of unknown length is lost.
                let ghost record = Dispatch::write_failure(Status::InvalidDataType, id);
                let ghost run = Dispatch::fit(acc + record, cap);
                assert(Dispatch::write_run(*old(server), data, header, cap, *server, run));
                pos = match put_byte(buf, pos, Status::InvalidDataType.as_u8()) {
                    Ok(next) => next,
                    Err(e) => {
                        assert(Dispatch::write_answered(
                            *old(server),
                            *frame,
                            data,
                            cap,
                            *server,
                            Err::<Seq<u8>, ZclError>(e),
                        ));
                        return Err(e);
                    },
                };
                pos = match put_u16_le(buf, pos, id.0) {
                    Ok(next) => next,
                    Err(e) => {
                        assert(Dispatch::write_answered(
                            *old(server),
                            *frame,
                            data,
                            cap,
                            *server,
                            Err::<Seq<u8>, ZclError>(e),
                        ));
                        return Err(e);
                    },
                };
                assert(buf@.take(pos as int) =~= acc + record);
                break ;
            },
            WriteStep::Truncated => {
                let ghost run = Err::<Seq<u8>, ZclError>(ZclError::InsufficientBytes);
                assert(Dispatch::write_run(*old(server), data, header, cap, *server, run));
                assert(Dispatch::write_answered(*old(server), *frame, data, cap, *server, run));
                return Err(ZclError::InsufficientBytes);
            },
            WriteStep::Record(record, next) => {
                let w: Result<(), AttrError> = server.write_attribute(
                    record.attr_id,
                    record.type_id,
                    record.value,
                );
                assert(CS::wrote(
                    pre,
                    record.attr_id,
                    record.type_id,
                    record.value@,
                    *server,
                    w,
                ));
                match w {
                    Ok(()) => {},
                    Err(e) => {
                        match e.to_status() {
                            Some(status) => {
                                let ghost failure = Dispatch::write_failure(status, record.attr_id);
                                proof {
                                    let run = Err::<Seq<u8>, ZclError>(ZclError::BufferTooSmall);
                                    if acc.len() + 3 > cap {
                                        assert(Dispatch::write_run(
                                            pre,
                                            data.skip(at as int),
                                            acc,
                                            cap,
                                            *server,
                                            run,
                                        ));
                                        assert(Dispatch::write_run(
                                            *old(server),
                                            data,
                                            header,
                                            cap,
                                            *server,
                                            run,
                                        ));
                                        assert(Dispatch::write_answered(
                                            *old(server),
                                            *frame,
                                            data,
                                            cap,
                                            *server,
                                            run,
                                        ));
                                    }
                                }
                                pos = match put_byte(buf, pos, status.as_u8()) {
                                    Ok(next) => next,
                                    Err(e) => {
                                        return Err(e);
                                    },
                                };
                                pos = match put_u16_le(buf, pos, record.attr_id.0) {
                                    Ok(next) => next,
                                    Err(e) => {
                                        return Err(e);
                                    },
                                };
                                assert(buf@.take(pos as int) =~= acc + failure);
                                assert(buf@.take(hdr_len as int) =~= header);
                            },
                            None => {
                                proof {
                                    let run = Err::<Seq<u8>, ZclError>(Dispatch::abort(e));
                                    assert(Dispatch::write_run(
                                        pre,
                                        data.skip(at as int),
                                        acc,
                                        cap,
                                        *server,
                                        run,
                                    ));
                                    assert(Dispatch::write_run(
                                        *old(server),
                                        data,
                                        header,
                                        cap,
                                        *server,
                                        run,
                                    ));
                                    assert(Dispatch::write_answered(
                                        *old(server),
                                        *frame,
                                        data,
                                        cap,
                                        *server,
                                        run,
                                    ));
                                }
                                return Err(abort_error(e));
                            },
                        }
                    },
                }
                proof {
                    assert forall|post: CS, run: Result<Seq<u8>, ZclError>|
                        Dispatch::write_run(
                            *server,
                            data.skip(next as int),
                            buf@.take(pos as int),
                            cap,
                            post,
                            run,
                        ) implies #[trigger] Dispatch::write_run(
                        *old(server),
                        data,
                        header,
                        cap,
                        post,
                        run,
                    ) by {
                        assert(Dispatch::write_run(
                            pre,
                            data.skip(at as int),
                            acc,
                            cap,
                            post,
                            run,
                        ));
                    }
                }
                at = next;
            },
        }
    }
    let ghost bytes = buf@.take(pos as int);
    let ghost run = Ok::<Seq<u8>, ZclError>(bytes);
    assert(Dispatch::write_run(*old(server), data, header, cap, *server, run));
    // Nothing after the header: every record was written.
    if pos == hdr_len {
        assert(bytes =~= header);
        assert(Dispatch::write_answered(
            *old(server),
            *frame,
            data,
            cap,
            *server,
            Dispatch::fit(header + seq![0u8], cap),
        ));
        return put_byte(buf, pos, 0x00);
    }
    assert(bytes.len() != header.len());
    assert(Dispatch::write_answered(*old(server), *frame, data, cap, *server, run));
    Ok(pos)
}

proof fn lemma_commit_step<CS: ClusterServer>(
    pre: CS,
    rest: Seq<u8>,
    mid: CS,
    w: Result<(), AttrError>,
    post: CS,
    r: Result<(), ZclError>,
)
    requires
        WriteItem::first(rest) is Record,
        CS::wrote(
            pre,
            WriteItem::first(rest)->attr_id,
            WriteItem::first(rest)->type_id,
            WriteItem::first(rest)->value,
            mid,
            w,
        ),
        match w {
            Err(AttrError::Codec(ze)) => post == mid && r == Err::<(), ZclError>(ze),
            _ => Dispatch::commit_run(mid, WriteItem::after(rest), post, r),
        },
    ensures
        Dispatch::commit_run(pre, rest, post, r),
{
}

/// Check every record of an undivided write without changing the server.
#[verifier::loop_isolation(false)]
fn check_undivided<CS: ClusterServer>(server: &CS, payload: &WriteAttributesPayload<'_>) -> (r:
    Result<heapless::Vec<(u16, u8), 16>, ZclError>)
    requires
        server.wf(),
    ensures
        match Dispatch::check_run(*server, payload.data@, Seq::empty()) {
            Ok(failures) => r is Ok && crate::bounded::write_failure_items(r->Ok_0) == failures,
            Err(e) => r is Err && r->Err_0 == e,
        },
{
    let ghost data = payload.data@;
    let ghost whole = Dispatch::check_run(*server, data, Seq::empty());
    let mut failures = write_failures();
    let mut at: usize = 0;
    assert(data.skip(0) =~= data);
    loop
        invariant
            at <= data.len(),
            whole == Dispatch::check_run(
                *server,
                data.skip(at as int),
                crate::bounded::write_failure_items(failures),
            ),
        decreases data.len() - at,
    {
        match payload.step(at) {
            WriteStep::End => {
                return Ok(failures);
            },
            WriteStep::UnknownType(id) => {
                return match push_write_failure(
                    &mut failures,
                    (id.0, Status::InvalidDataType.as_u8()),
                ) {
                    Ok(()) => Ok(failures),
                    Err(_) => Err(ZclError::BufferTooSmall),
                };
            },
            WriteStep::Truncated => {
                return Err(ZclError::InsufficientBytes);
            },
            WriteStep::Record(record, next) => {
                match server.check_write_attribute(record.attr_id, record.type_id, record.value) {
                    Ok(()) => {},
                    Err(e) => match e.to_status() {
                        Some(status) => {
                            match push_write_failure(
                                &mut failures,
                                (record.attr_id.0, status.as_u8()),
                            ) {
                                Ok(()) => {},
                                Err(_) => {
                                    return Err(ZclError::BufferTooSmall);
                                },
                            }
                        },
                        None => {
                            return Err(abort_error(e));
                        },
                    },
                }
                at = next;
            },
        }
    }
}

/// Write every record of an undivided write that checked out.
#[verifier::loop_isolation(false)]
fn commit_undivided<CS: ClusterServer>(
    server: &mut CS,
    payload: &WriteAttributesPayload<'_>,
) -> (r: Result<(), ZclError>)
    requires
        old(server).wf(),
    ensures
        final(server).wf(),
        Dispatch::commit_run(*old(server), payload.data@, *final(server), r),
{
    let ghost data = payload.data@;
    let mut at: usize = 0;
    assert(data.skip(0) =~= data);
    loop
        invariant
            server.wf(),
            at <= data.len(),
            forall|post: CS, r: Result<(), ZclError>|
                Dispatch::commit_run(*server, data.skip(at as int), post, r)
                    ==> #[trigger] Dispatch::commit_run(*old(server), data, post, r),
        decreases data.len() - at,
    {
        let ghost pre = *server;
        match payload.step(at) {
            WriteStep::End => {
                return Ok(());
            },
            WriteStep::UnknownType(_) => {
                return Err(ZclError::InsufficientBytes);
            },
            WriteStep::Truncated => {
                return Err(ZclError::InsufficientBytes);
            },
            WriteStep::Record(record, next) => {
                let w: Result<(), AttrError> = server.write_attribute(
                    record.attr_id,
                    record.type_id,
                    record.value,
                );
                let ghost now = *server;
                if let Err(AttrError::Codec(ze)) = w {
                    proof {
                        lemma_commit_step(
                            pre,
                            data.skip(at as int),
                            now,
                            w,
                            now,
                            Err::<(), ZclError>(ze),
                        );
                    }
                    return Err(ze);
                }
                proof {
                    assert forall|post: CS, r: Result<(), ZclError>|
                        Dispatch::commit_run(now, data.skip(next as int), post, r) implies #[trigger]
                    Dispatch::commit_run(*old(server), data, post, r) by {
                        lemma_commit_step(pre, data.skip(at as int), now, w, post, r);
                    }
                }
                at = next;
            },
        }
    }
}

#[verifier::loop_isolation(false)]
fn dispatch_write_attributes_undivided<CS: ClusterServer>(
    server: &mut CS,
    payload: &WriteAttributesPayload<'_>,
    frame: &IncomingZclFrame<'_>,
    buf: &mut [u8],
) -> (r: Result<usize, ZclError>)
    requires
        old(server).wf(),
    ensures
        final(server).wf(),
        final(buf)@.len() == old(buf)@.len(),
        exists|response: Result<Seq<u8>, ZclError>| #[trigger]
            Dispatch::undivided_answered(
                *old(server),
                *frame,
                payload.data@,
                old(buf)@.len(),
                *final(server),
                response,
            ) && Dispatch::sent(response, old(buf)@, final(buf)@, r),
{
    let ghost cap = buf@.len();
    let ghost data = payload.data@;
    let ghost header = Dispatch::global_header(*frame, 0x04);
    let hdr_len: usize = match write_global_response_header(buf, frame, 0x04) {
        Ok(n) => n,
        Err(e) => {
            assert(Dispatch::undivided_answered(
                *old(server),
                *frame,
                data,
                cap,
                *server,
                Err::<Seq<u8>, ZclError>(e),
            ));
            return Err(e);
        },
    };
    assert(buf@.take(hdr_len as int) =~= header);
    let failures = match check_undivided(server, payload) {
        Ok(failures) => failures,
        Err(e) => {
            assert(Dispatch::undivided_answered(
                *old(server),
                *frame,
                data,
                cap,
                *server,
                Err::<Seq<u8>, ZclError>(e),
            ));
            return Err(e);
        },
    };
    let failed: &[(u16, u8)] = write_failure_slice(&failures);
    if failed.len() > 0 {
        let ghost all = Dispatch::failure_records(header, failed@);
        let ghost response = Dispatch::fit(all, cap);
        assert(Dispatch::undivided_answered(*old(server), *frame, data, cap, *server, response));
        let mut pos: usize = hdr_len;
        let mut i: usize = 0;
        assert(failed@.skip(0) =~= failed@);
        while i < failed.len()
            invariant
                i <= failed@.len(),
                pos <= buf@.len(),
                buf@.len() == cap,
                all == Dispatch::failure_records(buf@.take(pos as int), failed@.skip(i as int)),
                same_from(old(buf)@, buf@, pos as int),
            decreases failed@.len() - i,
        {
            let ghost acc = buf@.take(pos as int);
            let ghost rest = failed@.skip(i as int);
            let (attr_id, status_byte): (u16, u8) = failed[i];
            proof {
                assert(rest[0] == failed@[i as int]);
                assert(rest.skip(1) =~= failed@.skip(i + 1));
                lemma_failure_records_len(
                    acc + seq![status_byte] + Le::u16(attr_id),
                    failed@.skip(i + 1),
                );
            }
            pos = match put_byte(buf, pos, status_byte) {
                Ok(next) => next,
                Err(e) => {
                    return Err(e);
                },
            };
            pos = match put_u16_le(buf, pos, attr_id) {
                Ok(next) => next,
                Err(e) => {
                    return Err(e);
                },
            };
            i = i + 1;
        }
        return Ok(pos);
    }
    let r: Result<(), ZclError> = commit_undivided(server, payload);
    match r {
        Err(e) => {
            assert(Dispatch::undivided_answered(
                *old(server),
                *frame,
                data,
                cap,
                *server,
                Err::<Seq<u8>, ZclError>(e),
            ));
            Err(e)
        },
        Ok(()) => {
            assert(Dispatch::undivided_answered(
                *old(server),
                *frame,
                data,
                cap,
                *server,
                Dispatch::fit(header + seq![0u8], cap),
            ));
            put_byte(buf, hdr_len, 0x00)
        },
    }
}

proof fn lemma_failure_records_len(acc: Seq<u8>, failures: Seq<(u16, u8)>)
    ensures
        Dispatch::failure_records(acc, failures).len() == acc.len() + 3 * failures.len(),
    decreases failures.len(),
{
    if failures.len() > 0 {
        lemma_failure_records_len(
            acc + seq![failures[0].1] + Le::u16(failures[0].0),
            failures.skip(1),
        );
    }
}

// ---------------------------------------------------------------------------
// Discovery
// ---------------------------------------------------------------------------

impl Dispatch {
    /// The attributes of an ascending list from identifier `start` on.
    pub open spec fn attributes_from(list: Seq<AttrInfo>, start: u16) -> Seq<AttrInfo>
        decreases list.len(),
    {
        if list.len() > 0 && list[0].id.0 < start {
            Self::attributes_from(list.skip(1), start)
        } else {
            list
        }
    }

    /// The commands of an ascending list from `start` on.
    pub open spec fn commands_from(list: Seq<CommandId>, start: u8) -> Seq<CommandId>
        decreases list.len(),
    {
        if list.len() > 0 && list[0].0 < start {
            Self::commands_from(list.skip(1), start)
        } else {
            list
        }
    }

    /// The discovery record of an attribute. An extended one ends in the access
    /// rights.
    pub open spec fn attribute_record(info: AttrInfo, extended: bool) -> Seq<u8> {
        let base = Le::u16(info.id.0) + seq![info.type_id.code()];
        if extended {
            base + seq![info.access.bits()]
        } else {
            base
        }
    }

    /// The discovery records of a list of attributes, after `acc`.
    pub open spec fn attribute_records(
        acc: Seq<u8>,
        list: Seq<AttrInfo>,
        extended: bool,
    ) -> Seq<u8>
        decreases list.len(),
    {
        if list.len() == 0 {
            acc
        } else {
            Self::attribute_records(
                acc + Self::attribute_record(list[0], extended),
                list.skip(1),
                extended,
            )
        }
    }

    pub open spec fn min(a: nat, b: nat) -> nat {
        if a <= b {
            a
        } else {
            b
        }
    }

    /// The bytes of a list of commands.
    pub open spec fn command_bytes(list: Seq<CommandId>) -> Seq<u8> {
        list.map_values(|c: CommandId| c.0)
    }

    /// The response to an attribute discovery: whether the list ends here, and
    /// the records of up to `max_count` attributes from `start` on.
    pub open spec fn discover_attributes(
        list: Seq<AttrInfo>,
        start: u16,
        max_count: u8,
        frame: IncomingZclFrame,
        extended: bool,
        cap: nat,
    ) -> Result<Seq<u8>, ZclError> {
        let remaining = Self::attributes_from(list, start);
        let count = Self::min(remaining.len(), max_count as nat);
        let header = Self::global_header(frame, if extended { 0x16 } else { 0x0d });
        Self::fit(
            Self::attribute_records(
                header + seq![if count == remaining.len() { 1u8 } else { 0u8 }],
                remaining.take(count as int),
                extended,
            ),
            cap,
        )
    }

    /// The response to a command discovery: whether the list ends here, and up to
    /// `max_count` commands from `start` on.
    pub open spec fn discover_commands(
        response: u8,
        list: Seq<CommandId>,
        start: u8,
        max_count: u8,
        frame: IncomingZclFrame,
        cap: nat,
    ) -> Result<Seq<u8>, ZclError> {
        let remaining = Self::commands_from(list, start);
        let count = Self::min(remaining.len(), max_count as nat);
        Self::fit(
            Self::global_header(frame, response) + seq![
                if count == remaining.len() {
                    1u8
                } else {
                    0u8
                },
            ] + Self::command_bytes(remaining.take(count as int)),
            cap,
        )
    }
}

proof fn lemma_attribute_records_len(acc: Seq<u8>, list: Seq<AttrInfo>, extended: bool)
    ensures
        Dispatch::attribute_records(acc, list, extended).len() == acc.len() + (if extended {
            4int
        } else {
            3int
        }) * list.len(),
    decreases list.len(),
{
    if list.len() > 0 {
        lemma_attribute_records_len(
            acc + Dispatch::attribute_record(list[0], extended),
            list.skip(1),
            extended,
        );
    }
}

/// Store an attribute's discovery record at `pos`.
fn put_attribute_record(buf: &mut [u8], pos: usize, info: AttrInfo, extended: bool) -> (r: Result<
    usize,
    ZclError,
>)
    requires
        pos <= old(buf)@.len(),
    ensures
        final(buf)@.len() == old(buf)@.len(),
        match r {
            Ok(next) => {
                &&& next == pos + Dispatch::attribute_record(info, extended).len()
                &&& next <= old(buf)@.len()
                &&& final(buf)@.take(next as int) == old(buf)@.take(pos as int)
                    + Dispatch::attribute_record(info, extended)
                &&& same_from(old(buf)@, final(buf)@, next as int)
            },
            Err(e) => {
                &&& e == ZclError::BufferTooSmall
                &&& pos + Dispatch::attribute_record(info, extended).len() > old(buf)@.len()
            },
        },
{
    let ghost before = buf@.take(pos as int);
    let pos: usize = match put_u16_le(buf, pos, info.id.0) {
        Ok(n) => n,
        Err(e) => {
            return Err(e);
        },
    };
    let pos: usize = match put_byte(buf, pos, info.type_id.as_u8()) {
        Ok(n) => n,
        Err(e) => {
            return Err(e);
        },
    };
    if !extended {
        assert(buf@.take(pos as int) =~= before + Dispatch::attribute_record(info, extended));
        return Ok(pos);
    }
    let r: Result<usize, ZclError> = put_byte(buf, pos, info.access.as_u8());
    assert(r matches Ok(next) ==> buf@.take(next as int) =~= before + Dispatch::attribute_record(
        info,
        extended,
    ));
    r
}

/// The position of the first attribute from `start_attr` on.
fn first_attribute_from(list: &Vec<AttrInfo>, start_attr: u16) -> (first: usize)
    ensures
        first <= list@.len(),
        Dispatch::attributes_from(list@, start_attr) == list@.skip(first as int),
{
    let mut first: usize = 0;
    assert(list@.skip(0) =~= list@);
    while first < list.len() && list[first].id.0 < start_attr
        invariant
            first <= list@.len(),
            Dispatch::attributes_from(list@, start_attr) == Dispatch::attributes_from(
                list@.skip(first as int),
                start_attr,
            ),
        decreases list@.len() - first,
    {
        assert(list@.skip(first as int).skip(1) =~= list@.skip(first + 1));
        first = first + 1;
    }
    first
}

/// Store the discovery records of `count` attributes from position `from` on.
fn put_attribute_records(
    buf: &mut [u8],
    at: usize,
    list: &Vec<AttrInfo>,
    from: usize,
    count: usize,
    extended: bool,
) -> (r: Result<usize, ZclError>)
    requires
        at <= old(buf)@.len(),
        from + count <= list@.len(),
    ensures
        final(buf)@.len() == old(buf)@.len(),
        Dispatch::sent(
            Dispatch::fit(
                Dispatch::attribute_records(
                    old(buf)@.take(at as int),
                    list@.skip(from as int).take(count as int),
                    extended,
                ),
                old(buf)@.len(),
            ),
            old(buf)@,
            final(buf)@,
            r,
        ),
{
    let ghost shown = list@.skip(from as int).take(count as int);
    let ghost all = Dispatch::attribute_records(buf@.take(at as int), shown, extended);
    let ghost cap = buf@.len();
    let total: usize = list.len();
    let mut pos: usize = at;
    let mut i: usize = 0;
    assert(shown.skip(0) =~= shown);
    while i < count
        invariant
            i <= count,
            total == list@.len(),
            from + count <= total,
            pos <= buf@.len(),
            buf@.len() == cap,
            shown == list@.skip(from as int).take(count as int),
            all == Dispatch::attribute_records(
                buf@.take(pos as int),
                shown.skip(i as int),
                extended,
            ),
            same_from(old(buf)@, buf@, pos as int),
            cap == old(buf)@.len(),
            all == Dispatch::attribute_records(
                old(buf)@.take(at as int),
                list@.skip(from as int).take(count as int),
                extended,
            ),
        decreases count - i,
    {
        let ghost acc = buf@.take(pos as int);
        let info: AttrInfo = list[from + i];
        proof {
            assert(shown.skip(i as int)[0] == info);
            assert(shown.skip(i as int).skip(1) =~= shown.skip(i + 1));
            lemma_attribute_records_len(
                acc + Dispatch::attribute_record(info, extended),
                shown.skip(i + 1),
                extended,
            );
        }
        pos =
        match put_attribute_record(buf, pos, info, extended) {
            Ok(n) => n,
            Err(e) => {
                return Err(e);
            },
        };
        i = i + 1;
    }
    Ok(pos)
}

/// Shared handler for `DiscoverAttributes` (response 0x0d) and
/// `DiscoverAttributesExtended` (response 0x16).
fn dispatch_discover_attributes(
    list: &Vec<AttrInfo>,
    start_attr: u16,
    max_count: u8,
    extended: bool,
    frame: &IncomingZclFrame<'_>,
    buf: &mut [u8],
) -> (r: Result<usize, ZclError>)
    ensures
        final(buf)@.len() == old(buf)@.len(),
        Dispatch::sent(
            Dispatch::discover_attributes(
                list@,
                start_attr,
                max_count,
                *frame,
                extended,
                old(buf)@.len(),
            ),
            old(buf)@,
            final(buf)@,
            r,
        ),
{
    let first: usize = first_attribute_from(list, start_attr);
    let left: usize = list.len() - first;
    let count: usize = if left <= max_count as usize {
        left
    } else {
        max_count as usize
    };
    let complete: u8 = if count >= left {
        1
    } else {
        0
    };
    let command: u8 = if extended {
        0x16
    } else {
        0x0d
    };
    proof {
        lemma_attribute_records_len(
            Dispatch::global_header(*frame, command) + seq![complete],
            list@.skip(first as int).take(count as int),
            extended,
        );
    }
    let pos: usize = match write_global_response_header(buf, frame, command) {
        Ok(n) => n,
        Err(e) => {
            return Err(e);
        },
    };
    let pos: usize = match put_byte(buf, pos, complete) {
        Ok(n) => n,
        Err(e) => {
            return Err(e);
        },
    };
    put_attribute_records(buf, pos, list, first, count, extended)
}

/// The position of the first command from `start_cmd` on.
fn first_command_from(commands: &Vec<CommandId>, start_cmd: u8) -> (first: usize)
    ensures
        first <= commands@.len(),
        Dispatch::commands_from(commands@, start_cmd) == commands@.skip(first as int),
{
    let mut first: usize = 0;
    assert(commands@.skip(0) =~= commands@);
    while first < commands.len() && commands[first].0 < start_cmd
        invariant
            first <= commands@.len(),
            Dispatch::commands_from(commands@, start_cmd) == Dispatch::commands_from(
                commands@.skip(first as int),
                start_cmd,
            ),
        decreases commands@.len() - first,
    {
        assert(commands@.skip(first as int).skip(1) =~= commands@.skip(first + 1));
        first = first + 1;
    }
    first
}

/// Store `count` commands from position `from` on.
fn put_commands(buf: &mut [u8], at: usize, commands: &Vec<CommandId>, from: usize, count: usize) -> (r:
    Result<usize, ZclError>)
    requires
        at <= old(buf)@.len(),
        from + count <= commands@.len(),
    ensures
        final(buf)@.len() == old(buf)@.len(),
        Dispatch::sent(
            Dispatch::fit(
                old(buf)@.take(at as int) + Dispatch::command_bytes(
                    commands@.skip(from as int).take(count as int),
                ),
                old(buf)@.len(),
            ),
            old(buf)@,
            final(buf)@,
            r,
        ),
{
    let ghost shown = commands@.skip(from as int).take(count as int);
    let ghost front = buf@.take(at as int);
    let ghost cap = buf@.len();
    let total: usize = commands.len();
    let mut pos: usize = at;
    let mut i: usize = 0;
    assert(Dispatch::command_bytes(shown.take(0)) =~= Seq::<u8>::empty());
    while i < count
        invariant
            i <= count,
            total == commands@.len(),
            from + count <= total,
            at <= cap,
            pos == at + i,
            pos <= buf@.len(),
            buf@.len() == cap,
            same_from(old(buf)@, buf@, pos as int),
            cap == old(buf)@.len(),
            front == old(buf)@.take(at as int),
            shown == commands@.skip(from as int).take(count as int),
            buf@.take(pos as int) == front + Dispatch::command_bytes(shown.take(i as int)),
        decreases count - i,
    {
        let command: CommandId = commands[from + i];
        assert(shown[i as int] == command);
        assert(Dispatch::command_bytes(shown.take(i + 1)) =~= Dispatch::command_bytes(
            shown.take(i as int),
        ) + seq![command.0]);
        pos =
        match put_byte(buf, pos, command.0) {
            Ok(n) => n,
            Err(e) => {
                return Err(e);
            },
        };
        i = i + 1;
    }
    assert(shown.take(i as int) =~= shown);
    Ok(pos)
}

/// Shared handler for `DiscoverCommandsReceived` (response 0x12) and
/// `DiscoverCommandsGenerated` (response 0x14).
fn dispatch_discover_commands(
    response_cmd_id: u8,
    start_cmd: u8,
    max_count: u8,
    commands: &Vec<CommandId>,
    frame: &IncomingZclFrame<'_>,
    buf: &mut [u8],
) -> (r: Result<usize, ZclError>)
    ensures
        final(buf)@.len() == old(buf)@.len(),
        Dispatch::sent(
            Dispatch::discover_commands(
                response_cmd_id,
                commands@,
                start_cmd,
                max_count,
                *frame,
                old(buf)@.len(),
            ),
            old(buf)@,
            final(buf)@,
            r,
        ),
{
    let first: usize = first_command_from(commands, start_cmd);
    let left: usize = commands.len() - first;
    let count: usize = if left <= max_count as usize {
        left
    } else {
        max_count as usize
    };
    let complete: u8 = if count >= left {
        1
    } else {
        0
    };
    let pos: usize = match write_global_response_header(buf, frame, response_cmd_id) {
        Ok(n) => n,
        Err(e) => {
            return Err(e);
        },
    };
    let pos: usize = match put_byte(buf, pos, complete) {
        Ok(n) => n,
        Err(e) => {
            return Err(e);
        },
    };
    put_commands(buf, pos, commands, first, count)
}

// ---------------------------------------------------------------------------
// Reporting configuration
// ---------------------------------------------------------------------------

impl Dispatch {
    /// The number of bytes of the reportable change for a data type: its width
    /// for integer and floating-point types, and none for others.
    pub open spec fn change_len(attr_type: u8) -> nat {
        if 0x20 <= attr_type <= 0x27 {
            (attr_type - 0x20 + 1) as nat
        } else if 0x28 <= attr_type <= 0x2f {
            (attr_type - 0x28 + 1) as nat
        } else if attr_type == 0x38 {
            2
        } else if attr_type == 0x39 {
            4
        } else if attr_type == 0x3a {
            8
        } else {
            0
        }
    }

    /// The length of the configuration record that `rest` starts with, unless
    /// `rest` ends within it.
    pub open spec fn record_len(rest: Seq<u8>) -> Option<nat> {
        if rest.len() < 3 {
            None
        } else if rest[0] % 2 == 0 {
            if rest.len() < 8 || rest.len() < 8 + Self::change_len(rest[3]) {
                None
            } else {
                Some(8 + Self::change_len(rest[3]))
            }
        } else if rest.len() < 5 {
            None
        } else {
            Some(5)
        }
    }

    /// The configuration record that `rest` starts with.
    pub open spec fn record_at(rest: Seq<u8>) -> RecordFields {
        if rest[0] % 2 == 0 {
            RecordFields {
                direction: 0,
                attr_id: AttributeId(Le::u16_at(rest, 1)),
                attr_type: rest[3],
                min_interval: Le::u16_at(rest, 4),
                max_interval: Le::u16_at(rest, 6),
                reportable_change: rest.subrange(8, 8 + Self::change_len(rest[3]) as int),
                timeout_period: 0,
            }
        } else {
            RecordFields {
                direction: 1,
                attr_id: AttributeId(Le::u16_at(rest, 1)),
                attr_type: 0,
                min_interval: 0,
                max_interval: 0,
                reportable_change: Seq::empty(),
                timeout_period: Le::u16_at(rest, 3),
            }
        }
    }

    /// The configuration records of `rest`, after `acc`. There is room for
    /// sixteen.
    pub open spec fn records_of(rest: Seq<u8>, acc: Seq<RecordFields>) -> Result<
        Seq<RecordFields>,
        ZclError,
    >
        decreases rest.len(),
    {
        if rest.len() == 0 {
            Ok(acc)
        } else {
            match Self::record_len(rest) {
                None => Err(ZclError::InsufficientBytes),
                Some(n) => if acc.len() >= 16 {
                    Err(ZclError::BufferTooSmall)
                } else {
                    Self::records_of(rest.skip(n as int), acc.push(Self::record_at(rest)))
                },
            }
        }
    }

    /// The number of accepted send records after one more.
    pub open spec fn accepted_after(accepted: u8, record: RecordFields, status: Status) -> u8 {
        if status == Status::Success && record.direction == 0 && accepted < u8::MAX {
            (accepted + 1) as u8
        } else {
            accepted
        }
    }

    /// The failures after one more record.
    pub open spec fn refused_after(
        refused: Seq<(u8, u16, u8)>,
        record: RecordFields,
        status: Status,
    ) -> Seq<(u8, u16, u8)> {
        if status == Status::Success {
            refused
        } else {
            refused.push((record.direction, record.attr_id.0, status.code()))
        }
    }

    /// Handing `records` to the server, one after the other, took `pre` to `post`,
    /// with `total` accepted send records in all and failures `failures`.
    pub open spec fn configure_run<CS: ClusterServer>(
        pre: CS,
        records: Seq<RecordFields>,
        ctx: DispatchContext,
        accepted: u8,
        refused: Seq<(u8, u16, u8)>,
        post: CS,
        total: u8,
        failures: Seq<(u8, u16, u8)>,
    ) -> bool
        decreases records.len(),
    {
        if records.len() == 0 {
            post == pre && total == accepted && failures == refused
        } else {
            exists|mid: CS, status: Status| #[trigger]
                CS::reporting_set(pre, records[0], ctx, mid, status) && Self::configure_run(
                    mid,
                    records.skip(1),
                    ctx,
                    Self::accepted_after(accepted, records[0], status),
                    Self::refused_after(refused, records[0], status),
                    post,
                    total,
                    failures,
                )
        }
    }

    /// The failure records of a list of refused configuration records, after
    /// `acc`.
    pub open spec fn refusal_records(acc: Seq<u8>, failures: Seq<(u8, u16, u8)>) -> Seq<u8>
        decreases failures.len(),
    {
        if failures.len() == 0 {
            acc
        } else {
            Self::refusal_records(
                acc + seq![failures[0].2, failures[0].0] + Le::u16(failures[0].1),
                failures.skip(1),
            )
        }
    }

    /// A request that is not answered leaves the buffer as it was.
    pub open spec fn unanswered(
        before: Seq<u8>,
        after: Seq<u8>,
        r: Result<DispatchOutcome, ZclError>,
    ) -> bool {
        after == before && r == Ok::<DispatchOutcome, ZclError>(DispatchOutcome::of_len(0))
    }

    /// A configuration request took `pre` to `post` and the buffer from
    /// `before` to `after`, with outcome `r`. A payload that does not parse as a
    /// whole changes nothing, and neither does a request that was not for this
    /// device alone.
    pub open spec fn configure_answered<CS: ClusterServer>(
        pre: CS,
        frame: IncomingZclFrame,
        ctx: DispatchContext,
        data: Seq<u8>,
        before: Seq<u8>,
        post: CS,
        after: Seq<u8>,
        r: Result<DispatchOutcome, ZclError>,
    ) -> bool {
        if !ctx.is_unicast() {
            post == pre && Self::unanswered(before, after, r)
        } else {
            match Self::records_of(data, Seq::empty()) {
                Err(e) => post == pre && after == before && r == Err::<
                    DispatchOutcome,
                    ZclError,
                >(e),
                Ok(records) => match Self::fit(Self::global_header(frame, 0x07), before.len()) {
                    Err(e) => post == pre && r == Err::<DispatchOutcome, ZclError>(e),
                    Ok(header) => exists|total: u8, failures: Seq<(u8, u16, u8)>| #[trigger]
                        Self::configure_run(
                            pre,
                            records,
                            ctx,
                            0,
                            Seq::empty(),
                            post,
                            total,
                            failures,
                        ) && Self::configure_outcome(
                            header,
                            total,
                            failures,
                            before,
                            after,
                            r,
                        ),
                },
            }
        }
    }

    /// The outcome of a configuration request with `total` accepted send records
    /// and the given failures: a single success, or the failure records.
    pub open spec fn configure_outcome(
        header: Seq<u8>,
        total: u8,
        failures: Seq<(u8, u16, u8)>,
        before: Seq<u8>,
        after: Seq<u8>,
        r: Result<DispatchOutcome, ZclError>,
    ) -> bool {
        let bytes = if failures.len() == 0 {
            header + seq![0u8]
        } else {
            Self::refusal_records(header, failures)
        };
        match Self::fit(bytes, before.len()) {
            Err(e) => r == Err::<DispatchOutcome, ZclError>(e),
            Ok(_) => {
                &&& bytes.len() <= after.len()
                &&& after.take(bytes.len() as int) == bytes
                &&& same_from(before, after, bytes.len() as int)
                &&& r == Ok::<DispatchOutcome, ZclError>(
                    DispatchOutcome {
                        response_len: bytes.len() as usize,
                        effects: DispatchEffects {
                            configure_reporting: Some(
                                ConfigureReportingEffect { accepted_send_records: total },
                            ),
                            group: GroupEffect::Nothing,
                        },
                    },
                )
            },
        }
    }

    /// The answers to a request for reporting configurations, after `acc`.
    pub open spec fn reporting_run<CS: ClusterServer>(
        server: CS,
        rest: Seq<u8>,
        acc: Seq<u8>,
        cap: nat,
    ) -> Seq<u8>
        decreases rest.len(),
    {
        if rest.len() < 3 {
            acc
        } else {
            Self::reporting_run(
                server,
                rest.skip(3),
                acc + server.reporting_answer(
                    AttributeId(Le::u16_at(rest, 1)),
                    rest[0],
                    (cap - acc.len()) as nat,
                ),
                cap,
            )
        }
    }

    /// The response to a request for reporting configurations.
    pub open spec fn reporting_response<CS: ClusterServer>(
        server: CS,
        frame: IncomingZclFrame,
        data: Seq<u8>,
        cap: nat,
    ) -> Result<Seq<u8>, ZclError> {
        match Self::fit(Self::global_header(frame, 0x09), cap) {
            Err(e) => Err(e),
            Ok(header) => Ok(Self::reporting_run(server, data, header, cap)),
        }
    }
}

/// Returns the byte-size of the `reportable_change` field for analog types,
/// or `None` for discrete types (which have no such field).
fn type_size_for_reporting(type_id: u8) -> (size: Option<usize>)
    ensures
        match size {
            Some(n) => 1 <= n <= 8 && n == Dispatch::change_len(type_id),
            None => Dispatch::change_len(type_id) == 0,
        },
{
    if 0x20 <= type_id && type_id <= 0x27 {
        Some((type_id - 0x20) as usize + 1)
    } else if 0x28 <= type_id && type_id <= 0x2f {
        Some((type_id - 0x28) as usize + 1)
    } else if type_id == 0x38 {
        Some(2)
    } else if type_id == 0x39 {
        Some(4)
    } else if type_id == 0x3a {
        Some(8)
    } else {
        None
    }
}

/// The records in a list, as their contents.
spec fn contents(list: Seq<ConfigureReportingRecord>) -> Seq<RecordFields> {
    list.map_values(|r: ConfigureReportingRecord| r.fields())
}

/// Parse the `ConfigureReporting` record at `p`. Returns it with its length.
fn parse_configure_reporting_record<'a>(data: &'a [u8], p: usize) -> (r: Result<
    (ConfigureReportingRecord<'a>, usize),
    ZclError,
>)
    requires
        p < data@.len(),
    ensures
        match Dispatch::record_len(data@.skip(p as int)) {
            Some(n) => {
                &&& r matches Ok((record, m))
                &&& m == n
                &&& 0 < n <= data@.len() - p
                &&& record.fields() == Dispatch::record_at(data@.skip(p as int))
            },
            None => r is Err && r->Err_0 == ZclError::InsufficientBytes,
        },
{
    let ghost rest = data@.skip(p as int);
    let left: usize = data.len() - p;
    if left < 3 {
        return Err(ZclError::InsufficientBytes);
    }
    let attr_id: AttributeId = AttributeId(read_u16(data, p + 1));
    if data[p] % 2 == 0 {
        if left < 8 {
            return Err(ZclError::InsufficientBytes);
        }
        let attr_type: u8 = data[p + 3];
        let change_size: usize = match type_size_for_reporting(attr_type) {
            Some(size) => size,
            None => 0,
        };
        if left - 8 < change_size {
            return Err(ZclError::InsufficientBytes);
        }
        let reportable_change: &'a [u8] = &data[p + 8..p + 8 + change_size];
        assert(reportable_change@ =~= rest.subrange(8, 8 + change_size as int));
        let record = ConfigureReportingRecord {
            direction: 0,
            attr_id,
            attr_type,
            min_interval: read_u16(data, p + 4),
            max_interval: read_u16(data, p + 6),
            reportable_change,
            timeout_period: 0,
        };
        Ok((record, 8 + change_size))
    } else {
        if left < 5 {
            return Err(ZclError::InsufficientBytes);
        }
        let none: &'a [u8] = &data[p..p];
        assert(none@ =~= Seq::<u8>::empty());
        let record = ConfigureReportingRecord {
            direction: 1,
            attr_id,
            attr_type: 0,
            min_interval: 0,
            max_interval: 0,
            reportable_change: none,
            timeout_period: read_u16(data, p + 3),
        };
        Ok((record, 5))
    }
}

/// Parse all `ConfigureReporting` records from `data`.
///
/// Fails on the first truncated record, so that the caller can reject the entire
/// frame before mutating any state.
fn parse_configure_reporting_records<'a>(data: &'a [u8]) -> (r: Result<
    heapless::Vec<ConfigureReportingRecord<'a>, 16>,
    ZclError,
>)
    ensures
        match Dispatch::records_of(data@, Seq::empty()) {
            Ok(records) => r is Ok && contents(crate::bounded::reporting_record_items(r->Ok_0))
                == records,
            Err(e) => r is Err && r->Err_0 == e,
        },
{
    let mut out = reporting_records();
    let mut p: usize = 0;
    proof {
        assert(data@.skip(0) =~= data@);
        assert(contents(crate::bounded::reporting_record_items(out)) =~= Seq::empty());
    }
    while p < data.len()
        invariant
            p <= data@.len(),
            Dispatch::records_of(data@, Seq::empty()) == Dispatch::records_of(
                data@.skip(p as int),
                contents(crate::bounded::reporting_record_items(out)),
            ),
        decreases data@.len() - p,
    {
        let ghost rest = data@.skip(p as int);
        let ghost acc = contents(crate::bounded::reporting_record_items(out));
        match parse_configure_reporting_record(data, p) {
            Err(e) => {
                return Err(e);
            },
            Ok((record, n)) => {
                match push_reporting_record(&mut out, record) {
                    Ok(()) => {},
                    Err(_) => {
                        return Err(ZclError::BufferTooSmall);
                    },
                }
                proof {
                    assert(contents(crate::bounded::reporting_record_items(out)) =~= acc.push(
                        record.fields(),
                    ));
                    assert(rest.skip(n as int) =~= data@.skip(p + n));
                }
                p = p + n;
            },
        }
    }
    Ok(out)
}

proof fn lemma_configure_step<CS: ClusterServer>(
    pre: CS,
    records: Seq<RecordFields>,
    ctx: DispatchContext,
    accepted: u8,
    refused: Seq<(u8, u16, u8)>,
    mid: CS,
    status: Status,
    post: CS,
    total: u8,
    failures: Seq<(u8, u16, u8)>,
)
    requires
        records.len() > 0,
        CS::reporting_set(pre, records[0], ctx, mid, status),
        Dispatch::configure_run(
            mid,
            records.skip(1),
            ctx,
            Dispatch::accepted_after(accepted, records[0], status),
            Dispatch::refused_after(refused, records[0], status),
            post,
            total,
            failures,
        ),
    ensures
        Dispatch::configure_run(pre, records, ctx, accepted, refused, post, total, failures),
{
}

proof fn lemma_refusal_records_len(acc: Seq<u8>, failures: Seq<(u8, u16, u8)>)
    ensures
        Dispatch::refusal_records(acc, failures).len() == acc.len() + 4 * failures.len(),
    decreases failures.len(),
{
    if failures.len() > 0 {
        lemma_refusal_records_len(
            acc + seq![failures[0].2, failures[0].0] + Le::u16(failures[0].1),
            failures.skip(1),
        );
    }
}

/// Hand the records to the server one after the other. Returns the number of
/// accepted send records and the failures.
#[verifier::loop_isolation(false)]
fn configure_records<CS: ClusterServer>(
    server: &mut CS,
    records: &[ConfigureReportingRecord<'_>],
    ctx: DispatchContext,
) -> (r: (u8, heapless::Vec<(u8, u16, u8), 16>))
    requires
        old(server).wf(),
        records@.len() <= 16,
    ensures
        final(server).wf(),
        Dispatch::configure_run(
            *old(server),
            contents(records@),
            ctx,
            0,
            Seq::empty(),
            *final(server),
            r.0,
            crate::bounded::reporting_failure_items(r.1),
        ),
{
    let ghost all = contents(records@);
    let mut accepted: u8 = 0;
    let mut failures = reporting_failures();
    let mut i: usize = 0;
    assert(all.skip(0) =~= all);
    while i < records.len()
        invariant
            server.wf(),
            i <= records@.len(),
            crate::bounded::reporting_failure_items(failures).len() <= i,
            forall|post: CS, total: u8, fails: Seq<(u8, u16, u8)>|
                Dispatch::configure_run(
                    *server,
                    all.skip(i as int),
                    ctx,
                    accepted,
                    crate::bounded::reporting_failure_items(failures),
                    post,
                    total,
                    fails,
                ) ==> #[trigger] Dispatch::configure_run(
                    *old(server),
                    all,
                    ctx,
                    0,
                    Seq::empty(),
                    post,
                    total,
                    fails,
                ),
        decreases records@.len() - i,
    {
        let ghost pre = *server;
        let ghost accepted0 = accepted;
        let ghost refused0 = crate::bounded::reporting_failure_items(failures);
        let ghost rest = all.skip(i as int);
        let record: ConfigureReportingRecord<'_> = records[i];
        let status: Status = server.configure_reporting(record, ctx);
        if status == Status::Success {
            if record.direction == 0 {
                accepted = accepted.saturating_add(1);
            }
        } else {
            let _ = push_reporting_failure(
                &mut failures,
                (record.direction, record.attr_id.0, status.as_u8()),
            );
        }
        proof {
            let now = *server;
            let refused = crate::bounded::reporting_failure_items(failures);
            assert(rest[0] == record.fields());
            assert(rest.skip(1) =~= all.skip(i + 1));
            assert forall|post: CS, total: u8, fails: Seq<(u8, u16, u8)>|
                Dispatch::configure_run(
                    now,
                    all.skip(i + 1),
                    ctx,
                    accepted,
                    refused,
                    post,
                    total,
                    fails,
                ) implies #[trigger] Dispatch::configure_run(
                *old(server),
                all,
                ctx,
                0,
                Seq::empty(),
                post,
                total,
                fails,
            ) by {
                lemma_configure_step(
                    pre,
                    rest,
                    ctx,
                    accepted0,
                    refused0,
                    now,
                    status,
                    post,
                    total,
                    fails,
                );
            }
        }
        i = i + 1;
    }
    (accepted, failures)
}

/// Dispatch a `ConfigureReporting` (0x06) frame to the cluster server.
///
/// Calls `server.configure_reporting()` for each record. Builds a
/// `ConfigureReportingResponse` (0x07): a single success byte when all
/// records pass, or per-record failures otherwise. A broadcast or multicast
/// frame gets no response and changes nothing.
#[verifier::loop_isolation(false)]
fn dispatch_configure_reporting<CS: ClusterServer>(
    server: &mut CS,
    frame: &IncomingZclFrame<'_>,
    ctx: DispatchContext,
    data: &[u8],
    buf: &mut [u8],
) -> (r: Result<DispatchOutcome, ZclError>)
    requires
        old(server).wf(),
    ensures
        final(server).wf(),
        final(buf)@.len() == old(buf)@.len(),
        r is Ok ==> same_from(old(buf)@, final(buf)@, r->Ok_0.response_len as int),
        Dispatch::configure_answered(
            *old(server),
            *frame,
            ctx,
            data@,
            old(buf)@,
            *final(server),
            final(buf)@,
            r,
        ),
{
    if !ctx.allows_default_response() {
        return Ok(DispatchOutcome::response(0));
    }
    let ghost cap = buf@.len();
    // Validate the entire payload before mutating any state.
    let list = match parse_configure_reporting_records(data) {
        Ok(list) => list,
        Err(e) => {
            return Err(e);
        },
    };
    let hdr_len: usize = match write_global_response_header(buf, frame, 0x07) {
        Ok(n) => n,
        Err(e) => {
            return Err(e);
        },
    };
    let ghost header = Dispatch::global_header(*frame, 0x07);
    let mut pos: usize = hdr_len;
    let records: &[ConfigureReportingRecord<'_>] = reporting_record_slice(&list);
    proof {
        lemma_records_bound(data@, Seq::empty());
        assert(contents(records@).len() == records@.len());
    }
    let (accepted, failures): (u8, heapless::Vec<(u8, u16, u8), 16>) = configure_records(
        server,
        records,
        ctx,
    );
    let failed: &[(u8, u16, u8)] = reporting_failure_slice(&failures);
    assert(Dispatch::configure_run(
        *old(server),
        contents(records@),
        ctx,
        0,
        Seq::empty(),
        *server,
        accepted,
        failed@,
    ));
    if failed.len() == 0 {
        // All records accepted (or payload was empty): single success byte.
        pos = match put_byte(buf, pos, 0x00) {
            Ok(next) => next,
            Err(e) => {
                return Err(e);
            },
        };
    } else {
        let ghost all = Dispatch::refusal_records(header, failed@);
        let mut i: usize = 0;
        assert(failed@.skip(0) =~= failed@);
        while i < failed.len()
            invariant
                i <= failed@.len(),
                pos <= buf@.len(),
                buf@.len() == cap,
                all == Dispatch::refusal_records(buf@.take(pos as int), failed@.skip(i as int)),
                same_from(old(buf)@, buf@, pos as int),
            decreases failed@.len() - i,
        {
            let ghost acc = buf@.take(pos as int);
            let ghost rest = failed@.skip(i as int);
            let (dir, aid, status_byte): (u8, u16, u8) = failed[i];
            proof {
                assert(rest[0] == failed@[i as int]);
                assert(rest.skip(1) =~= failed@.skip(i + 1));
                lemma_refusal_records_len(
                    acc + seq![status_byte, dir] + Le::u16(aid),
                    failed@.skip(i + 1),
                );
            }
            pos = match put_byte(buf, pos, status_byte) {
                Ok(next) => next,
                Err(e) => {
                    return Err(e);
                },
            };
            pos = match put_byte(buf, pos, dir) {
                Ok(next) => next,
                Err(e) => {
                    return Err(e);
                },
            };
            pos = match put_u16_le(buf, pos, aid) {
                Ok(next) => next,
                Err(e) => {
                    return Err(e);
                },
            };
            assert(buf@.take(pos as int) =~= acc + seq![status_byte, dir] + Le::u16(aid));
            i = i + 1;
        }
    }
    Ok(
        DispatchOutcome {
            response_len: pos,
            effects: DispatchEffects {
                configure_reporting: Some(
                    ConfigureReportingEffect { accepted_send_records: accepted },
                ),
                group: GroupEffect::Nothing,
            },
        },
    )
}

proof fn lemma_records_bound(rest: Seq<u8>, acc: Seq<RecordFields>)
    requires
        acc.len() <= 16,
    ensures
        Dispatch::records_of(rest, acc) matches Ok(records) ==> records.len() <= 16,
    decreases rest.len(),
{
    if rest.len() > 0 && acc.len() < 16 {
        if let Some(n) = Dispatch::record_len(rest) {
            lemma_records_bound(rest.skip(n as int), acc.push(Dispatch::record_at(rest)));
        }
    }
}

/// Dispatch `ReadReportingConfiguration` (0x08).
///
/// Request payload: repeated direction and attribute identifier. Response
/// (0x09): one record per request, each written by the server. An empty request
/// gives just the header.
#[verifier::loop_isolation(false)]
fn dispatch_read_reporting_config<CS: ClusterServer>(
    server: &CS,
    frame: &IncomingZclFrame<'_>,
    data: &[u8],
    buf: &mut [u8],
) -> (r: Result<usize, ZclError>)
    requires
        server.wf(),
    ensures
        final(buf)@.len() == old(buf)@.len(),
        Dispatch::sent(
            Dispatch::reporting_response(*server, *frame, data@, old(buf)@.len()),
            old(buf)@,
            final(buf)@,
            r,
        ),
{
    let total: usize = buf.len();
    let ghost cap = buf@.len();
    let hdr_len: usize = match write_global_response_header(buf, frame, 0x09) {
        Ok(n) => n,
        Err(e) => {
            return Err(e);
        },
    };
    let ghost whole = Dispatch::reporting_run(*server, data@, buf@.take(hdr_len as int), cap);
    let mut pos: usize = hdr_len;
    let mut at: usize = 0;
    assert(data@.skip(0) =~= data@);
    while data.len() - at >= 3
        invariant
            at <= data@.len(),
            pos <= buf@.len(),
            buf@.len() == cap,
            same_from(old(buf)@, buf@, pos as int),
            whole == Dispatch::reporting_run(
                *server,
                data@.skip(at as int),
                buf@.take(pos as int),
                cap,
            ),
        decreases data@.len() - at,
    {
        let ghost acc = buf@.take(pos as int);
        let ghost rest = data@.skip(at as int);
        let direction: u8 = data[at];
        let attr_id: AttributeId = AttributeId(read_u16(data, at + 1));
        assert(rest.skip(3) =~= data@.skip(at + 3));
        let (head, tail) = buf.split_at_mut(pos);
        let n: usize = server.read_reporting_config(attr_id, direction, tail);
        pos = pos + n;
        assert(buf@.take(pos as int) =~= acc + server.reporting_answer(
            attr_id,
            direction,
            (cap - acc.len()) as nat,
        ));
        at = at + 3;
    }
    Ok(pos)
}

// ---------------------------------------------------------------------------
// Cluster-specific commands
// ---------------------------------------------------------------------------

impl Dispatch {
    /// The length of a response header.
    pub open spec fn header_len(frame: IncomingZclFrame) -> nat {
        if frame.manufacturer_code is Some {
            5
        } else {
            3
        }
    }

    /// The response to a handled command whose payload, if any, is at the front of
    /// `body`.
    pub open spec fn command_response(
        result: CommandResult,
        frame: IncomingZclFrame,
        ctx: DispatchContext,
        cap: nat,
        body: Seq<u8>,
    ) -> Result<Seq<u8>, ZclError> {
        match result {
            CommandResult::Suppress => Ok(Seq::empty()),
            CommandResult::Payload { command_id, len } => if len > cap - Self::header_len(frame) {
                Err(ZclError::BufferTooSmall)
            } else {
                Ok(Self::cluster_header(frame, command_id.0) + body.take(len as int))
            },
            CommandResult::DefaultResponse(status) => Self::status_response(
                frame,
                ctx,
                status,
                cap,
            ),
        }
    }

    /// A cluster-specific command took `pre` to `post` and the buffer from `before`
    /// to `after`, with outcome `r`. A server ignores what servers send.
    pub open spec fn command_answered<CS: ClusterServer>(
        pre: CS,
        frame: IncomingZclFrame,
        ctx: DispatchContext,
        id: CommandId,
        data: Seq<u8>,
        before: Seq<u8>,
        post: CS,
        after: Seq<u8>,
        r: Result<DispatchOutcome, ZclError>,
    ) -> bool {
        let cap = before.len();
        if frame.direction == Direction::ServerToClient {
            post == pre && Self::unanswered(before, after, r)
        } else if cap < Self::header_len(frame) {
            post == pre && after == before && r == Err::<DispatchOutcome, ZclError>(
                ZclError::BufferTooSmall,
            )
        } else {
            exists|mid: CS, body: Seq<u8>, h: Result<CommandResult, ZclError>| #[trigger]
                Self::command_run(pre, frame, ctx, id, data, before, mid, body, h, post, after, r)
        }
    }

    /// Handling a command took `pre` to `mid`, with result `h`, and left `body` behind
    /// the room for the header. The response then took the buffer to `after`.
    pub open spec fn command_run<CS: ClusterServer>(
        pre: CS,
        frame: IncomingZclFrame,
        ctx: DispatchContext,
        id: CommandId,
        data: Seq<u8>,
        before: Seq<u8>,
        mid: CS,
        body: Seq<u8>,
        h: Result<CommandResult, ZclError>,
        post: CS,
        after: Seq<u8>,
        r: Result<DispatchOutcome, ZclError>,
    ) -> bool {
        let n = Self::header_len(frame) as int;
        &&& body.len() == before.len() - n
        &&& CS::handled(pre, id, data, ctx, before.skip(n), mid, body, h)
        &&& match h {
            Err(e) => {
                &&& post == mid
                &&& after == before.take(n) + body
                &&& r == Err::<DispatchOutcome, ZclError>(e)
            },
            Ok(result) => {
                &&& result.leaves(before.skip(n), body)
                &&& exists|effects: DispatchEffects| #[trigger]
                    CS::drained(mid, post, effects) && Self::command_outcome(
                        Self::command_response(result, frame, ctx, before.len(), body),
                        effects,
                        before.take(n) + body,
                        after,
                        r,
                    )
            },
        }
    }

    /// The outcome of a handled command with the given response and effects, which
    /// took the buffer from `before` to `after`.
    pub open spec fn command_outcome(
        response: Result<Seq<u8>, ZclError>,
        effects: DispatchEffects,
        before: Seq<u8>,
        after: Seq<u8>,
        r: Result<DispatchOutcome, ZclError>,
    ) -> bool {
        match response {
            Err(e) => r == Err::<DispatchOutcome, ZclError>(e),
            Ok(bytes) => {
                &&& bytes.len() <= after.len()
                &&& after.take(bytes.len() as int) == bytes
                &&& same_from(before, after, bytes.len() as int)
                &&& r == Ok::<DispatchOutcome, ZclError>(
                    DispatchOutcome { response_len: bytes.len() as usize, effects },
                )
            },
        }
    }
}

fn dispatch_unknown_global(frame: &IncomingZclFrame<'_>, ctx: DispatchContext, buf: &mut [u8]) -> (r:
    Result<usize, ZclError>)
    ensures
        final(buf)@.len() == old(buf)@.len(),
        Dispatch::sent(
            Dispatch::status_response(
                *frame,
                ctx,
                Status::UnsupGeneralCommand,
                old(buf)@.len(),
            ),
            old(buf)@,
            final(buf)@,
            r,
        ),
        !Dispatch::default_response_due(*frame, ctx, Status::UnsupGeneralCommand) ==> final(buf)@
            == old(buf)@,
{
    if should_send_default_response(frame, ctx, Status::UnsupGeneralCommand) {
        build_default_response_for_frame(frame, Status::UnsupGeneralCommand, buf)
    } else {
        assert(buf@.take(0) =~= Seq::<u8>::empty());
        Ok(0)
    }
}

/// Put the response to a handled command into `buf`, whose bytes from `hdr_len` on
/// hold the payload, if any.
fn finalize_command_response(
    result: CommandResult,
    frame: &IncomingZclFrame<'_>,
    ctx: DispatchContext,
    hdr_len: usize,
    buf: &mut [u8],
) -> (r: Result<usize, ZclError>)
    requires
        hdr_len == Dispatch::header_len(*frame),
        hdr_len <= old(buf)@.len(),
    ensures
        final(buf)@.len() == old(buf)@.len(),
        Dispatch::sent(
            Dispatch::command_response(
                result,
                *frame,
                ctx,
                old(buf)@.len(),
                old(buf)@.skip(hdr_len as int),
            ),
            old(buf)@,
            final(buf)@,
            r,
        ),
{
    let ghost before = buf@;
    match result {
        CommandResult::Suppress => {
            assert(buf@.take(0) =~= Seq::<u8>::empty());
            Ok(0)
        },
        CommandResult::Payload { command_id, len } => {
            if len > buf.len() - hdr_len {
                return Err(ZclError::BufferTooSmall);
            }
            match write_cluster_response_header(buf, frame, command_id.0) {
                Ok(_) => {},
                Err(e) => {
                    return Err(e);
                },
            }
            assert(buf@.skip(hdr_len as int) =~= before.skip(hdr_len as int));
            assert(buf@.take(hdr_len + len) =~= buf@.take(hdr_len as int) + buf@.skip(
                hdr_len as int,
            ).take(len as int));
            Ok(hdr_len + len)
        },
        CommandResult::DefaultResponse(status) => {
            if should_send_default_response(frame, ctx, status) {
                build_default_response_for_frame(frame, status, buf)
            } else {
                assert(buf@.take(0) =~= Seq::<u8>::empty());
                Ok(0)
            }
        },
    }
}

fn dispatch_cluster_command<CS: ClusterServer>(
    server: &mut CS,
    command_id: CommandId,
    data: &[u8],
    frame: &IncomingZclFrame<'_>,
    ctx: DispatchContext,
    buf: &mut [u8],
) -> (r: Result<DispatchOutcome, ZclError>)
    requires
        old(server).wf(),
    ensures
        final(server).wf(),
        final(buf)@.len() == old(buf)@.len(),
        r is Ok ==> same_from(old(buf)@, final(buf)@, r->Ok_0.response_len as int),
        Dispatch::command_answered(
            *old(server),
            *frame,
            ctx,
            command_id,
            data@,
            old(buf)@,
            *final(server),
            final(buf)@,
            r,
        ),
{
    if frame.direction() == Direction::ServerToClient {
        // A server ignores what servers send.
        return Ok(DispatchOutcome::response(0));
    }
    let ghost cap = buf@.len();
    let hdr_len: usize = response_header_len(frame.manufacturer_code());
    if buf.len() < hdr_len {
        return Err(ZclError::BufferTooSmall);
    }
    let ghost pre = *server;
    let (head, tail) = buf.split_at_mut(hdr_len);
    let h: Result<CommandResult, ZclError> = server.handle_command(command_id, data, ctx, tail);
    let ghost mid = *server;
    let ghost left = tail@;
    let ghost body = buf@.skip(hdr_len as int);
    let ghost held = buf@;
    proof {
        assert(body =~= left);
        assert(held =~= old(buf)@.take(hdr_len as int) + body);
        assert(CS::handled(
            pre,
            command_id,
            data@,
            ctx,
            old(buf)@.skip(hdr_len as int),
            mid,
            body,
            h,
        ));
    }
    let result: CommandResult = match h {
        Ok(result) => result,
        Err(e) => {
            let ghost r = Err::<DispatchOutcome, ZclError>(e);
            assert(Dispatch::command_run(
                pre,
                *frame,
                ctx,
                command_id,
                data@,
                old(buf)@,
                mid,
                body,
                h,
                *server,
                buf@,
                r,
            ));
            return Err(e);
        },
    };
    let effects: DispatchEffects = server.take_dispatch_effects();
    let r: Result<DispatchOutcome, ZclError> = match finalize_command_response(
        result,
        frame,
        ctx,
        hdr_len,
        buf,
    ) {
        Ok(response_len) => Ok(DispatchOutcome { response_len, effects }),
        Err(e) => Err(e),
    };
    proof {
        assert(CS::drained(mid, *server, effects));
        assert(Dispatch::command_outcome(
            Dispatch::command_response(result, *frame, ctx, cap, body),
            effects,
            held,
            buf@,
            r,
        ));
        assert(Dispatch::command_run(
            pre,
            *frame,
            ctx,
            command_id,
            data@,
            old(buf)@,
            mid,
            body,
            h,
            *server,
            buf@,
            r,
        ));
    }
    r
}

// ---------------------------------------------------------------------------
// The dispatcher
// ---------------------------------------------------------------------------

impl Dispatch {
    /// The outcome of a request that was answered with `response` and has no
    /// further effects.
    pub open spec fn plain(
        response: Result<Seq<u8>, ZclError>,
        before: Seq<u8>,
        after: Seq<u8>,
        r: Result<DispatchOutcome, ZclError>,
    ) -> bool {
        Self::command_outcome(response, DispatchEffects::nothing(), before, after, r)
    }

    /// The outcome of a general command that no server supports: a default response
    /// where one is due, else none.
    pub open spec fn unsupported(
        frame: IncomingZclFrame,
        ctx: DispatchContext,
        before: Seq<u8>,
        after: Seq<u8>,
        r: Result<DispatchOutcome, ZclError>,
    ) -> bool {
        if Self::default_response_due(frame, ctx, Status::UnsupGeneralCommand) {
            Self::plain(
                Self::status_response(frame, ctx, Status::UnsupGeneralCommand, before.len()),
                before,
                after,
                r,
            )
        } else {
            Self::unanswered(before, after, r)
        }
    }

    /// Dispatching `frame` took `pre` to `post` and the buffer from `before` to
    /// `after`, with outcome `r`.
    pub open spec fn done<CS: ClusterServer>(
        pre: CS,
        frame: IncomingZclFrame,
        ctx: DispatchContext,
        before: Seq<u8>,
        post: CS,
        after: Seq<u8>,
        r: Result<DispatchOutcome, ZclError>,
    ) -> bool {
        let cap = before.len();
        match frame.command {
            IncomingZclCommand::ClusterSpecific { command_id, data } => Self::command_answered(
                pre,
                frame,
                ctx,
                command_id,
                data@,
                before,
                post,
                after,
                r,
            ),
            IncomingZclCommand::Global(global) => match global {
                IncomingGlobalCommand::ReadAttributes(ids) => post == pre && Self::plain(
                    Self::read_response(pre, frame, ids@, cap),
                    before,
                    after,
                    r,
                ),
                IncomingGlobalCommand::DefaultResponse { .. } => post == pre && Self::unanswered(
                    before,
                    after,
                    r,
                ),
                IncomingGlobalCommand::WriteAttributes(payload) => exists|
                    response: Result<Seq<u8>, ZclError>,
                | #[trigger]
                    Self::write_answered(pre, frame, payload.data@, cap, post, response)
                        && Self::plain(response, before, after, r),
                IncomingGlobalCommand::WriteAttributesUndivided(payload) => exists|
                    response: Result<Seq<u8>, ZclError>,
                | #[trigger]
                    Self::undivided_answered(pre, frame, payload.data@, cap, post, response)
                        && Self::plain(response, before, after, r),
                IncomingGlobalCommand::WriteAttributesNoResponse(payload) => Self::silent_run(
                    pre,
                    payload.data@,
                    post,
                ) && Self::unanswered(before, after, r),
                IncomingGlobalCommand::DiscoverAttributes { start_attr, max_count } => post == pre
                    && Self::plain(
                    Self::discover_attributes(
                        CS::attribute_infos(),
                        start_attr.0,
                        max_count,
                        frame,
                        false,
                        cap,
                    ),
                    before,
                    after,
                    r,
                ),
                IncomingGlobalCommand::DiscoverAttributesExtended { start_attr, max_count } => post
                    == pre && Self::plain(
                    Self::discover_attributes(
                        CS::attribute_infos(),
                        start_attr.0,
                        max_count,
                        frame,
                        true,
                        cap,
                    ),
                    before,
                    after,
                    r,
                ),
                IncomingGlobalCommand::DiscoverCommandsReceived { start_cmd, max_count } => post
                    == pre && Self::plain(
                    Self::discover_commands(
                        0x12,
                        CS::received_ids(),
                        start_cmd,
                        max_count,
                        frame,
                        cap,
                    ),
                    before,
                    after,
                    r,
                ),
                IncomingGlobalCommand::DiscoverCommandsGenerated { start_cmd, max_count } => post
                    == pre && Self::plain(
                    Self::discover_commands(
                        0x14,
                        CS::generated_ids(),
                        start_cmd,
                        max_count,
                        frame,
                        cap,
                    ),
                    before,
                    after,
                    r,
                ),
                IncomingGlobalCommand::KnownUnhandled { command_id, data } => match command_id {
                    CommandIdentifier::ConfigureReporting => Self::configure_answered(
                        pre,
                        frame,
                        ctx,
                        data@,
                        before,
                        post,
                        after,
                        r,
                    ),
                    CommandIdentifier::ReadReportingConfiguration => post == pre && Self::plain(
                        Self::reporting_response(pre, frame, data@, cap),
                        before,
                        after,
                        r,
                    ),
                    CommandIdentifier::ConfigureReportingResponse => post == pre && Self::unanswered(
                        before,
                        after,
                        r,
                    ),
                    _ => post == pre && Self::unsupported(frame, ctx, before, after, r),
                },
                IncomingGlobalCommand::Unknown { .. } => post == pre && Self::unsupported(
                    frame,
                    ctx,
                    before,
                    after,
                    r,
                ),
            },
        }
    }
}

/// Dispatch one received frame to `server` and put the response, if any, into
/// `buf`.
pub fn zcl_cluster_dispatch<CS: ClusterServer>(
    server: &mut CS,
    frame: &IncomingZclFrame<'_>,
    ctx: DispatchContext,
    buf: &mut [u8],
) -> (r: Result<DispatchOutcome, ZclError>)
    requires
        old(server).wf(),
    ensures
        final(server).wf(),
        final(buf)@.len() == old(buf)@.len(),
        r is Ok ==> r->Ok_0.response_len <= old(buf)@.len(),
        r is Ok ==> same_from(old(buf)@, final(buf)@, r->Ok_0.response_len as int),
        Dispatch::done(
            *old(server),
            *frame,
            ctx,
            old(buf)@,
            *final(server),
            final(buf)@,
            r,
        ),
{
    let n: Result<usize, ZclError> = match frame.command() {
        IncomingZclCommand::ClusterSpecific { command_id, data } => {
            return dispatch_cluster_command(server, *command_id, data, frame, ctx, buf);
        },
        IncomingZclCommand::Global(global) => match global {
            IncomingGlobalCommand::ReadAttributes(ids) => dispatch_read_attributes(
                server,
                ids,
                frame,
                buf,
            ),
            // Never respond to an incoming DefaultResponse.
            IncomingGlobalCommand::DefaultResponse { .. } => {
                return Ok(DispatchOutcome::response(0));
            },
            IncomingGlobalCommand::WriteAttributes(payload) => dispatch_write_attributes(
                server,
                payload,
                frame,
                buf,
            ),
            IncomingGlobalCommand::WriteAttributesUndivided(payload) =>
            dispatch_write_attributes_undivided(server, payload, frame, buf),
            IncomingGlobalCommand::WriteAttributesNoResponse(payload) => {
                let n: usize = dispatch_write_attributes_no_response(server, payload);
                return Ok(DispatchOutcome::response(n));
            },
            IncomingGlobalCommand::DiscoverAttributes { start_attr, max_count } =>
            dispatch_discover_attributes(
                &CS::attribute_list(),
                start_attr.0,
                *max_count,
                false,
                frame,
                buf,
            ),
            IncomingGlobalCommand::DiscoverAttributesExtended { start_attr, max_count } =>
            dispatch_discover_attributes(
                &CS::attribute_list(),
                start_attr.0,
                *max_count,
                true,
                frame,
                buf,
            ),
            IncomingGlobalCommand::DiscoverCommandsReceived { start_cmd, max_count } =>
            dispatch_discover_commands(
                0x12,
                *start_cmd,
                *max_count,
                &CS::commands_received(),
                frame,
                buf,
            ),
            IncomingGlobalCommand::DiscoverCommandsGenerated { start_cmd, max_count } =>
            dispatch_discover_commands(
                0x14,
                *start_cmd,
                *max_count,
                &CS::commands_generated(),
                frame,
                buf,
            ),
            IncomingGlobalCommand::KnownUnhandled { command_id, data } => match command_id {
                CommandIdentifier::ConfigureReporting => {
                    return dispatch_configure_reporting(server, frame, ctx, data, buf);
                },
                CommandIdentifier::ReadReportingConfiguration => dispatch_read_reporting_config(
                    server,
                    frame,
                    data,
                    buf,
                ),
                // Never respond to a ConfigureReportingResponse.
                CommandIdentifier::ConfigureReportingResponse => {
                    return Ok(DispatchOutcome::response(0));
                },
                _ => dispatch_unknown_global(frame, ctx, buf),
            },
            IncomingGlobalCommand::Unknown { .. } => dispatch_unknown_global(frame, ctx, buf),
        },
    };
    match n {
        Ok(len) => Ok(DispatchOutcome::response(len)),
        Err(e) => Err(e),
    }
}

/// Every cluster server can have frames dispatched to it.
pub trait DispatchFrame: ClusterServer {
    fn dispatch(&mut self, frame: &IncomingZclFrame<'_>, ctx: DispatchContext, buf: &mut [u8]) -> (r:
        Result<DispatchOutcome, ZclError>)
        requires
            old(self).wf(),
        ensures
            final(self).wf(),
            final(buf)@.len() == old(buf)@.len(),
            r is Ok ==> r->Ok_0.response_len <= old(buf)@.len(),
            r is Ok ==> same_from(old(buf)@, final(buf)@, r->Ok_0.response_len as int),
            Dispatch::done(
                *old(self),
                *frame,
                ctx,
                old(buf)@,
                *final(self),
                final(buf)@,
                r,
            ),
    ;
}

impl<CS: ClusterServer> DispatchFrame for CS {
    fn dispatch(&mut self, frame: &IncomingZclFrame<'_>, ctx: DispatchContext, buf: &mut [u8]) -> (r:
        Result<DispatchOutcome, ZclError>) {
        zcl_cluster_dispatch(self, frame, ctx, buf)
    }
}

} // verus!
