//! Properties of dispatching that hold of every server.

use vstd::prelude::*;

use crate::bytes::Le;
use crate::bytes::same_from;
use crate::cluster_server::ClusterServer;
use crate::context::DispatchContext;
use crate::context::DispatchOutcome;
use crate::dispatch::Dispatch;
use crate::frame::CommandIdentifier;
use crate::frame::Direction;
use crate::frame::IncomingGlobalCommand;
use crate::frame::IncomingZclCommand;
use crate::frame::IncomingZclFrame;
use crate::frame::Status;
use crate::payload::WriteItem;
use crate::types::descriptors::AttrInfo;
use crate::types::error::AttrError;
use crate::types::error::ZclError;
use crate::types::ids::AttributeId;
use crate::types::ids::CommandId;

verus! {

/// `whole` starts with `front`.
pub open spec fn starts_with(whole: Seq<u8>, front: Seq<u8>) -> bool {
    front.len() <= whole.len() && whole.take(front.len() as int) == front
}

proof fn lemma_starts_with_append(whole: Seq<u8>, front: Seq<u8>, more: Seq<u8>)
    requires
        starts_with(whole, front + more),
    ensures
        starts_with(whole, front),
{
    assert(whole.take(front.len() as int) =~= (whole.take((front + more).len() as int)).take(
        front.len() as int,
    ));
    assert((front + more).take(front.len() as int) =~= front);
}

proof fn lemma_read_run_prefix<CS: ClusterServer>(
    server: CS,
    ids: Seq<u8>,
    acc: Seq<u8>,
    cap: nat,
)
    ensures
        Dispatch::read_run(server, ids, acc, cap) matches Ok(bytes) ==> starts_with(bytes, acc),
    decreases ids.len(),
{
    if ids.len() >= 2 && acc.len() + 4 <= cap {
        let id = Le::u16_at(ids, 0);
        match server.attr(AttributeId(id), (cap - acc.len() - 4) as nat) {
            Ok((type_id, value)) => {
                let more = Le::u16(id) + seq![0u8, type_id.code()] + value;
                let next = acc + Le::u16(id) + seq![0u8, type_id.code()] + value;
                assert(next =~= acc + more);
                lemma_read_run_prefix(server, ids.skip(2), next, cap);
                if let Ok(bytes) = Dispatch::read_run(server, ids, acc, cap) {
                    lemma_starts_with_append(bytes, acc, more);
                }
            },
            Err(e) => {
                if let Some(status) = e.status() {
                    let more = Le::u16(id) + seq![status.code()];
                    let next = acc + Le::u16(id) + seq![status.code()];
                    assert(next =~= acc + more);
                    lemma_read_run_prefix(server, ids.skip(2), next, cap);
                    if let Ok(bytes) = Dispatch::read_run(server, ids, acc, cap) {
                        lemma_starts_with_append(bytes, acc, more);
                    }
                }
            },
        }
    } else {
        assert(acc.take(acc.len() as int) =~= acc);
    }
}

proof fn lemma_write_run_prefix<CS: ClusterServer>(
    pre: CS,
    rest: Seq<u8>,
    acc: Seq<u8>,
    cap: nat,
    post: CS,
    run: Result<Seq<u8>, ZclError>,
)
    requires
        Dispatch::write_run(pre, rest, acc, cap, post, run),
    ensures
        run matches Ok(bytes) ==> starts_with(bytes, acc),
    decreases rest.len(),
{
    assert(acc.take(acc.len() as int) =~= acc);
    match WriteItem::first(rest) {
        WriteItem::UnknownType(id) => {
            let failure = Dispatch::write_failure(Status::InvalidDataType, id);
            assert((acc + failure).take(acc.len() as int) =~= acc);
        },
        WriteItem::Record { attr_id, type_id, value } => {
            let (mid, w): (CS, Result<(), AttrError>) = choose|mid: CS, w: Result<(), AttrError>| #[trigger]
                CS::wrote(pre, attr_id, type_id, value, mid, w) && match w {
                    Ok(()) => Dispatch::write_run(mid, WriteItem::after(rest), acc, cap, post, run),
                    Err(e) => match e.status() {
                        None => post == mid && run == Err::<Seq<u8>, ZclError>(Dispatch::abort(e)),
                        Some(status) => match Dispatch::fit(
                            acc + Dispatch::write_failure(status, attr_id),
                            cap,
                        ) {
                            Err(full) => post == mid && run == Err::<Seq<u8>, ZclError>(full),
                            Ok(more) => Dispatch::write_run(
                                mid,
                                WriteItem::after(rest),
                                more,
                                cap,
                                post,
                                run,
                            ),
                        },
                    },
                };
            match w {
                Ok(()) => {
                    lemma_write_run_prefix(mid, WriteItem::after(rest), acc, cap, post, run);
                },
                Err(e) => {
                    if let Some(status) = e.status() {
                        let failure = Dispatch::write_failure(status, attr_id);
                        if acc.len() + failure.len() <= cap {
                            lemma_write_run_prefix(
                                mid,
                                WriteItem::after(rest),
                                acc + failure,
                                cap,
                                post,
                                run,
                            );
                            if let Ok(bytes) = run {
                                lemma_starts_with_append(bytes, acc, failure);
                            }
                        }
                    }
                },
            }
        },
        _ => {},
    }
}

proof fn lemma_failure_records_prefix(acc: Seq<u8>, failures: Seq<(u16, u8)>)
    ensures
        starts_with(Dispatch::failure_records(acc, failures), acc),
    decreases failures.len(),
{
    if failures.len() > 0 {
        let more = seq![failures[0].1] + Le::u16(failures[0].0);
        let next = acc + seq![failures[0].1] + Le::u16(failures[0].0);
        assert(next =~= acc + more);
        lemma_failure_records_prefix(next, failures.skip(1));
        lemma_starts_with_append(Dispatch::failure_records(acc, failures), acc, more);
    } else {
        assert(acc.take(acc.len() as int) =~= acc);
    }
}

proof fn lemma_refusal_records_prefix(acc: Seq<u8>, failures: Seq<(u8, u16, u8)>)
    ensures
        starts_with(Dispatch::refusal_records(acc, failures), acc),
    decreases failures.len(),
{
    if failures.len() > 0 {
        let more = seq![failures[0].2, failures[0].0] + Le::u16(failures[0].1);
        let next = acc + seq![failures[0].2, failures[0].0] + Le::u16(failures[0].1);
        assert(next =~= acc + more);
        lemma_refusal_records_prefix(next, failures.skip(1));
        lemma_starts_with_append(Dispatch::refusal_records(acc, failures), acc, more);
    } else {
        assert(acc.take(acc.len() as int) =~= acc);
    }
}

proof fn lemma_attribute_records_prefix(acc: Seq<u8>, list: Seq<AttrInfo>, extended: bool)
    ensures
        starts_with(Dispatch::attribute_records(acc, list, extended), acc),
    decreases list.len(),
{
    if list.len() > 0 {
        let more = Dispatch::attribute_record(list[0], extended);
        lemma_attribute_records_prefix(acc + more, list.skip(1), extended);
        lemma_starts_with_append(Dispatch::attribute_records(acc, list, extended), acc, more);
    } else {
        assert(acc.take(acc.len() as int) =~= acc);
    }
}

proof fn lemma_reporting_run_prefix<CS: ClusterServer>(
    server: CS,
    rest: Seq<u8>,
    acc: Seq<u8>,
    cap: nat,
)
    ensures
        starts_with(Dispatch::reporting_run(server, rest, acc, cap), acc),
    decreases rest.len(),
{
    if rest.len() >= 3 {
        let more = server.reporting_answer(
            AttributeId(Le::u16_at(rest, 1)),
            rest[0],
            (cap - acc.len()) as nat,
        );
        lemma_reporting_run_prefix(server, rest.skip(3), acc + more, cap);
        lemma_starts_with_append(Dispatch::reporting_run(server, rest, acc, cap), acc, more);
    } else {
        assert(acc.take(acc.len() as int) =~= acc);
    }
}

/// The bytes are a response to `frame`: they start with a response header that
/// carries its sequence number and manufacturer code.
pub open spec fn echoes(bytes: Seq<u8>, frame: IncomingZclFrame) -> bool {
    exists|base: u8, command: u8|
        (base == 0x18 || base == 0x19) && starts_with(
            bytes,
            #[trigger] Dispatch::header(
                base,
                frame.manufacturer_code,
                frame.sequence_number,
                command,
            ),
        )
}

proof fn lemma_echoes(bytes: Seq<u8>, frame: IncomingZclFrame, base: u8, command: u8, rest: Seq<u8>)
    requires
        base == 0x18 || base == 0x19,
        starts_with(
            bytes,
            Dispatch::header(base, frame.manufacturer_code, frame.sequence_number, command) + rest,
        ),
    ensures
        echoes(bytes, frame),
{
    lemma_starts_with_append(
        bytes,
        Dispatch::header(base, frame.manufacturer_code, frame.sequence_number, command),
        rest,
    );
}

proof fn lemma_whole_starts(bytes: Seq<u8>)
    ensures
        starts_with(bytes, bytes),
{
    assert(bytes.take(bytes.len() as int) =~= bytes);
}

proof fn lemma_status_response_echoes(
    frame: IncomingZclFrame,
    ctx: DispatchContext,
    status: Status,
    cap: nat,
)
    ensures
        Dispatch::status_response(frame, ctx, status, cap) matches Ok(bytes) ==> bytes.len() > 0
            ==> echoes(bytes, frame),
{
    if let Ok(bytes) = Dispatch::status_response(frame, ctx, status, cap) {
        if bytes.len() > 0 {
            lemma_whole_starts(bytes);
            lemma_echoes(
                bytes,
                frame,
                0x18,
                0x0b,
                seq![frame.command.code(), status.code()],
            );
        }
    }
}

/// Every response carries the sequence number and the manufacturer code of its
/// request, and fits the buffer.
pub proof fn law_response_echoes_request<CS: ClusterServer>(
    pre: CS,
    frame: IncomingZclFrame,
    ctx: DispatchContext,
    before: Seq<u8>,
    post: CS,
    after: Seq<u8>,
    r: Result<DispatchOutcome, ZclError>,
)
    requires
        before.len() <= usize::MAX,
        after.len() == before.len(),
        Dispatch::done(pre, frame, ctx, before, post, after, r),
        r is Ok,
        r->Ok_0.response_len > 0,
    ensures
        r->Ok_0.response_len <= before.len(),
        echoes(after.take(r->Ok_0.response_len as int), frame),
{
    let cap = before.len();
    let n = r->Ok_0.response_len as int;
    let bytes = after.take(n);
    match frame.command {
        IncomingZclCommand::ClusterSpecific { command_id, data } => {
            lemma_command_echoes(pre, frame, ctx, command_id, data@, before, post, after, r);
        },
        IncomingZclCommand::Global(global) => match global {
            IncomingGlobalCommand::ReadAttributes(ids) => {
                let header = Dispatch::global_header(frame, 0x01);
                lemma_read_run_prefix(pre, ids@, header, cap);
                assert(header + Seq::<u8>::empty() =~= header);
                lemma_echoes(bytes, frame, 0x18, 0x01, Seq::empty());
            },
            IncomingGlobalCommand::DefaultResponse { .. } => {},
            IncomingGlobalCommand::WriteAttributes(payload) => {
                let header = Dispatch::global_header(frame, 0x04);
                let response = choose|response: Result<Seq<u8>, ZclError>| #[trigger]
                    Dispatch::write_answered(pre, frame, payload.data@, cap, post, response)
                        && Dispatch::plain(response, before, after, r);
                let run = choose|run: Result<Seq<u8>, ZclError>| #[trigger]
                    Dispatch::write_run(pre, payload.data@, header, cap, post, run) && response
                        == match run {
                        Ok(b) => if b == header {
                            Dispatch::fit(header + seq![0u8], cap)
                        } else {
                            Ok(b)
                        },
                        Err(e) => Err(e),
                    };
                lemma_write_run_prefix(pre, payload.data@, header, cap, post, run);
                assert((header + seq![0u8]).take(header.len() as int) =~= header);
                assert(header + Seq::<u8>::empty() =~= header);
                lemma_echoes(bytes, frame, 0x18, 0x04, Seq::empty());
            },
            IncomingGlobalCommand::WriteAttributesUndivided(payload) => {
                let header = Dispatch::global_header(frame, 0x04);
                if let Ok(failures) = Dispatch::check_run(pre, payload.data@, Seq::empty()) {
                    lemma_failure_records_prefix(header, failures);
                }
                assert((header + seq![0u8]).take(header.len() as int) =~= header);
                assert(header + Seq::<u8>::empty() =~= header);
                lemma_echoes(bytes, frame, 0x18, 0x04, Seq::empty());
            },
            IncomingGlobalCommand::WriteAttributesNoResponse(payload) => {},
            IncomingGlobalCommand::DiscoverAttributes { start_attr, max_count } => {
                lemma_discovery_echoes(CS::attribute_infos(), start_attr.0, max_count, frame, false, cap);
            },
            IncomingGlobalCommand::DiscoverAttributesExtended { start_attr, max_count } => {
                lemma_discovery_echoes(CS::attribute_infos(), start_attr.0, max_count, frame, true, cap);
            },
            IncomingGlobalCommand::DiscoverCommandsReceived { start_cmd, max_count } => {
                lemma_command_discovery_echoes(
                    0x12,
                    CS::received_ids(),
                    start_cmd,
                    max_count,
                    frame,
                    cap,
                );
            },
            IncomingGlobalCommand::DiscoverCommandsGenerated { start_cmd, max_count } => {
                lemma_command_discovery_echoes(
                    0x14,
                    CS::generated_ids(),
                    start_cmd,
                    max_count,
                    frame,
                    cap,
                );
            },
            IncomingGlobalCommand::KnownUnhandled { command_id, data } => match command_id {
                CommandIdentifier::ConfigureReporting => {
                    lemma_configure_echoes(pre, frame, ctx, data@, before, post, after, r);
                },
                CommandIdentifier::ReadReportingConfiguration => {
                    let header = Dispatch::global_header(frame, 0x09);
                    lemma_reporting_run_prefix(pre, data@, header, cap);
                    assert(header + Seq::<u8>::empty() =~= header);
                    lemma_echoes(bytes, frame, 0x18, 0x09, Seq::empty());
                },
                CommandIdentifier::ConfigureReportingResponse => {},
                _ => {
                    lemma_status_response_echoes(frame, ctx, Status::UnsupGeneralCommand, cap);
                },
            },
            IncomingGlobalCommand::Unknown { .. } => {
                lemma_status_response_echoes(frame, ctx, Status::UnsupGeneralCommand, cap);
            },
        },
    }
}

proof fn lemma_configure_echoes<CS: ClusterServer>(
    pre: CS,
    frame: IncomingZclFrame,
    ctx: DispatchContext,
    data: Seq<u8>,
    before: Seq<u8>,
    post: CS,
    after: Seq<u8>,
    r: Result<DispatchOutcome, ZclError>,
)
    requires
        before.len() <= usize::MAX,
        after.len() == before.len(),
        Dispatch::configure_answered(pre, frame, ctx, data, before, post, after, r),
        r is Ok,
        r->Ok_0.response_len > 0,
    ensures
        r->Ok_0.response_len <= before.len(),
        echoes(after.take(r->Ok_0.response_len as int), frame),
{
    let cap = before.len();
    let header = Dispatch::global_header(frame, 0x07);
    let records = Dispatch::records_of(data, Seq::empty())->Ok_0;
    let (total, failures): (u8, Seq<(u8, u16, u8)>) = choose|
        total: u8,
        failures: Seq<(u8, u16, u8)>,
    | #[trigger]
        Dispatch::configure_run(pre, records, ctx, 0, Seq::empty(), post, total, failures)
            && Dispatch::configure_outcome(header, total, failures, before, after, r);
    lemma_refusal_records_prefix(header, failures);
    assert((header + seq![0u8]).take(header.len() as int) =~= header);
    assert(header + Seq::<u8>::empty() =~= header);
    lemma_echoes(
        after.take(r->Ok_0.response_len as int),
        frame,
        0x18,
        0x07,
        Seq::empty(),
    );
}

proof fn lemma_command_discovery_echoes(
    response: u8,
    list: Seq<CommandId>,
    start: u8,
    max_count: u8,
    frame: IncomingZclFrame,
    cap: nat,
)
    ensures
        Dispatch::discover_commands(response, list, start, max_count, frame, cap) matches Ok(bytes)
            ==> echoes(bytes, frame),
{
    if let Ok(bytes) = Dispatch::discover_commands(response, list, start, max_count, frame, cap) {
        let header = Dispatch::global_header(frame, response);
        assert(bytes.take(header.len() as int) =~= header);
        assert(header + Seq::<u8>::empty() =~= header);
        lemma_echoes(bytes, frame, 0x18, response, Seq::empty());
    }
}

proof fn lemma_discovery_echoes(
    list: Seq<AttrInfo>,
    start: u16,
    max_count: u8,
    frame: IncomingZclFrame,
    extended: bool,
    cap: nat,
)
    ensures
        Dispatch::discover_attributes(list, start, max_count, frame, extended, cap) matches Ok(
            bytes,
        ) ==> echoes(bytes, frame),
{
    let remaining = Dispatch::attributes_from(list, start);
    let count = Dispatch::min(remaining.len(), max_count as nat);
    let command: u8 = if extended {
        0x16
    } else {
        0x0d
    };
    let header = Dispatch::global_header(frame, command);
    let flag = seq![if count == remaining.len() { 1u8 } else { 0u8 }];
    lemma_attribute_records_prefix(header + flag, remaining.take(count as int), extended);
    if let Ok(bytes) = Dispatch::discover_attributes(
        list,
        start,
        max_count,
        frame,
        extended,
        cap,
    ) {
        lemma_echoes(bytes, frame, 0x18, command, flag);
    }
}

proof fn lemma_command_echoes<CS: ClusterServer>(
    pre: CS,
    frame: IncomingZclFrame,
    ctx: DispatchContext,
    id: CommandId,
    data: Seq<u8>,
    before: Seq<u8>,
    post: CS,
    after: Seq<u8>,
    r: Result<DispatchOutcome, ZclError>,
)
    requires
        before.len() <= usize::MAX,
        after.len() == before.len(),
        Dispatch::command_answered(pre, frame, ctx, id, data, before, post, after, r),
        r is Ok,
        r->Ok_0.response_len > 0,
    ensures
        r->Ok_0.response_len <= before.len(),
        echoes(after.take(r->Ok_0.response_len as int), frame),
{
    let cap = before.len();
    let (mid, body, h) = choose|mid: CS, body: Seq<u8>, h: Result<crate::context::CommandResult, ZclError>|
        #[trigger] Dispatch::command_run(pre, frame, ctx, id, data, before, mid, body, h, post, after, r);
    let result = h->Ok_0;
    let bytes = after.take(r->Ok_0.response_len as int);
    match result {
        crate::context::CommandResult::Suppress => {},
        crate::context::CommandResult::Payload { command_id, len } => {
            lemma_whole_starts(bytes);
            lemma_echoes(bytes, frame, 0x19, command_id.0, body.take(len as int));
        },
        crate::context::CommandResult::DefaultResponse(status) => {
            lemma_status_response_echoes(frame, ctx, status, cap);
        },
    }
}

/// A frame that was not for this device alone never gets a default response.
pub proof fn law_broadcast_gets_no_default_response(
    frame: IncomingZclFrame,
    ctx: DispatchContext,
    status: Status,
    cap: nat,
)
    requires
        !ctx.is_unicast(),
    ensures
        !Dispatch::default_response_due(frame, ctx, status),
        Dispatch::status_response(frame, ctx, status, cap) == Ok::<Seq<u8>, ZclError>(Seq::empty()),
{
}

/// A response is put to the front of the buffer, and what is behind it stays.
pub proof fn law_rest_of_the_buffer_stays<CS: ClusterServer>(
    pre: CS,
    frame: IncomingZclFrame,
    ctx: DispatchContext,
    before: Seq<u8>,
    post: CS,
    after: Seq<u8>,
    r: Result<DispatchOutcome, ZclError>,
)
    requires
        before.len() <= usize::MAX,
        Dispatch::done(pre, frame, ctx, before, post, after, r),
        r is Ok,
    ensures
        after.len() == before.len(),
        r->Ok_0.response_len <= before.len(),
        after.skip(r->Ok_0.response_len as int) == before.skip(r->Ok_0.response_len as int),
{
    let n = r->Ok_0.response_len as int;
    assert(n <= before.len() && same_from(before, after, n)) by {
        if let IncomingZclCommand::ClusterSpecific { command_id, data } = frame.command {
            if frame.direction != Direction::ServerToClient {
                let (mid, body, h) = choose|
                    mid: CS,
                    body: Seq<u8>,
                    h: Result<crate::context::CommandResult, ZclError>,
                | #[trigger]
                    Dispatch::command_run(
                        pre,
                        frame,
                        ctx,
                        command_id,
                        data@,
                        before,
                        mid,
                        body,
                        h,
                        post,
                        after,
                        r,
                    );
                assert(Dispatch::command_run(
                    pre,
                    frame,
                    ctx,
                    command_id,
                    data@,
                    before,
                    mid,
                    body,
                    h,
                    post,
                    after,
                    r,
                ));
                let held = before.take(Dispatch::header_len(frame) as int) + body;
                match h->Ok_0 {
                    crate::context::CommandResult::Payload { .. } => {},
                    _ => {
                        assert(held =~= before);
                    },
                }
            }
        }
    }
    assert(after.skip(n) =~= before.skip(n));
}

/// A default response, and a write that asks for no response, are never answered;
/// nor is what another server sends, or a configuration response. None of them
/// touches the response buffer.
pub proof fn law_final_frames_are_not_answered<CS: ClusterServer>(
    pre: CS,
    frame: IncomingZclFrame,
    ctx: DispatchContext,
    before: Seq<u8>,
    post: CS,
    after: Seq<u8>,
    r: Result<DispatchOutcome, ZclError>,
)
    requires
        Dispatch::done(pre, frame, ctx, before, post, after, r),
        frame.command.is_final() || (frame.command is ClusterSpecific && frame.direction
            == Direction::ServerToClient) || frame.command == IncomingZclCommand::Global(
            IncomingGlobalCommand::KnownUnhandled {
                command_id: CommandIdentifier::ConfigureReportingResponse,
                data: frame.command->Global_0->KnownUnhandled_data,
            },
        ),
    ensures
        r == Ok::<DispatchOutcome, ZclError>(DispatchOutcome::of_len(0)),
        after == before,
{
}

/// An undivided write changes nothing unless every one of its records checks out.
pub proof fn law_undivided_write_is_all_or_nothing<CS: ClusterServer>(
    pre: CS,
    frame: IncomingZclFrame,
    ctx: DispatchContext,
    before: Seq<u8>,
    post: CS,
    after: Seq<u8>,
    r: Result<DispatchOutcome, ZclError>,
)
    requires
        Dispatch::done(pre, frame, ctx, before, post, after, r),
        frame.command is Global,
        frame.command->Global_0 is WriteAttributesUndivided,
        Dispatch::check_run(
            pre,
            frame.command->Global_0->WriteAttributesUndivided_0.data@,
            Seq::empty(),
        ) != Ok::<Seq<(u16, u8)>, ZclError>(Seq::empty()),
    ensures
        post == pre,
{
    let data = frame.command->Global_0->WriteAttributesUndivided_0.data@;
    if let Ok(failures) = Dispatch::check_run(pre, data, Seq::empty()) {
        if failures.len() == 0 {
            assert(failures =~= Seq::empty());
        }
    }
}

/// A reporting configuration request with a truncated record changes nothing and
/// fails as a whole.
pub proof fn law_malformed_configuration_changes_nothing<CS: ClusterServer>(
    pre: CS,
    frame: IncomingZclFrame,
    ctx: DispatchContext,
    before: Seq<u8>,
    data: &[u8],
    post: CS,
    after: Seq<u8>,
    r: Result<DispatchOutcome, ZclError>,
)
    requires
        Dispatch::done(pre, frame, ctx, before, post, after, r),
        ctx.is_unicast(),
        frame.command == IncomingZclCommand::Global(
            IncomingGlobalCommand::KnownUnhandled {
                command_id: CommandIdentifier::ConfigureReporting,
                data,
            },
        ),
        Dispatch::records_of(data@, Seq::empty()) is Err,
    ensures
        post == pre,
        r == Err::<DispatchOutcome, ZclError>(
            Dispatch::records_of(data@, Seq::empty())->Err_0,
        ),
{
}

/// Reading, discovering and asking for reporting configurations change nothing.
pub proof fn law_queries_change_nothing<CS: ClusterServer>(
    pre: CS,
    frame: IncomingZclFrame,
    ctx: DispatchContext,
    before: Seq<u8>,
    post: CS,
    after: Seq<u8>,
    r: Result<DispatchOutcome, ZclError>,
)
    requires
        Dispatch::done(pre, frame, ctx, before, post, after, r),
        frame.command is Global,
        match frame.command->Global_0 {
            IncomingGlobalCommand::ReadAttributes(_)
            | IncomingGlobalCommand::DiscoverAttributes { .. }
            | IncomingGlobalCommand::DiscoverAttributesExtended { .. }
            | IncomingGlobalCommand::DiscoverCommandsReceived { .. }
            | IncomingGlobalCommand::DiscoverCommandsGenerated { .. } => true,
            IncomingGlobalCommand::KnownUnhandled { command_id, .. } => command_id
                == CommandIdentifier::ReadReportingConfiguration,
            _ => false,
        },
    ensures
        post == pre,
{
}

/// Discovery from `start` lists exactly the attributes with identifiers from
/// `start` on.
pub proof fn law_discovery_is_complete(list: Seq<AttrInfo>, start: u16, info: AttrInfo)
    requires
        AttrInfo::sorted(list),
    ensures
        Dispatch::attributes_from(list, start).contains(info) <==> list.contains(info)
            && info.id.0 >= start,
        AttrInfo::sorted(Dispatch::attributes_from(list, start)),
    decreases list.len(),
{
    if list.len() > 0 && list[0].id.0 < start {
        let tail = list.skip(1);
        assert forall|i: int, j: int| 0 <= i < j < tail.len() implies #[trigger] tail[i].id.0
            < #[trigger] tail[j].id.0 by {
            assert(list[i + 1].id.0 < list[j + 1].id.0);
        }
        law_discovery_is_complete(tail, start, info);
        if list.contains(info) && info.id.0 >= start {
            let k = choose|k: int| 0 <= k < list.len() && list[k] == info;
            assert(tail[k - 1] == info);
        }
        if tail.contains(info) {
            let k = choose|k: int| 0 <= k < tail.len() && tail[k] == info;
            assert(list[k + 1] == info);
        }
    } else if list.contains(info) {
        let k = choose|k: int| 0 <= k < list.len() && list[k] == info;
        assert(list[0].id.0 <= list[k].id.0);
    }
}

} // verus!
