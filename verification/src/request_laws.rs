//! What becomes of each kind of request, from the bytes of its payload to the bytes of its
//! response.

use vstd::prelude::*;

use crate::bytes::Le;
use crate::cluster_server::ClusterServer;
use crate::context::DispatchContext;
use crate::context::DispatchOutcome;
use crate::dispatch::Dispatch;
use crate::frame::CommandIdentifier;
use crate::frame::Direction;
use crate::frame::IncomingGlobalCommand;
use crate::frame::IncomingZclCommand;
use crate::frame::IncomingZclFrame;
use crate::frame::Status;
use crate::types::error::AttrError;
use crate::types::error::ZclError;
use crate::types::ids::AttributeId;
use crate::types::ids::TypeId;
use crate::types::ids::ValueWidth;

verus! {

/// Asking for one attribute is answered with its identifier and its value, or with its
/// identifier and why there is none.
pub proof fn law_one_attribute_is_read<CS: ClusterServer>(
    pre: CS,
    frame: IncomingZclFrame,
    ctx: DispatchContext,
    ids: &[u8],
    before: Seq<u8>,
    post: CS,
    after: Seq<u8>,
    r: Result<DispatchOutcome, ZclError>,
)
    requires
        before.len() <= usize::MAX,
        before.len() >= 9,
        frame.command == IncomingZclCommand::Global(IncomingGlobalCommand::ReadAttributes(ids)),
        ids@.len() == 2,
        Dispatch::done(pre, frame, ctx, before, post, after, r),
    ensures
        post == pre,
        ({
            let header = crate::wire_laws::answer_header(frame, false, 0x01);
            let id = AttributeId((ids@[0] + 256 * ids@[1]) as u16);
            match pre.attr(id, (before.len() - header.len() - 4) as nat) {
                Ok((t, value)) => header.len() + 4 + value.len() <= before.len()
                    ==> crate::wire_laws::answered(
                    header + seq![ids@[0], ids@[1], 0u8, t.code()] + value,
                    after,
                    r,
                ),
                Err(AttrError::Codec(e)) => r == Err::<DispatchOutcome, ZclError>(e),
                Err(AttrError::UnsupportedAttribute) => crate::wire_laws::answered(
                    header + seq![ids@[0], ids@[1], 0x86u8],
                    after,
                    r,
                ),
                Err(AttrError::ReadOnly) => crate::wire_laws::answered(
                    header + seq![ids@[0], ids@[1], 0x88u8],
                    after,
                    r,
                ),
                Err(AttrError::InvalidDataType) => crate::wire_laws::answered(
                    header + seq![ids@[0], ids@[1], 0x8du8],
                    after,
                    r,
                ),
                Err(AttrError::InvalidValue) => crate::wire_laws::answered(
                    header + seq![ids@[0], ids@[1], 0x87u8],
                    after,
                    r,
                ),
            }
        }),
{
    let header = crate::wire_laws::answer_header(frame, false, 0x01);
    crate::wire_laws::law_read_response_layout(pre, frame, ids@, before.len());
    crate::wire_laws::law_read_answers_each_attribute(
        pre,
        ids@[0],
        ids@[1],
        Seq::empty(),
        header,
        before.len(),
    );
    assert(ids@ =~= seq![ids@[0], ids@[1]] + Seq::<u8>::empty());
}

/// Writing one attribute, in a frame of its own, writes it and nothing else.
pub proof fn law_one_attribute_is_written<CS: ClusterServer>(
    pre: CS,
    frame: IncomingZclFrame,
    ctx: DispatchContext,
    low: u8,
    high: u8,
    t: TypeId,
    value: Seq<u8>,
    before: Seq<u8>,
    post: CS,
    after: Seq<u8>,
    r: Result<DispatchOutcome, ZclError>,
)
    requires
        before.len() <= usize::MAX,
        before.len() >= 8,
        frame.command matches IncomingZclCommand::Global(
            IncomingGlobalCommand::WriteAttributes(p),
        ) && p.data@ == seq![low, high, t.code()] + value,
        t.width() matches ValueWidth::Fixed(n) && value.len() == n,
        Dispatch::done(pre, frame, ctx, before, post, after, r),
    ensures
        exists|w: Result<(), AttrError>| #[trigger]
            CS::wrote(pre, AttributeId((low + 256 * high) as u16), t, value, post, w) && match w {
                Ok(()) => crate::wire_laws::answered(
                    crate::wire_laws::answer_header(frame, false, 0x04) + seq![0u8],
                    after,
                    r,
                ),
                Err(AttrError::Codec(e)) => r == Err::<DispatchOutcome, ZclError>(e),
                Err(AttrError::UnsupportedAttribute) => crate::wire_laws::answered(
                    crate::wire_laws::answer_header(frame, false, 0x04) + seq![0x86u8, low, high],
                    after,
                    r,
                ),
                Err(AttrError::ReadOnly) => crate::wire_laws::answered(
                    crate::wire_laws::answer_header(frame, false, 0x04) + seq![0x88u8, low, high],
                    after,
                    r,
                ),
                Err(AttrError::InvalidDataType) => crate::wire_laws::answered(
                    crate::wire_laws::answer_header(frame, false, 0x04) + seq![0x8du8, low, high],
                    after,
                    r,
                ),
                Err(AttrError::InvalidValue) => crate::wire_laws::answered(
                    crate::wire_laws::answer_header(frame, false, 0x04) + seq![0x87u8, low, high],
                    after,
                    r,
                ),
            },
{
    let data = seq![low, high, t.code()] + value;
    let response = choose|response: Result<Seq<u8>, ZclError>| #[trigger]
        Dispatch::write_answered(pre, frame, data, before.len(), post, response)
            && Dispatch::plain(response, before, after, r);
    crate::wire_laws::law_one_write_is_answered(
        pre,
        frame,
        low,
        high,
        t,
        value,
        before.len(),
        post,
        response,
    );
}

/// Configuring the reporting of one attribute hands the record to the server. What it
/// accepts is answered with a single success and counted; what it refuses, with the
/// status, the direction and the attribute, and not counted.
pub proof fn law_one_attribute_is_configured<CS: ClusterServer>(
    pre: CS,
    frame: IncomingZclFrame,
    ctx: DispatchContext,
    attr_low: u8,
    attr_high: u8,
    code: u8,
    min_low: u8,
    min_high: u8,
    max_low: u8,
    max_high: u8,
    change: Seq<u8>,
    data: &[u8],
    before: Seq<u8>,
    post: CS,
    after: Seq<u8>,
    r: Result<DispatchOutcome, ZclError>,
)
    requires
        before.len() <= usize::MAX,
        before.len() >= 9,
        ctx.is_unicast(),
        change.len() == crate::wire_laws::change_width(code),
        data@ == seq![0u8, attr_low, attr_high, code, min_low, min_high, max_low, max_high]
            + change,
        frame.command == IncomingZclCommand::Global(
            IncomingGlobalCommand::KnownUnhandled {
                command_id: CommandIdentifier::ConfigureReporting,
                data,
            },
        ),
        Dispatch::done(pre, frame, ctx, before, post, after, r),
    ensures
        exists|status: Status| #[trigger]
            CS::reporting_set(pre, Dispatch::record_at(data@), ctx, post, status) && {
                let header = crate::wire_laws::answer_header(frame, false, 0x07);
                &&& r is Ok
                &&& r->Ok_0.effects.configure_reporting is Some
                &&& if status == Status::Success {
                    &&& crate::wire_laws::answered(header + seq![0u8], after, r)
                    &&& r->Ok_0.effects.configure_reporting->Some_0.accepted_send_records == 1
                } else {
                    &&& crate::wire_laws::answered(
                        header + seq![status.code(), 0u8, attr_low, attr_high],
                        after,
                        r,
                    )
                    &&& r->Ok_0.effects.configure_reporting->Some_0.accepted_send_records == 0
                }
            },
{
    let header = crate::wire_laws::answer_header(frame, false, 0x07);
    let none = Seq::<crate::context::RecordFields>::empty();
    let nobody = Seq::<(u8, u16, u8)>::empty();
    crate::wire_laws::law_send_record_is_read_field_by_field(
        0,
        attr_low,
        attr_high,
        code,
        min_low,
        min_high,
        max_low,
        max_high,
        change,
        Seq::empty(),
        none,
    );
    assert(data@ =~= seq![0u8, attr_low, attr_high, code, min_low, min_high, max_low, max_high]
        + change + Seq::<u8>::empty());
    let record = Dispatch::record_at(data@);
    let records = none.push(record);
    assert(Dispatch::records_of(Seq::empty(), records) == Ok::<
        Seq<crate::context::RecordFields>,
        ZclError,
    >(records));
    assert(Dispatch::global_header(frame, 0x07) =~= header);
    let (total, failures) = choose|total: u8, failures: Seq<(u8, u16, u8)>| #[trigger]
        Dispatch::configure_run(pre, records, ctx, 0, nobody, post, total, failures)
            && Dispatch::configure_outcome(header, total, failures, before, after, r);
    crate::wire_laws::law_each_record_is_configured(
        pre,
        records,
        ctx,
        0,
        nobody,
        post,
        total,
        failures,
    );
    assert(records.skip(1).len() == 0);
    let (mid, status) = choose|mid: CS, status: Status| #[trigger]
        CS::reporting_set(pre, records[0], ctx, mid, status) && (if status == Status::Success {
            Dispatch::configure_run(mid, records.skip(1), ctx, 1, nobody, post, total, failures)
        } else {
            Dispatch::configure_run(
                mid,
                records.skip(1),
                ctx,
                0,
                nobody.push((records[0].direction, records[0].attr_id.0, status.code())),
                post,
                total,
                failures,
            )
        });
    assert(mid == post);
    if status != Status::Success {
        let one = nobody.push((0u8, record.attr_id.0, status.code()));
        assert(failures == one);
        assert(one.skip(1) =~= nobody);
        let bytes = header + seq![status.code(), 0u8] + Le::u16(record.attr_id.0);
        assert(Dispatch::refusal_records(bytes, nobody) == bytes);
        assert(bytes =~= header + seq![status.code(), 0u8, attr_low, attr_high]);
    }
    assert(CS::reporting_set(pre, record, ctx, post, status));
}

/// A configuration request that was not for this device alone changes nothing and is not
/// answered.
pub proof fn law_configuration_is_for_one_device<CS: ClusterServer>(
    pre: CS,
    frame: IncomingZclFrame,
    ctx: DispatchContext,
    data: &[u8],
    before: Seq<u8>,
    post: CS,
    after: Seq<u8>,
    r: Result<DispatchOutcome, ZclError>,
)
    requires
        !ctx.is_unicast(),
        frame.command == IncomingZclCommand::Global(
            IncomingGlobalCommand::KnownUnhandled {
                command_id: CommandIdentifier::ConfigureReporting,
                data,
            },
        ),
        Dispatch::done(pre, frame, ctx, before, post, after, r),
    ensures
        post == pre,
        after == before,
        r is Ok && r->Ok_0.response_len == 0 && r->Ok_0.effects.configure_reporting is None,
{
}

/// Asking how one attribute is reported is answered as the server says.
pub proof fn law_one_configuration_is_asked_for<CS: ClusterServer>(
    pre: CS,
    frame: IncomingZclFrame,
    ctx: DispatchContext,
    data: &[u8],
    before: Seq<u8>,
    post: CS,
    after: Seq<u8>,
    r: Result<DispatchOutcome, ZclError>,
)
    requires
        before.len() <= usize::MAX,
        before.len() >= 5,
        data@.len() == 3,
        frame.command == IncomingZclCommand::Global(
            IncomingGlobalCommand::KnownUnhandled {
                command_id: CommandIdentifier::ReadReportingConfiguration,
                data,
            },
        ),
        Dispatch::done(pre, frame, ctx, before, post, after, r),
    ensures
        post == pre,
        ({
            let header = crate::wire_laws::answer_header(frame, false, 0x09);
            let answer = pre.reporting_answer(
                AttributeId((data@[1] + 256 * data@[2]) as u16),
                data@[0],
                (before.len() - header.len()) as nat,
            );
            header.len() + answer.len() <= before.len() ==> crate::wire_laws::answered(
                header + answer,
                after,
                r,
            )
        }),
{
    let header = crate::wire_laws::answer_header(frame, false, 0x09);
    assert(Dispatch::global_header(frame, 0x09) =~= header);
    crate::wire_laws::law_each_configuration_is_answered(
        pre,
        data@[0],
        data@[1],
        data@[2],
        Seq::empty(),
        header,
        before.len(),
    );
    assert(data@ =~= seq![data@[0], data@[1], data@[2]] + Seq::<u8>::empty());
}

/// A general command that is not taken is refused with a default response, where one is
/// due: to a frame for this device alone.
pub proof fn law_other_general_commands_are_refused<CS: ClusterServer>(
    pre: CS,
    frame: IncomingZclFrame,
    ctx: DispatchContext,
    global: IncomingGlobalCommand,
    before: Seq<u8>,
    post: CS,
    after: Seq<u8>,
    r: Result<DispatchOutcome, ZclError>,
)
    requires
        before.len() <= usize::MAX,
        before.len() >= 7,
        frame.command == IncomingZclCommand::Global(global),
        global is Unknown || (global matches IncomingGlobalCommand::KnownUnhandled {
            command_id,
            ..
        } && command_id != CommandIdentifier::ConfigureReporting && command_id
            != CommandIdentifier::ReadReportingConfiguration && command_id
            != CommandIdentifier::ConfigureReportingResponse),
        Dispatch::done(pre, frame, ctx, before, post, after, r),
    ensures
        post == pre,
        if ctx.is_unicast() {
            crate::wire_laws::answered(
                crate::wire_laws::answer_header(frame, false, 0x0b) + seq![
                    frame.command.code(),
                    0x82u8,
                ],
                after,
                r,
            )
        } else {
            after == before && r is Ok && r->Ok_0.response_len == 0
        },
{
    assert(Dispatch::global_header(frame, 0x0b) =~= crate::wire_laws::answer_header(
        frame,
        false,
        0x0b,
    ));
}

/// A command of the cluster reaches the server's handler with its payload and its context,
/// and with the room behind the header, unless a server sent it.
pub proof fn law_cluster_command_is_handled<CS: ClusterServer>(
    pre: CS,
    frame: IncomingZclFrame,
    ctx: DispatchContext,
    id: u8,
    data: &[u8],
    before: Seq<u8>,
    post: CS,
    after: Seq<u8>,
    r: Result<DispatchOutcome, ZclError>,
)
    requires
        frame.command == (IncomingZclCommand::ClusterSpecific {
            command_id: crate::types::ids::CommandId(id),
            data,
        }),
        frame.direction == Direction::ClientToServer,
        before.len() >= 5,
        Dispatch::done(pre, frame, ctx, before, post, after, r),
    ensures
        ({
            let n = if frame.manufacturer_code is Some {
                5int
            } else {
                3int
            };
            exists|mid: CS, body: Seq<u8>, h: Result<crate::context::CommandResult, ZclError>|
                CS::handled(
                    pre,
                    crate::types::ids::CommandId(id),
                    data@,
                    ctx,
                    before.skip(n),
                    mid,
                    body,
                    h,
                ) && #[trigger] Dispatch::command_run(
                    pre,
                    frame,
                    ctx,
                    crate::types::ids::CommandId(id),
                    data@,
                    before,
                    mid,
                    body,
                    h,
                    post,
                    after,
                    r,
                )
        }),
{
}

} // verus!
