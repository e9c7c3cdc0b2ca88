//! What becomes of each record of a write request, and of the records behind it.

use vstd::prelude::*;

use crate::cluster_server::ClusterServer;
use crate::dispatch::Dispatch;
use crate::payload::WriteItem;
use crate::types::error::AttrError;
use crate::types::error::ZclError;
use crate::types::ids::AttributeId;
use crate::types::ids::TypeId;
use crate::types::ids::ValueWidth;

verus! {

/// The status byte of an error that does not abort a request.
pub open spec fn refusal(e: AttrError) -> u8 {
    match e {
        AttrError::UnsupportedAttribute => 0x86,
        AttrError::InvalidValue => 0x87,
        AttrError::ReadOnly => 0x88,
        AttrError::InvalidDataType => 0x8d,
        AttrError::Codec(_) => 0x00,
    }
}

/// A record is written, and then those behind it are. One that is refused leaves its status
/// and attribute in the response, if there is room; one whose value cannot be read aborts
/// the request.
pub proof fn law_each_record_is_written<CS: ClusterServer>(
    pre: CS,
    low: u8,
    high: u8,
    t: TypeId,
    value: Seq<u8>,
    rest: Seq<u8>,
    acc: Seq<u8>,
    cap: nat,
    post: CS,
    response: Result<Seq<u8>, ZclError>,
)
    requires
        t.width() matches ValueWidth::Fixed(n) && value.len() == n,
        Dispatch::write_run(
            pre,
            seq![low, high, t.code()] + value + rest,
            acc,
            cap,
            post,
            response,
        ),
    ensures
        exists|mid: CS, w: Result<(), AttrError>| #[trigger]
            CS::wrote(pre, AttributeId((low + 256 * high) as u16), t, value, mid, w) && match w {
                Ok(()) => Dispatch::write_run(mid, rest, acc, cap, post, response),
                Err(AttrError::Codec(e)) => post == mid && response == Err::<Seq<u8>, ZclError>(e),
                Err(e) => if acc.len() + 3 <= cap {
                    Dispatch::write_run(
                        mid,
                        rest,
                        acc + seq![refusal(e), low, high],
                        cap,
                        post,
                        response,
                    )
                } else {
                    post == mid && response == Err::<Seq<u8>, ZclError>(ZclError::BufferTooSmall)
                },
            },
{
    let data = seq![low, high, t.code()] + value + rest;
    let id = AttributeId((low + 256 * high) as u16);
    crate::wire_laws::law_write_record_is_read_field_by_field(low, high, t, value, rest);
    let (mid, w) = choose|mid: CS, w: Result<(), AttrError>| #[trigger]
        CS::wrote(pre, id, t, value, mid, w) && match w {
            Ok(()) => Dispatch::write_run(mid, WriteItem::after(data), acc, cap, post, response),
            Err(e) => match e.status() {
                None => post == mid && response == Err::<Seq<u8>, ZclError>(Dispatch::abort(e)),
                Some(status) => match Dispatch::fit(
                    acc + Dispatch::write_failure(status, id),
                    cap,
                ) {
                    Err(full) => post == mid && response == Err::<Seq<u8>, ZclError>(full),
                    Ok(more) => Dispatch::write_run(
                        mid,
                        WriteItem::after(data),
                        more,
                        cap,
                        post,
                        response,
                    ),
                },
            },
        };
    if let Err(e) = w {
        if let Some(status) = e.status() {
            assert(acc + Dispatch::write_failure(status, id) =~= acc + seq![refusal(e), low, high]);
        }
    }
    assert(CS::wrote(pre, id, t, value, mid, w));
}

/// A request without further records is done. One that ends within a record is refused as a
/// whole; a record whose type says nothing of its length is refused as of the wrong type,
/// and is the last one. Neither writes anything.
pub proof fn law_end_of_the_records<CS: ClusterServer>(
    pre: CS,
    data: Seq<u8>,
    acc: Seq<u8>,
    cap: nat,
    post: CS,
    response: Result<Seq<u8>, ZclError>,
)
    requires
        Dispatch::write_run(pre, data, acc, cap, post, response),
    ensures
        data.len() == 0 ==> post == pre && response == Ok::<Seq<u8>, ZclError>(acc),
        1 <= data.len() < 3 ==> post == pre && response == Err::<Seq<u8>, ZclError>(
            ZclError::InsufficientBytes,
        ),
        data.len() >= 3 && (forall|u: TypeId| #[trigger] u.code() != data[2]) ==> post == pre
            && response == if acc.len() + 3 <= cap {
            Ok::<Seq<u8>, ZclError>(acc + seq![0x8du8, data[0], data[1]])
        } else {
            Err::<Seq<u8>, ZclError>(ZclError::BufferTooSmall)
        },
{
    crate::wire_laws::law_broken_write_records(data, TypeId::NoData);
    if data.len() >= 3 && (forall|u: TypeId| #[trigger] u.code() != data[2]) {
        let id = AttributeId((data[0] + 256 * data[1]) as u16);
        assert(acc + Dispatch::write_failure(crate::frame::Status::InvalidDataType, id) =~= acc
            + seq![0x8du8, data[0], data[1]]);
    }
}

/// Without a response, too, a record is written, and then those behind it are; and what is
/// cut short, or of unknown type, ends the request without a trace.
pub proof fn law_each_record_is_written_silently<CS: ClusterServer>(
    pre: CS,
    low: u8,
    high: u8,
    t: TypeId,
    value: Seq<u8>,
    rest: Seq<u8>,
    post: CS,
)
    requires
        t.width() matches ValueWidth::Fixed(n) && value.len() == n,
    ensures
        Dispatch::silent_run(pre, seq![low, high, t.code()] + value + rest, post) ==> exists|
            mid: CS,
            w: Result<(), AttrError>,
        | #[trigger]
            CS::wrote(pre, AttributeId((low + 256 * high) as u16), t, value, mid, w)
                && Dispatch::silent_run(mid, rest, post),
        rest.len() < 3 ==> (Dispatch::silent_run(pre, rest, post) <==> post == pre),
{
    let data = seq![low, high, t.code()] + value + rest;
    let id = AttributeId((low + 256 * high) as u16);
    crate::wire_laws::law_write_record_is_read_field_by_field(low, high, t, value, rest);
    if Dispatch::silent_run(pre, data, post) {
        let (mid, w) = choose|mid: CS, w: Result<(), AttrError>| #[trigger]
            CS::wrote(pre, id, t, value, mid, w) && Dispatch::silent_run(
                mid,
                WriteItem::after(data),
                post,
            );
        assert(CS::wrote(pre, id, t, value, mid, w));
    }
}

/// The records of an undivided write are checked in turn. One that the server would refuse
/// is listed with its attribute and status, sixteen at most; one whose value cannot be read
/// aborts the request.
pub proof fn law_each_record_is_checked<CS: ClusterServer>(
    server: CS,
    low: u8,
    high: u8,
    t: TypeId,
    value: Seq<u8>,
    rest: Seq<u8>,
    failures: Seq<(u16, u8)>,
)
    requires
        t.width() matches ValueWidth::Fixed(n) && value.len() == n,
    ensures
        ({
            let id = AttributeId((low + 256 * high) as u16);
            let all = Dispatch::check_run(
                server,
                seq![low, high, t.code()] + value + rest,
                failures,
            );
            match server.write_check(id, t, value) {
                Ok(()) => all == Dispatch::check_run(server, rest, failures),
                Err(AttrError::Codec(e)) => all == Err::<Seq<(u16, u8)>, ZclError>(e),
                Err(e) => if failures.len() < 16 {
                    all == Dispatch::check_run(server, rest, failures.push((id.0, refusal(e))))
                } else {
                    all == Err::<Seq<(u16, u8)>, ZclError>(ZclError::BufferTooSmall)
                },
            }
        }),
{
    crate::wire_laws::law_write_record_is_read_field_by_field(low, high, t, value, rest);
}

/// How the check of an undivided write ends: with what was listed, with an error where the
/// request is cut short, or with one more refusal where a type is unknown.
pub proof fn law_end_of_the_check<CS: ClusterServer>(
    server: CS,
    data: Seq<u8>,
    failures: Seq<(u16, u8)>,
)
    ensures
        data.len() == 0 ==> Dispatch::check_run(server, data, failures) == Ok::<
            Seq<(u16, u8)>,
            ZclError,
        >(failures),
        1 <= data.len() < 3 ==> Dispatch::check_run(server, data, failures) == Err::<
            Seq<(u16, u8)>,
            ZclError,
        >(ZclError::InsufficientBytes),
        data.len() >= 3 && (forall|u: TypeId| #[trigger] u.code() != data[2])
            ==> Dispatch::check_run(server, data, failures) == if failures.len() < 16 {
            Ok::<Seq<(u16, u8)>, ZclError>(
                failures.push(((data[0] + 256 * data[1]) as u16, 0x8du8)),
            )
        } else {
            Err::<Seq<(u16, u8)>, ZclError>(ZclError::BufferTooSmall)
        },
{
    crate::wire_laws::law_broken_write_records(data, TypeId::NoData);
}

/// Once all records of an undivided write check out, they are written in turn.
pub proof fn law_each_checked_record_is_written<CS: ClusterServer>(
    pre: CS,
    low: u8,
    high: u8,
    t: TypeId,
    value: Seq<u8>,
    rest: Seq<u8>,
    post: CS,
    r: Result<(), ZclError>,
)
    requires
        t.width() matches ValueWidth::Fixed(n) && value.len() == n,
        Dispatch::commit_run(pre, seq![low, high, t.code()] + value + rest, post, r),
    ensures
        exists|mid: CS, w: Result<(), AttrError>| #[trigger]
            CS::wrote(pre, AttributeId((low + 256 * high) as u16), t, value, mid, w) && match w {
                Err(AttrError::Codec(e)) => post == mid && r == Err::<(), ZclError>(e),
                _ => Dispatch::commit_run(mid, rest, post, r),
            },
        Dispatch::commit_run(pre, Seq::empty(), post, r) ==> post == pre && r is Ok,
{
    let data = seq![low, high, t.code()] + value + rest;
    let id = AttributeId((low + 256 * high) as u16);
    crate::wire_laws::law_write_record_is_read_field_by_field(low, high, t, value, rest);
    let (mid, w) = choose|mid: CS, w: Result<(), AttrError>| #[trigger]
        CS::wrote(pre, id, t, value, mid, w) && match w {
            Err(AttrError::Codec(ze)) => post == mid && r == Err::<(), ZclError>(ze),
            _ => Dispatch::commit_run(mid, WriteItem::after(data), post, r),
        };
    assert(CS::wrote(pre, id, t, value, mid, w));
}

} // verus!
