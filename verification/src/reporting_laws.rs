//! What holds of attribute reporting as a whole.

use vstd::prelude::*;

use crate::bytes::Le;
use crate::context::ClusterReportReady;
use crate::context::ReportDeliveryResult;
use crate::context::ReportToken;
use crate::frame::Status;
use crate::reporting::find_info;
use crate::reporting::is_info_at;
use crate::reporting::number;
use crate::reporting::EntryState;
use crate::reporting::ReportCandidate;
use crate::reporting::ReportDue;
use crate::reporting::ReportingRequest;
use crate::reporting::TableState;
use crate::types::codec::ReadSpec;
use crate::types::descriptors::AttrInfo;
use crate::types::error::ZclError;
use crate::types::ids::AttributeId;
use crate::types::ids::TypeId;

verus! {

/// An attribute's only entry is where it is looked up.
proof fn lemma_slot(t: TableState, attr_id: AttributeId, i: int)
    requires
        t.distinct(),
        t.is_slot(attr_id, i),
    ensures
        t.has(attr_id),
        t.slot(attr_id) == i,
{
    let k = t.slot(attr_id);
    assert(t.is_slot(attr_id, k));
    if k < i {
        assert(t.entries[k].attr_id != t.entries[i].attr_id);
    } else if i < k {
        assert(t.entries[i].attr_id != t.entries[k].attr_id);
    }
}

/// A new state of an attribute's entry is what is found, and the other attributes'
/// entries stay as they were.
proof fn lemma_with_entry(t: TableState, attr_id: AttributeId, e: EntryState)
    requires
        t.distinct(),
        t.has(attr_id),
        e.attr_id == attr_id,
    ensures
        t.with_entry(attr_id, e).distinct(),
        t.with_entry(attr_id, e).has(attr_id),
        t.with_entry(attr_id, e).entry(attr_id) == e,
        t.with_entry(attr_id, e).entries.len() == t.entries.len(),
        forall|i: int|
            0 <= i < t.entries.len() && t.entries[i].attr_id != attr_id ==> #[trigger] t.with_entry(
                attr_id,
                e,
            ).entries[i] == t.entries[i],
{
    let s = t.slot(attr_id);
    assert(t.is_slot(attr_id, s));
    let u = t.with_entry(attr_id, e);
    assert forall|i: int, j: int| 0 <= i < j < u.entries.len() implies #[trigger] u.entries[i].attr_id
        != #[trigger] u.entries[j].attr_id by {
        assert(t.entries[i].attr_id != t.entries[j].attr_id);
    }
    assert(u.is_slot(attr_id, s));
    lemma_slot(u, attr_id, s);
}

/// Without anyone to send it to, a report is never due.
pub proof fn law_no_destination_no_report(e: EntryState, now_ms: u32)
    requires
        e.destination is None,
    ensures
        e.due(now_ms) is None,
{
}

/// The report is due for entry `i`, and goes where that says.
pub open spec fn is_due_at(t: TableState, now_ms: u32, c: ReportCandidate, i: int) -> bool {
    &&& t.is_slot(c.attr_id, i)
    &&& t.entries[i].due(now_ms) == Some(c.due)
    &&& t.entries[i].destination == Some(c.destination)
    &&& c.token == ReportToken(c.attr_id.0)
}

/// The report that is sent next is one that is due, and goes where its entry says.
pub proof fn law_next_report_is_due(t: TableState, now_ms: u32)
    ensures
        t.next_due(now_ms) matches Some(c) ==> exists|i: int| #[trigger]
            is_due_at(t, now_ms, c, i),
        t.next_due(now_ms) is None ==> forall|i: int|
            0 <= i < t.entries.len() ==> (#[trigger] t.entries[i]).due(now_ms) is None,
{
    lemma_first_due(t, now_ms, 0);
}

proof fn lemma_first_due(t: TableState, now_ms: u32, from: nat)
    ensures
        t.first_due(now_ms, from) matches Some(c) ==> exists|i: int| #[trigger]
            is_due_at(t, now_ms, c, i),
        t.first_due(now_ms, from) is None ==> forall|i: int|
            from <= i < t.entries.len() ==> (#[trigger] t.entries[i]).due(now_ms) is None,
    decreases t.entries.len() - from,
{
    if from < t.entries.len() {
        let e = t.entries[from as int];
        if e.due(now_ms) is Some {
            assert(is_due_at(t, now_ms, t.first_due(now_ms, from)->0, from as int));
        } else {
            lemma_first_due(t, now_ms, from + 1);
            assert(t.first_due(now_ms, from) == t.first_due(now_ms, from + 1));
        }
    }
}

/// An updated value is reported once the minimum interval has passed since the last
/// report.
pub proof fn law_update_is_reported(t: TableState, attr_id: AttributeId, now_ms: u32)
    requires
        t.distinct(),
        t.has(attr_id),
        t.entry(attr_id).attr_id == attr_id,
        t.entry(attr_id).destination is Some,
        t.entry(attr_id).elapsed(now_ms) >= t.entry(attr_id).min_interval * 1000,
    ensures
        t.noted(attr_id).has(attr_id),
        t.noted(attr_id).entry(attr_id).due(now_ms) is Some,
        t.noted(attr_id).next_due(now_ms) is Some,
{
    let u = t.noted(attr_id);
    if t.entry(attr_id).pending {
        assert(u.is_slot(attr_id, t.slot(attr_id)));
        lemma_slot(u, attr_id, t.slot(attr_id));
    } else {
        lemma_with_entry(t, attr_id, EntryState { pending: true, ..t.entry(attr_id) });
    }
    assert(u.is_slot(attr_id, u.slot(attr_id)));
    law_next_report_is_due(u, now_ms);
}

/// Updates before a report is sent make one report: the second update changes
/// nothing but the count of those that were merged.
pub proof fn law_updates_are_merged(t: TableState, attr_id: AttributeId)
    requires
        t.distinct(),
        t.has(attr_id),
        t.entry(attr_id).attr_id == attr_id,
    ensures
        t.noted(attr_id).noted(attr_id).entries == t.noted(attr_id).entries,
{
    let u = t.noted(attr_id);
    if t.entry(attr_id).pending {
        assert(u.is_slot(attr_id, t.slot(attr_id)));
        lemma_slot(u, attr_id, t.slot(attr_id));
    } else {
        lemma_with_entry(t, attr_id, EntryState { pending: true, ..t.entry(attr_id) });
    }
}

/// A report that was sent or lost is not due again at once, nor before the maximum
/// interval has passed or the value is updated.
pub proof fn law_delivered_report_rests(
    t: TableState,
    attr_id: AttributeId,
    result: ReportDeliveryResult,
    now_ms: u32,
    later_ms: u32,
)
    requires
        t.distinct(),
        t.has(attr_id),
        t.entry(attr_id).attr_id == attr_id,
        result != ReportDeliveryResult::Deferred,
        t.entry(attr_id).max_interval == 0 || later_ms.wrapping_sub(now_ms) < t.entry(
            attr_id,
        ).max_interval * 1000,
    ensures
        t.completed(ReportToken(attr_id.0), result, now_ms).has(attr_id),
        t.completed(ReportToken(attr_id.0), result, now_ms).entry(attr_id).due(later_ms) is None,
{
    let e = t.entry(attr_id);
    let token = ReportToken(attr_id.0);
    assert(AttributeId(token.0) == attr_id);
    let sent = EntryState {
        pending: false,
        last_report_ms: now_ms,
        last_value: match e.in_flight {
            Some(v) => Some(v),
            None => e.last_value,
        },
        in_flight: None,
        ..e
    };
    let failed = EntryState { pending: false, last_report_ms: now_ms, in_flight: None, ..e };
    lemma_with_entry(t, attr_id, sent);
    lemma_with_entry(t, attr_id, failed);
    let post = t.completed(token, result, now_ms);
    if result == ReportDeliveryResult::Failed {
        let u = t.with_entry(attr_id, failed);
        assert(post.entries == u.entries);
        assert(post.is_slot(attr_id, u.slot(attr_id))) by {
            assert(u.is_slot(attr_id, u.slot(attr_id)));
        }
        assert(post.distinct());
        lemma_slot(post, attr_id, u.slot(attr_id));
    }
}

/// A report that was put off stays as due as it was.
pub proof fn law_deferred_report_stays_due(
    t: TableState,
    attr_id: AttributeId,
    now_ms: u32,
    later_ms: u32,
)
    requires
        t.distinct(),
        t.has(attr_id),
        t.entry(attr_id).attr_id == attr_id,
    ensures
        t.completed(ReportToken(attr_id.0), ReportDeliveryResult::Deferred, now_ms).entry(
            attr_id,
        ).due(later_ms) == t.entry(attr_id).due(later_ms),
{
    assert(AttributeId(ReportToken(attr_id.0).0) == attr_id);
    lemma_with_entry(t, attr_id, EntryState { in_flight: None, ..t.entry(attr_id) });
}

/// Sending one attribute's report leaves the other attributes' reports alone.
pub proof fn law_delivery_concerns_one_attribute(
    t: TableState,
    attr_id: AttributeId,
    result: ReportDeliveryResult,
    now_ms: u32,
    i: int,
)
    requires
        t.distinct(),
        0 <= i < t.entries.len(),
        t.entries[i].attr_id != attr_id,
    ensures
        t.completed(ReportToken(attr_id.0), result, now_ms).entries.len() == t.entries.len(),
        t.completed(ReportToken(attr_id.0), result, now_ms).entries[i] == t.entries[i],
{
    assert(AttributeId(ReportToken(attr_id.0).0) == attr_id);
    if t.has(attr_id) {
        assert(t.is_slot(attr_id, t.slot(attr_id)));
    }
}

/// What was configured is what is answered when asked for it, and a configuration
/// that ends reporting is answered with "not found" from then on.
pub proof fn law_configuration_is_answered(
    t: TableState,
    cap: nat,
    value_bytes: nat,
    request: ReportingRequest,
    list: Seq<AttrInfo>,
    room: nat,
)
    requires
        t.distinct(),
        t.configured(cap, value_bytes, request, list).1 == Status::Success,
        9 + request.change.len() <= room,
    ensures
        ({
            let post = t.configured(cap, value_bytes, request, list).0;
            let answer = post.answer(request.attr_id, 0, room);
            if request.max_interval == 0xffff {
                answer == seq![0x8bu8, 0u8] + Le::u16(request.attr_id.0)
            } else {
                answer == seq![0u8, 0u8] + Le::u16(request.attr_id.0) + seq![request.attr_type]
                    + Le::u16(request.min_interval) + Le::u16(request.max_interval)
                    + request.change
            }
        }),
{
    let post = t.configured(cap, value_bytes, request, list).0;
    let id = request.attr_id;
    let fresh = crate::reporting::fresh_entry(request);
    if request.max_interval == 0xffff {
        if t.has(id) {
            let s = t.slot(id);
            assert(t.is_slot(id, s));
            assert(!post.has(id)) by {
                if post.has(id) {
                    let k = post.slot(id);
                    assert(post.is_slot(id, k));
                    if k < s {
                        assert(t.entries[k].attr_id != t.entries[s].attr_id);
                    } else {
                        assert(t.entries[s].attr_id != t.entries[k + 1].attr_id);
                    }
                }
            }
        }
    } else if t.has(id) {
        lemma_with_entry(t, id, fresh);
    } else {
        assert(post.is_slot(id, t.entries.len() as int));
        assert(post.distinct()) by {
            assert forall|i: int, j: int| 0 <= i < j < post.entries.len() implies #[trigger]
                post.entries[i].attr_id != #[trigger] post.entries[j].attr_id by {
                if j == t.entries.len() {
                    if t.entries[i].attr_id == id {
                        assert(t.is_slot(id, i));
                    }
                } else {
                    assert(t.entries[i].attr_id != t.entries[j].attr_id);
                }
            }
        }
        lemma_slot(post, id, t.entries.len() as int);
    }
}

/// A configuration that is refused changes nothing.
pub proof fn law_refused_configuration_changes_nothing(
    t: TableState,
    cap: nat,
    value_bytes: nat,
    request: ReportingRequest,
    list: Seq<AttrInfo>,
)
    requires
        t.configured(cap, value_bytes, request, list).1 != Status::Success,
    ensures
        t.configured(cap, value_bytes, request, list).0 == t,
{
}

/// A configuration without a destination never leads to a report.
pub proof fn law_configured_without_source_is_silent(
    t: TableState,
    cap: nat,
    value_bytes: nat,
    request: ReportingRequest,
    list: Seq<AttrInfo>,
    now_ms: u32,
)
    requires
        t.distinct(),
        request.destination is None,
        t.configured(cap, value_bytes, request, list).1 == Status::Success,
    ensures
        ({
            let post = t.configured(cap, value_bytes, request, list).0;
            post.next_due(now_ms) matches Some(c) ==> c.attr_id != request.attr_id
        }),
{
    let post = t.configured(cap, value_bytes, request, list).0;
    let id = request.attr_id;
    law_next_report_is_due(post, now_ms);
    if let Some(c) = post.next_due(now_ms) {
        let i = choose|i: int| #[trigger] is_due_at(post, now_ms, c, i);
        if c.attr_id == id {
            if request.max_interval == 0xffff {
                if t.has(id) {
                    let s = t.slot(id);
                    assert(t.is_slot(id, s));
                    if i < s {
                        assert(t.entries[i].attr_id != t.entries[s].attr_id);
                    } else {
                        assert(t.entries[s].attr_id != t.entries[i + 1].attr_id);
                    }
                } else {
                    assert(t.is_slot(id, i));
                }
            } else if t.has(id) {
                lemma_with_entry(t, id, crate::reporting::fresh_entry(request));
                lemma_slot(post, id, i);
            } else if i < t.entries.len() {
                assert(t.is_slot(id, i));
            }
        }
    }
}

/// `bytes` are `x` in an integer data type with code `code`: unsigned for 0x20 to 0x27,
/// and in two's complement for 0x28 to 0x2f.
pub open spec fn encodes(code: u8, bytes: Seq<u8>, x: int) -> bool {
    let range = Le::pow256(bytes.len());
    &&& bytes.len() > 0
    &&& 0x20 <= code <= 0x27 ==> x == Le::value(bytes)
    &&& 0x28 <= code <= 0x2f ==> -range <= 2 * x < range && (x == Le::value(bytes) || x + range
        == Le::value(bytes))
}

proof fn lemma_encodes(type_id: TypeId, bytes: Seq<u8>, x: int)
    requires
        0x20 <= type_id.code() <= 0x2f,
        encodes(type_id.code(), bytes, x),
    ensures
        number(type_id, bytes) == x,
{
    crate::bytes::lemma_le_value_bound(bytes);
}

/// An update of an integer is skipped exactly where the value moved by less than the
/// reportable change, up or down, since the last report. An update that is not skipped
/// is reported; one that is skipped is no longer pending, and nothing is sent.
pub proof fn law_small_changes_are_skipped(
    t: TableState,
    c: ReportCandidate,
    type_id: TypeId,
    last: Seq<u8>,
    current: Seq<u8>,
    v: int,
    w: int,
    out: Seq<u8>,
    cap: nat,
)
    requires
        t.distinct(),
        t.has(c.attr_id),
        t.entry(c.attr_id).attr_id == c.attr_id,
        c.token.0 == c.attr_id.0,
        c.due == ReportDue::Change,
        0x20 <= type_id.code() <= 0x2f,
        t.entry(c.attr_id).change.len() > 0,
        t.entry(c.attr_id).last_value == Some(last),
        encodes(type_id.code(), last, v),
        encodes(type_id.code(), current, w),
        out.len() + 3 + current.len() <= cap,
    ensures
        ({
            let change = Le::value(t.entry(c.attr_id).change);
            let (post, sent, r) = t.emitted(c, type_id, current, out, cap);
            &&& v - change < w < v + change ==> sent == out && r == Ok::<
                Option<ClusterReportReady>,
                ZclError,
            >(None) && post.has(c.attr_id) && !post.entry(c.attr_id).pending
            &&& w <= v - change || w >= v + change ==> sent.len() == out.len() + 3 + current.len()
                && sent.take(out.len() as int) == out && sent.skip(out.len() as int + 3) == current && (
            r matches Ok(Some(ready)) && ready.destination == c.destination && ready.token
                == c.token)
        }),
{
    lemma_encodes(type_id, last, v);
    lemma_encodes(type_id, current, w);
    let (post, sent, r) = t.emitted(c, type_id, current, out, cap);
    assert(AttributeId(c.token.0) == c.attr_id);
    lemma_with_entry(t, c.attr_id, EntryState { pending: false, ..t.entry(c.attr_id) });
    let record = TableState::record_bytes(c.attr_id, type_id, current);
    assert((out + record).take(out.len() as int) =~= out);
    assert((out + record).skip(out.len() as int + 3) =~= current);
}

/// Whether an update is skipped does not depend on which of two values came first.
pub proof fn law_skipping_is_symmetric(
    e: EntryState,
    f: EntryState,
    type_id: TypeId,
    a: Seq<u8>,
    b: Seq<u8>,
)
    requires
        e.change == f.change,
        e.last_value == Some(a),
        f.last_value == Some(b),
    ensures
        e.below_threshold(type_id, b) == f.below_threshold(type_id, a),
{
}

/// An update is never skipped where its data type is no integer, no reportable change was
/// set, nothing was reported before, or the maximum interval has passed.
pub proof fn law_other_updates_are_reported(
    t: TableState,
    c: ReportCandidate,
    type_id: TypeId,
    current: Seq<u8>,
    out: Seq<u8>,
    cap: nat,
)
    requires
        t.has(c.attr_id),
        c.due == ReportDue::Interval || type_id.code() < 0x20 || type_id.code() > 0x2f || t.entry(
            c.attr_id,
        ).change.len() == 0 || t.entry(c.attr_id).last_value is None,
    ensures
        ({
            let (post, sent, r) = t.emitted(c, type_id, current, out, cap);
            &&& out.len() + 3 + current.len() <= cap ==> r is Ok && r->Ok_0 is Some && sent
                == out + seq![
                (c.attr_id.0 % 256) as u8,
                (c.attr_id.0 / 256) as u8,
                type_id.code(),
            ] + current
            &&& out.len() + 3 + current.len() > cap ==> sent == out && r == Err::<
                Option<ClusterReportReady>,
                ZclError,
            >(ZclError::BufferTooSmall) && post.entries == t.entries
                && post.diagnostics.buffer_too_small
        }),
{
    let (post, sent, r) = t.emitted(c, type_id, current, out, cap);
    if out.len() + 3 + current.len() <= cap {
        assert(sent =~= out + seq![
            (c.attr_id.0 % 256) as u8,
            (c.attr_id.0 / 256) as u8,
            type_id.code(),
        ] + current);
    }
}

/// A report with a destination is due once the maximum interval has passed since the
/// last one, where there is a maximum, and for a pending update once the minimum interval
/// has. Intervals are in seconds. Nothing else makes a report due.
pub proof fn law_when_a_report_is_due(e: EntryState, now_ms: u32, since: int)
    requires
        // milliseconds since the last report, on a clock that wraps
        0 <= since <= u32::MAX,
        (e.last_report_ms + since - now_ms) % 0x1_0000_0000 == 0,
    ensures
        e.due(now_ms) == Some(ReportDue::Interval) <==> e.destination is Some && e.max_interval > 0
            && since >= 1000 * e.max_interval,
        e.due(now_ms) == Some(ReportDue::Change) <==> e.destination is Some && e.pending && since
            >= 1000 * e.min_interval && (e.max_interval == 0 || since < 1000 * e.max_interval),
{
    assert(since == now_ms.wrapping_sub(e.last_report_ms));
}

/// What is collected is the report of the first entry that is due: its attribute, the
/// data type and value that the attribute then reads as, to the entry's destination. The
/// value is held until the report's outcome is known.
pub proof fn law_collected_report_carries_the_value(
    t: TableState,
    now_ms: u32,
    read: spec_fn(AttributeId) -> ReadSpec,
    out: Seq<u8>,
    cap: nat,
    i: int,
)
    requires
        t.distinct(),
        0 <= i < t.entries.len(),
        t.entries[i].due(now_ms) is Some,
        t.entries[i].destination is Some,
        forall|k: int| 0 <= k < i ==> (#[trigger] t.entries[k]).due(now_ms) is None,
        read(t.entries[i].attr_id) is Ok,
        t.entries[i].due(now_ms) == Some(ReportDue::Interval) || t.entries[i].change.len() == 0,
        out.len() + 3 + read(t.entries[i].attr_id)->Ok_0.1.len() <= cap,
    ensures
        ({
            let e = t.entries[i];
            let (type_id, value) = read(e.attr_id)->Ok_0;
            let (post, sent, r) = t.collected(now_ms, read, out, cap);
            &&& sent == out + seq![
                (e.attr_id.0 % 256) as u8,
                (e.attr_id.0 / 256) as u8,
                type_id.code(),
            ] + value
            &&& r matches Ok(Some(ready)) && Some(ready.destination) == e.destination
                && ready.token.0 == e.attr_id.0
            &&& post.entries == t.entries.update(i, EntryState { in_flight: Some(value), ..e })
            &&& post.diagnostics == t.diagnostics
        }),
{
    let e = t.entries[i];
    lemma_due_at(t, now_ms, 0, i);
    assert(t.is_slot(e.attr_id, i));
    lemma_slot(t, e.attr_id, i);
    let c = t.next_due(now_ms)->0;
    assert(AttributeId(c.token.0) == e.attr_id);
    law_other_updates_are_reported(
        t,
        c,
        read(e.attr_id)->Ok_0.0,
        read(e.attr_id)->Ok_0.1,
        out,
        cap,
    );
}

proof fn lemma_due_at(t: TableState, now_ms: u32, from: nat, i: int)
    requires
        from <= i < t.entries.len(),
        t.entries[i].due(now_ms) is Some,
        t.entries[i].destination is Some,
        forall|k: int| 0 <= k < i ==> (#[trigger] t.entries[k]).due(now_ms) is None,
    ensures
        t.first_due(now_ms, from) == Some(
            ReportCandidate {
                attr_id: t.entries[i].attr_id,
                token: ReportToken(t.entries[i].attr_id.0),
                destination: t.entries[i].destination->0,
                due: t.entries[i].due(now_ms)->0,
            },
        ),
    decreases i - from,
{
    if from < i {
        assert(t.entries[from as int].due(now_ms) is None);
        lemma_due_at(t, now_ms, from + 1, i);
    }
}

/// Nothing is collected where nothing is due, or the attribute cannot be read.
pub proof fn law_nothing_due_nothing_collected(
    t: TableState,
    now_ms: u32,
    read: spec_fn(AttributeId) -> ReadSpec,
    out: Seq<u8>,
    cap: nat,
)
    requires
        forall|k: int|
            0 <= k < t.entries.len() ==> (#[trigger] t.entries[k]).due(now_ms) is None
                || t.entries[k].destination is None,
    ensures
        t.collected(now_ms, read, out, cap) == (
            t,
            out,
            Ok::<Option<ClusterReportReady>, ZclError>(None),
        ),
{
    law_next_report_is_due(t, now_ms);
    if let Some(c) = t.next_due(now_ms) {
        let i = choose|i: int| #[trigger] is_due_at(t, now_ms, c, i);
        assert(t.entries[i].due(now_ms) is Some);
    }
}

/// A report that was sent leaves its value as the last one reported, from which the next
/// change is measured; one that was lost, or put off, leaves the last value as it was. One
/// that was lost is counted. Other entries stay.
pub proof fn law_outcome_of_a_report(
    t: TableState,
    attr_id: AttributeId,
    result: ReportDeliveryResult,
    now_ms: u32,
    i: int,
)
    requires
        t.distinct(),
        t.is_slot(attr_id, i),
    ensures
        ({
            let e = t.entries[i];
            let post = t.completed(ReportToken(attr_id.0), result, now_ms);
            let f = post.entries[i];
            &&& f == (EntryState {
                pending: f.pending,
                last_report_ms: f.last_report_ms,
                last_value: f.last_value,
                in_flight: None,
                ..e
            })
            &&& result == ReportDeliveryResult::Sent ==> !f.pending && f.last_report_ms == now_ms
                && f.last_value == (if e.in_flight is Some {
                e.in_flight
            } else {
                e.last_value
            }) && post.diagnostics == t.diagnostics
            &&& result == ReportDeliveryResult::Failed ==> !f.pending && f.last_report_ms == now_ms
                && f.last_value == e.last_value && (t.diagnostics.dropped_reports < 65535
                ==> post.diagnostics.dropped_reports == t.diagnostics.dropped_reports + 1)
                && post.diagnostics.coalesced_updates == t.diagnostics.coalesced_updates
            &&& result == ReportDeliveryResult::Deferred ==> f.pending == e.pending
                && f.last_report_ms == e.last_report_ms && f.last_value == e.last_value
                && post.diagnostics == t.diagnostics
        }),
{
    lemma_slot(t, attr_id, i);
    assert(AttributeId(ReportToken(attr_id.0).0) == attr_id);
}

/// An update makes a report of that attribute pending, and of no other. One that joins a
/// pending report is counted.
pub proof fn law_update_is_pending(t: TableState, attr_id: AttributeId, i: int)
    requires
        t.distinct(),
        t.is_slot(attr_id, i),
    ensures
        ({
            let e = t.entries[i];
            let post = t.noted(attr_id);
            &&& post.entries == t.entries.update(i, EntryState { pending: true, ..e })
            &&& !e.pending ==> post.diagnostics == t.diagnostics
            &&& e.pending && t.diagnostics.coalesced_updates < 65535
                ==> post.diagnostics.coalesced_updates == t.diagnostics.coalesced_updates + 1
            &&& post.diagnostics.dropped_reports == t.diagnostics.dropped_reports
            &&& post.diagnostics.buffer_too_small == t.diagnostics.buffer_too_small
        }),
{
    lemma_slot(t, attr_id, i);
    if t.entries[i].pending {
        assert(t.entries =~= t.entries.update(i, EntryState { pending: true, ..t.entries[i] }));
    }
}

/// The entry of an attribute whose value changed is pending, and every other entry is as it
/// was.
pub proof fn law_only_the_update_becomes_pending(t: TableState, attr_id: AttributeId, k: int)
    requires
        t.distinct(),
        0 <= k < t.entries.len(),
    ensures
        ({
            let post = t.noted(attr_id);
            &&& post.entries.len() == t.entries.len()
            &&& t.entries[k].attr_id == attr_id ==> post.entries[k] == (EntryState {
                pending: true,
                ..t.entries[k]
            })
            &&& t.entries[k].attr_id != attr_id ==> post.entries[k] == t.entries[k]
        }),
{
    if t.has(attr_id) {
        let i = t.slot(attr_id);
        assert(t.is_slot(attr_id, i));
        law_update_is_pending(t, attr_id, i);
        if t.entries[k].attr_id == attr_id {
            assert(t.is_slot(attr_id, k));
            lemma_slot(t, attr_id, k);
        }
    } else {
        assert(!t.is_slot(attr_id, k));
    }
}

/// A configuration is accepted exactly where the attribute is a reportable one of the
/// cluster and of the given data type, the reportable change fits, the minimum interval is
/// not above a maximum that there is, and the table has an entry for the attribute or room
/// for one. A maximum of 0xffff ends reporting, and is not held against the minimum.
pub proof fn law_which_configurations_are_accepted(
    t: TableState,
    cap: nat,
    value_bytes: nat,
    request: ReportingRequest,
    list: Seq<AttrInfo>,
    i: int,
)
    requires
        AttrInfo::sorted(list),
        t.distinct(),
        0 <= i < list.len(),
        list[i].id == request.attr_id,
    ensures
        ({
            let (post, status) = t.configured(cap, value_bytes, request, list);
            let fits = list[i].access.reportable && list[i].type_id.code() == request.attr_type
                && request.change.len() <= value_bytes;
            let ends = request.max_interval == 0xffff;
            let known = exists|k: int| #[trigger] t.is_slot(request.attr_id, k);
            &&& status == Status::Success <==> fits && (ends || ((request.max_interval == 0
                || request.min_interval <= request.max_interval) && (known || t.entries.len()
                < cap)))
            &&& !list[i].access.reportable ==> status == Status::UnreportableAttribute
            &&& list[i].access.reportable && list[i].type_id.code() != request.attr_type ==> status
                == Status::InvalidDataType
            &&& fits && !ends && 0 < request.max_interval < request.min_interval ==> status
                == Status::InvalidValue
        }),
{
    assert(is_info_at(list, request.attr_id, i));
    let k = choose|k: int| is_info_at(list, request.attr_id, k);
    assert(is_info_at(list, request.attr_id, k));
    if k < i {
        assert(list[k].id.0 < list[i].id.0);
    } else if i < k {
        assert(list[i].id.0 < list[k].id.0);
    }
}

/// An attribute that the cluster does not have cannot be reported.
pub proof fn law_unknown_attributes_are_not_reported(
    t: TableState,
    cap: nat,
    value_bytes: nat,
    request: ReportingRequest,
    list: Seq<AttrInfo>,
)
    requires
        forall|i: int| 0 <= i < list.len() ==> (#[trigger] list[i]).id != request.attr_id,
    ensures
        t.configured(cap, value_bytes, request, list) == (t, Status::UnsupportedAttribute),
{
    if find_info(list, request.attr_id) is Some {
        let i = choose|i: int| is_info_at(list, request.attr_id, i);
        assert(list[i].id != request.attr_id);
    }
}

/// An accepted configuration starts its intervals at the time of the request, with nothing
/// pending and nothing reported: the first report without an update comes after the maximum
/// interval. The entries of other attributes stay.
pub proof fn law_accepted_configuration_starts_afresh(
    t: TableState,
    cap: nat,
    value_bytes: nat,
    request: ReportingRequest,
    list: Seq<AttrInfo>,
)
    requires
        t.distinct(),
        request.max_interval != 0xffff,
        t.configured(cap, value_bytes, request, list).1 == Status::Success,
    ensures
        ({
            let post = t.configured(cap, value_bytes, request, list).0;
            &&& post.has(request.attr_id)
            &&& post.entry(request.attr_id) == (EntryState {
                attr_id: request.attr_id,
                attr_type: request.attr_type,
                min_interval: request.min_interval,
                max_interval: request.max_interval,
                change: request.change,
                destination: request.destination,
                last_report_ms: request.now_ms,
                pending: false,
                last_value: None,
                in_flight: None,
            })
            &&& post.entries.len() <= t.entries.len() + 1
            &&& forall|k: int|
                0 <= k < t.entries.len() && (#[trigger] t.entries[k]).attr_id != request.attr_id
                    ==> post.entries[k] == t.entries[k]
        }),
{
    let post = t.configured(cap, value_bytes, request, list).0;
    let id = request.attr_id;
    let fresh = crate::reporting::fresh_entry(request);
    if t.has(id) {
        assert(t.is_slot(id, t.slot(id)));
        lemma_with_entry(t, id, fresh);
    } else {
        assert(post.is_slot(id, t.entries.len() as int));
        let k = post.slot(id);
        assert(post.is_slot(id, k));
        if k < t.entries.len() {
            assert(t.is_slot(id, k));
        }
    }
}

} // verus!
