//! How the cluster servers report: what each configures, sends, settles and counts.

use vstd::prelude::*;

use crate::cluster_server::ClusterServer;
use crate::common::power_config::PowerConfigServer;
use crate::common::power_config::PowerState;
use crate::context::ClusterReportReady;
use crate::context::DispatchContext;
use crate::context::ReportDeliveryResult;
use crate::context::ReportToken;
use crate::context::ReportingDiagnostics;
use crate::dispatch::Dispatch;
use crate::frame::Status;
use crate::hvac::thermostat::ThermostatServer;
use crate::hvac::thermostat::ThermostatState;
use crate::lighting::color_control::ColorControlServer;
use crate::lighting::color_control::ColorState;
use crate::lighting::level_control::LevelControlServer;
use crate::lighting::level_control::LevelState;
use crate::lighting::on_off::OnOffServer;
use crate::lighting::on_off::OnOffState;
use crate::measurement::electrical::ElectricalMeasurementServer;
use crate::measurement::electrical::ElectricalState;
use crate::measurement::illuminance::IlluminanceMeasurementServer;
use crate::measurement::illuminance::IlluminanceState;
use crate::measurement::occupancy::OccupancySensingServer;
use crate::measurement::occupancy::OccupancyState;
use crate::measurement::server::MeasurementServer;
use crate::measurement::server::MeasurementState;
use crate::reporting::EntryState;
use crate::reporting::LatestReportingTable;
use crate::reporting::ReportDue;
use crate::reporting::TableState;
use crate::types::codec::ReadSpec;
use crate::types::descriptors::AttrInfo;
use crate::types::error::ZclError;
use crate::types::ids::AttributeId;

verus! {

/// Where entry `i` is the first one due, with an interval that is over or no reportable
/// change to wait for, its report is appended: the attribute, its data type and the value
/// that it reads as. The report goes to the entry's destination, and its value is held
/// until the outcome is known.
pub open spec fn sends_due(
    t: TableState,
    i: int,
    now_ms: u32,
    value: ReadSpec,
    out: Seq<u8>,
    cap: nat,
    post: TableState,
    sent: Seq<u8>,
    r: Result<Option<ClusterReportReady>, ZclError>,
) -> bool {
    let e = t.entries[i];
    let first = 0 <= i < t.entries.len() && e.due(now_ms) is Some && e.destination is Some
        && forall|k: int| 0 <= k < i ==> (#[trigger] t.entries[k]).due(now_ms) is None;
    first && value is Ok && (e.due(now_ms) == Some(ReportDue::Interval) || e.change.len() == 0)
        && out.len() + 3 + value->Ok_0.1.len() <= cap ==> {
        &&& sent == out + seq![
            (e.attr_id.0 % 256) as u8,
            (e.attr_id.0 / 256) as u8,
            value->Ok_0.0.code(),
        ] + value->Ok_0.1
        &&& r matches Ok(Some(ready)) && Some(ready.destination) == e.destination && ready.token.0
            == e.attr_id.0
        &&& post.entries == t.entries.update(
            i,
            EntryState { in_flight: Some(value->Ok_0.1), ..e },
        )
        &&& post.diagnostics == t.diagnostics
    }
}

/// Where nothing is due, nothing is sent and nothing changes.
pub open spec fn sends_nothing(
    t: TableState,
    now_ms: u32,
    out: Seq<u8>,
    post: TableState,
    sent: Seq<u8>,
    r: Result<Option<ClusterReportReady>, ZclError>,
) -> bool {
    (forall|k: int| 0 <= k < t.entries.len() ==> (#[trigger] t.entries[k]).due(now_ms) is None)
        ==> post == t && sent == out && r == Ok::<Option<ClusterReportReady>, ZclError>(None)
}

/// The outcome of a report is settled in its entry `i`: a value that was sent is the last
/// one reported; one that was lost is counted; one that was put off stays to be sent.
pub open spec fn settles(
    t: TableState,
    i: int,
    result: ReportDeliveryResult,
    now_ms: u32,
    post: TableState,
) -> bool {
    let e = t.entries[i];
    let f = post.entries[i];
    &&& f.in_flight is None
    &&& f.attr_id == e.attr_id
    &&& f.destination == e.destination
    &&& result == ReportDeliveryResult::Sent ==> !f.pending && f.last_report_ms == now_ms && (
    e.in_flight is Some ==> f.last_value == e.in_flight) && post.diagnostics == t.diagnostics
    &&& result == ReportDeliveryResult::Failed ==> !f.pending && f.last_report_ms == now_ms
        && f.last_value == e.last_value && (t.diagnostics.dropped_reports < 65535
        ==> post.diagnostics.dropped_reports == t.diagnostics.dropped_reports + 1)
    &&& result == ReportDeliveryResult::Deferred ==> f.pending == e.pending && f.last_report_ms
        == e.last_report_ms && f.last_value == e.last_value && post.diagnostics == t.diagnostics
}

/// The diagnostics are handed out and start again from nothing; the entries stay.
pub open spec fn drains(t: TableState, post: TableState, r: ReportingDiagnostics) -> bool {
    &&& r == t.diagnostics
    &&& post.entries == t.entries
    &&& post.diagnostics.coalesced_updates == 0
    &&& post.diagnostics.dropped_reports == 0
    &&& !post.diagnostics.buffer_too_small
}

/// The bytes of a record that configures the sending of reports.
pub open spec fn send_record(
    attr: (u8, u8),
    code: u8,
    min: (u8, u8),
    max: (u8, u8),
    change: Seq<u8>,
) -> Seq<u8> {
    seq![0u8, attr.0, attr.1, code, min.0, min.1, max.0, max.1] + change
}

/// A record was accepted exactly if it is of an attribute and a data type that are
/// reportable here, and either ends reporting, or has a minimum that is not above a
/// maximum that there is, while the table of `n` entries has one for the attribute or room
/// for one.
pub open spec fn accepts(
    t: TableState,
    n: int,
    attr: (u8, u8),
    reportable: bool,
    min: (u8, u8),
    max: (u8, u8),
    status: Status,
) -> bool {
    let lowest = min.0 + 256 * min.1;
    let highest = max.0 + 256 * max.1;
    let known = exists|k: int|
        #[trigger] t.is_slot(AttributeId((attr.0 + 256 * attr.1) as u16), k);
    status == Status::Success <==> reportable && (highest == 0xffff || ((highest == 0 || lowest
        <= highest) && (known || t.entries.len() < n)))
}

/// The answer to a question about what such a record configured.
pub open spec fn told_back(
    attr: (u8, u8),
    code: u8,
    min: (u8, u8),
    max: (u8, u8),
    change: Seq<u8>,
) -> Seq<u8> {
    seq![0u8, 0u8, attr.0, attr.1, code, min.0, min.1, max.0, max.1] + change
}

proof fn lemma_settles(
    t: TableState,
    i: int,
    token: ReportToken,
    result: ReportDeliveryResult,
    now_ms: u32,
)
    requires
        t.distinct(),
        0 <= i < t.entries.len(),
        t.entries[i].attr_id.0 == token.0,
    ensures
        settles(t, i, result, now_ms, t.completed(token, result, now_ms)),
{
    assert(t.is_slot(t.entries[i].attr_id, i));
    crate::reporting_laws::law_outcome_of_a_report(
        t,
        t.entries[i].attr_id,
        result,
        now_ms,
        i,
    );
}

proof fn lemma_sends(
    t: TableState,
    i: int,
    now_ms: u32,
    read: spec_fn(AttributeId) -> ReadSpec,
    out: Seq<u8>,
    cap: nat,
)
    requires
        t.distinct(),
        0 <= i < t.entries.len(),
    ensures
        ({
            let (post, sent, r) = t.collected(now_ms, read, out, cap);
            &&& sends_due(t, i, now_ms, read(t.entries[i].attr_id), out, cap, post, sent, r)
            &&& sends_nothing(t, now_ms, out, post, sent, r)
        }),
{
    let e = t.entries[i];
    let value = read(e.attr_id);
    if e.due(now_ms) is Some && e.destination is Some && (forall|k: int|
        0 <= k < i ==> (#[trigger] t.entries[k]).due(now_ms) is None) && value is Ok && (e.due(
        now_ms,
    ) == Some(ReportDue::Interval) || e.change.len() == 0) && out.len() + 3
        + value->Ok_0.1.len() <= cap {
        crate::reporting_laws::law_collected_report_carries_the_value(t, now_ms, read, out, cap, i);
    }
    if forall|k: int| 0 <= k < t.entries.len() ==> (#[trigger] t.entries[k]).due(now_ms) is None {
        crate::reporting_laws::law_nothing_due_nothing_collected(t, now_ms, read, out, cap);
    }
}

/// A record's status, for a list with the attribute at `i` if it has it.
proof fn lemma_accepts<const N: usize, const VALUE_BYTES: usize>(
    t: TableState,
    list: Seq<AttrInfo>,
    attr: (u8, u8),
    code: u8,
    min: (u8, u8),
    max: (u8, u8),
    change: Seq<u8>,
    ctx: DispatchContext,
    room: nat,
)
    requires
        t.distinct(),
        AttrInfo::sorted(list),
        change.len() == crate::wire_laws::change_width(code),
        9 + change.len() <= room,
    ensures
        ({
            let id = AttributeId((attr.0 + 256 * attr.1) as u16);
            let (post, status) = LatestReportingTable::<N, VALUE_BYTES>::configured_by(
                t,
                Dispatch::record_at(send_record(attr, code, min, max, change)),
                ctx,
                list,
            );
            &&& (exists|i: int|
                0 <= i < list.len() && (#[trigger] list[i]).id == id) ==> exists|i: int|
                0 <= i < list.len() && (#[trigger] list[i]).id == id && accepts(
                    t,
                    N as int,
                    attr,
                    list[i].access.reportable && list[i].type_id.code() == code && change.len()
                        <= VALUE_BYTES,
                    min,
                    max,
                    status,
                )
            &&& (forall|i: int| 0 <= i < list.len() ==> (#[trigger] list[i]).id != id) ==> status
                == Status::UnsupportedAttribute
            &&& status == Status::Success && max.0 + 256 * max.1 != 0xffff ==> post.answer(
                id,
                0,
                room,
            ) == told_back(attr, code, min, max, change)
        }),
{
    let data = send_record(attr, code, min, max, change);
    let id = AttributeId((attr.0 + 256 * attr.1) as u16);
    crate::wire_laws::law_send_record_is_read_field_by_field(
        0,
        attr.0,
        attr.1,
        code,
        min.0,
        min.1,
        max.0,
        max.1,
        change,
        Seq::empty(),
        Seq::empty(),
    );
    assert(data =~= data + Seq::<u8>::empty());
    let request = LatestReportingTable::<N, VALUE_BYTES>::request_of(
        Dispatch::record_at(data),
        ctx,
    );
    if exists|i: int| 0 <= i < list.len() && (#[trigger] list[i]).id == id {
        let i = choose|i: int| 0 <= i < list.len() && (#[trigger] list[i]).id == id;
        crate::reporting_laws::law_which_configurations_are_accepted(
            t,
            N as nat,
            VALUE_BYTES as nat,
            request,
            list,
            i,
        );
    } else {
        crate::reporting_laws::law_unknown_attributes_are_not_reported(
            t,
            N as nat,
            VALUE_BYTES as nat,
            request,
            list,
        );
    }
    let status = t.configured(N as nat, VALUE_BYTES as nat, request, list).1;
    if status == Status::Success && max.0 + 256 * max.1 != 0xffff {
        crate::wire_laws::law_configuration_reads_back::<N, VALUE_BYTES>(
            t,
            attr.0,
            attr.1,
            code,
            min.0,
            min.1,
            max.0,
            max.1,
            change,
            Seq::empty(),
            ctx,
            list,
            room,
        );
    }
}

/// What an on/off server reports is the switch, as it reads when the report is due; a report changes
/// nothing but the table.
pub proof fn law_on_off_reports(
    pre: OnOffServer,
    now_ms: u32,
    out: Seq<u8>,
    cap: nat,
    post: OnOffServer,
    sent: Seq<u8>,
    r: Result<Option<ClusterReportReady>, ZclError>,
    i: int,
)
    requires
        pre@.reporting.distinct(),
        0 <= i < pre@.reporting.entries.len(),
        pre@.reporting.entries[i].attr_id.0 == 0x0000,
        OnOffServer::collected(pre, now_ms, out, cap, post, sent, r),
    ensures
        sends_due(
            pre@.reporting,
            i,
            now_ms,
            pre.attr(pre@.reporting.entries[i].attr_id, 8),
            out,
            cap,
            post@.reporting,
            sent,
            r,
        ),
        sends_nothing(pre@.reporting, now_ms, out, post@.reporting, sent, r),
        post@ == (OnOffState { reporting: post@.reporting, ..pre@ }),
{
    let read = |id: AttributeId| pre.attr(id, 1);
    lemma_sends(pre@.reporting, i, now_ms, read, out, cap);
    assert(read(pre@.reporting.entries[i].attr_id) == pre.attr(
        pre@.reporting.entries[i].attr_id,
        8,
    ));
}

/// An on/off server settles the outcome of its reports, and hands out its diagnostics once.
pub proof fn law_on_off_settles(
    pre: OnOffServer,
    token: ReportToken,
    result: ReportDeliveryResult,
    now_ms: u32,
    post: OnOffServer,
    i: int,
    drained: OnOffServer,
    d: ReportingDiagnostics,
)
    requires
        pre@.reporting.distinct(),
        0 <= i < pre@.reporting.entries.len(),
        pre@.reporting.entries[i].attr_id.0 == token.0,
        OnOffServer::delivered(pre, token, result, now_ms, post),
        OnOffServer::diagnosed(pre, drained, d),
    ensures
        settles(pre@.reporting, i, result, now_ms, post@.reporting),
        post@ == (OnOffState { reporting: post@.reporting, ..pre@ }),
        drains(pre@.reporting, drained@.reporting, d),
        drained@ == (OnOffState { reporting: drained@.reporting, ..pre@ }),
{
    lemma_settles(pre@.reporting, i, token, result, now_ms);
}

/// Of an on/off server the reporting of the switch can be configured, and is told back as it was
/// configured.
pub proof fn law_on_off_configures(
    pre: OnOffServer,
    attr: (u8, u8),
    code: u8,
    min: (u8, u8),
    max: (u8, u8),
    change: Seq<u8>,
    ctx: DispatchContext,
    post: OnOffServer,
    status: Status,
    room: nat,
)
    requires
        pre@.reporting.distinct(),
        change.len() == crate::wire_laws::change_width(code),
        9 + change.len() <= room,
        OnOffServer::reporting_set(
            pre,
            Dispatch::record_at(send_record(attr, code, min, max, change)),
            ctx,
            post,
            status,
        ),
    ensures
        accepts(
            pre@.reporting,
            1,
            attr,
            attr.0 + 256 * attr.1 == 0x0000 && code == 0x10,
            min,
            max,
            status,
        ),
        status == Status::Success && max.0 + 256 * max.1 != 0xffff ==> post.reporting_answer(
            AttributeId((attr.0 + 256 * attr.1) as u16),
            0,
            room,
        ) == told_back(attr, code, min, max, change),
        post@ == (OnOffState { reporting: post@.reporting, ..pre@ }),
{
    let list = OnOffServer::attribute_infos();
    lemma_accepts::<1, 1>(
        pre@.reporting,
        list,
        attr,
        code,
        min,
        max,
        change,
        ctx,
        room,
    );
}

/// What a level server reports is the level, as it reads when the report is due; a report changes
/// nothing but the table.
pub proof fn law_level_reports(
    pre: LevelControlServer,
    now_ms: u32,
    out: Seq<u8>,
    cap: nat,
    post: LevelControlServer,
    sent: Seq<u8>,
    r: Result<Option<ClusterReportReady>, ZclError>,
    i: int,
)
    requires
        pre@.reporting.distinct(),
        0 <= i < pre@.reporting.entries.len(),
        pre@.reporting.entries[i].attr_id.0 == 0x0000,
        LevelControlServer::collected(pre, now_ms, out, cap, post, sent, r),
    ensures
        sends_due(
            pre@.reporting,
            i,
            now_ms,
            pre.attr(pre@.reporting.entries[i].attr_id, 8),
            out,
            cap,
            post@.reporting,
            sent,
            r,
        ),
        sends_nothing(pre@.reporting, now_ms, out, post@.reporting, sent, r),
        post@ == (LevelState { reporting: post@.reporting, ..pre@ }),
{
    let read = |id: AttributeId| pre.attr(id, 4);
    lemma_sends(pre@.reporting, i, now_ms, read, out, cap);
    assert(read(pre@.reporting.entries[i].attr_id) == pre.attr(
        pre@.reporting.entries[i].attr_id,
        8,
    ));
}

/// A level server settles the outcome of its reports, and hands out its diagnostics once.
pub proof fn law_level_settles(
    pre: LevelControlServer,
    token: ReportToken,
    result: ReportDeliveryResult,
    now_ms: u32,
    post: LevelControlServer,
    i: int,
    drained: LevelControlServer,
    d: ReportingDiagnostics,
)
    requires
        pre@.reporting.distinct(),
        0 <= i < pre@.reporting.entries.len(),
        pre@.reporting.entries[i].attr_id.0 == token.0,
        LevelControlServer::delivered(pre, token, result, now_ms, post),
        LevelControlServer::diagnosed(pre, drained, d),
    ensures
        settles(pre@.reporting, i, result, now_ms, post@.reporting),
        post@ == (LevelState { reporting: post@.reporting, ..pre@ }),
        drains(pre@.reporting, drained@.reporting, d),
        drained@ == (LevelState { reporting: drained@.reporting, ..pre@ }),
{
    lemma_settles(pre@.reporting, i, token, result, now_ms);
}

/// Of a level server the reporting of the level can be configured, and is told back as it was
/// configured.
pub proof fn law_level_configures(
    pre: LevelControlServer,
    attr: (u8, u8),
    code: u8,
    min: (u8, u8),
    max: (u8, u8),
    change: Seq<u8>,
    ctx: DispatchContext,
    post: LevelControlServer,
    status: Status,
    room: nat,
)
    requires
        pre@.reporting.distinct(),
        change.len() == crate::wire_laws::change_width(code),
        9 + change.len() <= room,
        LevelControlServer::reporting_set(
            pre,
            Dispatch::record_at(send_record(attr, code, min, max, change)),
            ctx,
            post,
            status,
        ),
    ensures
        accepts(
            pre@.reporting,
            1,
            attr,
            attr.0 + 256 * attr.1 == 0x0000 && code == 0x20,
            min,
            max,
            status,
        ),
        status == Status::Success && max.0 + 256 * max.1 != 0xffff ==> post.reporting_answer(
            AttributeId((attr.0 + 256 * attr.1) as u16),
            0,
            room,
        ) == told_back(attr, code, min, max, change),
        post@ == (LevelState { reporting: post@.reporting, ..pre@ }),
{
    let list = LevelControlServer::attribute_infos();
    lemma_accepts::<1, 4>(
        pre@.reporting,
        list,
        attr,
        code,
        min,
        max,
        change,
        ctx,
        room,
    );
}

/// What a colour server reports is hue and saturation, as it reads when the report is due; a report changes
/// nothing but the table.
pub proof fn law_color_reports(
    pre: ColorControlServer,
    now_ms: u32,
    out: Seq<u8>,
    cap: nat,
    post: ColorControlServer,
    sent: Seq<u8>,
    r: Result<Option<ClusterReportReady>, ZclError>,
    i: int,
)
    requires
        pre@.reporting.distinct(),
        0 <= i < pre@.reporting.entries.len(),
        pre@.reporting.entries[i].attr_id.0 == 0x0000 || pre@.reporting.entries[i].attr_id.0 == 0x0001,
        ColorControlServer::collected(pre, now_ms, out, cap, post, sent, r),
    ensures
        sends_due(
            pre@.reporting,
            i,
            now_ms,
            pre.attr(pre@.reporting.entries[i].attr_id, 8),
            out,
            cap,
            post@.reporting,
            sent,
            r,
        ),
        sends_nothing(pre@.reporting, now_ms, out, post@.reporting, sent, r),
        post@ == (ColorState { reporting: post@.reporting, ..pre@ }),
{
    let read = |id: AttributeId| pre.attr(id, 1);
    lemma_sends(pre@.reporting, i, now_ms, read, out, cap);
    assert(read(pre@.reporting.entries[i].attr_id) == pre.attr(
        pre@.reporting.entries[i].attr_id,
        8,
    ));
}

/// A colour server settles the outcome of its reports, and hands out its diagnostics once.
pub proof fn law_color_settles(
    pre: ColorControlServer,
    token: ReportToken,
    result: ReportDeliveryResult,
    now_ms: u32,
    post: ColorControlServer,
    i: int,
    drained: ColorControlServer,
    d: ReportingDiagnostics,
)
    requires
        pre@.reporting.distinct(),
        0 <= i < pre@.reporting.entries.len(),
        pre@.reporting.entries[i].attr_id.0 == token.0,
        ColorControlServer::delivered(pre, token, result, now_ms, post),
        ColorControlServer::diagnosed(pre, drained, d),
    ensures
        settles(pre@.reporting, i, result, now_ms, post@.reporting),
        post@ == (ColorState { reporting: post@.reporting, ..pre@ }),
        drains(pre@.reporting, drained@.reporting, d),
        drained@ == (ColorState { reporting: drained@.reporting, ..pre@ }),
{
    lemma_settles(pre@.reporting, i, token, result, now_ms);
}

/// Of a colour server the reporting of hue and saturation can be configured, and is told back as it was
/// configured.
pub proof fn law_color_configures(
    pre: ColorControlServer,
    attr: (u8, u8),
    code: u8,
    min: (u8, u8),
    max: (u8, u8),
    change: Seq<u8>,
    ctx: DispatchContext,
    post: ColorControlServer,
    status: Status,
    room: nat,
)
    requires
        pre@.reporting.distinct(),
        change.len() == crate::wire_laws::change_width(code),
        9 + change.len() <= room,
        ColorControlServer::reporting_set(
            pre,
            Dispatch::record_at(send_record(attr, code, min, max, change)),
            ctx,
            post,
            status,
        ),
    ensures
        accepts(
            pre@.reporting,
            2,
            attr,
            (attr.0 + 256 * attr.1 == 0x0000 || attr.0 + 256 * attr.1 == 0x0001) && code == 0x20,
            min,
            max,
            status,
        ),
        status == Status::Success && max.0 + 256 * max.1 != 0xffff ==> post.reporting_answer(
            AttributeId((attr.0 + 256 * attr.1) as u16),
            0,
            room,
        ) == told_back(attr, code, min, max, change),
        post@ == (ColorState { reporting: post@.reporting, ..pre@ }),
{
    let list = ColorControlServer::attribute_infos();
    lemma_accepts::<2, 1>(
        pre@.reporting,
        list,
        attr,
        code,
        min,
        max,
        change,
        ctx,
        room,
    );
}

/// What a thermostat reports is the temperature, as it reads when the report is due; a report changes
/// nothing but the table.
pub proof fn law_thermostat_reports(
    pre: ThermostatServer,
    now_ms: u32,
    out: Seq<u8>,
    cap: nat,
    post: ThermostatServer,
    sent: Seq<u8>,
    r: Result<Option<ClusterReportReady>, ZclError>,
    i: int,
)
    requires
        pre@.reporting.distinct(),
        0 <= i < pre@.reporting.entries.len(),
        pre@.reporting.entries[i].attr_id.0 == 0x0000,
        ThermostatServer::collected(pre, now_ms, out, cap, post, sent, r),
    ensures
        sends_due(
            pre@.reporting,
            i,
            now_ms,
            pre.attr(pre@.reporting.entries[i].attr_id, 8),
            out,
            cap,
            post@.reporting,
            sent,
            r,
        ),
        sends_nothing(pre@.reporting, now_ms, out, post@.reporting, sent, r),
        post@ == (ThermostatState { reporting: post@.reporting, ..pre@ }),
{
    let read = |id: AttributeId| pre.attr(id, 2);
    lemma_sends(pre@.reporting, i, now_ms, read, out, cap);
    assert(read(pre@.reporting.entries[i].attr_id) == pre.attr(
        pre@.reporting.entries[i].attr_id,
        8,
    ));
}

/// A thermostat settles the outcome of its reports, and hands out its diagnostics once.
pub proof fn law_thermostat_settles(
    pre: ThermostatServer,
    token: ReportToken,
    result: ReportDeliveryResult,
    now_ms: u32,
    post: ThermostatServer,
    i: int,
    drained: ThermostatServer,
    d: ReportingDiagnostics,
)
    requires
        pre@.reporting.distinct(),
        0 <= i < pre@.reporting.entries.len(),
        pre@.reporting.entries[i].attr_id.0 == token.0,
        ThermostatServer::delivered(pre, token, result, now_ms, post),
        ThermostatServer::diagnosed(pre, drained, d),
    ensures
        settles(pre@.reporting, i, result, now_ms, post@.reporting),
        post@ == (ThermostatState { reporting: post@.reporting, ..pre@ }),
        drains(pre@.reporting, drained@.reporting, d),
        drained@ == (ThermostatState { reporting: drained@.reporting, ..pre@ }),
{
    lemma_settles(pre@.reporting, i, token, result, now_ms);
}

/// Of a thermostat the reporting of the temperature can be configured, and is told back as it was
/// configured.
pub proof fn law_thermostat_configures(
    pre: ThermostatServer,
    attr: (u8, u8),
    code: u8,
    min: (u8, u8),
    max: (u8, u8),
    change: Seq<u8>,
    ctx: DispatchContext,
    post: ThermostatServer,
    status: Status,
    room: nat,
)
    requires
        pre@.reporting.distinct(),
        change.len() == crate::wire_laws::change_width(code),
        9 + change.len() <= room,
        ThermostatServer::reporting_set(
            pre,
            Dispatch::record_at(send_record(attr, code, min, max, change)),
            ctx,
            post,
            status,
        ),
    ensures
        accepts(
            pre@.reporting,
            1,
            attr,
            attr.0 + 256 * attr.1 == 0x0000 && code == 0x29,
            min,
            max,
            status,
        ),
        status == Status::Success && max.0 + 256 * max.1 != 0xffff ==> post.reporting_answer(
            AttributeId((attr.0 + 256 * attr.1) as u16),
            0,
            room,
        ) == told_back(attr, code, min, max, change),
        post@ == (ThermostatState { reporting: post@.reporting, ..pre@ }),
{
    let list = ThermostatServer::attribute_infos();
    lemma_accepts::<1, 2>(
        pre@.reporting,
        list,
        attr,
        code,
        min,
        max,
        change,
        ctx,
        room,
    );
}

/// What a power configuration server reports is the remaining battery, as it reads when the report is due; a report changes
/// nothing but the table.
pub proof fn law_power_reports(
    pre: PowerConfigServer,
    now_ms: u32,
    out: Seq<u8>,
    cap: nat,
    post: PowerConfigServer,
    sent: Seq<u8>,
    r: Result<Option<ClusterReportReady>, ZclError>,
    i: int,
)
    requires
        pre@.reporting.distinct(),
        0 <= i < pre@.reporting.entries.len(),
        pre@.reporting.entries[i].attr_id.0 == 0x0021,
        PowerConfigServer::collected(pre, now_ms, out, cap, post, sent, r),
    ensures
        sends_due(
            pre@.reporting,
            i,
            now_ms,
            pre.attr(pre@.reporting.entries[i].attr_id, 8),
            out,
            cap,
            post@.reporting,
            sent,
            r,
        ),
        sends_nothing(pre@.reporting, now_ms, out, post@.reporting, sent, r),
        post@ == (PowerState { reporting: post@.reporting, ..pre@ }),
{
    let read = |id: AttributeId| pre.attr(id, 1);
    lemma_sends(pre@.reporting, i, now_ms, read, out, cap);
    assert(read(pre@.reporting.entries[i].attr_id) == pre.attr(
        pre@.reporting.entries[i].attr_id,
        8,
    ));
}

/// A power configuration server settles the outcome of its reports, and hands out its diagnostics once.
pub proof fn law_power_settles(
    pre: PowerConfigServer,
    token: ReportToken,
    result: ReportDeliveryResult,
    now_ms: u32,
    post: PowerConfigServer,
    i: int,
    drained: PowerConfigServer,
    d: ReportingDiagnostics,
)
    requires
        pre@.reporting.distinct(),
        0 <= i < pre@.reporting.entries.len(),
        pre@.reporting.entries[i].attr_id.0 == token.0,
        PowerConfigServer::delivered(pre, token, result, now_ms, post),
        PowerConfigServer::diagnosed(pre, drained, d),
    ensures
        settles(pre@.reporting, i, result, now_ms, post@.reporting),
        post@ == (PowerState { reporting: post@.reporting, ..pre@ }),
        drains(pre@.reporting, drained@.reporting, d),
        drained@ == (PowerState { reporting: drained@.reporting, ..pre@ }),
{
    lemma_settles(pre@.reporting, i, token, result, now_ms);
}

/// Of a power configuration server the reporting of the remaining battery can be configured, and is told back as it was
/// configured.
pub proof fn law_power_configures(
    pre: PowerConfigServer,
    attr: (u8, u8),
    code: u8,
    min: (u8, u8),
    max: (u8, u8),
    change: Seq<u8>,
    ctx: DispatchContext,
    post: PowerConfigServer,
    status: Status,
    room: nat,
)
    requires
        pre@.reporting.distinct(),
        change.len() == crate::wire_laws::change_width(code),
        9 + change.len() <= room,
        PowerConfigServer::reporting_set(
            pre,
            Dispatch::record_at(send_record(attr, code, min, max, change)),
            ctx,
            post,
            status,
        ),
    ensures
        accepts(
            pre@.reporting,
            1,
            attr,
            attr.0 + 256 * attr.1 == 0x0021 && code == 0x20,
            min,
            max,
            status,
        ),
        status == Status::Success && max.0 + 256 * max.1 != 0xffff ==> post.reporting_answer(
            AttributeId((attr.0 + 256 * attr.1) as u16),
            0,
            room,
        ) == told_back(attr, code, min, max, change),
        post@ == (PowerState { reporting: post@.reporting, ..pre@ }),
{
    let list = PowerConfigServer::attribute_infos();
    lemma_accepts::<1, 1>(
        pre@.reporting,
        list,
        attr,
        code,
        min,
        max,
        change,
        ctx,
        room,
    );
}

/// What a server of signed measurements reports is the measured value, as it reads when the report is due; a report changes
/// nothing but the table.
pub proof fn law_temperature_reports<const CLUSTER: u16>(
    pre: MeasurementServer<i16, CLUSTER>,
    now_ms: u32,
    out: Seq<u8>,
    cap: nat,
    post: MeasurementServer<i16, CLUSTER>,
    sent: Seq<u8>,
    r: Result<Option<ClusterReportReady>, ZclError>,
    i: int,
)
    requires
        pre@.reporting.distinct(),
        0 <= i < pre@.reporting.entries.len(),
        pre@.reporting.entries[i].attr_id.0 == 0x0000,
        MeasurementServer::<i16, CLUSTER>::collected(pre, now_ms, out, cap, post, sent, r),
    ensures
        sends_due(
            pre@.reporting,
            i,
            now_ms,
            pre.attr(pre@.reporting.entries[i].attr_id, 8),
            out,
            cap,
            post@.reporting,
            sent,
            r,
        ),
        sends_nothing(pre@.reporting, now_ms, out, post@.reporting, sent, r),
        post@ == (MeasurementState { reporting: post@.reporting, ..pre@ }),
{
    let read = |id: AttributeId| pre.attr(id, 2);
    lemma_sends(pre@.reporting, i, now_ms, read, out, cap);
    assert(read(pre@.reporting.entries[i].attr_id) == pre.attr(
        pre@.reporting.entries[i].attr_id,
        8,
    ));
}

/// A server of signed measurements settles the outcome of its reports, and hands out its diagnostics once.
pub proof fn law_temperature_settles<const CLUSTER: u16>(
    pre: MeasurementServer<i16, CLUSTER>,
    token: ReportToken,
    result: ReportDeliveryResult,
    now_ms: u32,
    post: MeasurementServer<i16, CLUSTER>,
    i: int,
    drained: MeasurementServer<i16, CLUSTER>,
    d: ReportingDiagnostics,
)
    requires
        pre@.reporting.distinct(),
        0 <= i < pre@.reporting.entries.len(),
        pre@.reporting.entries[i].attr_id.0 == token.0,
        MeasurementServer::<i16, CLUSTER>::delivered(pre, token, result, now_ms, post),
        MeasurementServer::<i16, CLUSTER>::diagnosed(pre, drained, d),
    ensures
        settles(pre@.reporting, i, result, now_ms, post@.reporting),
        post@ == (MeasurementState { reporting: post@.reporting, ..pre@ }),
        drains(pre@.reporting, drained@.reporting, d),
        drained@ == (MeasurementState { reporting: drained@.reporting, ..pre@ }),
{
    lemma_settles(pre@.reporting, i, token, result, now_ms);
}

/// Of a server of signed measurements the reporting of the measured value can be configured, and is told back as it was
/// configured.
pub proof fn law_temperature_configures<const CLUSTER: u16>(
    pre: MeasurementServer<i16, CLUSTER>,
    attr: (u8, u8),
    code: u8,
    min: (u8, u8),
    max: (u8, u8),
    change: Seq<u8>,
    ctx: DispatchContext,
    post: MeasurementServer<i16, CLUSTER>,
    status: Status,
    room: nat,
)
    requires
        pre@.reporting.distinct(),
        change.len() == crate::wire_laws::change_width(code),
        9 + change.len() <= room,
        MeasurementServer::<i16, CLUSTER>::reporting_set(
            pre,
            Dispatch::record_at(send_record(attr, code, min, max, change)),
            ctx,
            post,
            status,
        ),
    ensures
        accepts(
            pre@.reporting,
            1,
            attr,
            attr.0 + 256 * attr.1 == 0x0000 && code == 0x29,
            min,
            max,
            status,
        ),
        status == Status::Success && max.0 + 256 * max.1 != 0xffff ==> post.reporting_answer(
            AttributeId((attr.0 + 256 * attr.1) as u16),
            0,
            room,
        ) == told_back(attr, code, min, max, change),
        post@ == (MeasurementState { reporting: post@.reporting, ..pre@ }),
{
    let list = MeasurementServer::<i16, CLUSTER>::attribute_infos();
    lemma_accepts::<1, 2>(
        pre@.reporting,
        list,
        attr,
        code,
        min,
        max,
        change,
        ctx,
        room,
    );
}

/// What a server of unsigned measurements reports is the measured value, as it reads when the report is due; a report changes
/// nothing but the table.
pub proof fn law_humidity_reports<const CLUSTER: u16>(
    pre: MeasurementServer<u16, CLUSTER>,
    now_ms: u32,
    out: Seq<u8>,
    cap: nat,
    post: MeasurementServer<u16, CLUSTER>,
    sent: Seq<u8>,
    r: Result<Option<ClusterReportReady>, ZclError>,
    i: int,
)
    requires
        pre@.reporting.distinct(),
        0 <= i < pre@.reporting.entries.len(),
        pre@.reporting.entries[i].attr_id.0 == 0x0000,
        MeasurementServer::<u16, CLUSTER>::collected(pre, now_ms, out, cap, post, sent, r),
    ensures
        sends_due(
            pre@.reporting,
            i,
            now_ms,
            pre.attr(pre@.reporting.entries[i].attr_id, 8),
            out,
            cap,
            post@.reporting,
            sent,
            r,
        ),
        sends_nothing(pre@.reporting, now_ms, out, post@.reporting, sent, r),
        post@ == (MeasurementState { reporting: post@.reporting, ..pre@ }),
{
    let read = |id: AttributeId| pre.attr(id, 2);
    lemma_sends(pre@.reporting, i, now_ms, read, out, cap);
    assert(read(pre@.reporting.entries[i].attr_id) == pre.attr(
        pre@.reporting.entries[i].attr_id,
        8,
    ));
}

/// A server of unsigned measurements settles the outcome of its reports, and hands out its diagnostics once.
pub proof fn law_humidity_settles<const CLUSTER: u16>(
    pre: MeasurementServer<u16, CLUSTER>,
    token: ReportToken,
    result: ReportDeliveryResult,
    now_ms: u32,
    post: MeasurementServer<u16, CLUSTER>,
    i: int,
    drained: MeasurementServer<u16, CLUSTER>,
    d: ReportingDiagnostics,
)
    requires
        pre@.reporting.distinct(),
        0 <= i < pre@.reporting.entries.len(),
        pre@.reporting.entries[i].attr_id.0 == token.0,
        MeasurementServer::<u16, CLUSTER>::delivered(pre, token, result, now_ms, post),
        MeasurementServer::<u16, CLUSTER>::diagnosed(pre, drained, d),
    ensures
        settles(pre@.reporting, i, result, now_ms, post@.reporting),
        post@ == (MeasurementState { reporting: post@.reporting, ..pre@ }),
        drains(pre@.reporting, drained@.reporting, d),
        drained@ == (MeasurementState { reporting: drained@.reporting, ..pre@ }),
{
    lemma_settles(pre@.reporting, i, token, result, now_ms);
}

/// Of a server of unsigned measurements the reporting of the measured value can be configured, and is told back as it was
/// configured.
pub proof fn law_humidity_configures<const CLUSTER: u16>(
    pre: MeasurementServer<u16, CLUSTER>,
    attr: (u8, u8),
    code: u8,
    min: (u8, u8),
    max: (u8, u8),
    change: Seq<u8>,
    ctx: DispatchContext,
    post: MeasurementServer<u16, CLUSTER>,
    status: Status,
    room: nat,
)
    requires
        pre@.reporting.distinct(),
        change.len() == crate::wire_laws::change_width(code),
        9 + change.len() <= room,
        MeasurementServer::<u16, CLUSTER>::reporting_set(
            pre,
            Dispatch::record_at(send_record(attr, code, min, max, change)),
            ctx,
            post,
            status,
        ),
    ensures
        accepts(
            pre@.reporting,
            1,
            attr,
            attr.0 + 256 * attr.1 == 0x0000 && code == 0x21,
            min,
            max,
            status,
        ),
        status == Status::Success && max.0 + 256 * max.1 != 0xffff ==> post.reporting_answer(
            AttributeId((attr.0 + 256 * attr.1) as u16),
            0,
            room,
        ) == told_back(attr, code, min, max, change),
        post@ == (MeasurementState { reporting: post@.reporting, ..pre@ }),
{
    let list = MeasurementServer::<u16, CLUSTER>::attribute_infos();
    lemma_accepts::<1, 2>(
        pre@.reporting,
        list,
        attr,
        code,
        min,
        max,
        change,
        ctx,
        room,
    );
}

/// What an illuminance server reports is the measured value, as it reads when the report is due; a report changes
/// nothing but the table.
pub proof fn law_illuminance_reports(
    pre: IlluminanceMeasurementServer,
    now_ms: u32,
    out: Seq<u8>,
    cap: nat,
    post: IlluminanceMeasurementServer,
    sent: Seq<u8>,
    r: Result<Option<ClusterReportReady>, ZclError>,
    i: int,
)
    requires
        pre@.reporting.distinct(),
        0 <= i < pre@.reporting.entries.len(),
        pre@.reporting.entries[i].attr_id.0 == 0x0000,
        IlluminanceMeasurementServer::collected(pre, now_ms, out, cap, post, sent, r),
    ensures
        sends_due(
            pre@.reporting,
            i,
            now_ms,
            pre.attr(pre@.reporting.entries[i].attr_id, 8),
            out,
            cap,
            post@.reporting,
            sent,
            r,
        ),
        sends_nothing(pre@.reporting, now_ms, out, post@.reporting, sent, r),
        post@ == (IlluminanceState { reporting: post@.reporting, ..pre@ }),
{
    let read = |id: AttributeId| pre.attr(id, 2);
    lemma_sends(pre@.reporting, i, now_ms, read, out, cap);
    assert(read(pre@.reporting.entries[i].attr_id) == pre.attr(
        pre@.reporting.entries[i].attr_id,
        8,
    ));
}

/// An illuminance server settles the outcome of its reports, and hands out its diagnostics once.
pub proof fn law_illuminance_settles(
    pre: IlluminanceMeasurementServer,
    token: ReportToken,
    result: ReportDeliveryResult,
    now_ms: u32,
    post: IlluminanceMeasurementServer,
    i: int,
    drained: IlluminanceMeasurementServer,
    d: ReportingDiagnostics,
)
    requires
        pre@.reporting.distinct(),
        0 <= i < pre@.reporting.entries.len(),
        pre@.reporting.entries[i].attr_id.0 == token.0,
        IlluminanceMeasurementServer::delivered(pre, token, result, now_ms, post),
        IlluminanceMeasurementServer::diagnosed(pre, drained, d),
    ensures
        settles(pre@.reporting, i, result, now_ms, post@.reporting),
        post@ == (IlluminanceState { reporting: post@.reporting, ..pre@ }),
        drains(pre@.reporting, drained@.reporting, d),
        drained@ == (IlluminanceState { reporting: drained@.reporting, ..pre@ }),
{
    lemma_settles(pre@.reporting, i, token, result, now_ms);
}

/// Of an illuminance server the reporting of the measured value can be configured, and is told back as it was
/// configured.
pub proof fn law_illuminance_configures(
    pre: IlluminanceMeasurementServer,
    attr: (u8, u8),
    code: u8,
    min: (u8, u8),
    max: (u8, u8),
    change: Seq<u8>,
    ctx: DispatchContext,
    post: IlluminanceMeasurementServer,
    status: Status,
    room: nat,
)
    requires
        pre@.reporting.distinct(),
        change.len() == crate::wire_laws::change_width(code),
        9 + change.len() <= room,
        IlluminanceMeasurementServer::reporting_set(
            pre,
            Dispatch::record_at(send_record(attr, code, min, max, change)),
            ctx,
            post,
            status,
        ),
    ensures
        accepts(
            pre@.reporting,
            1,
            attr,
            attr.0 + 256 * attr.1 == 0x0000 && code == 0x21,
            min,
            max,
            status,
        ),
        status == Status::Success && max.0 + 256 * max.1 != 0xffff ==> post.reporting_answer(
            AttributeId((attr.0 + 256 * attr.1) as u16),
            0,
            room,
        ) == told_back(attr, code, min, max, change),
        post@ == (IlluminanceState { reporting: post@.reporting, ..pre@ }),
{
    let list = IlluminanceMeasurementServer::attribute_infos();
    lemma_accepts::<1, 2>(
        pre@.reporting,
        list,
        attr,
        code,
        min,
        max,
        change,
        ctx,
        room,
    );
}

/// What an occupancy server reports is the occupancy, as it reads when the report is due; a report changes
/// nothing but the table.
pub proof fn law_occupancy_reports(
    pre: OccupancySensingServer,
    now_ms: u32,
    out: Seq<u8>,
    cap: nat,
    post: OccupancySensingServer,
    sent: Seq<u8>,
    r: Result<Option<ClusterReportReady>, ZclError>,
    i: int,
)
    requires
        pre@.reporting.distinct(),
        0 <= i < pre@.reporting.entries.len(),
        pre@.reporting.entries[i].attr_id.0 == 0x0000,
        OccupancySensingServer::collected(pre, now_ms, out, cap, post, sent, r),
    ensures
        sends_due(
            pre@.reporting,
            i,
            now_ms,
            pre.attr(pre@.reporting.entries[i].attr_id, 8),
            out,
            cap,
            post@.reporting,
            sent,
            r,
        ),
        sends_nothing(pre@.reporting, now_ms, out, post@.reporting, sent, r),
        post@ == (OccupancyState { reporting: post@.reporting, ..pre@ }),
{
    let read = |id: AttributeId| pre.attr(id, 1);
    lemma_sends(pre@.reporting, i, now_ms, read, out, cap);
    assert(read(pre@.reporting.entries[i].attr_id) == pre.attr(
        pre@.reporting.entries[i].attr_id,
        8,
    ));
}

/// An occupancy server settles the outcome of its reports, and hands out its diagnostics once.
pub proof fn law_occupancy_settles(
    pre: OccupancySensingServer,
    token: ReportToken,
    result: ReportDeliveryResult,
    now_ms: u32,
    post: OccupancySensingServer,
    i: int,
    drained: OccupancySensingServer,
    d: ReportingDiagnostics,
)
    requires
        pre@.reporting.distinct(),
        0 <= i < pre@.reporting.entries.len(),
        pre@.reporting.entries[i].attr_id.0 == token.0,
        OccupancySensingServer::delivered(pre, token, result, now_ms, post),
        OccupancySensingServer::diagnosed(pre, drained, d),
    ensures
        settles(pre@.reporting, i, result, now_ms, post@.reporting),
        post@ == (OccupancyState { reporting: post@.reporting, ..pre@ }),
        drains(pre@.reporting, drained@.reporting, d),
        drained@ == (OccupancyState { reporting: drained@.reporting, ..pre@ }),
{
    lemma_settles(pre@.reporting, i, token, result, now_ms);
}

/// Of an occupancy server the reporting of the occupancy can be configured, and is told back as it was
/// configured.
pub proof fn law_occupancy_configures(
    pre: OccupancySensingServer,
    attr: (u8, u8),
    code: u8,
    min: (u8, u8),
    max: (u8, u8),
    change: Seq<u8>,
    ctx: DispatchContext,
    post: OccupancySensingServer,
    status: Status,
    room: nat,
)
    requires
        pre@.reporting.distinct(),
        change.len() == crate::wire_laws::change_width(code),
        9 + change.len() <= room,
        OccupancySensingServer::reporting_set(
            pre,
            Dispatch::record_at(send_record(attr, code, min, max, change)),
            ctx,
            post,
            status,
        ),
    ensures
        accepts(
            pre@.reporting,
            1,
            attr,
            attr.0 + 256 * attr.1 == 0x0000 && code == 0x18,
            min,
            max,
            status,
        ),
        status == Status::Success && max.0 + 256 * max.1 != 0xffff ==> post.reporting_answer(
            AttributeId((attr.0 + 256 * attr.1) as u16),
            0,
            room,
        ) == told_back(attr, code, min, max, change),
        post@ == (OccupancyState { reporting: post@.reporting, ..pre@ }),
{
    let list = OccupancySensingServer::attribute_infos();
    lemma_accepts::<1, 1>(
        pre@.reporting,
        list,
        attr,
        code,
        min,
        max,
        change,
        ctx,
        room,
    );
}

/// What an electrical measurement server reports is the active power, as it reads when the report is due; a report changes
/// nothing but the table.
pub proof fn law_electrical_reports(
    pre: ElectricalMeasurementServer,
    now_ms: u32,
    out: Seq<u8>,
    cap: nat,
    post: ElectricalMeasurementServer,
    sent: Seq<u8>,
    r: Result<Option<ClusterReportReady>, ZclError>,
    i: int,
)
    requires
        pre@.reporting.distinct(),
        0 <= i < pre@.reporting.entries.len(),
        pre@.reporting.entries[i].attr_id.0 == 0x050B,
        ElectricalMeasurementServer::collected(pre, now_ms, out, cap, post, sent, r),
    ensures
        sends_due(
            pre@.reporting,
            i,
            now_ms,
            pre.attr(pre@.reporting.entries[i].attr_id, 8),
            out,
            cap,
            post@.reporting,
            sent,
            r,
        ),
        sends_nothing(pre@.reporting, now_ms, out, post@.reporting, sent, r),
        post@ == (ElectricalState { reporting: post@.reporting, ..pre@ }),
{
    let read = |id: AttributeId| pre.attr(id, 2);
    lemma_sends(pre@.reporting, i, now_ms, read, out, cap);
    assert(read(pre@.reporting.entries[i].attr_id) == pre.attr(
        pre@.reporting.entries[i].attr_id,
        8,
    ));
}

/// An electrical measurement server settles the outcome of its reports, and hands out its diagnostics once.
pub proof fn law_electrical_settles(
    pre: ElectricalMeasurementServer,
    token: ReportToken,
    result: ReportDeliveryResult,
    now_ms: u32,
    post: ElectricalMeasurementServer,
    i: int,
    drained: ElectricalMeasurementServer,
    d: ReportingDiagnostics,
)
    requires
        pre@.reporting.distinct(),
        0 <= i < pre@.reporting.entries.len(),
        pre@.reporting.entries[i].attr_id.0 == token.0,
        ElectricalMeasurementServer::delivered(pre, token, result, now_ms, post),
        ElectricalMeasurementServer::diagnosed(pre, drained, d),
    ensures
        settles(pre@.reporting, i, result, now_ms, post@.reporting),
        post@ == (ElectricalState { reporting: post@.reporting, ..pre@ }),
        drains(pre@.reporting, drained@.reporting, d),
        drained@ == (ElectricalState { reporting: drained@.reporting, ..pre@ }),
{
    lemma_settles(pre@.reporting, i, token, result, now_ms);
}

/// Of an electrical measurement server the reporting of the active power can be configured, and is told back as it was
/// configured.
pub proof fn law_electrical_configures(
    pre: ElectricalMeasurementServer,
    attr: (u8, u8),
    code: u8,
    min: (u8, u8),
    max: (u8, u8),
    change: Seq<u8>,
    ctx: DispatchContext,
    post: ElectricalMeasurementServer,
    status: Status,
    room: nat,
)
    requires
        pre@.reporting.distinct(),
        change.len() == crate::wire_laws::change_width(code),
        9 + change.len() <= room,
        ElectricalMeasurementServer::reporting_set(
            pre,
            Dispatch::record_at(send_record(attr, code, min, max, change)),
            ctx,
            post,
            status,
        ),
    ensures
        accepts(
            pre@.reporting,
            1,
            attr,
            attr.0 + 256 * attr.1 == 0x050B && code == 0x29,
            min,
            max,
            status,
        ),
        status == Status::Success && max.0 + 256 * max.1 != 0xffff ==> post.reporting_answer(
            AttributeId((attr.0 + 256 * attr.1) as u16),
            0,
            room,
        ) == told_back(attr, code, min, max, change),
        post@ == (ElectricalState { reporting: post@.reporting, ..pre@ }),
{
    let list = ElectricalMeasurementServer::attribute_infos();
    lemma_accepts::<1, 2>(
        pre@.reporting,
        list,
        attr,
        code,
        min,
        max,
        change,
        ctx,
        room,
    );
}

} // verus!
