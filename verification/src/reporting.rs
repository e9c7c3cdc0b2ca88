//! Attribute reporting: what is configured, what is due, and what was sent.

use vstd::prelude::*;
use vstd::slice::slice_to_vec;

use crate::bytes::high_byte;
use crate::bytes::Le;
use crate::bytes::le_number;
use crate::bytes::low_byte;
use crate::bytes::same_from;
use crate::context::ClusterReportReady;
use crate::context::ConfigureReportingRecord;
use crate::context::DispatchContext;
use crate::context::RecordFields;
use crate::context::ReportDeliveryResult;
use crate::context::ReportDestination;
use crate::context::ReportToken;
use crate::context::ReportingDiagnostics;
use crate::frame::Status;
use crate::types::codec::ReadSpec;
use crate::types::descriptors::AttrInfo;
use crate::types::error::ZclError;
use crate::types::ids::AttributeId;
use crate::types::ids::TypeId;

verus! {

/// Why a report is due.
#[derive(Clone, Copy, Debug, PartialEq, Eq, Structural)]
pub enum ReportDue {
    /// The value was updated and the minimum interval has passed.
    Change,
    /// The maximum interval has passed.
    Interval,
}

/// Why a due report was not sent.
#[derive(Clone, Copy, Debug, PartialEq, Eq, Structural)]
pub enum ReportSkip {
    /// The value moved by less than the reportable change.
    BelowThreshold,
    /// The report did not fit the buffer.
    BufferTooSmall,
}

/// A report that is due.
#[derive(Clone, Copy, Debug, PartialEq, Eq, Structural)]
pub struct ReportCandidate {
    pub attr_id: AttributeId,
    pub token: ReportToken,
    pub destination: ReportDestination,
    pub due: ReportDue,
}

/// One attribute's reporting state.
pub struct EntryState {
    pub attr_id: AttributeId,
    pub attr_type: u8,
    pub min_interval: u16,
    pub max_interval: u16,
    /// Bytes of the reportable change; empty where any update counts.
    pub change: Seq<u8>,
    pub destination: Option<ReportDestination>,
    pub last_report_ms: u32,
    pub pending: bool,
    /// The value of the last report that was delivered.
    pub last_value: Option<Seq<u8>>,
    /// The value of the report that is under way.
    pub in_flight: Option<Seq<u8>>,
}

/// The number that `bytes` encode in data type `type_id`, for integer types.
pub open spec fn number(type_id: TypeId, bytes: Seq<u8>) -> int {
    if type_id.code() >= 0x28 && bytes.len() > 0 && 2 * Le::value(bytes) >= Le::pow256(bytes.len()) {
        Le::value(bytes) - Le::pow256(bytes.len())
    } else {
        Le::value(bytes) as int
    }
}

impl EntryState {
    /// Milliseconds since the last report, on a clock that wraps.
    pub open spec fn elapsed(self, now_ms: u32) -> u32 {
        now_ms.wrapping_sub(self.last_report_ms)
    }

    /// Whether a report is due at `now_ms`, and why. Without a destination none
    /// ever is.
    pub open spec fn due(self, now_ms: u32) -> Option<ReportDue> {
        if self.destination is None {
            None
        } else if self.max_interval != 0 && self.elapsed(now_ms) >= self.max_interval * 1000 {
            Some(ReportDue::Interval)
        } else if self.pending && self.elapsed(now_ms) >= self.min_interval * 1000 {
            Some(ReportDue::Change)
        } else {
            None
        }
    }

    /// The value moved by less than the reportable change since the last report.
    /// Only integers have a reportable change.
    pub open spec fn below_threshold(self, type_id: TypeId, current: Seq<u8>) -> bool {
        &&& 0x20 <= type_id.code() <= 0x2f
        &&& self.change.len() > 0
        &&& self.last_value matches Some(last) && {
            let moved = number(type_id, current) - number(type_id, last);
            (if moved < 0 {
                -moved
            } else {
                moved
            }) < Le::value(self.change)
        }
    }
}

/// A reporting table's entries and counters.
pub struct TableState {
    pub entries: Seq<EntryState>,
    pub diagnostics: ReportingDiagnostics,
}

/// A request to configure the reporting of one attribute.
pub struct ReportingRequest {
    pub attr_id: AttributeId,
    pub attr_type: u8,
    pub min_interval: u16,
    pub max_interval: u16,
    pub change: Seq<u8>,
    pub destination: Option<ReportDestination>,
    pub now_ms: u32,
}

impl TableState {
    pub open spec fn empty() -> Self {
        TableState { entries: Seq::empty(), diagnostics: ReportingDiagnostics::nothing() }
    }

    /// No attribute has two entries.
    pub open spec fn distinct(self) -> bool {
        forall|i: int, j: int|
            0 <= i < j < self.entries.len() ==> #[trigger] self.entries[i].attr_id
                != #[trigger] self.entries[j].attr_id
    }

    pub open spec fn is_slot(self, attr_id: AttributeId, i: int) -> bool {
        0 <= i < self.entries.len() && self.entries[i].attr_id == attr_id
    }

    /// Reporting of the attribute is configured.
    pub open spec fn has(self, attr_id: AttributeId) -> bool {
        exists|i: int| self.is_slot(attr_id, i)
    }

    /// Where the attribute's entry stands.
    pub open spec fn slot(self, attr_id: AttributeId) -> int {
        choose|i: int| self.is_slot(attr_id, i)
    }

    pub open spec fn entry(self, attr_id: AttributeId) -> EntryState {
        self.entries[self.slot(attr_id)]
    }

    pub open spec fn with_entry(self, attr_id: AttributeId, entry: EntryState) -> Self {
        TableState { entries: self.entries.update(self.slot(attr_id), entry), ..self }
    }

    /// The state after an update of the attribute's value: a report becomes
    /// pending, or joins the one that already is.
    pub open spec fn noted(self, attr_id: AttributeId) -> Self {
        if !self.has(attr_id) {
            self
        } else if self.entry(attr_id).pending {
            TableState {
                diagnostics: ReportingDiagnostics {
                    coalesced_updates: ReportingDiagnostics::count_sum(
                        self.diagnostics.coalesced_updates,
                        1,
                    ),
                    ..self.diagnostics
                },
                ..self
            }
        } else {
            self.with_entry(attr_id, EntryState { pending: true, ..self.entry(attr_id) })
        }
    }

    /// The first entry from `from` on that is due.
    pub open spec fn first_due(self, now_ms: u32, from: nat) -> Option<ReportCandidate>
        decreases self.entries.len() - from,
    {
        if from >= self.entries.len() {
            None
        } else {
            let e = self.entries[from as int];
            match (e.due(now_ms), e.destination) {
                (Some(due), Some(destination)) => Some(
                    ReportCandidate {
                        attr_id: e.attr_id,
                        token: ReportToken(e.attr_id.0),
                        destination,
                        due,
                    },
                ),
                _ => self.first_due(now_ms, from + 1),
            }
        }
    }

    /// The report to send next at `now_ms`.
    pub open spec fn next_due(self, now_ms: u32) -> Option<ReportCandidate> {
        self.first_due(now_ms, 0)
    }

    /// A table with room for `cap` entries, after a configuration request for a
    /// cluster with attributes `list`, whose values take up to `value_bytes`
    /// bytes; and the request's status.
    ///
    /// A maximum interval of 0xffff ends reporting; one of 0 leaves reports on
    /// change only.
    pub open spec fn configured(
        self,
        cap: nat,
        value_bytes: nat,
        request: ReportingRequest,
        list: Seq<AttrInfo>,
    ) -> (Self, Status) {
        match find_info(list, request.attr_id) {
            None => (self, Status::UnsupportedAttribute),
            Some(info) => if !info.access.reportable {
                (self, Status::UnreportableAttribute)
            } else if info.type_id.code() != request.attr_type {
                (self, Status::InvalidDataType)
            } else if request.change.len() > value_bytes {
                (self, Status::InvalidValue)
            } else if request.max_interval == 0xffff {
                (self.without(request.attr_id), Status::Success)
            } else if request.max_interval != 0 && request.min_interval > request.max_interval {
                (self, Status::InvalidValue)
            } else if self.has(request.attr_id) {
                (self.with_entry(request.attr_id, fresh_entry(request)), Status::Success)
            } else if self.entries.len() >= cap {
                (self, Status::InsufficientSpace)
            } else {
                (
                    TableState { entries: self.entries.push(fresh_entry(request)), ..self },
                    Status::Success,
                )
            },
        }
    }

    /// The table without an entry for the attribute.
    pub open spec fn without(self, attr_id: AttributeId) -> Self {
        if self.has(attr_id) {
            TableState { entries: self.entries.remove(self.slot(attr_id)), ..self }
        } else {
            self
        }
    }

    /// The state after the report named by `token` was skipped.
    pub open spec fn skipped(self, token: ReportToken, reason: ReportSkip) -> Self {
        let id = AttributeId(token.0);
        match reason {
            ReportSkip::BelowThreshold => if self.has(id) {
                self.with_entry(id, EntryState { pending: false, ..self.entry(id) })
            } else {
                self
            },
            ReportSkip::BufferTooSmall => TableState {
                diagnostics: ReportingDiagnostics { buffer_too_small: true, ..self.diagnostics },
                ..self
            },
        }
    }

    /// The state after `value` was put in the report named by `token`.
    pub open spec fn recorded(self, token: ReportToken, value: Seq<u8>) -> Self {
        let id = AttributeId(token.0);
        if self.has(id) {
            self.with_entry(id, EntryState { in_flight: Some(value), ..self.entry(id) })
        } else {
            self
        }
    }

    /// The state after the outcome of sending the report named by `token`: a
    /// report that was sent or lost is no longer pending and starts a new
    /// interval, and a deferred one stays as it was.
    pub open spec fn completed(
        self,
        token: ReportToken,
        result: ReportDeliveryResult,
        now_ms: u32,
    ) -> Self {
        let id = AttributeId(token.0);
        if !self.has(id) {
            self
        } else {
            let e = self.entry(id);
            match result {
                ReportDeliveryResult::Sent => self.with_entry(
                    id,
                    EntryState {
                        pending: false,
                        last_report_ms: now_ms,
                        last_value: match e.in_flight {
                            Some(v) => Some(v),
                            None => e.last_value,
                        },
                        in_flight: None,
                        ..e
                    },
                ),
                ReportDeliveryResult::Deferred => self.with_entry(
                    id,
                    EntryState { in_flight: None, ..e },
                ),
                ReportDeliveryResult::Failed => {
                    let t = self.with_entry(
                        id,
                        EntryState {
                            pending: false,
                            last_report_ms: now_ms,
                            in_flight: None,
                            ..e
                        },
                    );
                    TableState {
                        diagnostics: ReportingDiagnostics {
                            dropped_reports: ReportingDiagnostics::count_sum(
                                t.diagnostics.dropped_reports,
                                1,
                            ),
                            ..t.diagnostics
                        },
                        ..t
                    }
                },
            }
        }
    }

    /// The record that answers a question about an attribute's reporting: its
    /// configuration, or "not found". Empty where it does not fit `cap` bytes.
    pub open spec fn answer(self, attr_id: AttributeId, direction: u8, cap: nat) -> Seq<u8> {
        if direction % 2 == 0 && self.has(attr_id) {
            let e = self.entry(attr_id);
            let bytes = seq![0u8, 0u8] + Le::u16(attr_id.0) + seq![e.attr_type] + Le::u16(
                e.min_interval,
            ) + Le::u16(e.max_interval) + e.change;
            if bytes.len() <= cap {
                bytes
            } else {
                Seq::empty()
            }
        } else {
            not_found_record(attr_id, direction, cap)
        }
    }

    /// A report of the attribute with encoded value `value`, as a report record.
    pub open spec fn record_bytes(attr_id: AttributeId, type_id: TypeId, value: Seq<u8>) -> Seq<
        u8,
    > {
        Le::u16(attr_id.0) + seq![type_id.code()] + value
    }

    /// The state and outcome of sending `candidate`, whose attribute reads as
    /// `read`, into a buffer of `cap` bytes that already holds `out`.
    pub open spec fn emitted(
        self,
        candidate: ReportCandidate,
        type_id: TypeId,
        value: Seq<u8>,
        out: Seq<u8>,
        cap: nat,
    ) -> (Self, Seq<u8>, Result<Option<ClusterReportReady>, ZclError>) {
        if candidate.due == ReportDue::Change && self.has(candidate.attr_id) && self.entry(
            candidate.attr_id,
        ).below_threshold(type_id, value) {
            (self.skipped(candidate.token, ReportSkip::BelowThreshold), out, Ok(None))
        } else if out.len() + 3 + value.len() > cap {
            (
                self.skipped(candidate.token, ReportSkip::BufferTooSmall),
                out,
                Err(ZclError::BufferTooSmall),
            )
        } else {
            (
                self.recorded(candidate.token, value),
                out + Self::record_bytes(candidate.attr_id, type_id, value),
                Ok(
                    Some(
                        ClusterReportReady {
                            destination: candidate.destination,
                            token: candidate.token,
                        },
                    ),
                ),
            )
        }
    }

    /// The state and outcome of collecting a due report at `now_ms` into a buffer
    /// of `cap` bytes that already holds `out`, where `read` gives the attributes.
    pub open spec fn collected(
        self,
        now_ms: u32,
        read: spec_fn(AttributeId) -> ReadSpec,
        out: Seq<u8>,
        cap: nat,
    ) -> (Self, Seq<u8>, Result<Option<ClusterReportReady>, ZclError>) {
        match self.next_due(now_ms) {
            None => (self, out, Ok(None)),
            Some(candidate) => match read(candidate.attr_id) {
                Err(_) => (self, out, Ok(None)),
                Ok((type_id, value)) => self.emitted(candidate, type_id, value, out, cap),
            },
        }
    }

    /// The state after the counters were handed out.
    pub open spec fn drained(self) -> Self {
        TableState { diagnostics: ReportingDiagnostics::nothing(), ..self }
    }
}

/// The record "no reporting is configured", where it fits `cap` bytes.
pub open spec fn not_found_record(attr_id: AttributeId, direction: u8, cap: nat) -> Seq<u8> {
    if cap < 4 {
        Seq::empty()
    } else {
        seq![0x8bu8, direction % 2] + Le::u16(attr_id.0)
    }
}

/// The entry that a request creates.
pub open spec fn fresh_entry(request: ReportingRequest) -> EntryState {
    EntryState {
        attr_id: request.attr_id,
        attr_type: request.attr_type,
        min_interval: request.min_interval,
        max_interval: request.max_interval,
        change: request.change,
        destination: request.destination,
        last_report_ms: request.now_ms,
        pending: false,
        last_value: None,
        in_flight: None,
    }
}

pub open spec fn is_info_at(list: Seq<AttrInfo>, attr_id: AttributeId, i: int) -> bool {
    0 <= i < list.len() && list[i].id == attr_id
}

/// The attribute's metadata in `list`.
pub open spec fn find_info(list: Seq<AttrInfo>, attr_id: AttributeId) -> Option<AttrInfo> {
    if exists|i: int| is_info_at(list, attr_id, i) {
        Some(list[choose|i: int| is_info_at(list, attr_id, i)])
    } else {
        None
    }
}

/// A report payload under construction in a borrowed buffer.
pub struct ReportPayloadWriter<'a> {
    pub buf: &'a mut [u8],
    pub len: usize,
}

impl<'a> ReportPayloadWriter<'a> {
    pub open spec fn wf(self) -> bool {
        self.len <= self.buf@.len()
    }

    /// The payload so far.
    pub open spec fn written(self) -> Seq<u8> {
        self.buf@.take(self.len as int)
    }

    pub open spec fn capacity(self) -> nat {
        self.buf@.len()
    }

    /// An empty payload in `buf`.
    pub fn new(buf: &'a mut [u8]) -> (writer: Self)
        ensures
            writer.wf(),
            writer.len == 0,
            writer.written() == Seq::<u8>::empty(),
            writer.buf@ == old(buf)@,
            final(writer.buf)@ == final(buf)@,
    {
        ReportPayloadWriter { buf, len: 0 }
    }

    pub fn len(&self) -> (n: usize)
        requires
            self.wf(),
        ensures
            n == self.written().len(),
    {
        self.len
    }

    pub fn is_empty(&self) -> (yes: bool)
        requires
            self.wf(),
        ensures
            yes == (self.written().len() == 0),
    {
        self.len == 0
    }

    /// Append a report record: attribute identifier, data type, value. Writes
    /// nothing where the whole record does not fit.
    pub fn write_encoded(&mut self, attr_id: AttributeId, type_id: TypeId, value: &[u8]) -> (r:
        Result<(), ZclError>)
        requires
            old(self).wf(),
        ensures
            final(self).wf(),
            final(final(self).buf)@ == final(old(self).buf)@,
            final(self).capacity() == old(self).capacity(),
            same_from(old(self).buf@, final(self).buf@, final(self).len as int),
            if old(self).len + 3 + value@.len() <= old(self).capacity() {
                r is Ok && final(self).written() == old(self).written() + TableState::record_bytes(
                    attr_id,
                    type_id,
                    value@,
                )
            } else {
                r is Err && r->Err_0 == ZclError::BufferTooSmall && final(self).buf@ == old(
                    self).buf@ && final(self).len == old(self).len
            },
    {
        let room: usize = self.buf.len() - self.len;
        if room < 3 || room - 3 < value.len() {
            return Err(ZclError::BufferTooSmall);
        }
        let ghost before = self.written();
        let p: usize = self.len;
        self.buf[p] = low_byte(attr_id.0);
        self.buf[p + 1] = high_byte(attr_id.0);
        self.buf[p + 2] = type_id.as_u8();
        let mut i: usize = 0;
        let total: usize = self.buf.len();
        let ghost target = final(self.buf)@;
        while i < value.len()
            invariant
                i <= value@.len(),
                total == self.buf@.len(),
                final(self.buf)@ == target,
                p + 3 + value@.len() <= total,
                self.len == p,
                same_from(old(self).buf@, self.buf@, p + 3 + i),
                self.buf@.take(p + 3 + i) == before + Le::u16(attr_id.0) + seq![type_id.code()]
                    + value@.take(i as int),
            decreases value@.len() - i,
        {
            let ghost prev = self.buf@;
            self.buf[p + 3 + i] = value[i];
            assert(self.buf@.take(p + 3 + i + 1) =~= prev.take(p + 3 + i) + seq![value@[i as int]]);
            assert(value@.take(i + 1) =~= value@.take(i as int) + seq![value@[i as int]]);
            i = i + 1;
        }
        assert(value@.take(i as int) =~= value@);
        self.len = p + 3 + value.len();
        assert(self.written() =~= before + TableState::record_bytes(attr_id, type_id, value@));
        Ok(())
    }
}

/// One attribute's reporting configuration and progress.
struct ReportEntry {
    attr_id: AttributeId,
    attr_type: u8,
    min_interval: u16,
    max_interval: u16,
    change: Vec<u8>,
    destination: Option<ReportDestination>,
    last_report_ms: u32,
    pending: bool,
    last_value: Option<Vec<u8>>,
    in_flight: Option<Vec<u8>>,
}

impl ReportEntry {
    spec fn bytes_of(value: Option<Vec<u8>>) -> Option<Seq<u8>> {
        match value {
            Some(v) => Some(v@),
            None => None,
        }
    }

    spec fn state(self) -> EntryState {
        EntryState {
            attr_id: self.attr_id,
            attr_type: self.attr_type,
            min_interval: self.min_interval,
            max_interval: self.max_interval,
            change: self.change@,
            destination: self.destination,
            last_report_ms: self.last_report_ms,
            pending: self.pending,
            last_value: Self::bytes_of(self.last_value),
            in_flight: Self::bytes_of(self.in_flight),
        }
    }
}

/// Reporting state of a cluster with up to `N` reportable attributes whose
/// values take up to `VALUE_BYTES` bytes. The latest configuration of an
/// attribute stands.
pub struct LatestReportingTable<const N: usize, const VALUE_BYTES: usize> {
    entries: Vec<ReportEntry>,
    diagnostics: ReportingDiagnostics,
}

impl<const N: usize, const VALUE_BYTES: usize> View for LatestReportingTable<N, VALUE_BYTES> {
    type V = TableState;

    closed spec fn view(&self) -> TableState {
        TableState {
            entries: self.entries@.map_values(|e: ReportEntry| e.state()),
            diagnostics: self.diagnostics,
        }
    }
}

/// The number that up to eight bytes encode in an integer data type.
fn int_number(type_id: TypeId, bytes: &[u8]) -> (v: i128)
    requires
        bytes@.len() <= 8,
    ensures
        v == number(type_id, bytes@),
        -0x1_0000_0000_0000_0000 < v < 0x1_0000_0000_0000_0000,
{
    let raw: u64 = le_number(bytes);
    proof {
        crate::bytes::lemma_pow256_small();
        crate::bytes::lemma_le_value_bound(bytes@);
        crate::bytes::lemma_pow256_monotonic(bytes@.len(), 8);
    }
    if type_id.as_u8() < 0x28 || bytes.len() == 0 {
        return raw as i128;
    }
    let n: usize = bytes.len();
    let range: i128 = if n == 1 {
        0x100
    } else if n == 2 {
        0x1_0000
    } else if n == 3 {
        0x100_0000
    } else if n == 4 {
        0x1_0000_0000
    } else if n == 5 {
        0x100_0000_0000
    } else if n == 6 {
        0x1_0000_0000_0000
    } else if n == 7 {
        0x100_0000_0000_0000
    } else {
        0x1_0000_0000_0000_0000
    };
    if 2 * (raw as i128) >= range {
        raw as i128 - range
    } else {
        raw as i128
    }
}

impl<const N: usize, const VALUE_BYTES: usize> LatestReportingTable<N, VALUE_BYTES> {
    /// At most `N` entries, no two for one attribute, no value over eight bytes.
    pub closed spec fn wf(&self) -> bool {
        &&& VALUE_BYTES <= 8
        &&& self.entries@.len() <= N
        &&& self@.distinct()
        &&& forall|i: int|
            0 <= i < self.entries@.len() ==> {
                let e = (#[trigger] self.entries@[i]).state();
                &&& e.change.len() <= 8
                &&& e.last_value matches Some(v) ==> v.len() <= 8
                &&& e.in_flight matches Some(v) ==> v.len() <= 8
            }
    }

    /// A table with nothing configured.
    pub fn new() -> (table: Self)
        requires
            VALUE_BYTES <= 8,
        ensures
            table.wf(),
            table@ == TableState::empty(),
    {
        let table = LatestReportingTable {
            entries: Vec::new(),
            diagnostics: ReportingDiagnostics::none(),
        };
        assert(table@.entries =~= Seq::empty());
        table
    }

    /// Where the attribute's entry stands.
    fn find(&self, attr_id: AttributeId) -> (found: Option<usize>)
        requires
            self.wf(),
        ensures
            match found {
                Some(i) => i < self.entries@.len() && self@.has(attr_id) && self@.slot(attr_id) == i
                    && self.entries@[i as int].attr_id == attr_id,
                None => !self@.has(attr_id),
            },
    {
        let mut i: usize = 0;
        while i < self.entries.len()
            invariant
                self.wf(),
                i <= self.entries@.len(),
                forall|k: int| 0 <= k < i ==> (#[trigger] self.entries@[k]).attr_id != attr_id,
            decreases self.entries@.len() - i,
        {
            if self.entries[i].attr_id == attr_id {
                proof {
                    assert(self@.is_slot(attr_id, i as int));
                    let s = self@.slot(attr_id);
                    assert(self@.is_slot(attr_id, s));
                    assert(s == i);
                }
                return Some(i);
            }
            i = i + 1;
        }
        assert forall|k: int| !self@.is_slot(attr_id, k) by {
            if 0 <= k < self.entries@.len() {
                assert(self.entries@[k].attr_id != attr_id);
            }
        }
        None
    }

    /// The attribute's value was updated.
    pub fn note_value_update(&mut self, attr_id: AttributeId)
        requires
            old(self).wf(),
        ensures
            final(self).wf(),
            final(self)@ == old(self)@.noted(attr_id),
    {
        if let Some(i) = self.find(attr_id) {
            if self.entries[i].pending {
                self.diagnostics.coalesced_updates =
                self.diagnostics.coalesced_updates.saturating_add(1);
            } else {
                self.entries[i].pending = true;
                assert(self@.entries =~= old(self)@.noted(attr_id).entries);
            }
        }
    }

    /// The report to send next at `now_ms`.
    pub fn next_due(&self, now_ms: u32) -> (found: Option<ReportCandidate>)
        requires
            self.wf(),
        ensures
            found == self@.next_due(now_ms),
            found matches Some(c) ==> c.token.0 == c.attr_id.0 && self@.has(c.attr_id),
    {
        let mut i: usize = 0;
        while i < self.entries.len()
            invariant
                self.wf(),
                i <= self.entries@.len(),
                self@.next_due(now_ms) == self@.first_due(now_ms, i as nat),
            decreases self.entries@.len() - i,
        {
            let e = &self.entries[i];
            let elapsed: u32 = now_ms.wrapping_sub(e.last_report_ms);
            proof {
                assert(self@.entries[i as int] == e.state());
                assert(self@.is_slot(e.attr_id, i as int));
            }
            if let Some(destination) = e.destination {
                if e.max_interval != 0 && elapsed >= e.max_interval as u32 * 1000 {
                    return Some(
                        ReportCandidate {
                            attr_id: e.attr_id,
                            token: ReportToken(e.attr_id.0),
                            destination,
                            due: ReportDue::Interval,
                        },
                    );
                }
                if e.pending && elapsed >= e.min_interval as u32 * 1000 {
                    return Some(
                        ReportCandidate {
                            attr_id: e.attr_id,
                            token: ReportToken(e.attr_id.0),
                            destination,
                            due: ReportDue::Change,
                        },
                    );
                }
            }
            i = i + 1;
        }
        None
    }

    /// The configuration request of a received record.
    pub open spec fn request_of(record: RecordFields, ctx: DispatchContext) -> ReportingRequest {
        ReportingRequest {
            attr_id: record.attr_id,
            attr_type: record.attr_type,
            min_interval: record.min_interval,
            max_interval: record.max_interval,
            change: record.reportable_change,
            destination: match ctx.source {
                Some(peer) => Some(ReportDestination::Unicast(peer)),
                None => None,
            },
            now_ms: ctx.now_ms,
        }
    }

    /// The state and status after a received record. A record that sets a
    /// receive timeout is refused: a server only sends reports.
    pub open spec fn configured_by(
        state: TableState,
        record: RecordFields,
        ctx: DispatchContext,
        list: Seq<AttrInfo>,
    ) -> (TableState, Status) {
        if record.direction != 0 {
            (state, Status::UnreportableAttribute)
        } else {
            state.configured(N as nat, VALUE_BYTES as nat, Self::request_of(record, ctx), list)
        }
    }

    /// Configure reporting as a received record asks.
    pub fn configure(
        &mut self,
        record: ConfigureReportingRecord<'_>,
        ctx: DispatchContext,
        list: &Vec<AttrInfo>,
    ) -> (status: Status)
        requires
            old(self).wf(),
            AttrInfo::sorted(list@),
        ensures
            final(self).wf(),
            (final(self)@, status) == Self::configured_by(
                old(self)@,
                record.fields(),
                ctx,
                list@,
            ),
    {
        if record.direction != 0 {
            return Status::UnreportableAttribute;
        }
        let destination: Option<ReportDestination> = match ctx.source {
            Some(peer) => Some(ReportDestination::Unicast(peer)),
            None => None,
        };
        let entry = ReportEntry {
            attr_id: record.attr_id,
            attr_type: record.attr_type,
            min_interval: record.min_interval,
            max_interval: record.max_interval,
            change: slice_to_vec(record.reportable_change),
            destination,
            last_report_ms: ctx.now_ms,
            pending: false,
            last_value: None,
            in_flight: None,
        };
        self.admit_entry(entry, list, Ghost(Self::request_of(record.fields(), ctx)))
    }

    /// The request to report an attribute to bound peers.
    pub open spec fn bound_request(
        attr_id: AttributeId,
        type_id: TypeId,
        min_interval: u16,
        max_interval: u16,
        now_ms: u32,
    ) -> ReportingRequest {
        ReportingRequest {
            attr_id,
            attr_type: type_id.code(),
            min_interval,
            max_interval,
            change: Seq::empty(),
            destination: Some(ReportDestination::Bound),
            now_ms,
        }
    }

    /// Configure reporting of an attribute to bound peers.
    pub fn configure_bound(
        &mut self,
        attr_id: AttributeId,
        type_id: TypeId,
        min_interval: u16,
        max_interval: u16,
        now_ms: u32,
        list: &Vec<AttrInfo>,
    ) -> (status: Status)
        requires
            old(self).wf(),
            AttrInfo::sorted(list@),
        ensures
            final(self).wf(),
            (final(self)@, status) == old(self)@.configured(
                N as nat,
                VALUE_BYTES as nat,
                Self::bound_request(attr_id, type_id, min_interval, max_interval, now_ms),
                list@,
            ),
    {
        let entry = ReportEntry {
            attr_id,
            attr_type: type_id.as_u8(),
            min_interval,
            max_interval,
            change: Vec::new(),
            destination: Some(ReportDestination::Bound),
            last_report_ms: now_ms,
            pending: false,
            last_value: None,
            in_flight: None,
        };
        self.admit_entry(
            entry,
            list,
            Ghost(Self::bound_request(attr_id, type_id, min_interval, max_interval, now_ms)),
        )
    }

    /// Check a new entry against the attribute list and take it in.
    fn admit_entry(
        &mut self,
        entry: ReportEntry,
        list: &Vec<AttrInfo>,
        request: Ghost<ReportingRequest>,
    ) -> (status: Status)
        requires
            old(self).wf(),
            AttrInfo::sorted(list@),
            entry.state() == fresh_entry(request@),
        ensures
            final(self).wf(),
            (final(self)@, status) == old(self)@.configured(
                N as nat,
                VALUE_BYTES as nat,
                request@,
                list@,
            ),
    {
        let info: AttrInfo = match lookup(list, entry.attr_id) {
            Some(info) => info,
            None => {
                return Status::UnsupportedAttribute;
            },
        };
        if !info.access.is_reportable() {
            return Status::UnreportableAttribute;
        }
        if info.type_id.as_u8() != entry.attr_type {
            return Status::InvalidDataType;
        }
        if entry.change.len() > VALUE_BYTES {
            return Status::InvalidValue;
        }
        let found: Option<usize> = self.find(entry.attr_id);
        if entry.max_interval == 0xffff {
            if let Some(i) = found {
                let _gone = self.entries.remove(i);
                assert(self@.entries =~= old(self)@.without(request@.attr_id).entries);
            }
            return Status::Success;
        }
        if entry.max_interval != 0 && entry.min_interval > entry.max_interval {
            return Status::InvalidValue;
        }
        match found {
            Some(i) => {
                self.entries.set(i, entry);
                assert(self@.entries =~= old(self)@.with_entry(
                    request@.attr_id,
                    fresh_entry(request@),
                ).entries);
                Status::Success
            },
            None => {
                if self.entries.len() >= N {
                    return Status::InsufficientSpace;
                }
                self.entries.push(entry);
                proof {
                    let before = old(self)@.entries;
                    assert(self@.entries =~= before.push(fresh_entry(request@)));
                    assert forall|i: int, j: int| 0 <= i < j < self@.entries.len() implies (
                    #[trigger] self@.entries[i]).attr_id != (#[trigger] self@.entries[j]).attr_id by {
                        if j == before.len() {
                            assert(!old(self)@.is_slot(request@.attr_id, i));
                        }
                    }
                }
                Status::Success
            },
        }
    }

    /// The value moved by less than the reportable change since the last report.
    pub fn is_below_threshold(&self, token: ReportToken, type_id: TypeId, current: &[u8]) -> (below:
        bool)
        requires
            self.wf(),
            current@.len() <= 8,
        ensures
            below == (self@.has(AttributeId(token.0)) && self@.entry(
                AttributeId(token.0),
            ).below_threshold(type_id, current@)),
    {
        let i: usize = match self.find(AttributeId(token.0)) {
            Some(i) => i,
            None => {
                return false;
            },
        };
        let e = &self.entries[i];
        assert(self@.entries[i as int] == e.state());
        let code: u8 = type_id.as_u8();
        if code < 0x20 || code > 0x2f || e.change.len() == 0 {
            return false;
        }
        match &e.last_value {
            None => false,
            Some(last) => {
                let moved: i128 = int_number(type_id, current) - int_number(
                    type_id,
                    last.as_slice(),
                );
                let distance: i128 = if moved < 0 {
                    -moved
                } else {
                    moved
                };
                distance < le_number(e.change.as_slice()) as i128
            },
        }
    }

    /// The report named by `token` was skipped.
    pub fn skip(&mut self, token: ReportToken, reason: ReportSkip)
        requires
            old(self).wf(),
        ensures
            final(self).wf(),
            final(self)@ == old(self)@.skipped(token, reason),
    {
        match reason {
            ReportSkip::BelowThreshold => {
                if let Some(i) = self.find(AttributeId(token.0)) {
                    self.entries[i].pending = false;
                    assert(self@.entries =~= old(self)@.skipped(token, reason).entries);
                }
            },
            ReportSkip::BufferTooSmall => {
                self.diagnostics.buffer_too_small = true;
            },
        }
    }

    /// `current` was put in the report named by `token`.
    pub fn record_value(&mut self, token: ReportToken, current: &[u8])
        requires
            old(self).wf(),
            current@.len() <= 8,
        ensures
            final(self).wf(),
            final(self)@ == old(self)@.recorded(token, current@),
    {
        if let Some(i) = self.find(AttributeId(token.0)) {
            self.entries[i].in_flight = Some(slice_to_vec(current));
            assert(self@.entries =~= old(self)@.recorded(token, current@).entries);
        }
    }

    /// Sending the report named by `token` came to `result`.
    pub fn complete(&mut self, token: ReportToken, result: ReportDeliveryResult, now_ms: u32)
        requires
            old(self).wf(),
        ensures
            final(self).wf(),
            final(self)@ == old(self)@.completed(token, result, now_ms),
    {
        if let Some(i) = self.find(AttributeId(token.0)) {
            let value: Option<Vec<u8>> = self.entries[i].in_flight.take();
            match result {
                ReportDeliveryResult::Sent => {
                    self.entries[i].pending = false;
                    self.entries[i].last_report_ms = now_ms;
                    if let Some(v) = value {
                        self.entries[i].last_value = Some(v);
                    }
                },
                ReportDeliveryResult::Deferred => {},
                ReportDeliveryResult::Failed => {
                    self.entries[i].pending = false;
                    self.entries[i].last_report_ms = now_ms;
                    self.diagnostics.dropped_reports =
                    self.diagnostics.dropped_reports.saturating_add(1);
                },
            }
            assert(self@.entries =~= old(self)@.completed(token, result, now_ms).entries);
        }
    }

    /// Hand out the counters and start them anew.
    pub fn take_diagnostics(&mut self) -> (d: ReportingDiagnostics)
        requires
            old(self).wf(),
        ensures
            final(self).wf(),
            d == old(self)@.diagnostics,
            final(self)@ == old(self)@.drained(),
    {
        let d: ReportingDiagnostics = self.diagnostics;
        self.diagnostics = ReportingDiagnostics::none();
        d
    }

    /// Answer a question about the attribute's reporting. Returns the number of
    /// bytes written.
    pub fn write_read_response_record(
        &self,
        attr_id: AttributeId,
        direction: u8,
        buf: &mut [u8],
    ) -> (n: usize)
        requires
            self.wf(),
        ensures
            prefix_written(self@.answer(attr_id, direction, old(buf)@.len()), old(buf)@, final(buf)@, n),
    {
        let ghost before = buf@;
        if direction % 2 == 0 {
            if let Some(i) = self.find(attr_id) {
                let e = &self.entries[i];
                assert(self@.entries[i as int] == e.state());
                let needed: usize = 9 + e.change.len();
                if buf.len() < needed {
                    assert(buf@ =~= Seq::<u8>::empty() + before.skip(0));
                    return 0;
                }
                buf[0] = 0;
                buf[1] = 0;
                buf[2] = low_byte(attr_id.0);
                buf[3] = high_byte(attr_id.0);
                buf[4] = e.attr_type;
                buf[5] = low_byte(e.min_interval);
                buf[6] = high_byte(e.min_interval);
                buf[7] = low_byte(e.max_interval);
                buf[8] = high_byte(e.max_interval);
                crate::bytes::copy_at(buf, 9, e.change.as_slice());
                assert(buf@ =~= self@.answer(attr_id, direction, before.len()) + before.skip(
                    needed as int,
                ));
                return needed;
            }
        }
        write_not_found(attr_id, direction, buf)
    }

    /// Send `candidate`, whose attribute reads as `value`: skip it where the value
    /// moved too little, else append a record to `out`.
    pub fn emit(
        &mut self,
        candidate: ReportCandidate,
        type_id: TypeId,
        value: &[u8],
        out: &mut ReportPayloadWriter<'_>,
    ) -> (r: Result<Option<ClusterReportReady>, ZclError>)
        requires
            old(self).wf(),
            old(out).wf(),
            value@.len() <= 8,
            candidate.token.0 == candidate.attr_id.0,
        ensures
            final(self).wf(),
            final(out).wf(),
            final(final(out).buf)@ == final(old(out).buf)@,
            final(out).capacity() == old(out).capacity(),
            same_from(old(out).buf@, final(out).buf@, final(out).len as int),
            (final(self)@, final(out).written(), r) == old(self)@.emitted(
                candidate,
                type_id,
                value@,
                old(out).written(),
                old(out).capacity(),
            ),
    {
        if candidate.due == ReportDue::Change && self.is_below_threshold(
            candidate.token,
            type_id,
            value,
        ) {
            self.skip(candidate.token, ReportSkip::BelowThreshold);
            return Ok(None);
        }
        match out.write_encoded(candidate.attr_id, type_id, value) {
            Err(e) => {
                self.skip(candidate.token, ReportSkip::BufferTooSmall);
                Err(e)
            },
            Ok(()) => {
                self.record_value(candidate.token, value);
                Ok(
                    Some(
                        ClusterReportReady {
                            destination: candidate.destination,
                            token: candidate.token,
                        },
                    ),
                )
            },
        }
    }
}

/// `n` is the length of `bytes`, and `after` is `before` with `bytes` written to
/// its front.
pub open spec fn prefix_written(bytes: Seq<u8>, before: Seq<u8>, after: Seq<u8>, n: usize) -> bool {
    &&& n == bytes.len()
    &&& bytes.len() <= before.len()
    &&& after == bytes + before.skip(n as int)
}

/// Write the record "no reporting is configured", where it fits.
pub fn write_not_found(attr_id: AttributeId, direction: u8, buf: &mut [u8]) -> (n: usize)
    ensures
        prefix_written(
            not_found_record(attr_id, direction, old(buf)@.len()),
            old(buf)@,
            final(buf)@,
            n,
        ),
{
    let ghost before = buf@;
    if buf.len() < 4 {
        assert(buf@ =~= Seq::<u8>::empty() + before.skip(0));
        return 0;
    }
    buf[0] = 0x8b;
    buf[1] = direction % 2;
    buf[2] = low_byte(attr_id.0);
    buf[3] = high_byte(attr_id.0);
    assert(buf@ =~= not_found_record(attr_id, direction, before.len()) + before.skip(4));
    4
}

/// The attribute's metadata in a sorted list.
fn lookup(list: &Vec<AttrInfo>, attr_id: AttributeId) -> (found: Option<AttrInfo>)
    requires
        AttrInfo::sorted(list@),
    ensures
        found == find_info(list@, attr_id),
{
    let mut i: usize = 0;
    while i < list.len()
        invariant
            AttrInfo::sorted(list@),
            i <= list@.len(),
            forall|k: int| 0 <= k < i ==> !#[trigger] is_info_at(list@, attr_id, k),
        decreases list@.len() - i,
    {
        if list[i].id == attr_id {
            proof {
                assert(is_info_at(list@, attr_id, i as int));
                let c = choose|k: int| is_info_at(list@, attr_id, k);
                assert(is_info_at(list@, attr_id, c));
                assert(list@[c].id.0 == list@[i as int].id.0);
                assert(c == i);
            }
            return Some(list[i]);
        }
        i = i + 1;
    }
    None
}

/// A table has at most `N` entries, and no two for one attribute.
pub proof fn law_table_is_bounded<const N: usize, const VALUE_BYTES: usize>(
    table: LatestReportingTable<N, VALUE_BYTES>,
)
    requires
        table.wf(),
    ensures
        table@.entries.len() <= N,
        table@.distinct(),
{
    assert(table@.entries.len() == table.entries@.len());
}

} // verus!
