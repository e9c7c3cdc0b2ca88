//! The interface of a cluster server.

use vstd::prelude::*;

use crate::bytes::same_from;
use crate::context::ClusterReportReady;
use crate::context::ClusterTick;
use crate::context::CommandResult;
use crate::context::ConfigureReportingRecord;
use crate::context::DispatchContext;
use crate::context::DispatchEffects;
use crate::context::RecordFields;
use crate::context::ReportDeliveryResult;
use crate::context::ReportToken;
use crate::context::ReportingDiagnostics;
use crate::frame::Status;
use crate::reporting::ReportPayloadWriter;
use crate::types::codec::ReadSpec;
use crate::types::descriptors::AttrInfo;
use crate::types::error::AttrError;
use crate::types::error::ZclError;
use crate::types::ids::AttributeId;
use crate::types::ids::CommandId;
use crate::types::ids::ManufacturerCode;
use crate::types::ids::TypeId;

verus! {

/// The server side of a cluster.
///
/// The specification functions say what each method does: those that only look
/// at the server give the result, and those that change it relate the server
/// before and after to the result. The bodies given here describe a cluster that
/// has nothing of the kind.
pub trait ClusterServer: Sized {
    const CLUSTER_ID: u16;

    const MANUFACTURER_CODE: Option<ManufacturerCode> = None;

    /// The server is in a valid state.
    open spec fn wf(&self) -> bool {
        true
    }

    /// What reading an attribute into a buffer of `cap` bytes gives.
    open spec fn attr(&self, id: AttributeId, cap: nat) -> ReadSpec {
        Err(AttrError::UnsupportedAttribute)
    }

    /// What checking a write gives. An attribute that exists is read-only.
    open spec fn write_check(&self, id: AttributeId, type_id: TypeId, data: Seq<u8>) -> Result<
        (),
        AttrError,
    > {
        if self.attr(id, 0) == Err::<(TypeId, Seq<u8>), AttrError>(AttrError::UnsupportedAttribute) {
            Err(AttrError::UnsupportedAttribute)
        } else {
            Err(AttrError::ReadOnly)
        }
    }

    /// A write took `pre` to `post` with result `r`.
    open spec fn wrote(
        pre: Self,
        id: AttributeId,
        type_id: TypeId,
        data: Seq<u8>,
        post: Self,
        r: Result<(), AttrError>,
    ) -> bool {
        post == pre && r == Err::<(), AttrError>(AttrError::UnsupportedAttribute)
    }

    /// A command took `pre` to `post` with result `r`, and a buffer from
    /// `before` to `body`.
    open spec fn handled(
        pre: Self,
        id: CommandId,
        payload: Seq<u8>,
        ctx: DispatchContext,
        before: Seq<u8>,
        post: Self,
        body: Seq<u8>,
        r: Result<CommandResult, ZclError>,
    ) -> bool {
        post == pre && body == before && r == Ok::<CommandResult, ZclError>(
            CommandResult::DefaultResponse(Status::UnsupCommand),
        )
    }

    /// Advancing to `now_ms` took `pre` to `post` with result `r`.
    open spec fn ticked(pre: Self, now_ms: u32, post: Self, r: ClusterTick) -> bool {
        post == pre && r == ClusterTick::idle_tick()
    }

    /// Draining the pending effects took `pre` to `post` with result `r`.
    open spec fn drained(pre: Self, post: Self, r: DispatchEffects) -> bool {
        post == pre && r == DispatchEffects::nothing()
    }

    /// The snapshot of the state, where it fits `cap` bytes.
    open spec fn snapshot_bytes(&self, cap: nat) -> Seq<u8> {
        Seq::empty()
    }

    /// Restoring snapshot `data` took `pre` to `post`.
    open spec fn restored(pre: Self, data: Seq<u8>, post: Self) -> bool {
        post == pre
    }

    /// A reporting configuration record took `pre` to `post` with status `r`.
    open spec fn reporting_set(
        pre: Self,
        record: RecordFields,
        ctx: DispatchContext,
        post: Self,
        r: Status,
    ) -> bool {
        post == pre && r == Status::UnreportableAttribute
    }

    /// Collecting a due report took `pre` to `post` and a payload of at most `cap`
    /// bytes from `out` to `sent`, with result `r`.
    open spec fn collected(
        pre: Self,
        now_ms: u32,
        out: Seq<u8>,
        cap: nat,
        post: Self,
        sent: Seq<u8>,
        r: Result<Option<ClusterReportReady>, ZclError>,
    ) -> bool {
        post == pre && sent == out && r == Ok::<Option<ClusterReportReady>, ZclError>(None)
    }

    /// The outcome of sending a report took `pre` to `post`.
    open spec fn delivered(
        pre: Self,
        token: ReportToken,
        result: ReportDeliveryResult,
        now_ms: u32,
        post: Self,
    ) -> bool {
        post == pre
    }

    /// Draining the reporting diagnostics took `pre` to `post` with result `r`.
    open spec fn diagnosed(pre: Self, post: Self, r: ReportingDiagnostics) -> bool {
        post == pre && r == ReportingDiagnostics::nothing()
    }

    /// The record that answers a question about an attribute's reporting.
    open spec fn reporting_answer(&self, attr_id: AttributeId, direction: u8, cap: nat) -> Seq<
        u8,
    > {
        crate::reporting::not_found_record(attr_id, direction, cap)
    }

    /// The attributes, ascending by identifier.
    open spec fn attribute_infos() -> Seq<AttrInfo> {
        Seq::empty()
    }

    /// The accepted commands, ascending.
    open spec fn received_ids() -> Seq<CommandId> {
        Seq::empty()
    }

    /// The generated commands, ascending.
    open spec fn generated_ids() -> Seq<CommandId> {
        Seq::empty()
    }

    /// Encode an attribute's value to the front of `buf`.
    fn read_attribute(&self, id: AttributeId, buf: &mut [u8]) -> (r: Result<
        (TypeId, usize),
        AttrError,
    >)
        requires
            self.wf(),
        ensures
            crate::types::codec::read_into_matches(
                self.attr(id, old(buf)@.len()),
                old(buf)@,
                final(buf)@,
                r,
            ),
    ;

    /// Validate an incoming write without mutating state. Used by
    /// `WriteAttributesUndivided`.
    fn check_write_attribute(&self, id: AttributeId, type_id: TypeId, data: &[u8]) -> (r: Result<
        (),
        AttrError,
    >)
        requires
            self.wf(),
        ensures
            r == self.write_check(id, type_id, data@),
    ;

    /// Write an attribute.
    fn write_attribute(&mut self, id: AttributeId, type_id: TypeId, data: &[u8]) -> (r: Result<
        (),
        AttrError,
    >)
        requires
            old(self).wf(),
        ensures
            final(self).wf(),
            Self::wrote(*old(self), id, type_id, data@, *final(self), r),
    ;

    /// Handle a cluster-specific command. A response payload goes to the front of
    /// `buf`; nothing else is put into it.
    fn handle_command(
        &mut self,
        id: CommandId,
        payload: &[u8],
        ctx: DispatchContext,
        buf: &mut [u8],
    ) -> (r: Result<CommandResult, ZclError>)
        requires
            old(self).wf(),
        ensures
            final(self).wf(),
            final(buf)@.len() == old(buf)@.len(),
            Self::handled(
                *old(self),
                id,
                payload@,
                ctx,
                old(buf)@,
                *final(self),
                final(buf)@,
                r,
            ),
            r matches Ok(result) ==> result.leaves(old(buf)@, final(buf)@),
    ;

    /// Advance the state to `now_ms` and return the tightest deadline at which it
    /// next changes.
    fn tick(&mut self, now_ms: u32) -> (r: ClusterTick)
        requires
            old(self).wf(),
        ensures
            final(self).wf(),
            Self::ticked(*old(self), now_ms, *final(self), r),
    ;

    /// Drain the effects of the last handled command.
    fn take_dispatch_effects(&mut self) -> (r: DispatchEffects)
        requires
            old(self).wf(),
        ensures
            final(self).wf(),
            Self::drained(*old(self), *final(self), r),
    ;

    /// Serialize the mutable state to the front of `buf`. Returns the number of
    /// bytes written: 0 for a stateless cluster, or where the state does not fit.
    fn snapshot(&self, buf: &mut [u8]) -> (n: usize)
        requires
            self.wf(),
        ensures
            crate::reporting::prefix_written(
                self.snapshot_bytes(old(buf)@.len()),
                old(buf)@,
                final(buf)@,
                n,
            ),
    ;

    /// Restore the state from a snapshot. Ignores malformed or truncated data.
    fn restore_snapshot(&mut self, buf: &[u8])
        requires
            old(self).wf(),
        ensures
            final(self).wf(),
            Self::restored(*old(self), buf@, *final(self)),
    ;

    /// Handle one record of a `ConfigureReporting` frame. Any status but success
    /// goes back to the requester as a per-record failure.
    fn configure_reporting(
        &mut self,
        record: ConfigureReportingRecord<'_>,
        ctx: DispatchContext,
    ) -> (r: Status)
        requires
            old(self).wf(),
        ensures
            final(self).wf(),
            Self::reporting_set(*old(self), record.fields(), ctx, *final(self), r),
    ;

    /// Append a due report to `out`, if there is one. What is behind it in the buffer
    /// stays.
    fn collect_reports(&mut self, now_ms: u32, out: &mut ReportPayloadWriter<'_>) -> (r: Result<
        Option<ClusterReportReady>,
        ZclError,
    >)
        requires
            old(self).wf(),
            old(out).wf(),
        ensures
            final(self).wf(),
            final(out).wf(),
            final(final(out).buf)@ == final(old(out).buf)@,
            final(out).capacity() == old(out).capacity(),
            same_from(old(out).buf@, final(out).buf@, final(out).len as int),
            Self::collected(
                *old(self),
                now_ms,
                old(out).written(),
                old(out).capacity(),
                *final(self),
                final(out).written(),
                r,
            ),
    ;

    /// Take note of the outcome of sending a report.
    fn report_delivery_result(
        &mut self,
        token: ReportToken,
        result: ReportDeliveryResult,
        now_ms: u32,
    )
        requires
            old(self).wf(),
        ensures
            final(self).wf(),
            Self::delivered(*old(self), token, result, now_ms, *final(self)),
    ;

    /// Drain the reporting diagnostics.
    fn take_reporting_diagnostics(&mut self) -> (r: ReportingDiagnostics)
        requires
            old(self).wf(),
        ensures
            final(self).wf(),
            Self::diagnosed(*old(self), *final(self), r),
    ;

    /// Answer a question about an attribute's reporting to the front of `buf`.
    /// Returns the number of bytes written.
    fn read_reporting_config(&self, attr_id: AttributeId, direction: u8, buf: &mut [u8]) -> (n:
        usize)
        requires
            self.wf(),
        ensures
            crate::reporting::prefix_written(
                self.reporting_answer(attr_id, direction, old(buf)@.len()),
                old(buf)@,
                final(buf)@,
                n,
            ),
    ;

    /// Attribute metadata for attribute discovery.
    fn attribute_list() -> (list: Vec<AttrInfo>)
        ensures
            list@ == Self::attribute_infos(),
            AttrInfo::sorted(list@),
    ;

    /// Commands that this server accepts.
    fn commands_received() -> (list: Vec<CommandId>)
        ensures
            list@ == Self::received_ids(),
            CommandId::sorted(list@),
    ;

    /// Commands that this server can generate.
    fn commands_generated() -> (list: Vec<CommandId>)
        ensures
            list@ == Self::generated_ids(),
            CommandId::sorted(list@),
    ;
}

} // verus!
