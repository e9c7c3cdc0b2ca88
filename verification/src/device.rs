//! Devices: endpoints and the cluster servers on them.

use vstd::prelude::*;
use vstd::slice::slice_to_vec;

use crate::bytes::copy_at;
use crate::bytes::push_bytes;
use crate::bytes::push_u16_le;
use crate::bytes::read_u16;
use crate::bytes::same_from;
use crate::bytes::Le;
use crate::cluster_server::ClusterServer;
use crate::context::ClusterReportReady;
use crate::context::ClusterTick;
use crate::context::DeviceTick;
use crate::context::DispatchContext;
use crate::context::DispatchOutcome;
use crate::context::ReportDeliveryResult;
use crate::context::ReportReady;
use crate::context::ReportToken;
use crate::context::ReportingDiagnostics;
use crate::dispatch::zcl_cluster_dispatch;
use crate::dispatch::Dispatch;
use crate::frame::IncomingZclFrame;
use crate::reporting::ReportPayloadWriter;
use crate::types::descriptors::ClusterKey;
use crate::types::error::ZclError;
use crate::types::ids::ClusterId;

verus! {

/// Why a frame could not be dispatched to a cluster server.
#[derive(Clone, Copy, Debug, PartialEq, Eq, Structural)]
pub enum DispatchError {
    UnsupportedEndpoint,
    UnsupportedCluster,
    Codec(ZclError),
}

impl From<ZclError> for DispatchError {
    fn from(e: ZclError) -> (error: Self) {
        DispatchError::Codec(e)
    }
}

impl vstd::std_specs::convert::FromSpecImpl<ZclError> for DispatchError {
    open spec fn obeys_from_spec() -> bool {
        true
    }

    open spec fn from_spec(e: ZclError) -> Self {
        DispatchError::Codec(e)
    }
}

/// One endpoint of a device, as device discovery describes it.
#[derive(Clone, Copy, Debug)]
pub struct EndpointDescriptor {
    pub endpoint: u8,
    pub profile_id: u16,
    pub device_id: u16,
    pub device_version: u8,
    pub input_clusters: &'static [ClusterId],
    pub output_clusters: &'static [ClusterId],
}

/// The descriptor of an endpoint.
pub type SimpleDescriptor = EndpointDescriptor;

impl EndpointDescriptor {
    pub open spec fn is_first(list: Seq<EndpointDescriptor>, endpoint: u8, i: int) -> bool {
        &&& 0 <= i < list.len()
        &&& list[i].endpoint == endpoint
        &&& forall|k: int| 0 <= k < i ==> (#[trigger] list[k]).endpoint != endpoint
    }

    /// The endpoint is one of the list.
    pub open spec fn listed(list: Seq<EndpointDescriptor>, endpoint: u8) -> bool {
        exists|i: int| Self::is_first(list, endpoint, i)
    }
}

/// Identifies a cluster server within a device.
#[derive(Clone, Copy, Debug, PartialEq, Eq, Structural)]
pub struct ServerMeta {
    pub endpoint: u8,
    pub profile_id: u16,
    pub cluster: ClusterKey,
}

impl ServerMeta {
    /// A server of a cluster that is not manufacturer-specific.
    pub open spec fn of(endpoint: u8, profile_id: u16, cluster: u16) -> Self {
        ServerMeta {
            endpoint,
            profile_id,
            cluster: ClusterKey { id: ClusterId(cluster), manufacturer_code: None },
        }
    }

    pub fn new(endpoint: u8, profile_id: u16, cluster: u16) -> (meta: Self)
        ensures
            meta == Self::of(endpoint, profile_id, cluster),
    {
        ServerMeta {
            endpoint,
            profile_id,
            cluster: ClusterKey::new(ClusterId(cluster), None),
        }
    }
}

/// Everything that is needed to dispatch one incoming frame to a cluster server.
#[derive(Clone, Copy)]
pub struct ClusterRequest<'a> {
    pub endpoint: u8,
    pub cluster: ClusterKey,
    pub ctx: DispatchContext,
    pub frame: &'a IncomingZclFrame<'a>,
}

/// What a visit did to a server: which of the things that can be done to a server
/// lead from its state before the visit to its state after.
pub struct ServerStep {
    /// Nothing was done.
    pub kept: bool,
    /// A frame was dispatched: the frame, its context, the buffer before and after,
    /// and the outcome.
    pub dispatched: spec_fn(
        IncomingZclFrame<'static>,
        DispatchContext,
        Seq<u8>,
        Seq<u8>,
        Result<DispatchOutcome, ZclError>,
    ) -> bool,
    /// The server was advanced to a time, with what came of it.
    pub ticked: spec_fn(u32, ClusterTick) -> bool,
    /// A due report was collected: the time, the room for it, its payload and the
    /// result.
    pub collected: spec_fn(
        u32,
        nat,
        Seq<u8>,
        Result<Option<ClusterReportReady>, ZclError>,
    ) -> bool,
    /// The server was told how sending a report went, and when.
    pub delivered: spec_fn(ReportToken, ReportDeliveryResult, u32) -> bool,
    /// The reporting diagnostics were drained.
    pub diagnosed: spec_fn(ReportingDiagnostics) -> bool,
    /// The snapshot before the visit, in a buffer of a given size.
    pub snapshot: spec_fn(nat) -> Seq<u8>,
    /// A snapshot was restored.
    pub restored: spec_fn(Seq<u8>) -> bool,
}

impl ServerStep {
    /// The step from `server` to `after`.
    pub open spec fn of<C: ClusterServer>(server: C, after: C) -> Self {
        ServerStep {
            kept: after == server,
            dispatched: |
                frame: IncomingZclFrame<'static>,
                ctx: DispatchContext,
                before: Seq<u8>,
                buf: Seq<u8>,
                r: Result<DispatchOutcome, ZclError>,
            | Dispatch::done(server, frame, ctx, before, after, buf, r),
            ticked: |now_ms: u32, tick: ClusterTick| C::ticked(server, now_ms, after, tick),
            collected: |
                now_ms: u32,
                cap: nat,
                sent: Seq<u8>,
                r: Result<Option<ClusterReportReady>, ZclError>,
            | C::collected(server, now_ms, Seq::empty(), cap, after, sent, r),
            delivered: |token: ReportToken, result: ReportDeliveryResult, now_ms: u32|
                C::delivered(server, token, result, now_ms, after),
            diagnosed: |d: ReportingDiagnostics| C::diagnosed(server, after, d),
            snapshot: |cap: nat| server.snapshot_bytes(cap),
            restored: |data: Seq<u8>| C::restored(server, data, after),
        }
    }
}

/// Walks through the cluster servers of a device and does something at each.
///
/// The specification function given here promises nothing of a visitor.
pub trait DeviceServerVisitor: Sized {
    /// Visiting a server took the visitor from `pre` to `post` and did `step` to the
    /// server.
    open spec fn made(pre: Self, meta: ServerMeta, step: ServerStep, post: Self) -> bool {
        true
    }

    fn visit<C: ClusterServer>(&mut self, meta: ServerMeta, server: &mut C)
        requires
            old(server).wf(),
        ensures
            final(server).wf(),
            Self::made(
                *old(self),
                meta,
                ServerStep::of(*old(server), *final(server)),
                *final(self),
            ),
    ;
}

/// A device: its endpoints and the cluster servers on them.
///
/// The specification functions given here describe a device without servers.
pub trait Device: Sized {
    /// The servers are in valid states.
    open spec fn wf(&self) -> bool {
        true
    }

    open spec fn endpoint_list(&self) -> Seq<EndpointDescriptor> {
        Seq::empty()
    }

    /// Doing `steps` to the servers, in turn, takes `pre` to `post`.
    open spec fn toured(pre: Self, steps: Seq<(ServerMeta, ServerStep)>, post: Self) -> bool {
        steps.len() == 0 && post == pre
    }

    fn endpoints(&self) -> (list: &'static [EndpointDescriptor])
        ensures
            list@ == self.endpoint_list(),
    ;

    /// Hand every server to the visitor, in turn.
    fn visit_servers<V: DeviceServerVisitor>(&mut self, visitor: &mut V)
        requires
            old(self).wf(),
        ensures
            final(self).wf(),
            exists|steps: Seq<(ServerMeta, ServerStep)>| #[trigger]
                Self::toured(*old(self), steps, *final(self)) && Tour::walked(
                    *old(visitor),
                    steps,
                    *final(visitor),
                ),
    ;
}

/// Dispatches a frame to the server that it is for.
pub struct DispatchVisitor<'a> {
    pub request: ClusterRequest<'a>,
    pub buf: Vec<u8>,
    pub result: Option<Result<DispatchOutcome, ZclError>>,
}

impl<'a> DispatchVisitor<'a> {
    /// The frame is for this server.
    pub open spec fn wants(self, meta: ServerMeta) -> bool {
        &&& self.result is None
        &&& meta.endpoint == self.request.endpoint
        &&& meta.cluster == self.request.cluster
    }

    /// The response lies within the buffer.
    pub open spec fn within(self) -> bool {
        self.result matches Some(Ok(outcome)) ==> outcome.response_len <= self.buf@.len()
    }
}

impl<'a> DeviceServerVisitor for DispatchVisitor<'a> {
    open spec fn made(pre: Self, meta: ServerMeta, step: ServerStep, post: Self) -> bool {
        if pre.wants(meta) {
            &&& post.request == pre.request
            &&& post.buf@.len() == pre.buf@.len()
            &&& post.within()
            &&& post.result is Some
            &&& (step.dispatched)(
                *pre.request.frame,
                pre.request.ctx,
                pre.buf@,
                post.buf@,
                post.result->0,
            )
        } else {
            post == pre && step.kept
        }
    }

    fn visit<C: ClusterServer>(&mut self, meta: ServerMeta, server: &mut C) {
        if self.result.is_some() {
            return;
        }
        if meta.endpoint != self.request.endpoint || meta.cluster != self.request.cluster {
            return;
        }
        self.result =
        Some(
            zcl_cluster_dispatch(
                server,
                self.request.frame,
                self.request.ctx,
                self.buf.as_mut_slice(),
            ),
        );
    }
}

/// Advances every server.
pub struct TickVisitor {
    pub now_ms: u32,
    pub tick: DeviceTick,
}

impl DeviceServerVisitor for TickVisitor {
    open spec fn made(pre: Self, meta: ServerMeta, step: ServerStep, post: Self) -> bool {
        exists|t: ClusterTick| #[trigger]
            (step.ticked)(pre.now_ms, t) && post == (TickVisitor {
                tick: pre.tick.after(t, pre.now_ms),
                ..pre
            })
    }

    fn visit<C: ClusterServer>(&mut self, _meta: ServerMeta, server: &mut C) {
        let ghost before = *server;
        let tick: ClusterTick = server.tick(self.now_ms);
        self.tick = self.tick.absorb(tick, self.now_ms);
        assert((ServerStep::of(before, *server).ticked)(old(self).now_ms, tick));
    }
}

/// Collects the first due report.
pub struct CollectReportVisitor {
    pub now_ms: u32,
    pub buf: Vec<u8>,
    pub result: Option<Result<ReportReady, ZclError>>,
}

impl CollectReportVisitor {
    /// A report that a server has ready.
    pub open spec fn ready(meta: ServerMeta, ready: ClusterReportReady, len: nat) -> ReportReady {
        ReportReady {
            destination: ready.destination,
            token: ready.token,
            endpoint: meta.endpoint,
            profile_id: meta.profile_id,
            cluster: meta.cluster,
            len: len as usize,
        }
    }

    /// The report lies within the buffer.
    pub open spec fn within(self) -> bool {
        self.result matches Some(Ok(ready)) ==> ready.len <= self.buf@.len()
    }

    /// Collecting from a server put `sent` into the buffer, with result `r`.
    pub open spec fn collected(
        pre: Self,
        meta: ServerMeta,
        step: ServerStep,
        post: Self,
        sent: Seq<u8>,
        r: Result<Option<ClusterReportReady>, ZclError>,
    ) -> bool {
        &&& (step.collected)(pre.now_ms, pre.buf@.len(), sent, r)
        &&& post.now_ms == pre.now_ms
        &&& post.result == match r {
            Err(e) => Some(Err(e)),
            Ok(None) => None,
            Ok(Some(ready)) => Some(Ok(Self::ready(meta, ready, sent.len()))),
        }
        &&& post.within()
        &&& sent.len() <= pre.buf@.len()
        &&& post.buf@.take(sent.len() as int) == sent
        &&& same_from(pre.buf@, post.buf@, sent.len() as int)
    }
}

impl DeviceServerVisitor for CollectReportVisitor {
    open spec fn made(pre: Self, meta: ServerMeta, step: ServerStep, post: Self) -> bool {
        if pre.result is None {
            exists|sent: Seq<u8>, r: Result<Option<ClusterReportReady>, ZclError>| #[trigger]
                Self::collected(pre, meta, step, post, sent, r)
        } else {
            post == pre && step.kept
        }
    }

    fn visit<C: ClusterServer>(&mut self, meta: ServerMeta, server: &mut C) {
        if self.result.is_some() {
            return;
        }
        let ghost cap = self.buf@.len();
        let mut writer = ReportPayloadWriter::new(self.buf.as_mut_slice());
        assert(writer.written() =~= Seq::empty());
        let r: Result<Option<ClusterReportReady>, ZclError> = server.collect_reports(
            self.now_ms,
            &mut writer,
        );
        let len: usize = writer.len();
        let ghost sent = writer.written();
        let ghost step = ServerStep::of(*old(server), *server);
        assert((step.collected)(self.now_ms, cap, sent, r));
        match r {
            Err(e) => {
                self.result = Some(Err(e));
            },
            Ok(None) => {},
            Ok(Some(ready)) => {
                self.result =
                Some(
                    Ok(
                        ReportReady {
                            destination: ready.destination,
                            token: ready.token,
                            endpoint: meta.endpoint,
                            profile_id: meta.profile_id,
                            cluster: meta.cluster,
                            len,
                        },
                    ),
                );
            },
        }
        assert(Self::collected(*old(self), meta, step, *self, sent, r));
    }
}

/// Tells a server the outcome of sending its report.
pub struct ReportDeliveryVisitor {
    pub endpoint: u8,
    pub cluster: ClusterKey,
    pub token: ReportToken,
    pub result: ReportDeliveryResult,
    pub now_ms: u32,
}

impl DeviceServerVisitor for ReportDeliveryVisitor {
    open spec fn made(pre: Self, meta: ServerMeta, step: ServerStep, post: Self) -> bool {
        post == pre && if meta.endpoint == pre.endpoint && meta.cluster == pre.cluster {
            (step.delivered)(pre.token, pre.result, pre.now_ms)
        } else {
            step.kept
        }
    }

    fn visit<C: ClusterServer>(&mut self, meta: ServerMeta, server: &mut C) {
        if meta.endpoint == self.endpoint && meta.cluster == self.cluster {
            server.report_delivery_result(self.token, self.result, self.now_ms);
        }
    }
}

/// Drains the reporting diagnostics of every server.
pub struct DiagnosticsVisitor {
    pub diagnostics: ReportingDiagnostics,
}

impl DeviceServerVisitor for DiagnosticsVisitor {
    open spec fn made(pre: Self, meta: ServerMeta, step: ServerStep, post: Self) -> bool {
        exists|d: ReportingDiagnostics| #[trigger]
            (step.diagnosed)(d) && post.diagnostics == pre.diagnostics.merged(d)
    }

    fn visit<C: ClusterServer>(&mut self, _meta: ServerMeta, server: &mut C) {
        let ghost before = *server;
        let d: ReportingDiagnostics = server.take_reporting_diagnostics();
        self.diagnostics = self.diagnostics.merge(d);
        assert((ServerStep::of(before, *server).diagnosed)(d));
    }
}

/// Saves the state of every server.
pub struct SaveStateVisitor {
    /// The saved records.
    pub saved: Vec<u8>,
}

impl SaveStateVisitor {
    /// The saved record of a server with snapshot `data`; none for an empty one.
    pub open spec fn record(meta: ServerMeta, data: Seq<u8>) -> Seq<u8> {
        if data.len() == 0 {
            Seq::empty()
        } else {
            Le::u16(meta.cluster.id.0) + seq![meta.endpoint] + Le::u16(data.len() as u16) + data
        }
    }
}

impl DeviceServerVisitor for SaveStateVisitor {
    open spec fn made(pre: Self, meta: ServerMeta, step: ServerStep, post: Self) -> bool {
        step.kept && post.saved@ == pre.saved@ + Self::record(meta, (step.snapshot)(256))
    }

    fn visit<C: ClusterServer>(&mut self, meta: ServerMeta, server: &mut C) {
        let ghost data = server.snapshot_bytes(256);
        let ghost before = self.saved@;
        let mut buf: Vec<u8> = vec![0u8; 256];
        let n: usize = server.snapshot(buf.as_mut_slice());
        if n == 0 {
            assert(self.saved@ =~= before + Self::record(meta, data));
            return;
        }
        push_u16_le(&mut self.saved, meta.cluster.id.0);
        self.saved.push(meta.endpoint);
        push_u16_le(&mut self.saved, n as u16);
        push_bytes(&mut self.saved, &buf[0..n]);
        assert(buf@.subrange(0, n as int) =~= data);
        assert(self.saved@ =~= before + Self::record(meta, data));
    }
}

/// Restores the state of one server.
pub struct RestoreStateVisitor<'a> {
    pub cluster_id: u16,
    pub endpoint: u8,
    pub data: &'a [u8],
}

impl<'a> DeviceServerVisitor for RestoreStateVisitor<'a> {
    open spec fn made(pre: Self, meta: ServerMeta, step: ServerStep, post: Self) -> bool {
        post == pre && if meta.cluster.id.0 == pre.cluster_id && meta.endpoint == pre.endpoint {
            (step.restored)(pre.data@)
        } else {
            step.kept
        }
    }

    fn visit<C: ClusterServer>(&mut self, meta: ServerMeta, server: &mut C) {
        if meta.cluster.id.0 == self.cluster_id && meta.endpoint == self.endpoint {
            server.restore_snapshot(self.data);
        }
    }
}

/// Where the endpoint's descriptor stands.
fn find_endpoint(list: &[EndpointDescriptor], endpoint: u8) -> (found: Option<usize>)
    ensures
        match found {
            Some(i) => EndpointDescriptor::is_first(list@, endpoint, i as int),
            None => !EndpointDescriptor::listed(list@, endpoint),
        },
{
    let mut i: usize = 0;
    while i < list.len()
        invariant
            i <= list@.len(),
            forall|k: int| 0 <= k < i ==> (#[trigger] list@[k]).endpoint != endpoint,
        decreases list@.len() - i,
    {
        if list[i].endpoint == endpoint {
            return Some(i);
        }
        i = i + 1;
    }
    None
}

/// Specification functions of operations on a whole device.
pub struct Tour;

impl Tour {
    /// The visitor is in the given states between the servers, as `steps` are done
    /// to them.
    pub open spec fn stops<V: DeviceServerVisitor>(
        v: V,
        steps: Seq<(ServerMeta, ServerStep)>,
        w: V,
        states: Seq<V>,
    ) -> bool {
        &&& states.len() == steps.len() + 1
        &&& states[0] == v
        &&& states[steps.len() as int] == w
        &&& forall|i: int|
            0 <= i < steps.len() ==> V::made(
                states[i],
                (#[trigger] steps[i]).0,
                steps[i].1,
                states[i + 1],
            )
    }

    /// Doing `steps` to the servers, in turn, takes a visitor from `v` to `w`.
    pub open spec fn walked<V: DeviceServerVisitor>(
        v: V,
        steps: Seq<(ServerMeta, ServerStep)>,
        w: V,
    ) -> bool {
        exists|states: Seq<V>| #[trigger] Self::stops(v, steps, w, states)
    }

    /// A tour of the servers took `pre` to `post` and the visitor from `v` to `w`.
    pub open spec fn made<D: Device, V: DeviceServerVisitor>(pre: D, v: V, post: D, w: V) -> bool {
        exists|steps: Seq<(ServerMeta, ServerStep)>| #[trigger]
            D::toured(pre, steps, post) && Self::walked(v, steps, w)
    }

    /// Dispatching `request` took `pre` to `post` with result `r`, and a buffer
    /// from `before` to `after`.
    pub open spec fn dispatched<D: Device>(
        pre: D,
        request: ClusterRequest<'_>,
        before: Seq<u8>,
        post: D,
        after: Seq<u8>,
        r: Result<DispatchOutcome, DispatchError>,
    ) -> bool {
        if !EndpointDescriptor::listed(pre.endpoint_list(), request.endpoint) {
            &&& post == pre
            &&& after == before
            &&& r == Err::<DispatchOutcome, DispatchError>(DispatchError::UnsupportedEndpoint)
        } else {
            exists|v: DispatchVisitor<'_>, w: DispatchVisitor<'_>| #[trigger]
                Self::made(pre, v, post, w) && v.request == request && v.buf@ == before && v.result
                    is None && after == w.buf@ && r == match w.result {
                    Some(Ok(outcome)) => Ok(outcome),
                    Some(Err(e)) => Err(DispatchError::Codec(e)),
                    None => Err(DispatchError::UnsupportedCluster),
                }
        }
    }

    /// Advancing every server to `now_ms` took `pre` to `post` with result `tick`.
    pub open spec fn ticked<D: Device>(pre: D, now_ms: u32, post: D, tick: DeviceTick) -> bool {
        exists|w: TickVisitor| #[trigger]
            Self::made(
                pre,
                TickVisitor { now_ms, tick: DeviceTick { changed: false, next_tick_ms: None } },
                post,
                w,
            ) && tick == w.tick
    }

    /// Collecting the next due report took `pre` to `post` with result `r`, and a
    /// buffer from `before` to `after`.
    pub open spec fn collected<D: Device>(
        pre: D,
        now_ms: u32,
        before: Seq<u8>,
        post: D,
        after: Seq<u8>,
        r: Result<Option<ReportReady>, ZclError>,
    ) -> bool {
        exists|v: CollectReportVisitor, w: CollectReportVisitor| #[trigger]
            Self::made(pre, v, post, w) && v.now_ms == now_ms && v.buf@ == before && v.result
                is None && after == w.buf@ && r == match w.result {
                Some(Ok(ready)) => Ok(Some(ready)),
                Some(Err(e)) => Err(e),
                None => Ok(None),
            }
    }

    /// The outcome of sending a report took `pre` to `post`.
    pub open spec fn delivered<D: Device>(
        pre: D,
        ready: ReportReady,
        result: ReportDeliveryResult,
        now_ms: u32,
        post: D,
    ) -> bool {
        exists|w: ReportDeliveryVisitor| #[trigger]
            Self::made(
                pre,
                ReportDeliveryVisitor {
                    endpoint: ready.endpoint,
                    cluster: ready.cluster,
                    token: ready.token,
                    result,
                    now_ms,
                },
                post,
                w,
            )
    }

    /// Draining the reporting diagnostics took `pre` to `post` with result `d`.
    pub open spec fn diagnosed<D: Device>(pre: D, post: D, d: ReportingDiagnostics) -> bool {
        exists|w: DiagnosticsVisitor| #[trigger]
            Self::made(
                pre,
                DiagnosticsVisitor { diagnostics: ReportingDiagnostics::nothing() },
                post,
                w,
            ) && d == w.diagnostics
    }

    /// Saving the state took `pre` to `post` with result `bytes`.
    pub open spec fn saved<D: Device>(pre: D, post: D, bytes: Seq<u8>) -> bool {
        exists|v: SaveStateVisitor, w: SaveStateVisitor| #[trigger]
            Self::made(pre, v, post, w) && v.saved@ == Seq::<u8>::empty() && bytes == w.saved@
    }

    /// The length of the first saved record, if `data` starts with a whole record
    /// of at most 256 data bytes.
    pub open spec fn record_len(data: Seq<u8>) -> Option<nat> {
        if data.len() < 5 || Le::u16_at(data, 3) > 256 || data.len() < 5 + Le::u16_at(data, 3) {
            None
        } else {
            Some((5 + Le::u16_at(data, 3)) as nat)
        }
    }

    /// Restoring the saved records in `data`, as far as they are whole, took `pre`
    /// to `post`.
    pub open spec fn restored<D: Device>(pre: D, data: Seq<u8>, post: D) -> bool
        decreases data.len(),
    {
        match Self::record_len(data) {
            None => post == pre,
            Some(n) => exists|mid: D| #[trigger]
                Self::restored_one(pre, data.take(n as int), mid) && Self::restored(
                    mid,
                    data.skip(n as int),
                    post,
                ),
        }
    }

    /// Restoring one saved record took `pre` to `post`.
    pub open spec fn restored_one<D: Device>(pre: D, record: Seq<u8>, post: D) -> bool {
        exists|v: RestoreStateVisitor<'_>, w: RestoreStateVisitor<'_>| #[trigger]
            Self::made(pre, v, post, w) && v.cluster_id == Le::u16_at(record, 0) && v.endpoint
                == record[2] && v.data@ == record.skip(5)
    }
}

/// A visitor that has been at no server is as it was.
pub proof fn lemma_walk_starts<V: DeviceServerVisitor>(v: V)
    ensures
        Tour::walked(v, Seq::empty(), v),
{
    assert(Tour::stops(v, Seq::empty(), v, seq![v]));
}

/// A visit at one more server.
pub proof fn lemma_walk_goes_on<V: DeviceServerVisitor>(
    v: V,
    steps: Seq<(ServerMeta, ServerStep)>,
    m: V,
    meta: ServerMeta,
    step: ServerStep,
    w: V,
)
    requires
        Tour::walked(v, steps, m),
        V::made(m, meta, step, w),
    ensures
        Tour::walked(v, steps.push((meta, step)), w),
{
    let states = choose|states: Seq<V>| #[trigger] Tour::stops(v, steps, m, states);
    let more = steps.push((meta, step));
    assert forall|i: int| 0 <= i < more.len() implies V::made(
        states.push(w)[i],
        (#[trigger] more[i]).0,
        more[i].1,
        states.push(w)[i + 1],
    ) by {
        if i < steps.len() {
            assert(more[i] == steps[i]);
        }
    }
    assert(Tour::stops(v, more, w, states.push(w)));
}

/// A dispatching visitor keeps its buffer's size, and the response within it.
proof fn lemma_dispatch_within(
    v: DispatchVisitor<'_>,
    steps: Seq<(ServerMeta, ServerStep)>,
    w: DispatchVisitor<'_>,
    states: Seq<DispatchVisitor<'_>>,
    n: nat,
)
    requires
        Tour::stops(v, steps, w, states),
        v.within(),
        n <= steps.len(),
    ensures
        states[n as int].within(),
        states[n as int].buf@.len() == v.buf@.len(),
    decreases n,
{
    if n > 0 {
        lemma_dispatch_within(v, steps, w, states, (n - 1) as nat);
        let done = steps[n - 1];
        assert(DispatchVisitor::made(states[n - 1], done.0, done.1, states[n as int]));
    }
}

/// A collecting visitor keeps its buffer's size, and the report within it.
proof fn lemma_collect_within(
    v: CollectReportVisitor,
    steps: Seq<(ServerMeta, ServerStep)>,
    w: CollectReportVisitor,
    states: Seq<CollectReportVisitor>,
    n: nat,
)
    requires
        Tour::stops(v, steps, w, states),
        v.within(),
        n <= steps.len(),
    ensures
        states[n as int].within(),
        states[n as int].buf@.len() == v.buf@.len(),
    decreases n,
{
    if n > 0 {
        lemma_collect_within(v, steps, w, states, (n - 1) as nat);
        let done = steps[n - 1];
        assert(CollectReportVisitor::made(states[n - 1], done.0, done.1, states[n as int]));
    }
}

/// Dispatch a frame to the cluster server that it is for.
pub fn dispatch_via_servers<D: Device>(
    device: &mut D,
    request: ClusterRequest<'_>,
    buf: &mut [u8],
) -> (r: Result<DispatchOutcome, DispatchError>)
    requires
        old(device).wf(),
    ensures
        final(device).wf(),
        final(buf)@.len() == old(buf)@.len(),
        r is Ok ==> r->Ok_0.response_len <= old(buf)@.len(),
        Tour::dispatched(*old(device), request, old(buf)@, *final(device), final(buf)@, r),
{
    if find_endpoint(device.endpoints(), request.endpoint).is_none() {
        return Err(DispatchError::UnsupportedEndpoint);
    }
    let mut visitor = DispatchVisitor { request, buf: slice_to_vec(buf), result: None };
    let ghost v = visitor;
    let ghost pre = *device;
    device.visit_servers(&mut visitor);
    proof {
        let steps = choose|steps: Seq<(ServerMeta, ServerStep)>| #[trigger]
            D::toured(pre, steps, *device) && Tour::walked(v, steps, visitor);
        let states = choose|states: Seq<DispatchVisitor<'_>>| #[trigger]
            Tour::stops(v, steps, visitor, states);
        lemma_dispatch_within(v, steps, visitor, states, steps.len());
        assert(Tour::made(pre, v, *device, visitor));
    }
    copy_at(buf, 0, visitor.buf.as_slice());
    assert(buf@ =~= visitor.buf@);
    match visitor.result {
        Some(Ok(outcome)) => Ok(outcome),
        Some(Err(e)) => Err(DispatchError::Codec(e)),
        None => Err(DispatchError::UnsupportedCluster),
    }
}

/// Advance every server to `now_ms`. Returns whether any changed, and the deadline
/// that comes first.
pub fn tick_via_servers<D: Device>(device: &mut D, now_ms: u32) -> (tick: DeviceTick)
    requires
        old(device).wf(),
    ensures
        final(device).wf(),
        Tour::ticked(*old(device), now_ms, *final(device), tick),
{
    let mut visitor = TickVisitor {
        now_ms,
        tick: DeviceTick { changed: false, next_tick_ms: None },
    };
    let ghost v = visitor;
    device.visit_servers(&mut visitor);
    assert(Tour::made(*old(device), v, *device, visitor));
    visitor.tick
}

/// Collect the first due report into `buf`.
pub fn collect_next_report_via_servers<D: Device>(device: &mut D, now_ms: u32, buf: &mut [u8]) -> (r:
    Result<Option<ReportReady>, ZclError>)
    requires
        old(device).wf(),
    ensures
        final(device).wf(),
        final(buf)@.len() == old(buf)@.len(),
        r matches Ok(Some(ready)) ==> ready.len <= old(buf)@.len(),
        Tour::collected(*old(device), now_ms, old(buf)@, *final(device), final(buf)@, r),
{
    let mut visitor = CollectReportVisitor { now_ms, buf: slice_to_vec(buf), result: None };
    let ghost v = visitor;
    let ghost pre = *device;
    device.visit_servers(&mut visitor);
    proof {
        let steps = choose|steps: Seq<(ServerMeta, ServerStep)>| #[trigger]
            D::toured(pre, steps, *device) && Tour::walked(v, steps, visitor);
        let states = choose|states: Seq<CollectReportVisitor>| #[trigger]
            Tour::stops(v, steps, visitor, states);
        lemma_collect_within(v, steps, visitor, states, steps.len());
        assert(Tour::made(pre, v, *device, visitor));
    }
    copy_at(buf, 0, visitor.buf.as_slice());
    assert(buf@ =~= visitor.buf@);
    match visitor.result {
        Some(Ok(ready)) => Ok(Some(ready)),
        Some(Err(e)) => Err(e),
        None => Ok(None),
    }
}

/// Tell the server that had a report ready how sending it went.
pub fn report_delivery_result_via_servers<D: Device>(
    device: &mut D,
    ready: ReportReady,
    result: ReportDeliveryResult,
    now_ms: u32,
)
    requires
        old(device).wf(),
    ensures
        final(device).wf(),
        Tour::delivered(*old(device), ready, result, now_ms, *final(device)),
{
    let mut visitor = ReportDeliveryVisitor {
        endpoint: ready.endpoint,
        cluster: ready.cluster,
        token: ready.token,
        result,
        now_ms,
    };
    let ghost v = visitor;
    device.visit_servers(&mut visitor);
    assert(Tour::made(*old(device), v, *device, visitor));
}

/// Drain the reporting diagnostics of every server.
pub fn take_reporting_diagnostics_via_servers<D: Device>(device: &mut D) -> (d:
    ReportingDiagnostics)
    requires
        old(device).wf(),
    ensures
        final(device).wf(),
        Tour::diagnosed(*old(device), *final(device), d),
{
    let mut visitor = DiagnosticsVisitor { diagnostics: ReportingDiagnostics::none() };
    let ghost v = visitor;
    device.visit_servers(&mut visitor);
    assert(Tour::made(*old(device), v, *device, visitor));
    visitor.diagnostics
}

/// Serialize the mutable state of every server.
///
/// One record for each server with a snapshot: cluster (u16), endpoint, length
/// (u16), data.
pub fn save_state_via_servers<D: Device>(device: &mut D) -> (bytes: Vec<u8>)
    requires
        old(device).wf(),
    ensures
        final(device).wf(),
        Tour::saved(*old(device), *final(device), bytes@),
{
    let mut visitor = SaveStateVisitor { saved: Vec::new() };
    let ghost v = visitor;
    device.visit_servers(&mut visitor);
    assert(Tour::made(*old(device), v, *device, visitor));
    visitor.saved
}

/// How many bytes follow the header of a saved record; none for a record that is too
/// large to be restored.
pub fn saved_data_len(header: [u8; 5]) -> (len: Option<usize>)
    ensures
        len == if Le::u16_at(header@, 3) > 256 {
            None
        } else {
            Some(Le::u16_at(header@, 3) as usize)
        },
{
    let n: u16 = read_u16(&header, 3);
    if n > 256 {
        None
    } else {
        Some(n as usize)
    }
}

proof fn lemma_restore_step<D: Device>(pre: D, data: Seq<u8>, mid: D, post: D)
    requires
        Tour::record_len(data) is Some,
        Tour::restored_one(pre, data.take(Tour::record_len(data)->0 as int), mid),
        Tour::restored(mid, data.skip(Tour::record_len(data)->0 as int), post),
    ensures
        Tour::restored(pre, data, post),
{
}

fn restore_record<D: Device>(device: &mut D, record: &[u8])
    requires
        old(device).wf(),
        record@.len() >= 5,
    ensures
        final(device).wf(),
        Tour::restored_one(*old(device), record@, *final(device)),
{
    let cluster_id: u16 = read_u16(record, 0);
    let endpoint: u8 = record[2];
    let total: usize = record.len();
    let mut visitor = RestoreStateVisitor { cluster_id, endpoint, data: &record[5..total] };
    assert(visitor.data@ =~= record@.skip(5));
    let ghost v = visitor;
    device.visit_servers(&mut visitor);
    assert(Tour::made(*old(device), v, *device, visitor));
}

/// Restore state that was saved with [`save_state_via_servers`]. Records of unknown
/// servers are skipped; restoring stops at a record that is cut off or too large.
pub fn restore_state_via_servers<D: Device>(device: &mut D, data: &[u8])
    requires
        old(device).wf(),
    ensures
        final(device).wf(),
        Tour::restored(*old(device), data@, *final(device)),
{
    let total: usize = data.len();
    let mut p: usize = 0;
    let ghost pre = *device;
    assert(data@.skip(0) =~= data@);
    loop
        invariant
            device.wf(),
            total == data@.len(),
            p <= total,
            pre == *old(device),
            forall|post: D| #[trigger]
                Tour::restored(*device, data@.skip(p as int), post) ==> Tour::restored(
                    pre,
                    data@,
                    post,
                ),
        decreases total - p,
    {
        let ghost rest = data@.skip(p as int);
        if total - p < 5 {
            assert(Tour::restored(*device, rest, *device));
            return;
        }
        let n: usize = read_u16(data, p + 3) as usize;
        if n > 256 || total - p - 5 < n {
            assert(Tour::restored(*device, rest, *device));
            return;
        }
        let ghost before = *device;
        restore_record(device, &data[p..p + 5 + n]);
        proof {
            let len = Tour::record_len(rest)->0;
            assert(len == 5 + n);
            assert(rest.take(len as int) =~= data@.subrange(p as int, p + 5 + n));
            assert(rest.skip(len as int) =~= data@.skip(p + 5 + n));
            assert forall|post: D| #[trigger]
                Tour::restored(*device, data@.skip(p + 5 + n), post) implies Tour::restored(
                pre,
                data@,
                post,
            ) by {
                lemma_restore_step(before, rest, *device, post);
            }
        }
        p = p + 5 + n;
    }
}

/// What every device can do.
pub trait DeviceOperations: Device {
    fn active_endpoints(&self) -> (list: &'static [EndpointDescriptor])
        ensures
            list@ == self.endpoint_list(),
    ;

    /// The descriptor of an endpoint.
    fn simple_descriptor(&self, endpoint: u8) -> (found: Option<&'static EndpointDescriptor>)
        ensures
            match found {
                Some(d) => exists|i: int| #[trigger]
                    EndpointDescriptor::is_first(self.endpoint_list(), endpoint, i) && *d
                        == self.endpoint_list()[i],
                None => !EndpointDescriptor::listed(self.endpoint_list(), endpoint),
            },
    ;

    /// Dispatch a frame to the cluster server that it is for.
    fn dispatch_cluster(&mut self, request: ClusterRequest<'_>, buf: &mut [u8]) -> (r: Result<
        DispatchOutcome,
        DispatchError,
    >)
        requires
            old(self).wf(),
        ensures
            final(self).wf(),
            final(buf)@.len() == old(buf)@.len(),
            r is Ok ==> r->Ok_0.response_len <= old(buf)@.len(),
            Tour::dispatched(*old(self), request, old(buf)@, *final(self), final(buf)@, r),
    ;

    /// Collect the first due report into `buf`.
    fn next_report(&mut self, now_ms: u32, buf: &mut [u8]) -> (r: Result<
        Option<ReportReady>,
        ZclError,
    >)
        requires
            old(self).wf(),
        ensures
            final(self).wf(),
            final(buf)@.len() == old(buf)@.len(),
            r matches Ok(Some(ready)) ==> ready.len <= old(buf)@.len(),
            Tour::collected(*old(self), now_ms, old(buf)@, *final(self), final(buf)@, r),
    ;

    /// Advance every server to `now_ms`.
    fn tick(&mut self, now_ms: u32) -> (tick: DeviceTick)
        requires
            old(self).wf(),
        ensures
            final(self).wf(),
            Tour::ticked(*old(self), now_ms, *final(self), tick),
    ;

    /// Tell the server that had a report ready how sending it went.
    fn report_delivery_result(
        &mut self,
        ready: ReportReady,
        result: ReportDeliveryResult,
        now_ms: u32,
    )
        requires
            old(self).wf(),
        ensures
            final(self).wf(),
            Tour::delivered(*old(self), ready, result, now_ms, *final(self)),
    ;

    /// Drain the reporting diagnostics of every server.
    fn take_reporting_diagnostics(&mut self) -> (d: ReportingDiagnostics)
        requires
            old(self).wf(),
        ensures
            final(self).wf(),
            Tour::diagnosed(*old(self), *final(self), d),
    ;

    /// Serialize the mutable state of every server.
    fn save_state(&mut self) -> (bytes: Vec<u8>)
        requires
            old(self).wf(),
        ensures
            final(self).wf(),
            Tour::saved(*old(self), *final(self), bytes@),
    ;

    /// Restore state that was saved with `save_state`.
    fn restore_state(&mut self, data: &[u8])
        requires
            old(self).wf(),
        ensures
            final(self).wf(),
            Tour::restored(*old(self), data@, *final(self)),
    ;
}

impl<D: Device> DeviceOperations for D {
    fn active_endpoints(&self) -> (list: &'static [EndpointDescriptor]) {
        self.endpoints()
    }

    fn simple_descriptor(&self, endpoint: u8) -> (found: Option<&'static EndpointDescriptor>) {
        let list = self.endpoints();
        match find_endpoint(list, endpoint) {
            Some(i) => Some(&list[i]),
            None => None,
        }
    }

    fn dispatch_cluster(&mut self, request: ClusterRequest<'_>, buf: &mut [u8]) -> (r: Result<
        DispatchOutcome,
        DispatchError,
    >) {
        dispatch_via_servers(self, request, buf)
    }

    fn next_report(&mut self, now_ms: u32, buf: &mut [u8]) -> (r: Result<
        Option<ReportReady>,
        ZclError,
    >) {
        collect_next_report_via_servers(self, now_ms, buf)
    }

    fn tick(&mut self, now_ms: u32) -> (tick: DeviceTick) {
        tick_via_servers(self, now_ms)
    }

    fn report_delivery_result(
        &mut self,
        ready: ReportReady,
        result: ReportDeliveryResult,
        now_ms: u32,
    ) {
        report_delivery_result_via_servers(self, ready, result, now_ms);
    }

    fn take_reporting_diagnostics(&mut self) -> (d: ReportingDiagnostics) {
        take_reporting_diagnostics_via_servers(self)
    }

    fn save_state(&mut self) -> (bytes: Vec<u8>) {
        save_state_via_servers(self)
    }

    fn restore_state(&mut self, data: &[u8]) {
        restore_state_via_servers(self, data);
    }
}

/// A server's saved record is read back as that server's: it is whole, names its
/// cluster and endpoint, and carries its snapshot.
pub proof fn law_saved_record_reads_back(meta: ServerMeta, data: Seq<u8>, rest: Seq<u8>)
    requires
        0 < data.len() <= 256,
    ensures
        ({
            let record = SaveStateVisitor::record(meta, data);
            &&& Tour::record_len(record + rest) == Some(record.len())
            &&& (record + rest).take(record.len() as int) == record
            &&& (record + rest).skip(record.len() as int) == rest
            &&& Le::u16_at(record, 0) == meta.cluster.id.0
            &&& record[2] == meta.endpoint
            &&& record.skip(5) == data
        }),
{
    let record = SaveStateVisitor::record(meta, data);
    crate::bytes::lemma_u16_round_trip(meta.cluster.id.0);
    crate::bytes::lemma_u16_round_trip(data.len() as u16);
    assert(record.skip(5) =~= data);
    assert((record + rest).take(record.len() as int) =~= record);
    assert((record + rest).skip(record.len() as int) =~= rest);
}

} // verus!
