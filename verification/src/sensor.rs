//! A temperature sensor: a device with one endpoint.

use vstd::prelude::*;

use crate::bytes::Le;
use crate::cluster_server::ClusterServer;
use crate::common::basic::BasicConfig;
use crate::common::basic::BasicServer;
use crate::common::basic::BasicState;
use crate::common::identify::IdentifyServer;
use crate::common::identify::IdentifyState;
use crate::context::ClusterTick;
use crate::context::DeviceTick;
use crate::context::DispatchOutcome;
use crate::context::ReportDeliveryResult;
use crate::context::ReportReady;
use crate::context::ReportingDiagnostics;
use crate::device::ClusterRequest;
use crate::device::Device;
use crate::device::DeviceServerVisitor;
use crate::device::DiagnosticsVisitor;
use crate::device::DispatchError;
use crate::device::DispatchVisitor;
use crate::device::EndpointDescriptor;
use crate::device::ReportDeliveryVisitor;
use crate::device::RestoreStateVisitor;
use crate::device::SaveStateVisitor;
use crate::device::ServerMeta;
use crate::device::ServerStep;
use crate::device::TickVisitor;
use crate::device::Tour;
use crate::dispatch::Dispatch;
use crate::measurement::server::MeasurementState;
use crate::measurement::server::TemperatureMeasurementServer;
use crate::types::error::ZclError;
use crate::types::ids::ClusterId;

verus! {

/// The longest wait for a frame, in milliseconds.
pub const MAX_POLL_WAIT_MS: u32 = 60_000;

/// A battery-powered temperature sensor.
pub struct SensorDevice {
    pub basic: BasicServer,
    pub identify: IdentifyServer,
    pub temperature: TemperatureMeasurementServer,
}

impl SensorDevice {
    pub fn new() -> (device: Self)
        ensures
            device.wf(),
            device.basic@ == (BasicState {
                zcl_version: 3,
                manufacturer_name: "Acme"@,
                model_identifier: "TempSensor-1"@,
                power_source: 3,
                device_enabled: true,
            }),
            device.identify@ == IdentifyState::idle(),
            device.temperature@ == MeasurementState::<i16>::initial(),
    {
        let config = BasicConfig::new(3, "Acme", "TempSensor-1", 0x03, true);
        SensorDevice {
            basic: BasicServer::new(config),
            identify: IdentifyServer::new(),
            temperature: TemperatureMeasurementServer::new(),
        }
    }

    /// The server of one of the sensor's clusters.
    pub open spec fn meta(cluster: u16) -> ServerMeta {
        ServerMeta::of(1, 0x0104, cluster)
    }

    /// What is done to the servers, in turn, when `pre` becomes `post`.
    pub open spec fn steps(pre: Self, post: Self) -> Seq<(ServerMeta, ServerStep)> {
        seq![
            (Self::meta(0x0000), ServerStep::of(pre.basic, post.basic)),
            (Self::meta(0x0003), ServerStep::of(pre.identify, post.identify)),
            (Self::meta(0x0402), ServerStep::of(pre.temperature, post.temperature)),
        ]
    }

    /// Dispatching `request` to a server took it from `server` to `post` and the buffer
    /// from `before` to `after`, with result `r`.
    pub open spec fn reached<C: ClusterServer>(
        server: C,
        request: ClusterRequest<'_>,
        before: Seq<u8>,
        post: C,
        after: Seq<u8>,
        r: Result<DispatchOutcome, DispatchError>,
    ) -> bool {
        exists|outcome: Result<DispatchOutcome, ZclError>| #[trigger]
            Dispatch::done(server, *request.frame, request.ctx, before, post, after, outcome) && r
                == match outcome {
                Ok(o) => Ok(o),
                Err(e) => Err(DispatchError::Codec(e)),
            }
    }
}

impl Device for SensorDevice {
    open spec fn wf(&self) -> bool {
        self.basic.wf() && self.identify.wf() && self.temperature.wf()
    }

    open spec fn endpoint_list(&self) -> Seq<EndpointDescriptor> {
        seq![
            EndpointDescriptor {
                endpoint: 1,
                profile_id: 0x0104,
                device_id: 0x0302,
                device_version: 0,
                input_clusters: &[ClusterId(0x0000), ClusterId(0x0003), ClusterId(0x0402)],
                output_clusters: &[],
            },
        ]
    }

    open spec fn toured(pre: Self, steps: Seq<(ServerMeta, ServerStep)>, post: Self) -> bool {
        steps == Self::steps(pre, post)
    }

    fn endpoints(&self) -> (list: &'static [EndpointDescriptor]) {
        &[
            EndpointDescriptor {
                endpoint: 1,
                profile_id: 0x0104,
                device_id: 0x0302,
                device_version: 0,
                input_clusters: &[ClusterId(0x0000), ClusterId(0x0003), ClusterId(0x0402)],
                output_clusters: &[],
            },
        ]
    }

    fn visit_servers<V: DeviceServerVisitor>(&mut self, visitor: &mut V) {
        let ghost v = *visitor;
        visitor.visit(ServerMeta::new(1, 0x0104, 0x0000), &mut self.basic);
        let ghost a = *visitor;
        visitor.visit(ServerMeta::new(1, 0x0104, 0x0003), &mut self.identify);
        let ghost b = *visitor;
        visitor.visit(ServerMeta::new(1, 0x0104, 0x0402), &mut self.temperature);
        proof {
            let steps = Self::steps(*old(self), *self);
            let none = Seq::<(ServerMeta, ServerStep)>::empty();
            crate::device::lemma_walk_starts(v);
            crate::device::lemma_walk_goes_on(v, none, v, steps[0].0, steps[0].1, a);
            crate::device::lemma_walk_goes_on(v, none.push(steps[0]), a, steps[1].0, steps[1].1, b);
            crate::device::lemma_walk_goes_on(
                v,
                none.push(steps[0]).push(steps[1]),
                b,
                steps[2].0,
                steps[2].1,
                *visitor,
            );
            assert(none.push(steps[0]).push(steps[1]).push(steps[2]) =~= steps);
            assert(Self::toured(*old(self), steps, *self));
        }
    }
}

/// A tour of the sensor visits the three servers in turn.
proof fn lemma_three_visits<V: DeviceServerVisitor>(
    pre: SensorDevice,
    v: V,
    post: SensorDevice,
    w: V,
) -> (between: (V, V))
    requires
        Tour::made(pre, v, post, w),
    ensures
        ({
            let steps = SensorDevice::steps(pre, post);
            &&& V::made(v, steps[0].0, steps[0].1, between.0)
            &&& V::made(between.0, steps[1].0, steps[1].1, between.1)
            &&& V::made(between.1, steps[2].0, steps[2].1, w)
        }),
{
    let steps = SensorDevice::steps(pre, post);
    assert(Tour::walked(v, steps, w));
    let states = choose|states: Seq<V>| #[trigger] Tour::stops(v, steps, w, states);
    assert(V::made(states[0], steps[0].0, steps[0].1, states[1]));
    assert(V::made(states[1], steps[1].0, steps[1].1, states[2]));
    assert(V::made(states[2], steps[2].0, steps[2].1, states[3]));
    (states[1], states[2])
}

/// How long to wait for a frame: until the next deadline, at least one millisecond
/// and at most a minute. A deadline that has passed is one to come at once.
pub open spec fn poll_wait(next_tick_ms: Option<u32>, now_ms: u32) -> u32 {
    match next_tick_ms {
        None => MAX_POLL_WAIT_MS,
        Some(next) => if now_ms.wrapping_sub(next) < 0x8000_0000 {
            1
        } else if next.wrapping_sub(now_ms) > MAX_POLL_WAIT_MS {
            MAX_POLL_WAIT_MS
        } else {
            next.wrapping_sub(now_ms)
        },
    }
}

/// How long to wait for a frame, in milliseconds.
pub fn poll_timeout_from_tick(next_tick_ms: Option<u32>, now_ms: u32) -> (wait_ms: u32)
    ensures
        wait_ms == poll_wait(next_tick_ms, now_ms),
        1 <= wait_ms <= MAX_POLL_WAIT_MS,
{
    match next_tick_ms {
        None => MAX_POLL_WAIT_MS,
        Some(next) => {
            if now_ms.wrapping_sub(next) < 0x8000_0000 {
                return 1;
            }
            let wait: u32 = next.wrapping_sub(now_ms);
            if wait > MAX_POLL_WAIT_MS {
                MAX_POLL_WAIT_MS
            } else {
                wait
            }
        },
    }
}

/// A frame for one cluster of the sensor reaches that cluster's server and no
/// other.
pub proof fn law_dispatch_reaches_one_server(
    pre: SensorDevice,
    request: ClusterRequest<'_>,
    before: Seq<u8>,
    post: SensorDevice,
    after: Seq<u8>,
    r: Result<DispatchOutcome, DispatchError>,
)
    requires
        request.endpoint == 1,
        Tour::dispatched(pre, request, before, post, after, r),
    ensures
        request.cluster != SensorDevice::meta(0x0000).cluster ==> post.basic == pre.basic,
        request.cluster != SensorDevice::meta(0x0003).cluster ==> post.identify == pre.identify,
        request.cluster != SensorDevice::meta(0x0402).cluster ==> post.temperature
            == pre.temperature,
        request.cluster == SensorDevice::meta(0x0000).cluster ==> SensorDevice::reached(
            pre.basic,
            request,
            before,
            post.basic,
            after,
            r,
        ),
        request.cluster == SensorDevice::meta(0x0003).cluster ==> SensorDevice::reached(
            pre.identify,
            request,
            before,
            post.identify,
            after,
            r,
        ),
        request.cluster == SensorDevice::meta(0x0402).cluster ==> SensorDevice::reached(
            pre.temperature,
            request,
            before,
            post.temperature,
            after,
            r,
        ),
{
    assert(EndpointDescriptor::is_first(pre.endpoint_list(), 1, 0));
    let (v, w) = choose|v: DispatchVisitor<'_>, w: DispatchVisitor<'_>| #[trigger]
        Tour::made(pre, v, post, w) && v.request == request && v.buf@ == before && v.result is None
            && after == w.buf@ && r == match w.result {
            Some(Ok(outcome)) => Ok(outcome),
            Some(Err(e)) => Err(DispatchError::Codec(e)),
            None => Err(DispatchError::UnsupportedCluster),
        };
    let (a, b) = lemma_three_visits(pre, v, post, w);
    if request.cluster == SensorDevice::meta(0x0000).cluster {
        assert(Dispatch::done(
            pre.basic,
            *request.frame,
            request.ctx,
            before,
            post.basic,
            after,
            w.result->0,
        ));
    }
    if request.cluster == SensorDevice::meta(0x0003).cluster {
        assert(Dispatch::done(
            pre.identify,
            *request.frame,
            request.ctx,
            before,
            post.identify,
            after,
            w.result->0,
        ));
    }
    if request.cluster == SensorDevice::meta(0x0402).cluster {
        assert(Dispatch::done(
            pre.temperature,
            *request.frame,
            request.ctx,
            before,
            post.temperature,
            after,
            w.result->0,
        ));
    }
}

/// A frame for a cluster that the sensor does not have changes nothing and is
/// refused.
pub proof fn law_foreign_cluster_is_refused(
    pre: SensorDevice,
    request: ClusterRequest<'_>,
    before: Seq<u8>,
    post: SensorDevice,
    after: Seq<u8>,
    r: Result<DispatchOutcome, DispatchError>,
)
    requires
        Tour::dispatched(pre, request, before, post, after, r),
        request.cluster != SensorDevice::meta(0x0000).cluster,
        request.cluster != SensorDevice::meta(0x0003).cluster,
        request.cluster != SensorDevice::meta(0x0402).cluster,
    ensures
        post == pre,
        after == before,
        r == Err::<DispatchOutcome, DispatchError>(
            if request.endpoint == 1 {
                DispatchError::UnsupportedCluster
            } else {
                DispatchError::UnsupportedEndpoint
            },
        ),
{
    if request.endpoint == 1 {
        assert(EndpointDescriptor::is_first(pre.endpoint_list(), 1, 0));
        let (v, w) = choose|v: DispatchVisitor<'_>, w: DispatchVisitor<'_>| #[trigger]
            Tour::made(pre, v, post, w) && v.request == request && v.buf@ == before && v.result is None
                && after == w.buf@ && r == match w.result {
                Some(Ok(outcome)) => Ok(outcome),
                Some(Err(e)) => Err(DispatchError::Codec(e)),
                None => Err(DispatchError::UnsupportedCluster),
            };
        let (a, b) = lemma_three_visits(pre, v, post, w);
    }
}

/// State that was saved comes back when it is restored, on any sensor.
pub proof fn law_saved_state_restores(
    pre: SensorDevice,
    post: SensorDevice,
    bytes: Seq<u8>,
    other: SensorDevice,
    end: SensorDevice,
)
    requires
        Tour::saved(pre, post, bytes),
        Tour::restored(other, bytes, end),
    ensures
        post == pre,
        end.temperature@ == (MeasurementState {
            reporting: other.temperature@.reporting,
            ..pre.temperature@
        }),
        end.basic == other.basic,
        end.identify == other.identify,
{
    let (v, w) = choose|v: SaveStateVisitor, w: SaveStateVisitor| #[trigger]
        Tour::made(pre, v, post, w) && v.saved@ == Seq::<u8>::empty() && bytes == w.saved@;
    let (a, b) = lemma_three_visits(pre, v, post, w);
    let meta = SensorDevice::meta(0x0402);
    let data = pre.temperature@.snapshot();
    let record = SaveStateVisitor::record(meta, data);
    assert(a.saved@ =~= Seq::empty());
    assert(b.saved@ =~= Seq::empty());
    assert(bytes =~= record);
    assert(bytes =~= record + Seq::<u8>::empty());
    crate::device::law_saved_record_reads_back(meta, data, Seq::empty());
    let mid = choose|mid: SensorDevice| #[trigger]
        Tour::restored_one(other, bytes.take(record.len() as int), mid) && Tour::restored(
            mid,
            bytes.skip(record.len() as int),
            end,
        );
    assert(Tour::restored_one(other, record, mid));
    let (rv, rw) = choose|rv: RestoreStateVisitor<'_>, rw: RestoreStateVisitor<'_>| #[trigger]
        Tour::made(other, rv, mid, rw) && rv.cluster_id == Le::u16_at(record, 0) && rv.endpoint
            == record[2] && rv.data@ == record.skip(5);
    let (ra, rb) = lemma_three_visits(other, rv, mid, rw);
    crate::measurement::server::law_snapshot_restores(pre.temperature@, other.temperature@);
}

/// A tick of the sensor advances its identification, and gives what came of that; the other
/// servers stay.
pub proof fn law_tick_advances_identification(
    pre: SensorDevice,
    now_ms: u32,
    post: SensorDevice,
    tick: DeviceTick,
)
    requires
        Tour::ticked(pre, now_ms, post, tick),
    ensures
        post.basic == pre.basic,
        post.temperature == pre.temperature,
        exists|t: ClusterTick| #[trigger]
            IdentifyServer::ticked(pre.identify, now_ms, post.identify, t) && tick.changed
                == t.changed && tick.next_tick_ms == t.next_tick_ms,
{
    let start = TickVisitor { now_ms, tick: DeviceTick { changed: false, next_tick_ms: None } };
    let w = choose|w: TickVisitor| #[trigger] Tour::made(pre, start, post, w) && tick == w.tick;
    let (a, b) = lemma_three_visits(pre, start, post, w);
    let steps = SensorDevice::steps(pre, post);
    let t0 = choose|t: ClusterTick| #[trigger]
        (steps[0].1.ticked)(start.now_ms, t) && a == (TickVisitor {
            tick: start.tick.after(t, start.now_ms),
            ..start
        });
    let t1 = choose|t: ClusterTick| #[trigger]
        (steps[1].1.ticked)(a.now_ms, t) && b == (TickVisitor {
            tick: a.tick.after(t, a.now_ms),
            ..a
        });
    let t2 = choose|t: ClusterTick| #[trigger]
        (steps[2].1.ticked)(b.now_ms, t) && w == (TickVisitor {
            tick: b.tick.after(t, b.now_ms),
            ..b
        });
    assert(IdentifyServer::ticked(pre.identify, now_ms, post.identify, t1));
}

/// The reporting diagnostics of the sensor are those of its temperature, which start again
/// from nothing.
pub proof fn law_diagnostics_are_those_of_the_temperature(
    pre: SensorDevice,
    post: SensorDevice,
    d: ReportingDiagnostics,
)
    requires
        Tour::diagnosed(pre, post, d),
    ensures
        d == pre.temperature@.reporting.diagnostics,
        post.temperature@.reporting.diagnostics == (ReportingDiagnostics {
            coalesced_updates: 0,
            dropped_reports: 0,
            buffer_too_small: false,
        }),
        post.temperature@.reporting.entries == pre.temperature@.reporting.entries,
        post.basic == pre.basic,
        post.identify == pre.identify,
{
    let start = DiagnosticsVisitor { diagnostics: ReportingDiagnostics::nothing() };
    let w = choose|w: DiagnosticsVisitor| #[trigger]
        Tour::made(pre, start, post, w) && d == w.diagnostics;
    let (a, b) = lemma_three_visits(pre, start, post, w);
}

/// How a report fared is settled at the temperature, if it was a report of that; every other
/// server stays.
pub proof fn law_outcome_is_settled_at_the_temperature(
    pre: SensorDevice,
    ready: ReportReady,
    result: ReportDeliveryResult,
    now_ms: u32,
    post: SensorDevice,
)
    requires
        Tour::delivered(pre, ready, result, now_ms, post),
        ready.endpoint == 1,
        ready.cluster.id.0 == 0x0402,
        ready.cluster.manufacturer_code is None,
    ensures
        TemperatureMeasurementServer::delivered(
            pre.temperature,
            ready.token,
            result,
            now_ms,
            post.temperature,
        ),
        post.basic == pre.basic,
        post.identify == pre.identify,
{
    let start = ReportDeliveryVisitor {
        endpoint: ready.endpoint,
        cluster: ready.cluster,
        token: ready.token,
        result,
        now_ms,
    };
    let w = choose|w: ReportDeliveryVisitor| #[trigger] Tour::made(pre, start, post, w);
    let (a, b) = lemma_three_visits(pre, start, post, w);
}

} // verus!
