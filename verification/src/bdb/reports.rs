//! Sending attribute reports to those who asked for them.

use vstd::prelude::*;

use crate::bdb::behavior::BaseDeviceBehavior;
use crate::bdb::types::ApsData;
use crate::bdb::types::ApsDataFields;
use crate::bdb::types::BdbError;
use crate::bdb::types::BindingEntry;
use crate::bdb::types::ShortAddress;
use crate::bytes::push_bytes;
use crate::context::ReportDeliveryResult;
use crate::context::ReportDestination;
use crate::context::ReportReady;
use crate::device::Device;
use crate::device::DeviceOperations;
use crate::device::Tour;
use crate::types::error::ZclError;

verus! {

/// How many bytes the records of one report take at most.
pub const REPORT_CAPACITY: usize = 253;

/// A due report, and the frames to send it with.
#[derive(Debug)]
pub struct PendingReport {
    pub ready: ReportReady,
    /// One frame for each destination.
    pub frames: Vec<ApsData>,
}

/// Specification functions of reports.
pub struct Reports;

impl Reports {
    /// A report of these records: from server to client, with no response asked for,
    /// number 0.
    pub open spec fn frame(records: Seq<u8>) -> Seq<u8> {
        seq![0x18u8, 0x00u8, 0x0au8] + records
    }

    /// The binding is for what is reported.
    pub open spec fn concerns(ready: ReportReady) -> spec_fn(BindingEntry) -> bool {
        |e: BindingEntry| e.src_endpoint == ready.endpoint && e.cluster_id == ready.cluster.id.0
    }

    /// The frame that goes to a bound peer.
    pub open spec fn to_bound(e: BindingEntry, asdu: Seq<u8>) -> ApsDataFields {
        ApsDataFields {
            destination: ShortAddress(e.dst_short_addr),
            dst_endpoint: e.dst_endpoint,
            profile_id: e.profile_id,
            cluster_id: e.cluster_id,
            src_endpoint: e.src_endpoint,
            asdu,
        }
    }

    /// The frames that go to the bound peers.
    pub open spec fn to_all_bound(list: Seq<BindingEntry>, asdu: Seq<u8>) -> Seq<ApsDataFields> {
        list.map_values(|e: BindingEntry| Self::to_bound(e, asdu))
    }

    /// The frames that a report goes out with.
    pub open spec fn frames(
        bindings: Seq<BindingEntry>,
        ready: ReportReady,
        asdu: Seq<u8>,
    ) -> Seq<ApsDataFields> {
        match ready.destination {
            ReportDestination::Unicast(peer) => seq![
                ApsDataFields {
                    destination: ShortAddress(peer.short_addr),
                    dst_endpoint: peer.endpoint,
                    profile_id: ready.profile_id,
                    cluster_id: ready.cluster.id.0,
                    src_endpoint: ready.endpoint,
                    asdu,
                },
            ],
            ReportDestination::Bound => Self::to_all_bound(
                bindings.filter(Self::concerns(ready)),
                asdu,
            ),
        }
    }

    /// What the frames hold.
    pub open spec fn contents(frames: Seq<ApsData>) -> Seq<ApsDataFields> {
        frames.map_values(|d: ApsData| d@)
    }

    /// Looking for a due report took the device from `pre` to `post`, by way of the
    /// buffer `buf`, with result `r`.
    pub open spec fn looked<D: Device>(
        bindings: Seq<BindingEntry>,
        pre: D,
        now_ms: u32,
        post: D,
        buf: Seq<u8>,
        found: Result<Option<ReportReady>, ZclError>,
        r: Result<Option<PendingReport>, BdbError>,
    ) -> bool {
        &&& Tour::collected(
            pre,
            now_ms,
            Seq::new(REPORT_CAPACITY as nat, |i: int| 0u8),
            post,
            buf,
            found,
        )
        &&& buf.len() == REPORT_CAPACITY
        &&& match found {
            Err(e) => r == Err::<Option<PendingReport>, BdbError>(BdbError::ZclCodec(e)),
            Ok(None) => r == Ok::<Option<PendingReport>, BdbError>(None),
            Ok(Some(ready)) => r matches Ok(Some(pending)) && pending.ready == ready
                && Self::contents(pending.frames@) == Self::frames(
                bindings,
                ready,
                Self::frame(buf.take(ready.len as int)),
            ),
        }
    }

    /// Every frame was sent, and there was one.
    pub open spec fn all_sent(sent: Seq<bool>) -> bool {
        sent.len() > 0 && forall|i: int| 0 <= i < sent.len() ==> #[trigger] sent[i]
    }

    /// How a report fared whose frames were sent or not.
    pub open spec fn outcome(sent: Seq<bool>) -> ReportDeliveryResult {
        if Self::all_sent(sent) {
            ReportDeliveryResult::Sent
        } else {
            ReportDeliveryResult::Failed
        }
    }
}

/// The frames that go to the bound peers.
fn frames_to_bound(bindings: &[BindingEntry], ready: ReportReady, asdu: &Vec<u8>) -> (frames: Vec<
    ApsData,
>)
    ensures
        Reports::contents(frames@) == Reports::to_all_bound(
            bindings@.filter(Reports::concerns(ready)),
            asdu@,
        ),
{
    let ghost keep = Reports::concerns(ready);
    let mut frames: Vec<ApsData> = Vec::new();
    let mut i: usize = 0;
    proof {
        reveal(Seq::filter);
        assert(Reports::contents(frames@) =~= Reports::to_all_bound(
            bindings@.take(0).filter(keep),
            asdu@,
        ));
    }
    while i < bindings.len()
        invariant
            i <= bindings@.len(),
            keep == Reports::concerns(ready),
            Reports::contents(frames@) == Reports::to_all_bound(
                bindings@.take(i as int).filter(keep),
                asdu@,
            ),
        decreases bindings@.len() - i,
    {
        let ghost before = frames@;
        let ghost kept = bindings@.take(i as int).filter(keep);
        proof {
            reveal(Seq::filter);
            assert(bindings@.take(i + 1).drop_last() =~= bindings@.take(i as int));
        }
        let e: BindingEntry = bindings[i];
        let yes: bool = e.src_endpoint == ready.endpoint && e.cluster_id == ready.cluster.id.0;
        assert(yes == keep(e));
        if yes {
            let data = ApsData {
                destination: ShortAddress(e.dst_short_addr),
                dst_endpoint: e.dst_endpoint,
                profile_id: e.profile_id,
                cluster_id: e.cluster_id,
                src_endpoint: e.src_endpoint,
                asdu: vstd::slice::slice_to_vec(asdu.as_slice()),
            };
            assert(data@ =~= Reports::to_bound(e, asdu@));
            frames.push(data);
            assert(Reports::contents(frames@) =~= Reports::contents(before).push(data@));
            assert(Reports::to_all_bound(kept.push(e), asdu@) =~= Reports::to_all_bound(
                kept,
                asdu@,
            ).push(Reports::to_bound(e, asdu@)));
        }
        i = i + 1;
    }
    assert(bindings@.take(i as int) =~= bindings@);
    frames
}

impl BaseDeviceBehavior {
    /// Look for a due report, and for whom it is to be sent to.
    ///
    /// A report to bound peers goes to every peer that is bound to the endpoint and
    /// cluster; there may be none.
    pub fn poll_report_once<D: Device>(&self, app: &mut D, now_ms: u32) -> (r: Result<
        Option<PendingReport>,
        BdbError,
    >)
        requires
            self.wf(),
            old(app).wf(),
        ensures
            final(app).wf(),
            exists|buf: Seq<u8>, found: Result<Option<ReportReady>, ZclError>| #[trigger]
                Reports::looked(self@.bindings, *old(app), now_ms, *final(app), buf, found, r),
    {
        let mut buf: Vec<u8> = vec![0u8; 253];
        assert(buf@ =~= Seq::new(REPORT_CAPACITY as nat, |i: int| 0u8));
        let found: Result<Option<ReportReady>, ZclError> = app.next_report(
            now_ms,
            buf.as_mut_slice(),
        );
        let r: Result<Option<PendingReport>, BdbError> = match found {
            Err(e) => Err(BdbError::ZclCodec(e)),
            Ok(None) => Ok(None),
            Ok(Some(ready)) => Ok(Some(self.address_report(ready, buf.as_slice()))),
        };
        assert(Reports::looked(self@.bindings, *old(app), now_ms, *app, buf@, found, r));
        r
    }

    /// The frames to send a report with, whose records are in `buf`.
    pub fn address_report(&self, ready: ReportReady, buf: &[u8]) -> (pending: PendingReport)
        requires
            ready.len <= buf@.len(),
        ensures
            pending.ready == ready,
            Reports::contents(pending.frames@) == Reports::frames(
                self@.bindings,
                ready,
                Reports::frame(buf@.take(ready.len as int)),
            ),
    {
        let mut asdu: Vec<u8> = vec![0x18, 0x00, 0x0a];
        push_bytes(&mut asdu, &buf[0..ready.len]);
        assert(buf@.subrange(0, ready.len as int) =~= buf@.take(ready.len as int));
        assert(asdu@ =~= Reports::frame(buf@.take(ready.len as int)));
        let frames: Vec<ApsData> = match ready.destination {
            ReportDestination::Unicast(peer) => {
                let data = ApsData {
                    destination: ShortAddress(peer.short_addr),
                    dst_endpoint: peer.endpoint,
                    profile_id: ready.profile_id,
                    cluster_id: ready.cluster.id.0,
                    src_endpoint: ready.endpoint,
                    asdu,
                };
                let mut frames: Vec<ApsData> = Vec::new();
                frames.push(data);
                assert(Reports::contents(frames@) =~= seq![data@]);
                frames
            },
            ReportDestination::Bound => frames_to_bound(self.bindings(), ready, &asdu),
        };
        PendingReport { ready, frames }
    }

    /// Tell the device how its report fared, whose frames were sent or not.
    pub fn finish_report<D: Device>(app: &mut D, ready: ReportReady, sent: &[bool], now_ms: u32)
        requires
            old(app).wf(),
        ensures
            final(app).wf(),
            Tour::delivered(*old(app), ready, Reports::outcome(sent@), now_ms, *final(app)),
    {
        let mut all_sent: bool = sent.len() > 0;
        let mut i: usize = 0;
        while i < sent.len()
            invariant
                i <= sent@.len(),
                all_sent == (sent@.len() > 0 && forall|k: int| 0 <= k < i ==> #[trigger] sent@[k]),
            decreases sent@.len() - i,
        {
            if !sent[i] {
                all_sent = false;
            }
            i = i + 1;
        }
        let result: ReportDeliveryResult = if all_sent {
            ReportDeliveryResult::Sent
        } else {
            ReportDeliveryResult::Failed
        };
        app.report_delivery_result(ready, result, now_ms);
    }
}

/// A report that nobody is bound to fails.
pub proof fn law_report_to_nobody_fails(bindings: Seq<BindingEntry>, ready: ReportReady, asdu: Seq<u8>)
    requires
        ready.destination == ReportDestination::Bound,
        forall|i: int| 0 <= i < bindings.len() ==> !Reports::concerns(ready)(#[trigger] bindings[i]),
    ensures
        Reports::frames(bindings, ready, asdu).len() == 0,
        Reports::outcome(Seq::empty()) == ReportDeliveryResult::Failed,
    decreases bindings.len(),
{
    reveal(Seq::filter);
    if bindings.len() > 0 {
        let front = bindings.drop_last();
        assert forall|i: int| 0 <= i < front.len() implies !Reports::concerns(ready)(
            #[trigger] front[i],
        ) by {
            assert(front[i] == bindings[i]);
        }
        law_report_to_nobody_fails(front, ready, asdu);
        assert(bindings[bindings.len() - 1] == bindings.last());
    }
}

/// A report goes to every peer that is bound to its endpoint and cluster.
pub proof fn law_report_reaches_every_bound_peer(
    bindings: Seq<BindingEntry>,
    ready: ReportReady,
    asdu: Seq<u8>,
    e: BindingEntry,
)
    requires
        ready.destination == ReportDestination::Bound,
        bindings.contains(e),
        e.src_endpoint == ready.endpoint && e.cluster_id == ready.cluster.id.0,
    ensures
        Reports::frames(bindings, ready, asdu).contains(Reports::to_bound(e, asdu)),
{
    let keep = Reports::concerns(ready);
    let kept = bindings.filter(keep);
    crate::bdb::tables::lemma_filtered(bindings, keep);
    assert(kept.contains(e));
    let i = choose|i: int| 0 <= i < kept.len() && kept[i] == e;
    assert(Reports::frames(bindings, ready, asdu)[i] == Reports::to_bound(e, asdu));
}

/// A report to bound peers goes to no peer that is not bound to its endpoint and
/// cluster.
pub proof fn law_report_reaches_only_bound_peers(
    bindings: Seq<BindingEntry>,
    ready: ReportReady,
    asdu: Seq<u8>,
    frame: ApsDataFields,
)
    requires
        ready.destination == ReportDestination::Bound,
        Reports::frames(bindings, ready, asdu).contains(frame),
    ensures
        exists|e: BindingEntry| #[trigger]
            bindings.contains(e) && e.src_endpoint == ready.endpoint && e.cluster_id
                == ready.cluster.id.0 && frame == Reports::to_bound(e, asdu),
{
    let keep = Reports::concerns(ready);
    let kept = bindings.filter(keep);
    let frames = Reports::frames(bindings, ready, asdu);
    let i = choose|i: int| 0 <= i < frames.len() && frames[i] == frame;
    crate::bdb::tables::lemma_filtered(bindings, keep);
    assert(kept.contains(kept[i]));
    assert(bindings.contains(kept[i]));
}

} // verus!
