//! What a namespace asks of the signal router, and what it reads from it.
use std::sync::Arc;

use vstd::prelude::*;

use crate::adapter::dns_registry::DnsRegistryPortInput;
use crate::adapter::endpoint::FabricEndpointPortInput;
use crate::adapter::endpoint_demand::EndpointDemandOp;
use crate::adapter::management::{ManagementOp, ManagementOpView};
use crate::adapter::pod_assignment::WorkerPortInput;
use crate::adapter::timer::TimerFired;
use crate::sm::{
    ArtifactPortId, DnsRegistryId, EndpointId, EndpointStatus, FabricEndpointId, PodId, PodSpec,
    PodStatus, ScheduleLeaseId, ScheduleRequestId, ScheduleRequestPortInput, ServiceId, TimerId,
    TimerPortInput, WireGuardPeerEndpointInfo, WireGuardPeerId, WlStatus, WorkerId, WorkerInfo,
    WorkloadId,
};
use crate::sorted_map::SortedMap;
use crate::types::BackendNeed;

verus! {

/// A change to the router. New ports and leases are named by numbers that the namespace hands out.
#[derive(Debug)]
pub enum RouterOp {
    CreateWorker { worker_id: WorkerId },
    DestroyWorker { worker_id: WorkerId },
    SetWorkerInfo { worker_id: WorkerId, info: WorkerInfo },
    NotifyPodStatus { worker_id: WorkerId, pod_id: PodId, status: PodStatus },
    /// A new snapshot, of which a pod is told.
    NotifyPodSuspended { worker_id: WorkerId, pod_id: PodId, artifact: ArtifactPortId },
    DestroyArtifact { artifact: ArtifactPortId },
    /// A new lease of a worker for a pod.
    CreateLease { lease: ScheduleLeaseId, worker_id: WorkerId, pod_id: PodId },
    DestroyLease { lease: ScheduleLeaseId },
    /// The pods that a worker is to run.
    AssignPods { worker_id: WorkerId, pods: Vec<PodId> },
    /// A new port for a client's endpoint.
    CreatePeer { peer: WireGuardPeerId, info: WireGuardPeerEndpointInfo },
    DestroyPeer { peer: WireGuardPeerId },
    Demand(EndpointDemandOp),
    Management(ManagementOp),
    FireTimer(TimerFired),
}

/// A change to the router, with its texts and lists as sequences.
#[verifier::ext_equal]
pub enum RouterOpView {
    CreateWorker { worker_id: WorkerId },
    DestroyWorker { worker_id: WorkerId },
    SetWorkerInfo { worker_id: WorkerId, info: WorkerInfo },
    NotifyPodStatus { worker_id: WorkerId, pod_id: PodId, status: PodStatus },
    NotifyPodSuspended { worker_id: WorkerId, pod_id: PodId, artifact: ArtifactPortId },
    DestroyArtifact { artifact: ArtifactPortId },
    CreateLease { lease: ScheduleLeaseId, worker_id: WorkerId, pod_id: PodId },
    DestroyLease { lease: ScheduleLeaseId },
    AssignPods { worker_id: WorkerId, pods: Seq<PodId> },
    CreatePeer { peer: WireGuardPeerId, info: WireGuardPeerEndpointInfo },
    DestroyPeer { peer: WireGuardPeerId },
    Demand(EndpointDemandOp),
    Management(ManagementOpView),
    FireTimer(TimerFired),
}

impl RouterOp {
    pub open spec fn view(&self) -> RouterOpView {
        match *self {
            RouterOp::CreateWorker { worker_id } => RouterOpView::CreateWorker { worker_id },
            RouterOp::DestroyWorker { worker_id } => RouterOpView::DestroyWorker { worker_id },
            RouterOp::SetWorkerInfo { worker_id, info } => RouterOpView::SetWorkerInfo {
                worker_id,
                info,
            },
            RouterOp::NotifyPodStatus { worker_id, pod_id, status } => {
                RouterOpView::NotifyPodStatus { worker_id, pod_id, status }
            },
            RouterOp::NotifyPodSuspended { worker_id, pod_id, artifact } => {
                RouterOpView::NotifyPodSuspended { worker_id, pod_id, artifact }
            },
            RouterOp::DestroyArtifact { artifact } => RouterOpView::DestroyArtifact { artifact },
            RouterOp::CreateLease { lease, worker_id, pod_id } => RouterOpView::CreateLease {
                lease,
                worker_id,
                pod_id,
            },
            RouterOp::DestroyLease { lease } => RouterOpView::DestroyLease { lease },
            RouterOp::AssignPods { worker_id, pods } => RouterOpView::AssignPods {
                worker_id,
                pods: pods@,
            },
            RouterOp::CreatePeer { peer, info } => RouterOpView::CreatePeer { peer, info },
            RouterOp::DestroyPeer { peer } => RouterOpView::DestroyPeer { peer },
            RouterOp::Demand(op) => RouterOpView::Demand(op),
            RouterOp::Management(op) => RouterOpView::Management(op@),
            RouterOp::FireTimer(fired) => RouterOpView::FireTimer(fired),
        }
    }
}

/// Changes to the router, with their texts and lists as sequences.
pub open spec fn router_views(ops: Seq<RouterOp>) -> Seq<RouterOpView> {
    ops.map_values(|op: RouterOp| op@)
}

/// Changes to the ports of endpoints.
pub open spec fn demand_views(ops: Seq<EndpointDemandOp>) -> Seq<RouterOpView> {
    ops.map_values(|op: EndpointDemandOp| RouterOpView::Demand(op))
}

/// Changes to what is managed.
pub open spec fn management_views(ops: Seq<ManagementOpView>) -> Seq<RouterOpView> {
    ops.map_values(|op: ManagementOpView| RouterOpView::Management(op))
}

/// Adds changes to the ports of endpoints.
pub fn push_demands(ops: &mut Vec<RouterOp>, more: Vec<EndpointDemandOp>)
    ensures
        router_views(final(ops)@) == router_views(old(ops)@) + demand_views(more@),
{
    let ghost before = router_views(ops@);
    let mut i: usize = 0;
    assert(router_views(ops@) =~= before + demand_views(more@.take(0)));
    while i < more.len()
        invariant
            i <= more@.len(),
            router_views(ops@) == before + demand_views(more@.take(i as int)),
        decreases more@.len() - i,
    {
        let ghost mid = router_views(ops@);
        ops.push(RouterOp::Demand(more[i]));
        i = i + 1;
        assert(router_views(ops@) =~= mid.push(RouterOpView::Demand(more@[i - 1])));
        assert(demand_views(more@.take(i as int)) =~= demand_views(more@.take(i - 1)).push(
            RouterOpView::Demand(more@[i - 1]),
        ));
        assert(router_views(ops@) =~= before + demand_views(more@.take(i as int)));
    }
    assert(more@.take(i as int) =~= more@);
}

/// A pod as the router knows it.
#[derive(Debug)]
pub struct PodSnapshot {
    pub workload_id: Option<WorkloadId>,
    pub worker_id: Option<WorkerId>,
    pub launch_spec: Option<Arc<PodSpec>>,
    pub status: PodStatus,
}

/// An endpoint as the router knows it.
#[derive(Debug, Clone, Copy, PartialEq, Eq, Structural)]
pub struct EndpointSnapshot {
    pub ip: u32,
    pub has_activation: bool,
    pub status: Option<EndpointStatus>,
    pub backend_need: Option<BackendNeed>,
}

/// A workload as the router knows it.
#[derive(Debug, Clone, Copy, PartialEq, Eq, Structural)]
pub struct WorkloadSnapshot {
    pub status: Option<WlStatus>,
    pub pod_id: Option<PodId>,
    pub endpoint_id: Option<EndpointId>,
}

/// A service as the router knows it.
#[derive(Debug, Clone, Copy, PartialEq, Eq, Structural)]
pub struct ServiceSnapshot {
    pub endpoint_id: Option<EndpointId>,
}

/// What the router holds at some moment.
pub struct RouterSnapshot {
    pub pods: SortedMap<PodId, PodSnapshot>,
    pub endpoints: SortedMap<EndpointId, EndpointSnapshot>,
    pub workloads: SortedMap<WorkloadId, WorkloadSnapshot>,
    pub services: SortedMap<ServiceId, ServiceSnapshot>,
}

/// The first endpoint with an address.
pub open spec fn endpoint_at(endpoints: Seq<(EndpointId, EndpointSnapshot)>, ip: u32) -> Option<
    EndpointId,
>
    decreases endpoints.len(),
{
    if endpoints.len() == 0 {
        None
    } else if endpoints[0].1.ip == ip {
        Some(endpoints[0].0)
    } else {
        endpoint_at(endpoints.skip(1), ip)
    }
}

impl RouterSnapshot {
    /// The first endpoint with an address.
    pub fn find_endpoint(&self, ip: u32) -> (r: Option<EndpointId>)
        ensures
            r == endpoint_at(self.endpoints.seq(), ip),
    {
        let ghost s = self.endpoints.seq();
        let n: usize = self.endpoints.len();
        let mut i: usize = 0;
        assert(s.skip(0) =~= s);
        while i < n
            invariant
                i <= n,
                n == s.len(),
                s == self.endpoints.seq(),
                endpoint_at(s.skip(i as int), ip) == endpoint_at(s, ip),
            decreases n - i,
        {
            assert(s.skip(i as int).skip(1) =~= s.skip(i + 1));
            assert(s.skip(i as int)[0] == s[i as int]);
            if self.endpoints.value_at(i).ip == ip {
                return Some(*self.endpoints.key_at(i));
            }
            i = i + 1;
        }
        None
    }
}

/// What the ports of the router have to deliver.
pub struct RouterDrain<E> {
    pub timers: Vec<(TimerId, TimerPortInput)>,
    pub schedule_requests: Vec<(ScheduleRequestId, ScheduleRequestPortInput)>,
    pub workers: Vec<(WorkerId, WorkerPortInput)>,
    pub endpoints: Vec<(FabricEndpointId, FabricEndpointPortInput)>,
    pub names: Vec<(DnsRegistryId, DnsRegistryPortInput)>,
    /// What observers of the namespace are to hear.
    pub observability_events: Vec<E>,
}

} // verus!
