//! Numbers for the things that the signal router holds.
use std::sync::Arc;

use vstd::prelude::*;

use crate::ids::PoolId;

use crate::sorted_map::Key;
use crate::types::{
    clone_pool, ContainerSpec, PodNetworkConfig, PodResourceRequirements, ServicePolicy,
};

verus! {

/// A workload inside the router.
#[derive(Debug, Clone, Copy, PartialEq, Eq, Hash, Structural)]
pub struct WorkloadId(pub u64);

impl Key for WorkloadId {
    type Id = WorkloadId;

    open spec fn id(&self) -> WorkloadId {
        *self
    }

    open spec fn before(a: WorkloadId, b: WorkloadId) -> bool {
        a.0 < b.0
    }

    proof fn before_irreflexive(a: WorkloadId) {
    }

    proof fn before_transitive(a: WorkloadId, b: WorkloadId, c: WorkloadId) {
    }

    proof fn before_total(a: WorkloadId, b: WorkloadId) {
    }

    fn same(&self, other: &Self) -> (r: bool) {
        self.0 == other.0
    }

    fn precedes(&self, other: &Self) -> (r: bool) {
        self.0 < other.0
    }

    fn duplicate(&self) -> (r: Self) {
        *self
    }
}

/// A service inside the router.
#[derive(Debug, Clone, Copy, PartialEq, Eq, Hash, Structural)]
pub struct ServiceId(pub u64);

impl Key for ServiceId {
    type Id = ServiceId;

    open spec fn id(&self) -> ServiceId {
        *self
    }

    open spec fn before(a: ServiceId, b: ServiceId) -> bool {
        a.0 < b.0
    }

    proof fn before_irreflexive(a: ServiceId) {
    }

    proof fn before_transitive(a: ServiceId, b: ServiceId, c: ServiceId) {
    }

    proof fn before_total(a: ServiceId, b: ServiceId) {
    }

    fn same(&self, other: &Self) -> (r: bool) {
        self.0 == other.0
    }

    fn precedes(&self, other: &Self) -> (r: bool) {
        self.0 < other.0
    }

    fn duplicate(&self) -> (r: Self) {
        *self
    }
}

/// A pod.
#[derive(Debug, Clone, Copy, PartialEq, Eq, Hash, Structural)]
pub struct PodId(pub u64);

impl Key for PodId {
    type Id = PodId;

    open spec fn id(&self) -> PodId {
        *self
    }

    open spec fn before(a: PodId, b: PodId) -> bool {
        a.0 < b.0
    }

    proof fn before_irreflexive(a: PodId) {
    }

    proof fn before_transitive(a: PodId, b: PodId, c: PodId) {
    }

    proof fn before_total(a: PodId, b: PodId) {
    }

    fn same(&self, other: &Self) -> (r: bool) {
        self.0 == other.0
    }

    fn precedes(&self, other: &Self) -> (r: bool) {
        self.0 < other.0
    }

    fn duplicate(&self) -> (r: Self) {
        *self
    }
}

/// A worker.
#[derive(Debug, Clone, Copy, PartialEq, Eq, Hash, Structural)]
pub struct WorkerId(pub u64);

impl Key for WorkerId {
    type Id = WorkerId;

    open spec fn id(&self) -> WorkerId {
        *self
    }

    open spec fn before(a: WorkerId, b: WorkerId) -> bool {
        a.0 < b.0
    }

    proof fn before_irreflexive(a: WorkerId) {
    }

    proof fn before_transitive(a: WorkerId, b: WorkerId, c: WorkerId) {
    }

    proof fn before_total(a: WorkerId, b: WorkerId) {
    }

    fn same(&self, other: &Self) -> (r: bool) {
        self.0 == other.0
    }

    fn precedes(&self, other: &Self) -> (r: bool) {
        self.0 < other.0
    }

    fn duplicate(&self) -> (r: Self) {
        *self
    }
}

/// An address that answers on the fabric.
#[derive(Debug, Clone, Copy, PartialEq, Eq, Hash, Structural)]
pub struct EndpointId(pub u64);

impl Key for EndpointId {
    type Id = EndpointId;

    open spec fn id(&self) -> EndpointId {
        *self
    }

    open spec fn before(a: EndpointId, b: EndpointId) -> bool {
        a.0 < b.0
    }

    proof fn before_irreflexive(a: EndpointId) {
    }

    proof fn before_transitive(a: EndpointId, b: EndpointId, c: EndpointId) {
    }

    proof fn before_total(a: EndpointId, b: EndpointId) {
    }

    fn same(&self, other: &Self) -> (r: bool) {
        self.0 == other.0
    }

    fn precedes(&self, other: &Self) -> (r: bool) {
        self.0 < other.0
    }

    fn duplicate(&self) -> (r: Self) {
        *self
    }
}

/// A stored snapshot inside the router.
#[derive(Debug, Clone, Copy, PartialEq, Eq, Hash, Structural)]
pub struct ArtifactPortId(pub u64);

impl Key for ArtifactPortId {
    type Id = ArtifactPortId;

    open spec fn id(&self) -> ArtifactPortId {
        *self
    }

    open spec fn before(a: ArtifactPortId, b: ArtifactPortId) -> bool {
        a.0 < b.0
    }

    proof fn before_irreflexive(a: ArtifactPortId) {
    }

    proof fn before_transitive(a: ArtifactPortId, b: ArtifactPortId, c: ArtifactPortId) {
    }

    proof fn before_total(a: ArtifactPortId, b: ArtifactPortId) {
    }

    fn same(&self, other: &Self) -> (r: bool) {
        self.0 == other.0
    }

    fn precedes(&self, other: &Self) -> (r: bool) {
        self.0 < other.0
    }

    fn duplicate(&self) -> (r: Self) {
        *self
    }
}

/// A pod's lease on a worker.
#[derive(Debug, Clone, Copy, PartialEq, Eq, Hash, Structural)]
pub struct ScheduleLeaseId(pub u64);

impl Key for ScheduleLeaseId {
    type Id = ScheduleLeaseId;

    open spec fn id(&self) -> ScheduleLeaseId {
        *self
    }

    open spec fn before(a: ScheduleLeaseId, b: ScheduleLeaseId) -> bool {
        a.0 < b.0
    }

    proof fn before_irreflexive(a: ScheduleLeaseId) {
    }

    proof fn before_transitive(a: ScheduleLeaseId, b: ScheduleLeaseId, c: ScheduleLeaseId) {
    }

    proof fn before_total(a: ScheduleLeaseId, b: ScheduleLeaseId) {
    }

    fn same(&self, other: &Self) -> (r: bool) {
        self.0 == other.0
    }

    fn precedes(&self, other: &Self) -> (r: bool) {
        self.0 < other.0
    }

    fn duplicate(&self) -> (r: Self) {
        *self
    }
}

/// A management port.
#[derive(Debug, Clone, Copy, PartialEq, Eq, Hash, Structural)]
pub struct ManagementId(pub u64);

impl Key for ManagementId {
    type Id = ManagementId;

    open spec fn id(&self) -> ManagementId {
        *self
    }

    open spec fn before(a: ManagementId, b: ManagementId) -> bool {
        a.0 < b.0
    }

    proof fn before_irreflexive(a: ManagementId) {
    }

    proof fn before_transitive(a: ManagementId, b: ManagementId, c: ManagementId) {
    }

    proof fn before_total(a: ManagementId, b: ManagementId) {
    }

    fn same(&self, other: &Self) -> (r: bool) {
        self.0 == other.0
    }

    fn precedes(&self, other: &Self) -> (r: bool) {
        self.0 < other.0
    }

    fn duplicate(&self) -> (r: Self) {
        *self
    }
}

/// A port that carries the need of a service.
#[derive(Debug, Clone, Copy, PartialEq, Eq, Hash, Structural)]
pub struct BackendNeedId(pub u64);

impl Key for BackendNeedId {
    type Id = BackendNeedId;

    open spec fn id(&self) -> BackendNeedId {
        *self
    }

    open spec fn before(a: BackendNeedId, b: BackendNeedId) -> bool {
        a.0 < b.0
    }

    proof fn before_irreflexive(a: BackendNeedId) {
    }

    proof fn before_transitive(a: BackendNeedId, b: BackendNeedId, c: BackendNeedId) {
    }

    proof fn before_total(a: BackendNeedId, b: BackendNeedId) {
    }

    fn same(&self, other: &Self) -> (r: bool) {
        self.0 == other.0
    }

    fn precedes(&self, other: &Self) -> (r: bool) {
        self.0 < other.0
    }

    fn duplicate(&self) -> (r: Self) {
        *self
    }
}

/// A port that carries the demand for an endpoint.
#[derive(Debug, Clone, Copy, PartialEq, Eq, Hash, Structural)]
pub struct EndpointDemandId(pub u64);

impl Key for EndpointDemandId {
    type Id = EndpointDemandId;

    open spec fn id(&self) -> EndpointDemandId {
        *self
    }

    open spec fn before(a: EndpointDemandId, b: EndpointDemandId) -> bool {
        a.0 < b.0
    }

    proof fn before_irreflexive(a: EndpointDemandId) {
    }

    proof fn before_transitive(a: EndpointDemandId, b: EndpointDemandId, c: EndpointDemandId) {
    }

    proof fn before_total(a: EndpointDemandId, b: EndpointDemandId) {
    }

    fn same(&self, other: &Self) -> (r: bool) {
        self.0 == other.0
    }

    fn precedes(&self, other: &Self) -> (r: bool) {
        self.0 < other.0
    }

    fn duplicate(&self) -> (r: Self) {
        *self
    }
}

/// A port that carries a client's endpoint.
#[derive(Debug, Clone, Copy, PartialEq, Eq, Hash, Structural)]
pub struct WireGuardPeerId(pub u64);

impl Key for WireGuardPeerId {
    type Id = WireGuardPeerId;

    open spec fn id(&self) -> WireGuardPeerId {
        *self
    }

    open spec fn before(a: WireGuardPeerId, b: WireGuardPeerId) -> bool {
        a.0 < b.0
    }

    proof fn before_irreflexive(a: WireGuardPeerId) {
    }

    proof fn before_transitive(a: WireGuardPeerId, b: WireGuardPeerId, c: WireGuardPeerId) {
    }

    proof fn before_total(a: WireGuardPeerId, b: WireGuardPeerId) {
    }

    fn same(&self, other: &Self) -> (r: bool) {
        self.0 == other.0
    }

    fn precedes(&self, other: &Self) -> (r: bool) {
        self.0 < other.0
    }

    fn duplicate(&self) -> (r: Self) {
        *self
    }
}

/// A port that timers are asked for on.
pub type TimerId = u64;

/// A port that pods ask for a worker on.
pub type ScheduleRequestId = u64;

/// The timer port.
pub const TIMER: TimerId = 0;

/// The port of the schedule requests.
pub const SCHEDULE_REQUEST: ScheduleRequestId = 0;

#[derive(Debug, Clone, Copy, PartialEq, Eq, Hash, Structural)]
pub enum WorkloadTimerKey {
    RetryBackoff,
}

#[derive(Debug, Clone, Copy, PartialEq, Eq, Hash, Structural)]
pub enum ServiceTimerKey {
    IdleTimeout,
}

#[derive(Debug, Clone, Copy, PartialEq, Eq, Hash, Structural)]
pub enum PodTimerKey {
    LaunchTimeout,
    SuspendTimeout,
}

#[derive(Debug, Clone, Copy, PartialEq, Eq, Hash, Structural)]
pub enum EndpointTimerKey {
    IdleTimeout,
}

/// A timer that is wanted. A new generation asks for a fresh start. A request without a duration
/// leaves it to the configuration.
#[derive(Debug, Clone, Copy, PartialEq, Eq, Structural)]
pub struct TimerRequest<K> {
    pub key: K,
    pub generation: u64,
    pub duration_ms: Option<u64>,
}

/// All the timers of one kind that are wanted, one entry per timer.
#[derive(Debug)]
pub enum TimerPortInput {
    WorkloadTimersInput(Vec<(WorkloadId, TimerRequest<WorkloadTimerKey>)>),
    ServiceTimersInput(Vec<(ServiceId, TimerRequest<ServiceTimerKey>)>),
    EndpointTimersInput(Vec<(EndpointId, TimerRequest<EndpointTimerKey>)>),
    PodTimersInput(Vec<(PodId, TimerRequest<PodTimerKey>)>),
}

/// What a pod that needs a worker asks for.
#[derive(Debug, Clone, Copy, PartialEq, Eq, Structural)]
pub struct PodScheduleRequest {
    pub resume_artifact: Option<ArtifactPortId>,
    /// The pod is to be suspended.
    pub suspend: bool,
}

/// All the pods that need a worker.
#[derive(Debug)]
pub enum ScheduleRequestPortInput {
    PodRequestsInput(Vec<(PodId, PodScheduleRequest)>),
}

/// What a pod is started with.
#[derive(Debug)]
pub struct PodSpec {
    pub network: Option<PodNetworkConfig>,
    pub containers: Arc<Vec<ContainerSpec>>,
    pub resources: Option<PodResourceRequirements>,
    pub volumes: Arc<Vec<String>>,
}

/// A pod that a worker is to run.
#[derive(Debug)]
pub struct AssignedPod {
    pub request: PodScheduleRequest,
    pub spec: Option<Arc<PodSpec>>,
}

impl Clone for AssignedPod {
    fn clone(&self) -> (r: Self)
        ensures
            r == *self,
    {
        AssignedPod { request: self.request, spec: clone_spec(&self.spec) }
    }
}

/// Another handle on what a pod is started with.
pub fn clone_spec(spec: &Option<Arc<PodSpec>>) -> (r: Option<Arc<PodSpec>>)
    ensures
        r == *spec,
{
    match spec {
        Some(s) => Some(s.clone()),
        None => None,
    }
}

/// How a pod is.
#[derive(Debug, Clone, Copy, PartialEq, Eq, Structural)]
pub enum PodStatus {
    Pending,
    Running,
    Suspending,
    Suspended { artifact: ArtifactPortId },
    Finished,
    Failed,
    Displaced,
}

/// How a workload is.
#[derive(Debug, Clone, Copy, PartialEq, Eq, Structural)]
pub enum WlStatus {
    Dormant,
    WaitingForSpec,
    Launching,
    Running,
    Suspending,
    Suspended,
    RetryBackoff,
    Failed,
    Completed,
}

/// How an endpoint is.
#[derive(Debug, Clone, Copy, PartialEq, Eq, Structural)]
pub enum EndpointStatus {
    Idle,
    NeedBackend,
    Active,
}

/// What an administrator asks of a workload.
#[derive(Debug, Clone, Copy, PartialEq, Eq, Structural)]
pub enum AdminCmd {
    Restart,
    Scavenge,
}

/// What a worker offers to a namespace.
#[derive(Debug, PartialEq, Eq)]
pub struct WorkerInfo {
    pub capacity: u32,
    pub default_pool: Option<PoolId>,
}

impl Clone for WorkerInfo {
    fn clone(&self) -> (r: Self)
        ensures
            r == *self,
    {
        WorkerInfo { capacity: self.capacity, default_pool: clone_pool(&self.default_pool) }
    }
}

/// A workload as its machine sees it.
#[derive(Debug, PartialEq, Eq)]
pub struct WorkloadSpec {
    pub image: String,
}

/// A service as its machine sees it.
#[derive(Debug, Clone, Copy, PartialEq, Eq, Structural)]
pub struct ServiceSpec {
    pub workload: WorkloadId,
    pub has_activation: bool,
}

/// What answers at an endpoint.
#[derive(Debug)]
pub enum EndpointKind {
    Service { service_id: ServiceId, policy: Arc<ServicePolicy> },
    Workload,
}

/// The pod behind an endpoint.
#[derive(Debug, Clone, Copy, PartialEq, Eq, Structural)]
pub struct EndpointBackend {
    pub ip: Option<u32>,
    pub worker_id: WorkerId,
}

/// An endpoint as workers are to know it.
#[derive(Debug)]
pub struct EndpointInfo {
    pub ip: u32,
    pub kind: EndpointKind,
    pub backend: Option<EndpointBackend>,
}

impl Clone for EndpointInfo {
    fn clone(&self) -> (r: Self)
        ensures
            r == *self,
    {
        let kind: EndpointKind = match &self.kind {
            EndpointKind::Service { service_id, policy } => EndpointKind::Service {
                service_id: *service_id,
                policy: policy.clone(),
            },
            EndpointKind::Workload => EndpointKind::Workload,
        };
        EndpointInfo { ip: self.ip, kind, backend: self.backend }
    }
}

/// A client's endpoint and the worker it is reached through.
#[derive(Debug, Clone, Copy, PartialEq, Eq)]
pub struct WireGuardPeerEndpointInfo {
    pub peer_ip: u32,
    pub worker_id: WorkerId,
    pub peer_public_key: [u8; 32],
}

/// A name that is to resolve to an address.
#[derive(Debug, PartialEq, Eq)]
pub struct DnsEntryInfo {
    pub name: String,
    pub ip: u32,
}

/// A port that endpoints are announced on.
pub type FabricEndpointId = u64;

/// A port that names are announced on.
pub type DnsRegistryId = u64;

/// The port of the endpoints.
pub const FABRIC_ENDPOINT: FabricEndpointId = 0;

/// The port of the names.
pub const DNS_REGISTRY: DnsRegistryId = 0;

} // verus!
