//! The vocabulary of the namespace layer: specs, commands, events, outputs.
use std::sync::Arc;

use vstd::prelude::*;

use crate::ids::{ArtifactId, NamespaceId, PodId, PoolId, ServiceId, WorkerId, WorkloadId};
use crate::sorted_map::{Key, SortedMap};

verus! {

// ---- network and workload specs -----------------------------------------------------------

/// The network of a namespace. Addresses are in host byte order.
#[derive(Debug, Clone, Copy, PartialEq, Eq)]
pub struct NetworkConfig {
    pub subnet: u32,
    pub gateway: u32,
    pub prefix_len: u8,
    pub segment_id: Option<u16>,
}

/// The network interface of a pod.
#[derive(Debug, PartialEq, Eq)]
pub struct PodNetworkConfig {
    pub ip: u32,
    pub mac: [u8; 6],
    pub gateway: u32,
    pub netmask: String,
}

impl Clone for PodNetworkConfig {
    fn clone(&self) -> (r: Self)
        ensures
            r == *self,
    {
        PodNetworkConfig {
            ip: self.ip,
            mac: self.mac,
            gateway: self.gateway,
            netmask: self.netmask.clone(),
        }
    }
}

/// How a container is started.
#[derive(Debug, Clone, PartialEq, Eq)]
pub struct ContainerConfig {
    pub entrypoint: Vec<String>,
    pub args: Vec<String>,
    pub env: Vec<String>,
    pub working_dir: Option<String>,
    pub uid: Option<u32>,
    pub gid: Option<u32>,
    pub hostname: Option<String>,
    pub capture_output: bool,
    pub stdin: bool,
}

#[derive(Debug, Clone, PartialEq, Eq)]
pub struct ContainerSpec {
    pub container_id: String,
    pub image_ref: String,
    pub config: ContainerConfig,
}

#[derive(Debug, Clone, Copy, PartialEq, Eq, Structural)]
pub struct ResourceValues {
    pub memory_mb: u64,
    pub vcpus: u32,
}

#[derive(Debug, Clone, Copy, PartialEq, Eq)]
pub struct ResourceRequirements {
    pub requests: Option<ResourceValues>,
    pub limits: Option<ResourceValues>,
}

/// Resource values as a worker takes them.
#[derive(Debug, Clone, Copy, PartialEq, Eq, Structural)]
pub struct PodResourceValues {
    pub memory_mib: u64,
    pub vcpus: u32,
}

/// Resource requirements as a worker takes them.
#[derive(Debug, Clone, Copy, PartialEq, Eq)]
pub struct PodResourceRequirements {
    pub requests: Option<PodResourceValues>,
    pub limits: Option<PodResourceValues>,
}

#[derive(Debug, Clone, PartialEq, Eq)]
pub enum ActivatorConfig {
    Tcp { ports: Option<Vec<u16>>, tcp_only: bool, max_flows: u32 },
    Http2,
}

#[derive(Debug, Clone, PartialEq, Eq)]
pub struct ServicePolicy {
    pub buffer_frames: u32,
    pub timeout_ms: u64,
    pub activator: Option<ActivatorConfig>,
}

#[derive(Debug, Clone, Copy, PartialEq, Eq, Structural)]
pub struct ActivationSpec {
    pub idle_timeout_ms: u64,
}

/// A workload as the client asks for it. The containers are shared: nothing changes them.
#[derive(Debug, PartialEq, Eq)]
pub struct WorkloadSpec {
    pub containers: Arc<Vec<ContainerSpec>>,
    pub network: PodNetworkConfig,
    pub suspend_on_idle: bool,
    pub resources: Option<ResourceRequirements>,
    pub activation: Option<ActivationSpec>,
}

impl Clone for WorkloadSpec {
    fn clone(&self) -> (r: Self)
        ensures
            r == *self,
    {
        WorkloadSpec {
            containers: self.containers.clone(),
            network: self.network.clone(),
            suspend_on_idle: self.suspend_on_idle,
            resources: self.resources,
            activation: self.activation,
        }
    }
}

/// A service as the client asks for it.
#[derive(Debug, PartialEq, Eq)]
pub struct ServiceSpec {
    pub workload_id: WorkloadId,
    pub ip: u32,
    pub policy: Arc<ServicePolicy>,
    pub activation: Option<ActivationSpec>,
}

impl Clone for ServiceSpec {
    fn clone(&self) -> (r: Self)
        ensures
            r == *self,
    {
        ServiceSpec {
            workload_id: self.workload_id.clone(),
            ip: self.ip,
            policy: self.policy.clone(),
            activation: self.activation,
        }
    }
}

/// A namespace as the client asks for it.
pub struct NamespaceSpec {
    pub network: NetworkConfig,
    pub workloads: SortedMap<WorkloadId, WorkloadSpec>,
    pub services: SortedMap<ServiceId, ServiceSpec>,
}

// ---- states ---------------------------------------------------------------------------------

#[derive(Debug, Clone, Copy, PartialEq, Eq, Structural)]
pub enum NamespaceStatus {
    Creating,
    Active,
    Destroying,
}

#[derive(Debug, Clone, Copy, PartialEq, Eq, Structural)]
pub enum FabricStatus {
    Creating,
    Active,
    Destroying,
}

/// How hard a worker is pressed for a resource.
#[derive(Debug, Clone, Copy, PartialEq, Eq, Structural)]
pub enum PressureBand {
    Normal,
    Elevated,
    High,
    Critical,
}

impl PressureBand {
    /// The band as a number: the higher, the harder pressed.
    pub open spec fn level(self) -> int {
        match self {
            PressureBand::Normal => 0,
            PressureBand::Elevated => 1,
            PressureBand::High => 2,
            PressureBand::Critical => 3,
        }
    }

    /// The band as a number.
    pub fn rank(self) -> (r: u8)
        ensures
            r == self.level(),
    {
        match self {
            PressureBand::Normal => 0,
            PressureBand::Elevated => 1,
            PressureBand::High => 2,
            PressureBand::Critical => 3,
        }
    }

    /// The harder pressed of two bands.
    pub open spec fn worse(self, other: PressureBand) -> PressureBand {
        if self.level() >= other.level() {
            self
        } else {
            other
        }
    }
}

/// The pressure of a worker in each dimension.
#[derive(Debug, Clone, Copy, PartialEq, Eq, Structural)]
pub struct PressureBands {
    pub memory: PressureBand,
    pub compute: PressureBand,
    pub storage: PressureBand,
}

impl PressureBands {
    pub open spec fn worst(self) -> PressureBand {
        self.memory.worse(self.compute).worse(self.storage)
    }

    /// The worst band over all dimensions.
    pub fn max_band(&self) -> (r: PressureBand)
        ensures
            r == self.worst(),
    {
        let mut r: PressureBand = self.memory;
        if self.compute.rank() > r.rank() {
            r = self.compute;
        }
        if self.storage.rank() > r.rank() {
            r = self.storage;
        }
        r
    }
}

impl Default for PressureBands {
    fn default() -> (r: Self)
        ensures
            r.memory == PressureBand::Normal,
            r.compute == PressureBand::Normal,
            r.storage == PressureBand::Normal,
    {
        PressureBands {
            memory: PressureBand::Normal,
            compute: PressureBand::Normal,
            storage: PressureBand::Normal,
        }
    }
}

/// A worker as one namespace sees it.
#[derive(Debug, PartialEq, Eq)]
pub struct NamespaceWorkerState {
    pub fabric_status: FabricStatus,
    pub primary_pool_id: Option<PoolId>,
    pub pressure_band: PressureBand,
}

impl Clone for NamespaceWorkerState {
    fn clone(&self) -> (r: Self)
        ensures
            r == *self,
    {
        NamespaceWorkerState {
            fabric_status: self.fabric_status,
            primary_pool_id: clone_pool(&self.primary_pool_id),
            pressure_band: self.pressure_band,
        }
    }
}

/// A copy of an optional pool name.
pub fn clone_pool(pool: &Option<PoolId>) -> (r: Option<PoolId>)
    ensures
        r == *pool,
{
    match pool {
        Some(p) => Some(p.clone()),
        None => None,
    }
}

/// How much a service needs its backend.
#[derive(Debug, Clone, Copy, PartialEq, Eq, Structural)]
pub enum BackendNeed {
    Nothing,
    Traffic,
    Active,
}

/// What a timer is for.
#[derive(Debug, PartialEq, Eq)]
pub enum TimerKey {
    IdleTimeout { service_id: ServiceId },
    LaunchTimeout { workload_id: WorkloadId, pod_id: PodId },
    SuspendTimeout { workload_id: WorkloadId, pod_id: PodId },
    ResumeTimeout { workload_id: WorkloadId, pod_id: PodId },
    RetryBackoffTimeout { workload_id: WorkloadId },
}

impl Clone for TimerKey {
    fn clone(&self) -> (r: Self)
        ensures
            r == *self,
    {
        match self {
            TimerKey::IdleTimeout { service_id } => TimerKey::IdleTimeout {
                service_id: service_id.clone(),
            },
            TimerKey::LaunchTimeout { workload_id, pod_id } => TimerKey::LaunchTimeout {
                workload_id: workload_id.clone(),
                pod_id: pod_id.clone(),
            },
            TimerKey::SuspendTimeout { workload_id, pod_id } => TimerKey::SuspendTimeout {
                workload_id: workload_id.clone(),
                pod_id: pod_id.clone(),
            },
            TimerKey::ResumeTimeout { workload_id, pod_id } => TimerKey::ResumeTimeout {
                workload_id: workload_id.clone(),
                pod_id: pod_id.clone(),
            },
            TimerKey::RetryBackoffTimeout { workload_id } => TimerKey::RetryBackoffTimeout {
                workload_id: workload_id.clone(),
            },
        }
    }
}

impl TimerKey {
    /// Two keys name the same timer: same kind, same names.
    pub open spec fn alike(self, other: TimerKey) -> bool {
        match (self, other) {
            (
                TimerKey::IdleTimeout { service_id: a },
                TimerKey::IdleTimeout { service_id: b },
            ) => a.id() == b.id(),
            (
                TimerKey::LaunchTimeout { workload_id: a, pod_id: p },
                TimerKey::LaunchTimeout { workload_id: b, pod_id: q },
            ) => a.id() == b.id() && p.id() == q.id(),
            (
                TimerKey::SuspendTimeout { workload_id: a, pod_id: p },
                TimerKey::SuspendTimeout { workload_id: b, pod_id: q },
            ) => a.id() == b.id() && p.id() == q.id(),
            (
                TimerKey::ResumeTimeout { workload_id: a, pod_id: p },
                TimerKey::ResumeTimeout { workload_id: b, pod_id: q },
            ) => a.id() == b.id() && p.id() == q.id(),
            (
                TimerKey::RetryBackoffTimeout { workload_id: a },
                TimerKey::RetryBackoffTimeout { workload_id: b },
            ) => a.id() == b.id(),
            _ => false,
        }
    }

    /// Whether two keys name the same timer.
    pub fn same(&self, other: &TimerKey) -> (r: bool)
        ensures
            r == self.alike(*other),
    {
        match (self, other) {
            (
                TimerKey::IdleTimeout { service_id: a },
                TimerKey::IdleTimeout { service_id: b },
            ) => a.same(b),
            (
                TimerKey::LaunchTimeout { workload_id: a, pod_id: p },
                TimerKey::LaunchTimeout { workload_id: b, pod_id: q },
            ) => a.same(b) && p.same(q),
            (
                TimerKey::SuspendTimeout { workload_id: a, pod_id: p },
                TimerKey::SuspendTimeout { workload_id: b, pod_id: q },
            ) => a.same(b) && p.same(q),
            (
                TimerKey::ResumeTimeout { workload_id: a, pod_id: p },
                TimerKey::ResumeTimeout { workload_id: b, pod_id: q },
            ) => a.same(b) && p.same(q),
            (
                TimerKey::RetryBackoffTimeout { workload_id: a },
                TimerKey::RetryBackoffTimeout { workload_id: b },
            ) => a.same(b),
            _ => false,
        }
    }
}

// ---- worker commands ------------------------------------------------------------------------

/// The pod behind a service.
#[derive(Debug, Clone, Copy, PartialEq, Eq, Structural)]
pub struct ServiceBackend {
    pub pod_ip: u32,
}

/// The worker that hosts an endpoint.
#[derive(Debug, PartialEq, Eq)]
pub struct EndpointPlacement {
    pub worker_id: WorkerId,
}

#[derive(Debug, PartialEq, Eq)]
pub struct EndpointPodBackend {
    pub pod_ip: u32,
    pub placement: Option<EndpointPlacement>,
    pub ready: bool,
}

#[derive(Debug, PartialEq, Eq)]
pub enum EndpointKind {
    Pod { placement: Option<EndpointPlacement> },
    Service {
        service_id: ServiceId,
        policy: Arc<ServicePolicy>,
        backend: Option<EndpointPodBackend>,
    },
    WireGuardPeer { placement: Option<EndpointPlacement> },
}

/// An address on the fabric and what answers there.
#[derive(Debug, PartialEq, Eq)]
pub struct EndpointSpec {
    pub ip: u32,
    pub kind: EndpointKind,
}

impl Clone for EndpointPlacement {
    fn clone(&self) -> (r: Self)
        ensures
            r == *self,
    {
        EndpointPlacement { worker_id: self.worker_id.clone() }
    }
}

fn clone_placement(p: &Option<EndpointPlacement>) -> (r: Option<EndpointPlacement>)
    ensures
        r == *p,
{
    match p {
        Some(p) => Some(p.clone()),
        None => None,
    }
}

impl Clone for EndpointPodBackend {
    fn clone(&self) -> (r: Self)
        ensures
            r == *self,
    {
        EndpointPodBackend {
            pod_ip: self.pod_ip,
            placement: clone_placement(&self.placement),
            ready: self.ready,
        }
    }
}

impl Clone for EndpointKind {
    fn clone(&self) -> (r: Self)
        ensures
            r == *self,
    {
        match self {
            EndpointKind::Pod { placement } => EndpointKind::Pod {
                placement: clone_placement(placement),
            },
            EndpointKind::Service { service_id, policy, backend } => EndpointKind::Service {
                service_id: service_id.clone(),
                policy: policy.clone(),
                backend: match backend {
                    Some(b) => Some(b.clone()),
                    None => None,
                },
            },
            EndpointKind::WireGuardPeer { placement } => EndpointKind::WireGuardPeer {
                placement: clone_placement(placement),
            },
        }
    }
}

impl Clone for EndpointSpec {
    fn clone(&self) -> (r: Self)
        ensures
            r == *self,
    {
        EndpointSpec { ip: self.ip, kind: self.kind.clone() }
    }
}

/// A name that resolves to an address.
#[derive(Debug, PartialEq, Eq)]
pub struct RegistryEntry {
    pub name: String,
    pub ip: u32,
}

impl Clone for RegistryEntry {
    fn clone(&self) -> (r: Self)
        ensures
            r == *self,
    {
        RegistryEntry { name: self.name.clone(), ip: self.ip }
    }
}

/// A pod address and the worker it is reached through.
#[derive(Debug, PartialEq, Eq)]
pub struct FabricRouteEntry {
    pub ip: u32,
    pub remote_worker: WorkerId,
}

impl Clone for FabricRouteEntry {
    fn clone(&self) -> (r: Self)
        ensures
            r == *self,
    {
        FabricRouteEntry { ip: self.ip, remote_worker: self.remote_worker.clone() }
    }
}

/// A worker as its peers see it.
#[derive(Debug, PartialEq, Eq)]
pub struct WorkerPeerInfo {
    pub worker_id: WorkerId,
    pub endpoint: String,
    pub public_key: [u8; 32],
    pub segments: Arc<Vec<u16>>,
}

impl Clone for WorkerPeerInfo {
    fn clone(&self) -> (r: Self)
        ensures
            r == *self,
    {
        WorkerPeerInfo {
            worker_id: self.worker_id.clone(),
            endpoint: self.endpoint.clone(),
            public_key: self.public_key,
            segments: self.segments.clone(),
        }
    }
}

/// A worker as its peers see it, with its texts and lists as sequences.
#[verifier::ext_equal]
pub struct PeerView {
    pub worker_id: WorkerId,
    pub endpoint: Seq<char>,
    pub public_key: [u8; 32],
    pub segments: Seq<u16>,
}

impl WorkerPeerInfo {
    pub open spec fn view(&self) -> PeerView {
        PeerView {
            worker_id: self.worker_id,
            endpoint: self.endpoint@,
            public_key: self.public_key,
            segments: (*self.segments)@,
        }
    }
}

/// What a worker is told to do.
#[derive(Debug, PartialEq, Eq)]
pub enum WorkerCommand {
    CreateNamespace { namespace_id: NamespaceId, network: NetworkConfig },
    DestroyNamespace { namespace_id: NamespaceId },
    LaunchPod {
        namespace_id: NamespaceId,
        pod_id: PodId,
        network: PodNetworkConfig,
        containers: Arc<Vec<ContainerSpec>>,
        resources: Option<PodResourceRequirements>,
    },
    ResumePod {
        namespace_id: NamespaceId,
        pod_id: PodId,
        artifact_id: ArtifactId,
        network: PodNetworkConfig,
        pool_id: PoolId,
    },
    StopPod { namespace_id: NamespaceId, pod_id: PodId, graceful: bool },
    SuspendPod {
        namespace_id: NamespaceId,
        pod_id: PodId,
        artifact_id: ArtifactId,
        pool_id: PoolId,
    },
    DeleteArtifact { artifact_id: ArtifactId, pool_id: PoolId },
    CreateService {
        namespace_id: NamespaceId,
        service_id: ServiceId,
        ip: u32,
        policy: Arc<ServicePolicy>,
    },
    DestroyService { namespace_id: NamespaceId, service_id: ServiceId },
    UpdateServiceBackend {
        namespace_id: NamespaceId,
        service_id: ServiceId,
        backend: Option<ServiceBackend>,
    },
    ServiceReady { namespace_id: NamespaceId, service_id: ServiceId },
    EndpointSync { namespace_id: NamespaceId, endpoints: Vec<EndpointSpec> },
    EndpointUpdate { namespace_id: NamespaceId, upserted: Vec<EndpointSpec>, removed_ips: Vec<u32> },
    RegistrySync { namespace_id: NamespaceId, entries: Vec<RegistryEntry> },
    FabricRouteSync { namespace_id: NamespaceId, routes: Vec<FabricRouteEntry> },
    FabricRouteUpdate {
        namespace_id: NamespaceId,
        added: Vec<FabricRouteEntry>,
        removed_ips: Vec<u32>,
    },
    AddWireGuardPeer {
        namespace_id: NamespaceId,
        peer_public_key: [u8; 32],
        peer_ip: u32,
        preshared_key: Option<[u8; 32]>,
    },
    RemoveWireGuardPeer { peer_public_key: [u8; 32] },
    WorkerRegistrySync { workers: Vec<WorkerPeerInfo> },
}

/// A pod network with its netmask as characters.
pub struct PodNetworkView {
    pub ip: u32,
    pub mac: [u8; 6],
    pub gateway: u32,
    pub netmask: Seq<char>,
}

impl PodNetworkConfig {
    pub open spec fn view(&self) -> PodNetworkView {
        PodNetworkView {
            ip: self.ip,
            mac: self.mac,
            gateway: self.gateway,
            netmask: self.netmask@,
        }
    }
}

/// A worker command with its lists as sequences.
#[verifier::ext_equal]
pub enum CommandView {
    CreateNamespace { namespace_id: NamespaceId, network: NetworkConfig },
    DestroyNamespace { namespace_id: NamespaceId },
    LaunchPod {
        namespace_id: NamespaceId,
        pod_id: PodId,
        network: PodNetworkView,
        containers: Arc<Vec<ContainerSpec>>,
        resources: Option<PodResourceRequirements>,
    },
    ResumePod {
        namespace_id: NamespaceId,
        pod_id: PodId,
        artifact_id: ArtifactId,
        network: PodNetworkView,
        pool_id: PoolId,
    },
    StopPod { namespace_id: NamespaceId, pod_id: PodId, graceful: bool },
    SuspendPod {
        namespace_id: NamespaceId,
        pod_id: PodId,
        artifact_id: ArtifactId,
        pool_id: PoolId,
    },
    DeleteArtifact { artifact_id: ArtifactId, pool_id: PoolId },
    CreateService {
        namespace_id: NamespaceId,
        service_id: ServiceId,
        ip: u32,
        policy: Arc<ServicePolicy>,
    },
    DestroyService { namespace_id: NamespaceId, service_id: ServiceId },
    UpdateServiceBackend {
        namespace_id: NamespaceId,
        service_id: ServiceId,
        backend: Option<ServiceBackend>,
    },
    ServiceReady { namespace_id: NamespaceId, service_id: ServiceId },
    EndpointSync { namespace_id: NamespaceId, endpoints: Seq<EndpointSpec> },
    EndpointUpdate { namespace_id: NamespaceId, upserted: Seq<EndpointSpec>, removed_ips: Seq<u32> },
    RegistrySync { namespace_id: NamespaceId, entries: Seq<RegistryEntry> },
    FabricRouteSync { namespace_id: NamespaceId, routes: Seq<FabricRouteEntry> },
    FabricRouteUpdate {
        namespace_id: NamespaceId,
        added: Seq<FabricRouteEntry>,
        removed_ips: Seq<u32>,
    },
    AddWireGuardPeer {
        namespace_id: NamespaceId,
        peer_public_key: [u8; 32],
        peer_ip: u32,
        preshared_key: Option<[u8; 32]>,
    },
    RemoveWireGuardPeer { peer_public_key: [u8; 32] },
    WorkerRegistrySync { workers: Seq<PeerView> },
}

impl WorkerCommand {
    pub open spec fn view(&self) -> CommandView {
        match *self {
            WorkerCommand::CreateNamespace { namespace_id, network } => {
                CommandView::CreateNamespace { namespace_id, network }
            },
            WorkerCommand::DestroyNamespace { namespace_id } => CommandView::DestroyNamespace {
                namespace_id,
            },
            WorkerCommand::LaunchPod { namespace_id, pod_id, network, containers, resources } => {
                CommandView::LaunchPod {
                    namespace_id,
                    pod_id,
                    network: network@,
                    containers,
                    resources,
                }
            },
            WorkerCommand::ResumePod { namespace_id, pod_id, artifact_id, network, pool_id } => {
                CommandView::ResumePod { namespace_id, pod_id, artifact_id, network: network@, pool_id }
            },
            WorkerCommand::StopPod { namespace_id, pod_id, graceful } => CommandView::StopPod {
                namespace_id,
                pod_id,
                graceful,
            },
            WorkerCommand::SuspendPod { namespace_id, pod_id, artifact_id, pool_id } => {
                CommandView::SuspendPod { namespace_id, pod_id, artifact_id, pool_id }
            },
            WorkerCommand::DeleteArtifact { artifact_id, pool_id } => CommandView::DeleteArtifact {
                artifact_id,
                pool_id,
            },
            WorkerCommand::CreateService { namespace_id, service_id, ip, policy } => {
                CommandView::CreateService { namespace_id, service_id, ip, policy }
            },
            WorkerCommand::DestroyService { namespace_id, service_id } => {
                CommandView::DestroyService { namespace_id, service_id }
            },
            WorkerCommand::UpdateServiceBackend { namespace_id, service_id, backend } => {
                CommandView::UpdateServiceBackend { namespace_id, service_id, backend }
            },
            WorkerCommand::ServiceReady { namespace_id, service_id } => CommandView::ServiceReady {
                namespace_id,
                service_id,
            },
            WorkerCommand::EndpointSync { namespace_id, endpoints } => CommandView::EndpointSync {
                namespace_id,
                endpoints: endpoints@,
            },
            WorkerCommand::EndpointUpdate { namespace_id, upserted, removed_ips } => {
                CommandView::EndpointUpdate {
                    namespace_id,
                    upserted: upserted@,
                    removed_ips: removed_ips@,
                }
            },
            WorkerCommand::RegistrySync { namespace_id, entries } => CommandView::RegistrySync {
                namespace_id,
                entries: entries@,
            },
            WorkerCommand::FabricRouteSync { namespace_id, routes } => {
                CommandView::FabricRouteSync { namespace_id, routes: routes@ }
            },
            WorkerCommand::FabricRouteUpdate { namespace_id, added, removed_ips } => {
                CommandView::FabricRouteUpdate {
                    namespace_id,
                    added: added@,
                    removed_ips: removed_ips@,
                }
            },
            WorkerCommand::AddWireGuardPeer {
                namespace_id,
                peer_public_key,
                peer_ip,
                preshared_key,
            } => CommandView::AddWireGuardPeer {
                namespace_id,
                peer_public_key,
                peer_ip,
                preshared_key,
            },
            WorkerCommand::RemoveWireGuardPeer { peer_public_key } => {
                CommandView::RemoveWireGuardPeer { peer_public_key }
            },
            WorkerCommand::WorkerRegistrySync { workers } => CommandView::WorkerRegistrySync {
                workers: workers@.map_values(|w: WorkerPeerInfo| w@),
            },
        }
    }
}

impl Clone for WorkerCommand {
    fn clone(&self) -> (r: Self)
        ensures
            r@ == self@,
    {
        match self {
            WorkerCommand::CreateNamespace { namespace_id, network } => {
                WorkerCommand::CreateNamespace {
                    namespace_id: namespace_id.clone(),
                    network: *network,
                }
            },
            WorkerCommand::DestroyNamespace { namespace_id } => WorkerCommand::DestroyNamespace {
                namespace_id: namespace_id.clone(),
            },
            WorkerCommand::LaunchPod { namespace_id, pod_id, network, containers, resources } => {
                WorkerCommand::LaunchPod {
                    namespace_id: namespace_id.clone(),
                    pod_id: pod_id.clone(),
                    network: network.clone(),
                    containers: containers.clone(),
                    resources: *resources,
                }
            },
            WorkerCommand::ResumePod { namespace_id, pod_id, artifact_id, network, pool_id } => {
                WorkerCommand::ResumePod {
                    namespace_id: namespace_id.clone(),
                    pod_id: pod_id.clone(),
                    artifact_id: artifact_id.clone(),
                    network: network.clone(),
                    pool_id: pool_id.clone(),
                }
            },
            WorkerCommand::StopPod { namespace_id, pod_id, graceful } => WorkerCommand::StopPod {
                namespace_id: namespace_id.clone(),
                pod_id: pod_id.clone(),
                graceful: *graceful,
            },
            WorkerCommand::SuspendPod { namespace_id, pod_id, artifact_id, pool_id } => {
                WorkerCommand::SuspendPod {
                    namespace_id: namespace_id.clone(),
                    pod_id: pod_id.clone(),
                    artifact_id: artifact_id.clone(),
                    pool_id: pool_id.clone(),
                }
            },
            WorkerCommand::DeleteArtifact { artifact_id, pool_id } => {
                WorkerCommand::DeleteArtifact {
                    artifact_id: artifact_id.clone(),
                    pool_id: pool_id.clone(),
                }
            },
            WorkerCommand::CreateService { namespace_id, service_id, ip, policy } => {
                WorkerCommand::CreateService {
                    namespace_id: namespace_id.clone(),
                    service_id: service_id.clone(),
                    ip: *ip,
                    policy: policy.clone(),
                }
            },
            WorkerCommand::DestroyService { namespace_id, service_id } => {
                WorkerCommand::DestroyService {
                    namespace_id: namespace_id.clone(),
                    service_id: service_id.clone(),
                }
            },
            WorkerCommand::UpdateServiceBackend { namespace_id, service_id, backend } => {
                WorkerCommand::UpdateServiceBackend {
                    namespace_id: namespace_id.clone(),
                    service_id: service_id.clone(),
                    backend: *backend,
                }
            },
            WorkerCommand::ServiceReady { namespace_id, service_id } => {
                WorkerCommand::ServiceReady {
                    namespace_id: namespace_id.clone(),
                    service_id: service_id.clone(),
                }
            },
            WorkerCommand::EndpointSync { namespace_id, endpoints } => {
                let copy: Vec<EndpointSpec> = endpoints.clone();
                assert(copy@ =~= endpoints@);
                WorkerCommand::EndpointSync { namespace_id: namespace_id.clone(), endpoints: copy }
            },
            WorkerCommand::EndpointUpdate { namespace_id, upserted, removed_ips } => {
                let up: Vec<EndpointSpec> = upserted.clone();
                let down: Vec<u32> = removed_ips.clone();
                assert(up@ =~= upserted@);
                assert(down@ =~= removed_ips@);
                WorkerCommand::EndpointUpdate {
                    namespace_id: namespace_id.clone(),
                    upserted: up,
                    removed_ips: down,
                }
            },
            WorkerCommand::RegistrySync { namespace_id, entries } => {
                let copy: Vec<RegistryEntry> = entries.clone();
                assert(copy@ =~= entries@);
                WorkerCommand::RegistrySync { namespace_id: namespace_id.clone(), entries: copy }
            },
            WorkerCommand::FabricRouteSync { namespace_id, routes } => {
                let copy: Vec<FabricRouteEntry> = routes.clone();
                assert(copy@ =~= routes@);
                WorkerCommand::FabricRouteSync { namespace_id: namespace_id.clone(), routes: copy }
            },
            WorkerCommand::FabricRouteUpdate { namespace_id, added, removed_ips } => {
                let up: Vec<FabricRouteEntry> = added.clone();
                let down: Vec<u32> = removed_ips.clone();
                assert(up@ =~= added@);
                assert(down@ =~= removed_ips@);
                WorkerCommand::FabricRouteUpdate {
                    namespace_id: namespace_id.clone(),
                    added: up,
                    removed_ips: down,
                }
            },
            WorkerCommand::AddWireGuardPeer {
                namespace_id,
                peer_public_key,
                peer_ip,
                preshared_key,
            } => WorkerCommand::AddWireGuardPeer {
                namespace_id: namespace_id.clone(),
                peer_public_key: *peer_public_key,
                peer_ip: *peer_ip,
                preshared_key: *preshared_key,
            },
            WorkerCommand::RemoveWireGuardPeer { peer_public_key } => {
                WorkerCommand::RemoveWireGuardPeer { peer_public_key: *peer_public_key }
            },
            WorkerCommand::WorkerRegistrySync { workers } => {
                let copy: Vec<WorkerPeerInfo> = workers.clone();
                assert(copy@ =~= workers@);
                WorkerCommand::WorkerRegistrySync { workers: copy }
            },
        }
    }
}

/// Two keys name the same timer exactly if they are of one kind and name the same things. This is an
/// equivalence.
pub proof fn law_same_timer(a: TimerKey, b: TimerKey, c: TimerKey)
    ensures
        a.alike(a),
        a.alike(b) == b.alike(a),
        a.alike(b) && b.alike(c) ==> a.alike(c),
        a matches TimerKey::IdleTimeout { service_id } ==> (a.alike(b) <==> (b matches
            TimerKey::IdleTimeout { service_id: s } && s.id() == service_id.id())),
        a matches TimerKey::LaunchTimeout { workload_id, pod_id } ==> (a.alike(b) <==> (b matches
            TimerKey::LaunchTimeout { workload_id: w, pod_id: p } && w.id() == workload_id.id()
            && p.id() == pod_id.id())),
        a matches TimerKey::SuspendTimeout { workload_id, pod_id } ==> (a.alike(b) <==> (b matches
            TimerKey::SuspendTimeout { workload_id: w, pod_id: p } && w.id() == workload_id.id()
            && p.id() == pod_id.id())),
        a matches TimerKey::ResumeTimeout { workload_id, pod_id } ==> (a.alike(b) <==> (b matches
            TimerKey::ResumeTimeout { workload_id: w, pod_id: p } && w.id() == workload_id.id()
            && p.id() == pod_id.id())),
        a matches TimerKey::RetryBackoffTimeout { workload_id } ==> (a.alike(b) <==> (b matches
            TimerKey::RetryBackoffTimeout { workload_id: w } && w.id() == workload_id.id())),
{
}

/// The bands of pressure rise from normal over elevated and high to critical, and of two bands the
/// worse is the higher one.
pub proof fn law_bands_rise(a: PressureBand, b: PressureBand)
    ensures
        PressureBand::Normal.level() < PressureBand::Elevated.level(),
        PressureBand::Elevated.level() < PressureBand::High.level(),
        PressureBand::High.level() < PressureBand::Critical.level(),
        a.worse(b) == a || a.worse(b) == b,
        a.worse(b).level() >= a.level(),
        a.worse(b).level() >= b.level(),
        a.worse(b) == b.worse(a),
{
}

} // verus!
