//! The messages of the client interface, as plain values.
use vstd::prelude::*;

use crate::sorted_map::SortedMap;
use crate::types::ResourceRequirements;

verus! {

// ---- what clients send ------------------------------------------------------------------------

/// The network of a namespace: a subnet in CIDR notation.
#[derive(Debug, PartialEq, Eq)]
pub struct NetworkSpec {
    pub subnet: String,
}

/// The network of a workload or a service.
#[derive(Debug, PartialEq, Eq)]
pub struct EndpointNetwork {
    pub ip: String,
}

#[derive(Debug, PartialEq, Eq)]
pub struct ContainerConfig {
    pub entrypoint: Vec<String>,
    pub args: Vec<String>,
    pub env: Vec<(String, String)>,
    pub working_dir: String,
    pub user: String,
    pub hostname: String,
}

#[derive(Debug, PartialEq, Eq)]
pub struct ContainerSpec {
    pub name: String,
    pub image: String,
    pub config: Option<ContainerConfig>,
}

#[derive(Debug, PartialEq, Eq)]
pub struct WorkloadSpec {
    pub network: Option<EndpointNetwork>,
    pub containers: Vec<ContainerSpec>,
    pub suspend_on_idle: bool,
    pub resources: Option<ResourceRequirements>,
}

#[derive(Debug, PartialEq, Eq)]
pub enum Activator {
    Tcp { ports: Vec<u32> },
    Http2,
}

#[derive(Debug, PartialEq, Eq)]
pub struct ActivatorConfig {
    pub activator: Option<Activator>,
}

#[derive(Debug, PartialEq, Eq)]
pub struct ActivationConfig {
    pub activator: Option<ActivatorConfig>,
    pub idle_timeout_ms: u64,
}

#[derive(Debug, PartialEq, Eq)]
pub struct ServiceSpec {
    pub workload_id: String,
    pub network: Option<EndpointNetwork>,
    pub activation: Option<ActivationConfig>,
}

/// A namespace as a client writes it, its workloads and services in the order in which they were
/// read.
#[derive(Debug, PartialEq, Eq)]
pub struct NamespaceSpec {
    pub network: Option<NetworkSpec>,
    pub workloads: Vec<(String, WorkloadSpec)>,
    pub services: Vec<(String, ServiceSpec)>,
}

// ---- what clients are told --------------------------------------------------------------------

#[derive(Debug, Clone, Copy, PartialEq, Eq, Structural)]
pub enum NamespaceState {
    Creating,
    Active,
    Destroying,
}

#[derive(Debug, Clone, Copy, PartialEq, Eq, Structural)]
pub enum PodState {
    Launching,
    Running,
}

/// How much a service needs its backend.
#[derive(Debug, Clone, Copy, PartialEq, Eq, Structural)]
pub enum BackendNeed {
    Unspecified,
    Nothing,
    Traffic,
    Active,
}

#[derive(Debug, PartialEq, Eq)]
pub enum WorkloadState {
    Launching { pod_id: String, worker_id: String },
    Running { pod_id: String, worker_id: String },
    WaitingForCapacity,
    Dormant,
}

#[derive(Debug, PartialEq, Eq)]
pub enum ServiceState {
    Idle,
    NeedBackend,
    Active { pod_id: String, worker_id: String, backend_need: BackendNeed },
    Pending,
}

#[derive(Debug, PartialEq, Eq)]
pub struct WorkloadStatusReport {
    pub state: WorkloadState,
    pub spliced: bool,
}

#[derive(Debug, PartialEq, Eq)]
pub struct ServiceStatusReport {
    pub workload_id: String,
    pub state: ServiceState,
    pub activation_enabled: bool,
    pub spliced: bool,
    pub ip: String,
    pub mac: String,
}

pub struct NamespaceStatusReport {
    pub namespace_id: String,
    pub state: NamespaceState,
    pub workloads: SortedMap<String, WorkloadStatusReport>,
    pub services: SortedMap<String, ServiceStatusReport>,
}

#[derive(Debug, PartialEq, Eq)]
pub struct WorkerInfo {
    pub worker_id: String,
    pub max_pods: u32,
    pub available_memory_mb: u64,
    pub active_pods: u32,
}

#[derive(Debug, PartialEq, Eq)]
pub struct PodInfo {
    pub pod_id: String,
    pub workload_id: String,
    pub worker_id: String,
    pub ip: String,
    pub state: PodState,
}

/// How a client reaches the network of a namespace.
#[derive(Debug, PartialEq, Eq)]
pub struct ConnectNetworkResponse {
    pub server_public_key: Vec<u8>,
    pub endpoint: String,
    pub client_ip: String,
    pub subnet: String,
}

/// Whether a workload was switched off, and why not if it was not.
#[derive(Debug, PartialEq, Eq)]
pub struct DeactivateWorkloadResponse {
    pub deactivated: bool,
    pub reason: String,
}

/// A piece of a workload's output.
#[derive(Debug, PartialEq, Eq)]
pub struct LogChunk {
    pub workload_id: String,
    pub data: Vec<u8>,
    pub timestamp_unix_ms: i64,
}

// ---- observed events --------------------------------------------------------------------------

#[derive(Debug, PartialEq, Eq)]
pub enum WorkloadEvent {
    DemandChanged { demanding_services: u32 },
    PodLaunching { pod_id: String, worker_id: String },
    PodRunning { pod_id: String, worker_id: String },
    PodStopped { exit_code: i32 },
    PodFailed { reason: String },
    PodSuspending { pod_id: String, worker_id: String },
    PodSuspended { worker_id: String, snapshot_id: String },
    PodSuspendFailed { reason: String },
    PodResuming { pod_id: String, worker_id: String },
}

#[derive(Debug, Clone, Copy, PartialEq, Eq, Structural)]
pub enum ServiceActivationTrigger {
    Traffic,
}

#[derive(Debug, Clone, Copy, PartialEq, Eq, Structural)]
pub enum IdleTimerCancelReason {
    NewTraffic,
}

#[derive(Debug, Clone, Copy, PartialEq, Eq, Structural)]
pub enum ServiceDeactivationReason {
    IdleTimeout,
    ForceDeactivate,
}

#[derive(Debug, Clone, Copy, PartialEq, Eq, Structural)]
pub enum ServiceEvent {
    Activated { trigger: ServiceActivationTrigger },
    BackendReady,
    IdleTimerStarted { timeout_ms: u64 },
    IdleTimerCancelled { reason: IdleTimerCancelReason },
    IdleTimeoutFired,
    Deactivated { reason: ServiceDeactivationReason },
}

#[derive(Debug, PartialEq, Eq)]
pub enum Happening {
    Workload { workload_id: String, event: WorkloadEvent },
    Service { service_id: String, workload_id: String, event: ServiceEvent },
}

/// What happened in a namespace, and when.
#[derive(Debug, PartialEq, Eq)]
pub struct NamespaceEvent {
    pub timestamp_unix_ms: i64,
    pub event: Happening,
}

} // verus!
