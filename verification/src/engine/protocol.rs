//! What the engine tells workers. Things are named by their numbers.
use std::sync::Arc;

use vstd::prelude::*;

use crate::ids::{ArtifactId, NamespaceId, PoolId};
use crate::sm::{PodId, ServiceId, WorkerId};
use crate::types::{
    ContainerSpec, NetworkConfig, PodNetworkConfig, PodNetworkView, PodResourceRequirements,
    RegistryEntry, ServicePolicy,
};

verus! {

/// The worker that hosts an endpoint.
#[derive(Debug, Clone, Copy, PartialEq, Eq, Structural)]
pub struct EndpointPlacement {
    pub worker_id: WorkerId,
}

/// The pod behind a service.
#[derive(Debug, Clone, Copy, PartialEq, Eq, Structural)]
pub struct EndpointPodBackend {
    pub pod_ip: u32,
    pub placement: Option<EndpointPlacement>,
    pub ready: bool,
}

#[derive(Debug)]
pub enum EndpointKind {
    Pod { placement: Option<EndpointPlacement> },
    Service {
        service_id: ServiceId,
        policy: Arc<ServicePolicy>,
        backend: Option<EndpointPodBackend>,
    },
    WireGuardPeer { placement: Option<EndpointPlacement> },
}

/// An address on the fabric and what answers there.
#[derive(Debug)]
pub struct EndpointSpec {
    pub ip: u32,
    pub kind: EndpointKind,
}

/// A worker as its peers see it.
#[derive(Debug)]
pub struct WorkerPeerInfo {
    pub worker_id: WorkerId,
    pub endpoint: String,
    pub public_key: [u8; 32],
    pub segments: Vec<u16>,
}

/// A worker as its peers see it, with its texts and lists as sequences.
#[verifier::ext_equal]
pub struct PeerView {
    pub worker_id: WorkerId,
    pub endpoint: Seq<char>,
    pub public_key: [u8; 32],
    pub segments: Seq<u16>,
}

impl WorkerPeerInfo {
    pub open spec fn view(&self) -> PeerView {
        PeerView {
            worker_id: self.worker_id,
            endpoint: self.endpoint@,
            public_key: self.public_key,
            segments: self.segments@,
        }
    }
}

/// What a worker is told to do.
#[derive(Debug)]
pub enum WorkerCommand {
    CreateNamespace { namespace_id: NamespaceId, network: NetworkConfig },
    LaunchPod {
        namespace_id: NamespaceId,
        pod_id: PodId,
        network: PodNetworkConfig,
        containers: Arc<Vec<ContainerSpec>>,
        resources: Option<PodResourceRequirements>,
        volumes: Arc<Vec<String>>,
    },
    ResumePod {
        namespace_id: NamespaceId,
        pod_id: PodId,
        artifact_id: ArtifactId,
        network: PodNetworkConfig,
        pool_id: PoolId,
    },
    StopPod { namespace_id: NamespaceId, pod_id: PodId, graceful: bool },
    SuspendPod {
        namespace_id: NamespaceId,
        pod_id: PodId,
        artifact_id: ArtifactId,
        pool_id: PoolId,
    },
    DeleteArtifact { artifact_id: ArtifactId, pool_id: PoolId },
    EndpointSync { namespace_id: NamespaceId, endpoints: Vec<EndpointSpec> },
    EndpointUpdate { namespace_id: NamespaceId, upserted: Vec<EndpointSpec>, removed_ips: Vec<u32> },
    RegistrySync { namespace_id: NamespaceId, entries: Vec<RegistryEntry> },
    RegistryUpdate { namespace_id: NamespaceId, added: Vec<RegistryEntry>, removed: Vec<String> },
    AddWireGuardPeer {
        namespace_id: NamespaceId,
        peer_public_key: [u8; 32],
        peer_ip: u32,
        preshared_key: Option<[u8; 32]>,
    },
    RemoveWireGuardPeer { peer_public_key: [u8; 32] },
    WorkerRegistrySync { workers: Vec<WorkerPeerInfo> },
}

/// What a worker is told to do, with its texts and lists as sequences.
#[verifier::ext_equal]
pub enum CommandView {
    CreateNamespace { namespace_id: NamespaceId, network: NetworkConfig },
    LaunchPod {
        namespace_id: NamespaceId,
        pod_id: PodId,
        network: PodNetworkView,
        containers: Seq<ContainerSpec>,
        resources: Option<PodResourceRequirements>,
        volumes: Seq<String>,
    },
    ResumePod {
        namespace_id: NamespaceId,
        pod_id: PodId,
        artifact_id: Seq<char>,
        network: PodNetworkView,
        pool_id: PoolId,
    },
    StopPod { namespace_id: NamespaceId, pod_id: PodId, graceful: bool },
    SuspendPod {
        namespace_id: NamespaceId,
        pod_id: PodId,
        artifact_id: Seq<char>,
        pool_id: PoolId,
    },
    DeleteArtifact { artifact_id: Seq<char>, pool_id: PoolId },
    EndpointSync { namespace_id: NamespaceId, endpoints: Seq<EndpointSpec> },
    EndpointUpdate { namespace_id: NamespaceId, upserted: Seq<EndpointSpec>, removed_ips: Seq<u32> },
    RegistrySync { namespace_id: NamespaceId, entries: Seq<RegistryEntry> },
    RegistryUpdate { namespace_id: NamespaceId, added: Seq<RegistryEntry>, removed: Seq<String> },
    AddWireGuardPeer {
        namespace_id: NamespaceId,
        peer_public_key: [u8; 32],
        peer_ip: u32,
        preshared_key: Option<[u8; 32]>,
    },
    RemoveWireGuardPeer { peer_public_key: [u8; 32] },
    WorkerRegistrySync { workers: Seq<PeerView> },
}

/// Workers as their peers see them.
pub open spec fn peer_views(peers: Seq<WorkerPeerInfo>) -> Seq<PeerView> {
    peers.map_values(|p: WorkerPeerInfo| p@)
}

impl WorkerCommand {
    pub open spec fn view(&self) -> CommandView {
        match *self {
            WorkerCommand::CreateNamespace { namespace_id, network } => {
                CommandView::CreateNamespace { namespace_id, network }
            },
            WorkerCommand::LaunchPod {
                namespace_id,
                pod_id,
                network,
                containers,
                resources,
                volumes,
            } => CommandView::LaunchPod {
                namespace_id,
                pod_id,
                network: network@,
                containers: containers@,
                resources,
                volumes: volumes@,
            },
            WorkerCommand::ResumePod { namespace_id, pod_id, artifact_id, network, pool_id } => {
                CommandView::ResumePod {
                    namespace_id,
                    pod_id,
                    artifact_id: artifact_id.0@,
                    network: network@,
                    pool_id,
                }
            },
            WorkerCommand::StopPod { namespace_id, pod_id, graceful } => CommandView::StopPod {
                namespace_id,
                pod_id,
                graceful,
            },
            WorkerCommand::SuspendPod { namespace_id, pod_id, artifact_id, pool_id } => {
                CommandView::SuspendPod {
                    namespace_id,
                    pod_id,
                    artifact_id: artifact_id.0@,
                    pool_id,
                }
            },
            WorkerCommand::DeleteArtifact { artifact_id, pool_id } => CommandView::DeleteArtifact {
                artifact_id: artifact_id.0@,
                pool_id,
            },
            WorkerCommand::EndpointSync { namespace_id, endpoints } => CommandView::EndpointSync {
                namespace_id,
                endpoints: endpoints@,
            },
            WorkerCommand::EndpointUpdate { namespace_id, upserted, removed_ips } => {
                CommandView::EndpointUpdate {
                    namespace_id,
                    upserted: upserted@,
                    removed_ips: removed_ips@,
                }
            },
            WorkerCommand::RegistrySync { namespace_id, entries } => CommandView::RegistrySync {
                namespace_id,
                entries: entries@,
            },
            WorkerCommand::RegistryUpdate { namespace_id, added, removed } => {
                CommandView::RegistryUpdate { namespace_id, added: added@, removed: removed@ }
            },
            WorkerCommand::AddWireGuardPeer {
                namespace_id,
                peer_public_key,
                peer_ip,
                preshared_key,
            } => CommandView::AddWireGuardPeer {
                namespace_id,
                peer_public_key,
                peer_ip,
                preshared_key,
            },
            WorkerCommand::RemoveWireGuardPeer { peer_public_key } => {
                CommandView::RemoveWireGuardPeer { peer_public_key }
            },
            WorkerCommand::WorkerRegistrySync { workers } => CommandView::WorkerRegistrySync {
                workers: peer_views(workers@),
            },
        }
    }
}

/// Commands for workers, with their texts and lists as sequences.
pub open spec fn sent(commands: Seq<(WorkerId, WorkerCommand)>) -> Seq<(WorkerId, CommandView)> {
    commands.map_values(|c: (WorkerId, WorkerCommand)| (c.0, c.1@))
}

/// Commands for all workers, with their texts and lists as sequences.
pub open spec fn command_views(commands: Seq<WorkerCommand>) -> Seq<CommandView> {
    commands.map_values(|c: WorkerCommand| c@)
}

} // verus!
