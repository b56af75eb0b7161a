//! What the parts of the engine tell each other.
use vstd::prelude::*;

use crate::adapter::endpoint_demand::EndpointDemandSignal;
use crate::engine::protocol::{
    command_views, peer_views, sent, CommandView, PeerView, WorkerCommand, WorkerPeerInfo,
};
use crate::ids;
use crate::ids::{ArtifactId, NamespaceId, PoolId};
use crate::sm::{ArtifactPortId, PodId, WorkerId, WorkerInfo};
use crate::sorted_map::SortedMap;
use crate::types::{NamespaceSpec, PressureBand, ServiceSpec, WorkloadSpec};

verus! {

/// What a worker reports of a stored snapshot.
#[derive(Debug, PartialEq, Eq)]
pub enum ArtifactPlacementEvent {
    WriteStarted { artifact_id: ArtifactId, pool_id: PoolId },
    WriteCommitted { artifact_id: ArtifactId, pool_id: PoolId, size_bytes: u64 },
    TransferReceived { artifact_id: ArtifactId, pool_id: PoolId, size_bytes: u64 },
    TransferFailed { artifact_id: ArtifactId },
}

/// What the scheduler tells a namespace.
#[derive(Debug, PartialEq, Eq)]
pub enum SchedulerDecision {
    Grant { namespace_id: NamespaceId, pod_id: PodId, worker_id: WorkerId },
    Revoke { namespace_id: NamespaceId, pod_id: PodId, worker_id: WorkerId },
}

/// A worker as the scheduler sees it.
#[derive(Debug, Clone, Copy, PartialEq, Eq, Structural)]
pub struct WorkerCandidate {
    pub worker_id: WorkerId,
    pub max_pressure_band: PressureBand,
    pub pod_count: usize,
    pub draining: bool,
    pub active: bool,
}

/// What the scheduler takes in.
#[derive(Debug, PartialEq, Eq)]
pub enum SchedulerCoreInput {
    RequestLease {
        namespace_id: NamespaceId,
        pod_id: PodId,
        proto_resume_artifact: Option<ArtifactId>,
    },
    DropRequest { namespace_id: NamespaceId, pod_id: PodId },
    WorkerUpdate(WorkerId, WorkerCandidate),
    WorkerRemoved(WorkerId),
    ArtifactEvent { worker_id: WorkerId, event: ArtifactPlacementEvent },
    /// A workload wants to keep a snapshot.
    ArtifactReferenced { proto_artifact_id: ArtifactId, namespace_id: NamespaceId },
    /// A workload no longer needs a snapshot.
    ArtifactReleased { proto_artifact_id: ArtifactId, namespace_id: NamespaceId },
}

/// A snapshot to delete.
#[derive(Debug, PartialEq, Eq)]
pub struct DeleteArtifactCommand {
    pub worker_id: WorkerId,
    pub artifact_id: ArtifactId,
    pub pool_id: PoolId,
}

/// What the scheduler gives out.
#[derive(Debug, PartialEq, Eq)]
pub struct SchedulerEffects {
    pub decisions: Vec<SchedulerDecision>,
    /// Snapshots that have become unreachable.
    pub artifact_invalidations: Vec<u64>,
    pub delete_commands: Vec<DeleteArtifactCommand>,
}

#[verifier::ext_equal]
pub struct SchedulerEffectsView {
    pub decisions: Seq<SchedulerDecision>,
    pub artifact_invalidations: Seq<u64>,
    pub delete_commands: Seq<DeleteArtifactCommand>,
}

impl SchedulerEffectsView {
    pub open spec fn nothing() -> SchedulerEffectsView {
        SchedulerEffectsView {
            decisions: seq![],
            artifact_invalidations: seq![],
            delete_commands: seq![],
        }
    }

    /// Decisions and nothing else.
    pub open spec fn of_decisions(decisions: Seq<SchedulerDecision>) -> SchedulerEffectsView {
        SchedulerEffectsView { decisions, ..Self::nothing() }
    }
}

impl SchedulerEffects {
    pub open spec fn view(&self) -> SchedulerEffectsView {
        SchedulerEffectsView {
            decisions: self.decisions@,
            artifact_invalidations: self.artifact_invalidations@,
            delete_commands: self.delete_commands@,
        }
    }

    pub fn new() -> (r: Self)
        ensures
            r@ == SchedulerEffectsView::nothing(),
    {
        let r = SchedulerEffects {
            decisions: Vec::new(),
            artifact_invalidations: Vec::new(),
            delete_commands: Vec::new(),
        };
        assert(r@ =~= SchedulerEffectsView::nothing());
        r
    }

    pub fn from_decisions(decisions: Vec<SchedulerDecision>) -> (r: Self)
        ensures
            r@ == SchedulerEffectsView::of_decisions(decisions@),
    {
        let r = SchedulerEffects {
            decisions,
            artifact_invalidations: Vec::new(),
            delete_commands: Vec::new(),
        };
        assert(r@ =~= SchedulerEffectsView::of_decisions(decisions@));
        r
    }
}

/// What a namespace tells the scheduler.
#[derive(Debug, PartialEq, Eq)]
pub enum SchedulerMessage {
    RequestLease {
        namespace_id: NamespaceId,
        pod_id: PodId,
        proto_resume_artifact: Option<ArtifactId>,
    },
    DropRequest { namespace_id: NamespaceId, pod_id: PodId },
    ArtifactReferenced { namespace_id: NamespaceId, proto_artifact_id: ArtifactId },
    ArtifactReleased { namespace_id: NamespaceId, proto_artifact_id: ArtifactId },
}

/// The message as an input of the scheduler.
pub open spec fn as_input(message: SchedulerMessage) -> SchedulerCoreInput {
    match message {
        SchedulerMessage::RequestLease { namespace_id, pod_id, proto_resume_artifact } => {
            SchedulerCoreInput::RequestLease { namespace_id, pod_id, proto_resume_artifact }
        },
        SchedulerMessage::DropRequest { namespace_id, pod_id } => SchedulerCoreInput::DropRequest {
            namespace_id,
            pod_id,
        },
        SchedulerMessage::ArtifactReferenced { namespace_id, proto_artifact_id } => {
            SchedulerCoreInput::ArtifactReferenced { proto_artifact_id, namespace_id }
        },
        SchedulerMessage::ArtifactReleased { namespace_id, proto_artifact_id } => {
            SchedulerCoreInput::ArtifactReleased { proto_artifact_id, namespace_id }
        },
    }
}

/// The message as an input of the scheduler.
pub fn scheduler_message_to_input(message: SchedulerMessage) -> (r: SchedulerCoreInput)
    ensures
        r == as_input(message),
{
    match message {
        SchedulerMessage::RequestLease { namespace_id, pod_id, proto_resume_artifact } => {
            SchedulerCoreInput::RequestLease { namespace_id, pod_id, proto_resume_artifact }
        },
        SchedulerMessage::DropRequest { namespace_id, pod_id } => SchedulerCoreInput::DropRequest {
            namespace_id,
            pod_id,
        },
        SchedulerMessage::ArtifactReferenced { namespace_id, proto_artifact_id } => {
            SchedulerCoreInput::ArtifactReferenced { proto_artifact_id, namespace_id }
        },
        SchedulerMessage::ArtifactReleased { namespace_id, proto_artifact_id } => {
            SchedulerCoreInput::ArtifactReleased { proto_artifact_id, namespace_id }
        },
    }
}

/// What a worker reports of its part in a namespace.
#[derive(Debug)]
pub enum WorkerNamespaceEventKind {
    PodRunning { pod_id: PodId },
    PodExited { pod_id: PodId, exit_code: i32 },
    PodFailed { pod_id: PodId },
    PodSuspended { pod_id: PodId, artifact_id: ArtifactId },
    PodSuspendFailed { pod_id: PodId },
    EndpointDemand { ip: u32, signal: EndpointDemandSignal },
    NamespaceCreated,
    NamespaceFailed { error: String },
}

/// A report and the worker it comes from.
#[derive(Debug)]
pub struct WorkerNamespaceEvent {
    pub worker_id: WorkerId,
    pub event: WorkerNamespaceEventKind,
}

/// A change to part of a spec.
pub struct NamespacePatch {
    pub workloads: SortedMap<ids::WorkloadId, WorkloadSpec>,
    pub services: SortedMap<ids::ServiceId, ServiceSpec>,
    pub remove_workloads: Vec<ids::WorkloadId>,
    pub remove_services: Vec<ids::ServiceId>,
}

/// What a client asks of a namespace.
pub enum ClientCommand {
    UpdateSpec(NamespaceSpec),
    PatchSpec(NamespacePatch),
    AdminRestart { workload_name: String },
    Scavenge { workload_name: String },
    ActivateService { service_name: String, active: bool },
    Connect { client_public_key: [u8; 32], worker_id: WorkerId },
    Disconnect { client_public_key: [u8; 32] },
}

/// Why a client is refused.
#[derive(Debug, Clone, Copy, PartialEq, Eq, Structural)]
pub enum ClientError {
    NamespaceNotFound,
    NamespaceAlreadyExists,
    WorkerNotFound,
    NoTunnelWorker,
    IpExhausted,
    ShellGone,
}

/// What a namespace is told.
pub enum OrchestratorToNamespace {
    WorkerConnected { worker_id: WorkerId, proto_worker_id: WorkerId, info: WorkerInfo },
    WorkerDisconnected { worker_id: WorkerId },
    SchedulerDecision(SchedulerDecision),
    ArtifactInvalidated { artifact_port_id: ArtifactPortId },
    WorkerEvent(WorkerNamespaceEvent),
    ClientCommand(ClientCommand),
}

/// What a namespace tells the cluster.
#[derive(Debug, PartialEq, Eq)]
pub enum NamespaceToOrchestrator {
    SchedulerMessage(SchedulerMessage),
}

/// A command for one worker that concerns no namespace in particular.
#[derive(Debug)]
pub struct DirectWorkerCommand {
    pub worker_id: WorkerId,
    pub command: WorkerCommand,
}

/// What the cluster gives out.
pub struct OrchestratorOutput {
    pub to_namespaces: Vec<(NamespaceId, OrchestratorToNamespace)>,
    pub worker_commands: Vec<(WorkerId, WorkerCommand)>,
    pub direct_worker_commands: Vec<DirectWorkerCommand>,
    pub global_broadcasts: Vec<WorkerCommand>,
}

#[verifier::ext_equal]
pub struct ClusterOutView {
    pub to_namespaces: Seq<(NamespaceId, OrchestratorToNamespace)>,
    pub worker_commands: Seq<(WorkerId, CommandView)>,
    pub direct_worker_commands: Seq<(WorkerId, CommandView)>,
    pub global_broadcasts: Seq<CommandView>,
}

impl ClusterOutView {
    pub open spec fn nothing() -> ClusterOutView {
        ClusterOutView {
            to_namespaces: seq![],
            worker_commands: seq![],
            direct_worker_commands: seq![],
            global_broadcasts: seq![],
        }
    }

    /// One output after the other.
    pub open spec fn then_also(self, other: ClusterOutView) -> ClusterOutView {
        ClusterOutView {
            to_namespaces: self.to_namespaces + other.to_namespaces,
            worker_commands: self.worker_commands + other.worker_commands,
            direct_worker_commands: self.direct_worker_commands + other.direct_worker_commands,
            global_broadcasts: self.global_broadcasts + other.global_broadcasts,
        }
    }

    /// With one message more.
    pub open spec fn told(self, namespace_id: NamespaceId, message: OrchestratorToNamespace) -> ClusterOutView {
        ClusterOutView { to_namespaces: self.to_namespaces.push((namespace_id, message)), ..self }
    }

    /// With one command more.
    pub open spec fn commanded(self, worker_id: WorkerId, command: CommandView) -> ClusterOutView {
        ClusterOutView { worker_commands: self.worker_commands.push((worker_id, command)), ..self }
    }

    /// With one direct command more.
    pub open spec fn directed(self, worker_id: WorkerId, command: CommandView) -> ClusterOutView {
        ClusterOutView {
            direct_worker_commands: self.direct_worker_commands.push((worker_id, command)),
            ..self
        }
    }

    /// With one command for all workers more, if there is one.
    pub open spec fn announced(self, peers: Option<Seq<PeerView>>) -> ClusterOutView {
        match peers {
            Some(workers) => ClusterOutView {
                global_broadcasts: self.global_broadcasts.push(
                    CommandView::WorkerRegistrySync { workers },
                ),
                ..self
            },
            None => self,
        }
    }
}

/// Direct commands, with their texts and lists as sequences.
pub open spec fn direct_views(commands: Seq<DirectWorkerCommand>) -> Seq<(WorkerId, CommandView)> {
    commands.map_values(|c: DirectWorkerCommand| (c.worker_id, c.command@))
}

impl OrchestratorOutput {
    pub open spec fn view(&self) -> ClusterOutView {
        ClusterOutView {
            to_namespaces: self.to_namespaces@,
            worker_commands: sent(self.worker_commands@),
            direct_worker_commands: direct_views(self.direct_worker_commands@),
            global_broadcasts: command_views(self.global_broadcasts@),
        }
    }

    pub fn new() -> (r: Self)
        ensures
            r@ == ClusterOutView::nothing(),
    {
        let r = OrchestratorOutput {
            to_namespaces: Vec::new(),
            worker_commands: Vec::new(),
            direct_worker_commands: Vec::new(),
            global_broadcasts: Vec::new(),
        };
        assert(r@ =~= ClusterOutView::nothing());
        r
    }

    /// Adds another output after this one.
    pub fn merge(&mut self, other: OrchestratorOutput)
        ensures
            final(self)@ == old(self)@.then_also(other@),
    {
        let ghost o = other@;
        let mut other: OrchestratorOutput = other;
        self.to_namespaces.append(&mut other.to_namespaces);
        self.worker_commands.append(&mut other.worker_commands);
        self.direct_worker_commands.append(&mut other.direct_worker_commands);
        self.global_broadcasts.append(&mut other.global_broadcasts);
        assert(self@ =~= old(self)@.then_also(o));
    }

    pub fn tell(&mut self, namespace_id: NamespaceId, message: OrchestratorToNamespace)
        ensures
            final(self)@ == old(self)@.told(namespace_id, message),
    {
        self.to_namespaces.push((namespace_id, message));
        assert(self@ =~= old(self)@.told(namespace_id, message));
    }

    pub fn command(&mut self, worker_id: WorkerId, command: WorkerCommand)
        ensures
            final(self)@ == old(self)@.commanded(worker_id, command@),
    {
        self.worker_commands.push((worker_id, command));
        assert(self@ =~= old(self)@.commanded(worker_id, command@));
    }

    pub fn direct(&mut self, worker_id: WorkerId, command: WorkerCommand)
        ensures
            final(self)@ == old(self)@.directed(worker_id, command@),
    {
        self.direct_worker_commands.push(DirectWorkerCommand { worker_id, command });
        assert(self@ =~= old(self)@.directed(worker_id, command@));
    }

    pub fn announce(&mut self, peers: Option<Vec<WorkerPeerInfo>>)
        ensures
            final(self)@ == old(self)@.announced(
                match peers {
                    Some(p) => Some(peer_views(p@)),
                    None => None,
                },
            ),
    {
        match peers {
            Some(workers) => {
                self.global_broadcasts.push(WorkerCommand::WorkerRegistrySync { workers });
                assert(self@ =~= old(self)@.announced(Some(peer_views(workers@))));
            },
            None => {},
        }
    }
}

} // verus!
