//! A workload as its namespace sees it, and what goes to and comes from its lifecycle machine.
use vstd::prelude::*;

use crate::ids::{ArtifactId, PodId, PoolId, WorkerId};
use crate::sorted_map::SortedMap;
use crate::types::{TimerKey, WorkerCommand};

verus! {

/// Where a workload stands.
#[derive(Debug, PartialEq, Eq)]
pub enum WorkloadState {
    Dormant,
    WaitingForCapacity,
    Launching { pod_id: PodId, worker_id: WorkerId, launch_timeout: TimerKey },
    Running { pod_id: PodId, worker_id: WorkerId },
    Suspending { pod_id: PodId, worker_id: WorkerId, suspend_timeout: TimerKey },
    Suspended { worker_id: WorkerId, artifact_id: ArtifactId, pool_id: PoolId },
    Resuming {
        pod_id: PodId,
        worker_id: WorkerId,
        artifact_id: ArtifactId,
        pool_id: PoolId,
        resume_timeout: TimerKey,
    },
}

impl WorkloadState {
    /// The name of the state.
    pub open spec fn name(self) -> Seq<char> {
        match self {
            WorkloadState::Dormant => "dormant"@,
            WorkloadState::WaitingForCapacity => "waiting_for_capacity"@,
            WorkloadState::Launching { .. } => "launching"@,
            WorkloadState::Running { .. } => "running"@,
            WorkloadState::Suspending { .. } => "suspending"@,
            WorkloadState::Suspended { .. } => "suspended"@,
            WorkloadState::Resuming { .. } => "resuming"@,
        }
    }

    /// The name of the state.
    pub fn as_str(&self) -> (r: &'static str)
        ensures
            r@ == self.name(),
    {
        match self {
            WorkloadState::Dormant => "dormant",
            WorkloadState::WaitingForCapacity => "waiting_for_capacity",
            WorkloadState::Launching { .. } => "launching",
            WorkloadState::Running { .. } => "running",
            WorkloadState::Suspending { .. } => "suspending",
            WorkloadState::Suspended { .. } => "suspended",
            WorkloadState::Resuming { .. } => "resuming",
        }
    }

    /// The pod that the workload has now.
    pub open spec fn pod(self) -> Option<PodId> {
        match self {
            WorkloadState::Launching { pod_id, .. } => Some(pod_id),
            WorkloadState::Running { pod_id, .. } => Some(pod_id),
            WorkloadState::Suspending { pod_id, .. } => Some(pod_id),
            WorkloadState::Resuming { pod_id, .. } => Some(pod_id),
            _ => None,
        }
    }

    /// The pod that the workload has now.
    pub fn pod_id(&self) -> (r: Option<&PodId>)
        ensures
            r matches Some(p) ==> self.pod() == Some(*p),
            r is None ==> self.pod() is None,
    {
        match self {
            WorkloadState::Launching { pod_id, .. } => Some(pod_id),
            WorkloadState::Running { pod_id, .. } => Some(pod_id),
            WorkloadState::Suspending { pod_id, .. } => Some(pod_id),
            WorkloadState::Resuming { pod_id, .. } => Some(pod_id),
            _ => None,
        }
    }

    /// The worker that hosts the workload's pod.
    pub open spec fn worker(self) -> Option<WorkerId> {
        match self {
            WorkloadState::Launching { worker_id, .. } => Some(worker_id),
            WorkloadState::Running { worker_id, .. } => Some(worker_id),
            WorkloadState::Suspending { worker_id, .. } => Some(worker_id),
            WorkloadState::Resuming { worker_id, .. } => Some(worker_id),
            _ => None,
        }
    }

    /// The worker that hosts the workload's pod.
    pub fn worker_id(&self) -> (r: Option<&WorkerId>)
        ensures
            r matches Some(w) ==> self.worker() == Some(*w),
            r is None ==> self.worker() is None,
    {
        match self {
            WorkloadState::Launching { worker_id, .. } => Some(worker_id),
            WorkloadState::Running { worker_id, .. } => Some(worker_id),
            WorkloadState::Suspending { worker_id, .. } => Some(worker_id),
            WorkloadState::Resuming { worker_id, .. } => Some(worker_id),
            _ => None,
        }
    }

    /// The snapshot that a suspended workload rests in.
    pub open spec fn snapshot(self) -> Option<ArtifactId> {
        match self {
            WorkloadState::Suspended { artifact_id, .. } => Some(artifact_id),
            _ => None,
        }
    }

    /// The snapshot that a suspended workload rests in.
    pub fn suspended_artifact_id(&self) -> (r: Option<&ArtifactId>)
        ensures
            r matches Some(a) ==> self.snapshot() == Some(*a),
            r is None ==> self.snapshot() is None,
    {
        match self {
            WorkloadState::Suspended { artifact_id, .. } => Some(artifact_id),
            _ => None,
        }
    }
}

/// A pod on its way out.
#[derive(Debug, PartialEq, Eq)]
pub struct RetiringPod {
    pub pod_id: PodId,
    pub worker_id: WorkerId,
}

/// What a lifecycle machine shows of itself after a step.
pub struct WorkloadStatus {
    pub state: WorkloadState,
    pub current_demand: u32,
    pub retiring: Vec<RetiringPod>,
}

/// A workload of a namespace.
pub struct Workload {
    pub status: WorkloadStatus,
    pub suspend_on_idle: bool,
    pub conditions: SortedMap<String, String>,
}

impl Workload {
    /// A workload that has not started.
    pub fn new(suspend_on_idle: bool) -> (r: Self)
        ensures
            r.status.state == WorkloadState::Dormant,
            r.status.current_demand == 0,
            r.status.retiring@ == Seq::<RetiringPod>::empty(),
            r.suspend_on_idle == suspend_on_idle,
            r.conditions.seq() == Seq::<(String, String)>::empty(),
    {
        Workload {
            status: WorkloadStatus {
                state: WorkloadState::Dormant,
                current_demand: 0,
                retiring: Vec::new(),
            },
            suspend_on_idle,
            conditions: SortedMap::new(),
        }
    }
}

/// How a pod came to its end.
#[derive(Debug, PartialEq, Eq)]
pub enum PodGoneReason {
    Exited { exit_code: i32 },
    Failed { error: String },
}

/// What a lifecycle machine is told.
#[derive(Debug, PartialEq, Eq)]
pub enum WorkloadInput {
    SetDemand { count: u32 },
    LaunchPod { worker_id: WorkerId, pod_id: PodId },
    ResumePod { worker_id: WorkerId, pod_id: PodId, artifact_id: ArtifactId, pool_id: PoolId },
    PodRunning { pod_id: PodId },
    PodGone { pod_id: PodId, reason: PodGoneReason },
    PodSuspended { pod_id: PodId, artifact_id: ArtifactId },
    PodSuspendFailed { pod_id: PodId },
    WorkerLost { worker_id: WorkerId },
    TimerFired { timer_key: TimerKey },
}

/// What a lifecycle machine asks for.
#[derive(Debug, PartialEq, Eq)]
pub enum WorkloadOutput {
    PodRequest,
    SuspendRequest { pod_id: PodId, worker_id: WorkerId, artifact_id: ArtifactId },
    ResumeRequest { artifact_id: ArtifactId },
    LaunchRequest { worker_id: WorkerId, pod_id: PodId },
    ResumeFromArtifact { worker_id: WorkerId, pod_id: PodId, artifact_id: ArtifactId },
    DeleteArtifact { artifact_id: ArtifactId },
    WorkerCommand(WorkerId, WorkerCommand),
    TimerSet(TimerKey, u64),
    TimerCancel(TimerKey),
    ConditionSet { key: String, message: String },
    ConditionClear { key: String },
    BecameReady { pod_id: PodId, worker_id: WorkerId },
    BecameUnready,
}

/// The pod that serves a workload that is ready.
#[derive(Debug, PartialEq, Eq)]
pub struct WorkloadReadyInfo {
    pub pod_id: PodId,
    pub worker_id: WorkerId,
}

impl Clone for WorkloadReadyInfo {
    fn clone(&self) -> (r: Self)
        ensures
            r == *self,
    {
        WorkloadReadyInfo { pod_id: self.pod_id.clone(), worker_id: self.worker_id.clone() }
    }
}

} // verus!
