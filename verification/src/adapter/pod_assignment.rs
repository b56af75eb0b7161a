//! Tells workers which pods to run.
use std::sync::Arc;

use vstd::prelude::*;

use crate::sm::{
    clone_spec, ArtifactPortId, AssignedPod, PodId, PodScheduleRequest, PodSpec, WorkerId,
};

verus! {

/// A change in what one worker is to do.
#[derive(Debug)]
pub enum PodAssignmentDelta {
    Launch { pod_id: PodId, request: PodScheduleRequest, spec: Option<Arc<PodSpec>> },
    Resume { pod_id: PodId, artifact_id: ArtifactPortId, spec: Option<Arc<PodSpec>> },
    Stop { pod_id: PodId },
    Suspend { pod_id: PodId },
}

/// What a worker is to do with a pod.
#[derive(Debug)]
pub enum PodAssignmentAction {
    Launch {
        worker_id: WorkerId,
        pod_id: PodId,
        request: PodScheduleRequest,
        spec: Option<Arc<PodSpec>>,
    },
    Resume {
        worker_id: WorkerId,
        pod_id: PodId,
        artifact_id: ArtifactPortId,
        spec: Option<Arc<PodSpec>>,
    },
    Stop { worker_id: WorkerId, pod_id: PodId },
    Suspend { worker_id: WorkerId, pod_id: PodId },
}

/// What the port of a worker delivers.
#[derive(Debug)]
pub enum WorkerPortInput {
    AssignedPodsInput(PodAssignmentDelta),
}

/// A change, addressed to its worker.
pub open spec fn addressed(worker_id: WorkerId, delta: PodAssignmentDelta) -> PodAssignmentAction {
    match delta {
        PodAssignmentDelta::Launch { pod_id, request, spec } => PodAssignmentAction::Launch {
            worker_id,
            pod_id,
            request,
            spec,
        },
        PodAssignmentDelta::Resume { pod_id, artifact_id, spec } => PodAssignmentAction::Resume {
            worker_id,
            pod_id,
            artifact_id,
            spec,
        },
        PodAssignmentDelta::Stop { pod_id } => PodAssignmentAction::Stop { worker_id, pod_id },
        PodAssignmentDelta::Suspend { pod_id } => PodAssignmentAction::Suspend { worker_id, pod_id },
    }
}

/// All changes, addressed to their workers.
pub open spec fn all_addressed(inputs: Seq<(WorkerId, WorkerPortInput)>) -> Seq<
    PodAssignmentAction,
> {
    inputs.map_values(
        |e: (WorkerId, WorkerPortInput)|
            match e.1 {
                WorkerPortInput::AssignedPodsInput(delta) => addressed(e.0, delta),
            },
    )
}

/// Needs no memory: the port delivers changes.
#[derive(Debug, Clone, Copy)]
pub struct PodAssignmentAdapter;

impl PodAssignmentAdapter {
    pub fn new() -> (r: Self) {
        PodAssignmentAdapter
    }

    /// Takes in what the ports of the workers deliver, and says what the workers are to do. The flag
    /// says whether the router has been changed in turn: it never is.
    pub fn reconcile(&self, inputs: &Vec<(WorkerId, WorkerPortInput)>) -> (r: (
        Vec<PodAssignmentAction>,
        bool,
    ))
        ensures
            r.0@ == all_addressed(inputs@),
            !r.1,
    {
        let mut out: Vec<PodAssignmentAction> = Vec::new();
        let mut i: usize = 0;
        while i < inputs.len()
            invariant
                i <= inputs@.len(),
                out@ == all_addressed(inputs@.take(i as int)),
            decreases inputs@.len() - i,
        {
            let worker_id: WorkerId = inputs[i].0;
            let action: PodAssignmentAction = match &inputs[i].1 {
                WorkerPortInput::AssignedPodsInput(delta) => match delta {
                    PodAssignmentDelta::Launch { pod_id, request, spec } => {
                        PodAssignmentAction::Launch {
                            worker_id,
                            pod_id: *pod_id,
                            request: *request,
                            spec: clone_spec(spec),
                        }
                    },
                    PodAssignmentDelta::Resume { pod_id, artifact_id, spec } => {
                        PodAssignmentAction::Resume {
                            worker_id,
                            pod_id: *pod_id,
                            artifact_id: *artifact_id,
                            spec: clone_spec(spec),
                        }
                    },
                    PodAssignmentDelta::Stop { pod_id } => PodAssignmentAction::Stop {
                        worker_id,
                        pod_id: *pod_id,
                    },
                    PodAssignmentDelta::Suspend { pod_id } => PodAssignmentAction::Suspend {
                        worker_id,
                        pod_id: *pod_id,
                    },
                },
            };
            out.push(action);
            i = i + 1;
            assert(out@ =~= all_addressed(inputs@.take(i as int)));
        }
        assert(inputs@.take(i as int) =~= inputs@);
        (out, false)
    }
}

/// Turns the pods of a worker into changes, one pod at a time.
#[derive(Debug, Clone, Copy)]
pub struct PodAssignmentIncrementalAggregator;

impl PodAssignmentIncrementalAggregator {
    /// A pod has come to the worker. It is resumed if it has a snapshot, and launched otherwise.
    pub fn added(&self, pod_id: PodId, pod: &AssignedPod) -> (r: Option<PodAssignmentDelta>)
        ensures
            r == Some(
                match pod.request.resume_artifact {
                    Some(artifact_id) => PodAssignmentDelta::Resume {
                        pod_id,
                        artifact_id,
                        spec: pod.spec,
                    },
                    None => PodAssignmentDelta::Launch {
                        pod_id,
                        request: pod.request,
                        spec: pod.spec,
                    },
                },
            ),
    {
        match pod.request.resume_artifact {
            Some(artifact_id) => Some(
                PodAssignmentDelta::Resume { pod_id, artifact_id, spec: clone_spec(&pod.spec) },
            ),
            None => Some(
                PodAssignmentDelta::Launch {
                    pod_id,
                    request: pod.request,
                    spec: clone_spec(&pod.spec),
                },
            ),
        }
    }

    /// A pod has left the worker.
    pub fn removed(&self, pod_id: PodId) -> (r: Option<PodAssignmentDelta>)
        ensures
            r == Some(PodAssignmentDelta::Stop { pod_id }),
    {
        Some(PodAssignmentDelta::Stop { pod_id })
    }

    /// A pod asks for something else. All that matters is whether it is now to be suspended.
    pub fn changed(&self, old_pod: &AssignedPod, pod_id: PodId, pod: &AssignedPod) -> (r: Option<
        PodAssignmentDelta,
    >)
        ensures
            r == (if pod.request.suspend && !old_pod.request.suspend {
                Some(PodAssignmentDelta::Suspend { pod_id })
            } else {
                None
            }),
    {
        if pod.request.suspend && !old_pod.request.suspend {
            Some(PodAssignmentDelta::Suspend { pod_id })
        } else {
            None
        }
    }
}

} // verus!
