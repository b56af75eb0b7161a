use distvirt_orchestrator::adapter::pod_assignment::{
    PodAssignmentAction, PodAssignmentAdapter, PodAssignmentIncrementalAggregator, WorkerPortInput,
};
use distvirt_orchestrator::sm::{
    ArtifactPortId, AssignedPod, PodId, PodScheduleRequest, WorkerId,
};

const WK1: WorkerId = WorkerId(1);
const WK2: WorkerId = WorkerId(2);
const P1: PodId = PodId(1);
const AGG: PodAssignmentIncrementalAggregator = PodAssignmentIncrementalAggregator;

fn pod(resume_artifact: Option<ArtifactPortId>, suspend: bool) -> AssignedPod {
    AssignedPod { request: PodScheduleRequest { resume_artifact, suspend }, spec: None }
}

fn arrival(worker: WorkerId, pod_id: PodId) -> (WorkerId, WorkerPortInput) {
    let delta = AGG.added(pod_id, &pod(None, false)).unwrap();
    (worker, WorkerPortInput::AssignedPodsInput(delta))
}

#[test]
fn no_pods_no_actions() {
    let adapter = PodAssignmentAdapter::new();
    let (actions, _) = adapter.reconcile(&vec![]);
    assert!(actions.is_empty());
}

#[test]
fn pod_appears_launch() {
    let adapter = PodAssignmentAdapter::new();
    let (actions, _) = adapter.reconcile(&vec![arrival(WK1, P1)]);
    assert_eq!(actions.len(), 1);
    match &actions[0] {
        PodAssignmentAction::Launch { worker_id, pod_id, request, .. } => {
            assert_eq!(*worker_id, WK1);
            assert_eq!(*pod_id, P1);
            assert!(request.resume_artifact.is_none());
        }
        other => panic!("expected Launch, got {:?}", other),
    }
}

#[test]
fn pod_disappears_stop() {
    let adapter = PodAssignmentAdapter::new();
    let (actions, _) = adapter.reconcile(&vec![arrival(WK1, P1)]);
    assert_eq!(actions.len(), 1);
    assert!(matches!(&actions[0], PodAssignmentAction::Launch { .. }));

    let gone = WorkerPortInput::AssignedPodsInput(AGG.removed(P1).unwrap());
    let (actions, _) = adapter.reconcile(&vec![(WK1, gone)]);
    let stop_actions: Vec<_> =
        actions.iter().filter(|a| matches!(a, PodAssignmentAction::Stop { .. })).collect();
    assert!(!stop_actions.is_empty(), "expected Stop action, got {:?}", actions);
}

#[test]
fn assigned_stable_state_no_actions() {
    let adapter = PodAssignmentAdapter::new();
    let _ = adapter.reconcile(&vec![arrival(WK1, P1)]);
    assert!(AGG.changed(&pod(None, false), P1, &pod(None, false)).is_none());
    let (actions, _) = adapter.reconcile(&vec![]);
    assert!(actions.is_empty(), "expected no actions on stable state, got {:?}", actions);
}

#[test]
fn multiple_workers() {
    let adapter = PodAssignmentAdapter::new();
    let (actions, _) = adapter.reconcile(&vec![arrival(WK1, P1), arrival(WK2, PodId(2))]);
    let launch_count =
        actions.iter().filter(|a| matches!(a, PodAssignmentAction::Launch { .. })).count();
    assert!(launch_count >= 2, "expected at least 2 Launch actions, got {:?}", actions);
}

#[test]
fn a_pod_with_a_snapshot_is_resumed() {
    let adapter = PodAssignmentAdapter::new();
    let delta = AGG.added(P1, &pod(Some(ArtifactPortId(4)), false)).unwrap();
    let (actions, changed) =
        adapter.reconcile(&vec![(WK1, WorkerPortInput::AssignedPodsInput(delta))]);
    assert!(!changed);
    assert!(matches!(
        &actions[0],
        PodAssignmentAction::Resume { pod_id, artifact_id, .. }
            if *pod_id == P1 && *artifact_id == ArtifactPortId(4)
    ));
}

#[test]
fn a_pod_that_is_to_sleep_is_suspended() {
    let adapter = PodAssignmentAdapter::new();
    let delta = AGG.changed(&pod(None, false), P1, &pod(None, true)).unwrap();
    let (actions, _) = adapter.reconcile(&vec![(WK2, WorkerPortInput::AssignedPodsInput(delta))]);
    assert!(matches!(
        &actions[0],
        PodAssignmentAction::Suspend { worker_id, pod_id } if *worker_id == WK2 && *pod_id == P1
    ));
}
