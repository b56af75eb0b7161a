use distvirt_orchestrator::engine::scheduler::SchedulerCore;
use distvirt_orchestrator::engine::types::{
    ArtifactPlacementEvent, SchedulerCoreInput, SchedulerDecision, WorkerCandidate,
};
use distvirt_orchestrator::ids::{ArtifactId, NamespaceId, PoolId};
use distvirt_orchestrator::sm::{PodId, WorkerId};
use distvirt_orchestrator::types::PressureBand;

fn ns(name: &str) -> NamespaceId {
    NamespaceId(name.into())
}

fn update(id: u64, band: PressureBand, pods: usize) -> SchedulerCoreInput {
    SchedulerCoreInput::WorkerUpdate(
        WorkerId(id),
        WorkerCandidate {
            worker_id: WorkerId(id),
            max_pressure_band: band,
            pod_count: pods,
            draining: false,
            active: true,
        },
    )
}

fn request(pod: u64) -> SchedulerCoreInput {
    SchedulerCoreInput::RequestLease {
        namespace_id: ns("test"),
        pod_id: PodId(pod),
        proto_resume_artifact: None,
    }
}

fn granted_worker(decision: &SchedulerDecision) -> WorkerId {
    match decision {
        SchedulerDecision::Grant { worker_id, .. } => *worker_id,
        other => panic!("expected a grant, got {:?}", other),
    }
}

#[test]
fn tests_grant_immediate_when_worker_available() {
    let mut sched = SchedulerCore::new();
    let effects = sched.process(update(1, PressureBand::Normal, 0));
    assert!(effects.decisions.is_empty());

    let effects = sched.process(request(1));
    assert_eq!(effects.decisions.len(), 1);
    assert!(matches!(
        &effects.decisions[0],
        SchedulerDecision::Grant { worker_id, .. } if *worker_id == WorkerId(1)
    ));
}

#[test]
fn tests_pend_when_no_workers() {
    let mut sched = SchedulerCore::new();
    let effects = sched.process(request(1));
    assert!(effects.decisions.is_empty(), "should pend when no workers");
}

#[test]
fn tests_retry_pending_on_worker_update() {
    let mut sched = SchedulerCore::new();
    sched.process(request(1));

    let effects = sched.process(update(1, PressureBand::Normal, 0));
    assert_eq!(effects.decisions.len(), 1);
    assert!(matches!(&effects.decisions[0], SchedulerDecision::Grant { .. }));
}

#[test]
fn tests_drop_request_revokes_granted() {
    let mut sched = SchedulerCore::new();
    sched.process(update(1, PressureBand::Normal, 0));
    sched.process(request(1));

    let effects = sched.process(SchedulerCoreInput::DropRequest {
        namespace_id: ns("test"),
        pod_id: PodId(1),
    });
    assert_eq!(effects.decisions.len(), 1);
    assert!(matches!(&effects.decisions[0], SchedulerDecision::Revoke { .. }));
}

#[test]
fn scheduler_grant_immediate_when_worker_available() {
    let mut sched = SchedulerCore::new();
    let decisions = sched.process(update(1, PressureBand::Normal, 0)).decisions;
    assert!(decisions.is_empty());

    let decisions = sched.process(request(1)).decisions;
    assert_eq!(decisions.len(), 1);
    assert!(matches!(
        &decisions[0],
        SchedulerDecision::Grant { worker_id, .. } if *worker_id == WorkerId(1)
    ));
}

#[test]
fn scheduler_pend_when_no_workers() {
    let mut sched = SchedulerCore::new();
    let decisions = sched.process(request(1)).decisions;
    assert!(decisions.is_empty(), "should pend when no workers");
    assert_eq!(sched.pending_count(), 1);
}

#[test]
fn scheduler_retry_pending_on_worker_update() {
    let mut sched = SchedulerCore::new();
    sched.process(request(1));

    let decisions = sched.process(update(1, PressureBand::Normal, 0)).decisions;
    assert_eq!(decisions.len(), 1);
    assert!(matches!(&decisions[0], SchedulerDecision::Grant { .. }));
    assert_eq!(sched.pending_count(), 0);
}

#[test]
fn scheduler_drop_request_revokes_granted() {
    let mut sched = SchedulerCore::new();
    sched.process(update(1, PressureBand::Normal, 0));
    sched.process(request(1));

    let decisions = sched
        .process(SchedulerCoreInput::DropRequest { namespace_id: ns("test"), pod_id: PodId(1) })
        .decisions;
    assert_eq!(decisions.len(), 1);
    assert!(matches!(&decisions[0], SchedulerDecision::Revoke { .. }));
}

#[test]
fn the_calmest_and_emptiest_worker_is_picked() {
    let mut sched = SchedulerCore::new();
    sched.process(update(1, PressureBand::Elevated, 0));
    sched.process(update(2, PressureBand::Normal, 7));
    sched.process(update(3, PressureBand::Normal, 2));
    let effects = sched.process(request(1));
    assert_eq!(granted_worker(&effects.decisions[0]), WorkerId(3));
}

#[test]
fn a_worker_with_the_snapshot_comes_first() {
    let mut sched = SchedulerCore::new();
    sched.process(update(1, PressureBand::Normal, 0));
    sched.process(update(2, PressureBand::Elevated, 9));
    sched.process(SchedulerCoreInput::ArtifactEvent {
        worker_id: WorkerId(2),
        event: ArtifactPlacementEvent::WriteCommitted {
            artifact_id: ArtifactId("snap".into()),
            pool_id: PoolId("pool".into()),
            size_bytes: 1,
        },
    });
    let effects = sched.process(SchedulerCoreInput::RequestLease {
        namespace_id: ns("test"),
        pod_id: PodId(1),
        proto_resume_artifact: Some(ArtifactId("snap".into())),
    });
    assert_eq!(granted_worker(&effects.decisions[0]), WorkerId(2));
}

#[test]
fn removed_workers_are_not_picked() {
    let mut sched = SchedulerCore::new();
    sched.process(update(1, PressureBand::Normal, 0));
    let effects = sched.process(SchedulerCoreInput::WorkerRemoved(WorkerId(1)));
    assert!(effects.decisions.is_empty());
    let effects = sched.process(request(1));
    assert!(effects.decisions.is_empty());
    assert_eq!(sched.pending_count(), 1);
}

#[test]
fn an_update_grants_what_is_pending_once() {
    let mut sched = SchedulerCore::new();
    for pod in [1, 2, 3] {
        assert!(sched.process(request(pod)).decisions.is_empty());
    }
    let dropped = sched.process(SchedulerCoreInput::DropRequest {
        namespace_id: ns("test"),
        pod_id: PodId(2),
    });
    assert!(dropped.decisions.is_empty());
    let effects = sched.process(update(1, PressureBand::Normal, 0));
    let pods: Vec<PodId> = effects
        .decisions
        .iter()
        .map(|d| match d {
            SchedulerDecision::Grant { pod_id, .. } => *pod_id,
            other => panic!("expected a grant, got {:?}", other),
        })
        .collect();
    assert_eq!(pods, vec![PodId(1), PodId(3)]);
    assert!(sched.process(update(1, PressureBand::Normal, 2)).decisions.is_empty());
}
