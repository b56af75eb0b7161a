use distvirt_orchestrator::adapter::schedule_request::{
    ScheduleRequestAdapter, ScheduleRequestDelta,
};
use distvirt_orchestrator::sm::{
    ArtifactPortId, PodId, PodScheduleRequest, ScheduleRequestId, ScheduleRequestPortInput,
    SCHEDULE_REQUEST,
};

const POD: PodId = PodId(1);

/// What the router delivers when `pods` need a worker.
fn delivery(pods: &[PodId]) -> Vec<(ScheduleRequestId, ScheduleRequestPortInput)> {
    let list = pods
        .iter()
        .map(|p| (*p, PodScheduleRequest { resume_artifact: None, suspend: false }))
        .collect();
    vec![(SCHEDULE_REQUEST, ScheduleRequestPortInput::PodRequestsInput(list))]
}

#[test]
fn no_requests_no_deltas() {
    let mut adapter = ScheduleRequestAdapter::new(SCHEDULE_REQUEST);
    let deltas = adapter.reconcile(&vec![]);
    assert!(deltas.is_empty());
}

#[test]
fn new_pod_request_delta() {
    let mut adapter = ScheduleRequestAdapter::new(SCHEDULE_REQUEST);

    let deltas = adapter.reconcile(&delivery(&[POD]));
    assert_eq!(deltas.len(), 1);
    match &deltas[0] {
        ScheduleRequestDelta::Request { pod_id, request } => {
            assert_eq!(*pod_id, POD);
            assert!(request.resume_artifact.is_none());
        }
        other => panic!("expected Request, got {:?}", other),
    }
    assert!(adapter.sent_requests().contains_key(&POD));
}

#[test]
fn pod_removed_drop_delta() {
    let mut adapter = ScheduleRequestAdapter::new(SCHEDULE_REQUEST);
    let deltas = adapter.reconcile(&delivery(&[POD]));
    assert_eq!(deltas.len(), 1);

    let deltas = adapter.reconcile(&delivery(&[]));
    let drop_deltas: Vec<_> = deltas
        .iter()
        .filter(|d| matches!(d, ScheduleRequestDelta::Drop { .. }))
        .collect();
    assert!(!drop_deltas.is_empty(), "expected Drop delta, got {:?}", deltas);
    assert!(!adapter.sent_requests().contains_key(&POD));
}

#[test]
fn stable_state_no_deltas() {
    let mut adapter = ScheduleRequestAdapter::new(SCHEDULE_REQUEST);
    let _ = adapter.reconcile(&delivery(&[POD]));

    // Nothing new is delivered.
    let deltas = adapter.reconcile(&vec![]);
    assert!(deltas.is_empty(), "expected no deltas on stable state, got {:?}", deltas);

    // The same pods are delivered again.
    let deltas = adapter.reconcile(&delivery(&[POD]));
    assert!(deltas.is_empty(), "expected no deltas on stable state, got {:?}", deltas);
}

#[test]
fn multiple_pods_change() {
    let mut adapter = ScheduleRequestAdapter::new(SCHEDULE_REQUEST);
    let deltas = adapter.reconcile(&delivery(&[POD, PodId(2)]));

    let request_count = deltas
        .iter()
        .filter(|d| matches!(d, ScheduleRequestDelta::Request { .. }))
        .count();
    assert!(request_count >= 2, "expected at least 2 Request deltas, got {:?}", deltas);
    assert!(adapter.sent_requests().len() >= 2);
}

#[test]
fn requests_come_before_drops() {
    let mut adapter = ScheduleRequestAdapter::new(SCHEDULE_REQUEST);
    let _ = adapter.reconcile(&delivery(&[PodId(1), PodId(3)]));
    let request = PodScheduleRequest { resume_artifact: Some(ArtifactPortId(7)), suspend: false };
    let inputs = vec![
        // Another port is not ours.
        (
            SCHEDULE_REQUEST + 1,
            ScheduleRequestPortInput::PodRequestsInput(vec![]),
        ),
        (
            SCHEDULE_REQUEST,
            ScheduleRequestPortInput::PodRequestsInput(vec![(PodId(2), request), (PodId(3), request)]),
        ),
        // Only the first delivery counts.
        (
            SCHEDULE_REQUEST,
            ScheduleRequestPortInput::PodRequestsInput(vec![]),
        ),
    ];
    assert_eq!(
        adapter.reconcile(&inputs),
        vec![
            ScheduleRequestDelta::Request { pod_id: PodId(2), request },
            ScheduleRequestDelta::Drop { pod_id: PodId(1) },
        ]
    );
}

#[test]
fn each_change_of_requests_is_reported_once() {
    let mut adapter = ScheduleRequestAdapter::new(SCHEDULE_REQUEST);
    let (a, b, c) = (PodId(1), PodId(2), PodId(3));
    adapter.reconcile(&delivery(&[a, b]));
    let deltas = adapter.reconcile(&delivery(&[c, b, c]));
    let request = PodScheduleRequest { resume_artifact: None, suspend: false };
    assert_eq!(
        deltas,
        vec![
            ScheduleRequestDelta::Request { pod_id: c, request },
            ScheduleRequestDelta::Drop { pod_id: a },
        ]
    );
}
