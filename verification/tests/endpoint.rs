use std::sync::Arc;

use distvirt_orchestrator::adapter::endpoint::{
    EndpointAction, EndpointAdapter, EndpointIncrementalAggregator, EndpointsInputSource,
    FabricEndpointPortInput,
};
use distvirt_orchestrator::sm::{
    EndpointBackend, EndpointId, EndpointInfo, EndpointKind, FabricEndpointId, ServiceId,
    WireGuardPeerEndpointInfo, WireGuardPeerId, WorkerId, FABRIC_ENDPOINT,
};
use distvirt_orchestrator::types::ServicePolicy;

const S1: ServiceId = ServiceId(1);
const WK1: WorkerId = WorkerId(1);

/// A service that is active on the worker, as its endpoint offers it.
fn active(endpoint: u64, service: ServiceId, worker: WorkerId) -> EndpointsInputSource {
    EndpointsInputSource::EndpointEndpointInfo(
        EndpointId(endpoint),
        Some(EndpointInfo {
            ip: 0x0a00_0101,
            kind: EndpointKind::Service {
                service_id: service,
                policy: Arc::new(ServicePolicy {
                    buffer_frames: 0,
                    timeout_ms: 0,
                    activator: None,
                }),
            },
            backend: Some(EndpointBackend { ip: Some(0x0a00_0001), worker_id: worker }),
        }),
    )
}

/// A service without a backend offers nothing.
fn waiting(endpoint: u64) -> EndpointsInputSource {
    EndpointsInputSource::EndpointEndpointInfo(EndpointId(endpoint), None)
}

fn delivery(
    actions: Option<Vec<EndpointAction>>,
) -> Vec<(FabricEndpointId, FabricEndpointPortInput)> {
    match actions {
        Some(a) => vec![(FABRIC_ENDPOINT, FabricEndpointPortInput::EndpointsInput(a))],
        None => vec![],
    }
}

const AGG: EndpointIncrementalAggregator = EndpointIncrementalAggregator;

#[test]
fn no_active_services_no_actions() {
    let mut adapter = EndpointAdapter::new(FABRIC_ENDPOINT);
    let (actions, _) = adapter.reconcile(&vec![]);
    assert!(actions.is_empty());
}

#[test]
fn service_becomes_active_update() {
    let mut adapter = EndpointAdapter::new(FABRIC_ENDPOINT);
    let (actions, _) = adapter.reconcile(&delivery(AGG.added(&waiting(1))));
    assert!(actions.is_empty(), "expected no actions before pod running, got {:?}", actions);

    let (actions, _) = adapter.reconcile(&delivery(AGG.changed(&waiting(1), &active(1, S1, WK1))));
    assert_eq!(actions.len(), 1);
    match &actions[0] {
        EndpointAction::Update { endpoint_id: _, info } => {
            assert!(matches!(
                info.kind,
                EndpointKind::Service { service_id, .. } if service_id == S1
            ));
            assert_eq!(info.backend.as_ref().unwrap().worker_id, WK1);
        }
        other => panic!("expected Update, got {:?}", other),
    }
}

#[test]
fn service_leaves_active_remove() {
    let mut adapter = EndpointAdapter::new(FABRIC_ENDPOINT);
    let _ = adapter.reconcile(&delivery(AGG.added(&active(1, S1, WK1))));

    let (actions, _) = adapter.reconcile(&delivery(AGG.changed(&active(1, S1, WK1), &waiting(1))));
    let removes: Vec<_> =
        actions.iter().filter(|a| matches!(a, EndpointAction::Remove { .. })).collect();
    for r in &removes {
        if let EndpointAction::Remove { old_info, .. } = r {
            assert_eq!(old_info.backend.as_ref().unwrap().worker_id, WK1);
        }
    }
    assert!(!removes.is_empty(), "expected Remove action, got {:?}", actions);
    assert!(adapter.build_endpoint_sync().is_empty());
}

#[test]
fn tests_stable_state_no_actions() {
    let mut adapter = EndpointAdapter::new(FABRIC_ENDPOINT);
    let _ = adapter.reconcile(&delivery(AGG.added(&active(1, S1, WK1))));

    let (actions, _) = adapter.reconcile(&vec![]);
    assert!(actions.is_empty(), "expected no actions on stable state, got {:?}", actions);
    assert_eq!(adapter.build_endpoint_sync().len(), 1);
}

#[test]
fn multiple_services_change() {
    let mut adapter = EndpointAdapter::new(FABRIC_ENDPOINT);
    let mut inputs = delivery(AGG.added(&active(1, S1, WK1)));
    inputs.extend(delivery(AGG.added(&active(2, ServiceId(2), WK1))));
    let (actions, _) = adapter.reconcile(&inputs);

    let update_count =
        actions.iter().filter(|a| matches!(a, EndpointAction::Update { .. })).count();
    assert!(update_count >= 2, "expected at least 2 Update actions, got {:?}", actions);
}

#[test]
fn peers_come_and_go() {
    let mut adapter = EndpointAdapter::new(FABRIC_ENDPOINT);
    let peer = EndpointsInputSource::WireGuardPeerEndpointInfo(
        WireGuardPeerId(7),
        Some(WireGuardPeerEndpointInfo {
            peer_ip: 0x0a00_00fe,
            worker_id: WK1,
            peer_public_key: [9; 32],
        }),
    );
    let (actions, _) = adapter.reconcile(&delivery(AGG.added(&peer)));
    assert!(matches!(&actions[0], EndpointAction::WireGuardPeerUpdate { .. }));
    assert_eq!(adapter.build_wg_peer_sync().len(), 1);
    let (actions, _) = adapter.reconcile(&delivery(AGG.removed(&peer)));
    assert!(matches!(&actions[0], EndpointAction::WireGuardPeerRemove { .. }));
    assert!(adapter.build_wg_peer_sync().is_empty());
}
