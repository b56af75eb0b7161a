use distvirt_orchestrator::engine::types::SchedulerCoreInput;
use distvirt_orchestrator::engine::worker_state::{
    WorkerCapabilities, WorkerStateCore, WorkerStateCoreEvent,
};
use distvirt_orchestrator::ids::NamespaceId;
use distvirt_orchestrator::sm::WorkerId;

fn ws_connected(id: u64) -> WorkerStateCoreEvent {
    WorkerStateCoreEvent::Connected {
        worker_id: WorkerId(id),
        capabilities: WorkerCapabilities {
            has_kvm: false,
            has_containerd: false,
            available_adapters: vec![],
            max_pods: 10,
            available_memory_mb: 1024,
            public_endpoint: String::new(),
            pools: vec![],
        },
        tunnel_info: None,
        wireguard_info: None,
        proto_worker_id: WorkerId(id),
    }
}

#[test]
fn connected_produces_scheduler_update() {
    let mut ws = WorkerStateCore::new();
    let effects = ws.process(ws_connected(1));
    assert_eq!(effects.scheduler_updates.len(), 1);
    assert!(matches!(
        &effects.scheduler_updates[0],
        SchedulerCoreInput::WorkerUpdate(id, _) if *id == WorkerId(1)
    ));
}

#[test]
fn disconnected_produces_scheduler_removed() {
    let mut ws = WorkerStateCore::new();
    ws.process(ws_connected(1));
    let effects = ws.process(WorkerStateCoreEvent::Disconnected { worker_id: WorkerId(1) });
    assert_eq!(effects.scheduler_updates.len(), 1);
    assert!(matches!(
        &effects.scheduler_updates[0],
        SchedulerCoreInput::WorkerRemoved(id) if *id == WorkerId(1)
    ));
}

#[test]
fn connected_broadcasts_worker_registry() {
    let mut ws = WorkerStateCore::new();
    let effects = ws.process(ws_connected(1));
    assert!(effects.worker_registry_broadcast.is_some());
}

#[test]
fn a_lost_worker_is_not_found() {
    let mut ws = WorkerStateCore::new();
    ws.process(ws_connected(1));
    ws.process(ws_connected(2));
    assert_eq!(ws.worker_count(), 2);
    assert_eq!(ws.query_all_workers().len(), 2);
    ws.process(WorkerStateCoreEvent::Disconnected { worker_id: WorkerId(1) });
    assert!(ws.query_worker(WorkerId(1)).is_none());
    let left = ws.query_worker(WorkerId(2)).unwrap();
    assert_eq!((left.max_pods, left.available_memory_mb), (10, 1024));
}

#[test]
fn segments_of_unknown_workers_are_harmless() {
    let mut ws = WorkerStateCore::new();
    let effects = ws.process(WorkerStateCoreEvent::NamespaceAssigned {
        worker_id: WorkerId(9),
        namespace_id: NamespaceId("ns".into()),
    });
    assert!(effects.scheduler_updates.is_empty());
}

#[test]
fn pods_count_up_and_down() {
    let mut ws = WorkerStateCore::new();
    ws.process(ws_connected(1));
    let effects =
        ws.process(WorkerStateCoreEvent::PodCountChange { worker_id: WorkerId(1), delta: 3 });
    assert!(matches!(
        &effects.scheduler_updates[0],
        SchedulerCoreInput::WorkerUpdate(_, c) if c.pod_count == 3
    ));
    ws.process(WorkerStateCoreEvent::PodCountChange { worker_id: WorkerId(1), delta: -1 });
    assert_eq!(ws.query_worker(WorkerId(1)).unwrap().active_pods, 2);
}
