use std::sync::Arc;

use distvirt_orchestrator::adapter::pod_assignment::{PodAssignmentDelta, WorkerPortInput};
use distvirt_orchestrator::adapter::timer::TimerConfig;
use distvirt_orchestrator::engine::namespace::effects::NamespaceEffects;
use distvirt_orchestrator::engine::namespace::router::{
    PodSnapshot, RouterDrain, RouterOp, RouterSnapshot,
};
use distvirt_orchestrator::engine::namespace::Namespace;
use distvirt_orchestrator::engine::protocol::WorkerCommand;
use distvirt_orchestrator::engine::types::{
    ClientCommand, OrchestratorToNamespace, SchedulerDecision, SchedulerMessage,
    WorkerNamespaceEvent, WorkerNamespaceEventKind,
};
use distvirt_orchestrator::ids::{self, NamespaceId};
use distvirt_orchestrator::sm::{
    PodId, PodScheduleRequest, PodSpec, PodStatus, ScheduleRequestPortInput, WorkerId, WorkerInfo,
    SCHEDULE_REQUEST,
};
use distvirt_orchestrator::sorted_map::SortedMap;
use distvirt_orchestrator::types::{
    NamespaceSpec, NetworkConfig, PodNetworkConfig, ServicePolicy, ServiceSpec, WorkloadSpec,
};

const WORKER: WorkerId = WorkerId(1);
const POD: PodId = PodId(1);

fn ns(name: &str) -> NamespaceId {
    NamespaceId(name.into())
}

fn test_timer_config() -> TimerConfig {
    TimerConfig {
        retry_backoff_ms: 100,
        launch_timeout_ms: 100,
        suspend_timeout_ms: 100,
        idle_timeout_ms: 100,
    }
}

fn network() -> NetworkConfig {
    NetworkConfig { segment_id: None, subnet: 0x0a00_0000, gateway: 0x0a00_0001, prefix_len: 24 }
}

fn pod_network() -> PodNetworkConfig {
    PodNetworkConfig { ip: 0x0a00_0005, mac: [0; 6], gateway: 0, netmask: String::new() }
}

/// A router with one pod in it.
fn router() -> RouterSnapshot {
    let mut pods = SortedMap::new();
    pods.insert(
        POD,
        PodSnapshot {
            workload_id: None,
            worker_id: None,
            launch_spec: None,
            status: PodStatus::Pending,
        },
    );
    RouterSnapshot {
        pods,
        endpoints: SortedMap::new(),
        workloads: SortedMap::new(),
        services: SortedMap::new(),
    }
}

fn quiet() -> RouterDrain<&'static str> {
    RouterDrain {
        timers: vec![],
        schedule_requests: vec![],
        workers: vec![],
        endpoints: vec![],
        names: vec![],
        observability_events: vec![],
    }
}

/// A workload with an always-on service.
fn spec() -> NamespaceSpec {
    let mut workloads = SortedMap::new();
    workloads.insert(
        ids::WorkloadId("w1".into()),
        WorkloadSpec {
            containers: Arc::new(vec![]),
            network: pod_network(),
            suspend_on_idle: false,
            resources: None,
            activation: None,
        },
    );
    let mut services = SortedMap::new();
    services.insert(
        ids::ServiceId("s1".into()),
        ServiceSpec {
            workload_id: ids::WorkloadId("w1".into()),
            ip: 0x0a00_0064,
            policy: Arc::new(ServicePolicy { buffer_frames: 0, timeout_ms: 0, activator: None }),
            activation: None,
        },
    );
    NamespaceSpec { network: network(), workloads, services }
}

fn push(
    core: &mut Namespace,
    event: OrchestratorToNamespace,
) -> (Vec<RouterOp>, NamespaceEffects<&'static str>) {
    let mut effects = NamespaceEffects::new();
    let ops = core.process_event(event, &router(), &vec![], &mut effects);
    (ops, effects)
}

fn create_configured_core() -> Namespace {
    let mut core = Namespace::new(ns("test"), test_timer_config());
    push(
        &mut core,
        OrchestratorToNamespace::ClientCommand(ClientCommand::UpdateSpec(spec())),
    );
    core
}

/// Connects a worker and confirms that its part of the namespace is up.
fn connect_worker(core: &mut Namespace, worker_id: WorkerId) -> Vec<RouterOp> {
    let (mut ops, _) = push(
        core,
        OrchestratorToNamespace::WorkerConnected {
            worker_id,
            proto_worker_id: worker_id,
            info: WorkerInfo { capacity: 10, default_pool: None },
        },
    );
    let (more, _) = push(
        core,
        OrchestratorToNamespace::WorkerEvent(WorkerNamespaceEvent {
            worker_id,
            event: WorkerNamespaceEventKind::NamespaceCreated,
        }),
    );
    ops.extend(more);
    ops
}

fn grant() -> OrchestratorToNamespace {
    OrchestratorToNamespace::SchedulerDecision(SchedulerDecision::Grant {
        namespace_id: ns("test"),
        pod_id: POD,
        worker_id: WORKER,
    })
}

fn revoke() -> OrchestratorToNamespace {
    OrchestratorToNamespace::SchedulerDecision(SchedulerDecision::Revoke {
        namespace_id: ns("test"),
        pod_id: POD,
        worker_id: WORKER,
    })
}

#[test]
fn schedule_request_produced_for_new_pod() {
    let mut core = create_configured_core();
    connect_worker(&mut core, WORKER);

    let mut drain = quiet();
    drain.schedule_requests.push((
        SCHEDULE_REQUEST,
        ScheduleRequestPortInput::PodRequestsInput(vec![(
            POD,
            PodScheduleRequest { resume_artifact: None, suspend: false },
        )]),
    ));
    let mut effects = NamespaceEffects::new();
    core.run_cycle(drain, &mut effects);

    let has_request = effects
        .scheduler_messages
        .iter()
        .any(|m| matches!(m, SchedulerMessage::RequestLease { .. }));
    assert!(has_request, "expected a RequestLease scheduler message");
}

#[test]
fn scheduler_grant_creates_lease() {
    let mut core = create_configured_core();
    connect_worker(&mut core, WORKER);

    let (ops, _) = push(&mut core, grant());
    assert!(ops.iter().any(|o| matches!(
        o,
        RouterOp::CreateLease { worker_id, pod_id, .. } if *worker_id == WORKER && *pod_id == POD
    )));
    assert!(ops.iter().any(|o| matches!(
        o,
        RouterOp::AssignPods { worker_id, pods } if *worker_id == WORKER && *pods == vec![POD]
    )));
}

#[test]
fn scheduler_revoke_destroys_lease() {
    let mut core = create_configured_core();
    connect_worker(&mut core, WORKER);
    let (granted, _) = push(&mut core, grant());
    let lease = granted
        .iter()
        .find_map(|o| match o {
            RouterOp::CreateLease { lease, .. } => Some(*lease),
            _ => None,
        })
        .unwrap();

    let (ops, _) = push(&mut core, revoke());
    assert!(ops.iter().any(|o| matches!(o, RouterOp::DestroyLease { lease: l } if *l == lease)));
    assert!(ops
        .iter()
        .any(|o| matches!(o, RouterOp::AssignPods { pods, .. } if pods.is_empty())));
}

#[test]
fn worker_disconnect_cleans_up() {
    let mut core = create_configured_core();
    connect_worker(&mut core, WORKER);
    assert_eq!(core.active_worker_ids(), vec![WORKER]);

    let (ops, _) =
        push(&mut core, OrchestratorToNamespace::WorkerDisconnected { worker_id: WORKER });
    assert!(
        core.active_worker_ids().is_empty(),
        "worker should be removed after disconnect"
    );
    assert!(ops
        .iter()
        .any(|o| matches!(o, RouterOp::DestroyWorker { worker_id } if *worker_id == WORKER)));
}

#[test]
fn empty_core_processes_events() {
    let mut core = Namespace::new(ns("test"), test_timer_config());
    connect_worker(&mut core, WORKER);
    push(&mut core, OrchestratorToNamespace::WorkerDisconnected { worker_id: WORKER });
    assert!(core.active_worker_ids().is_empty());
}

#[test]
fn process_event_is_sync() {
    let mut core = create_configured_core();
    connect_worker(&mut core, WORKER);
    push(&mut core, grant());

    let mut drain = quiet();
    drain.workers.push((
        WORKER,
        WorkerPortInput::AssignedPodsInput(PodAssignmentDelta::Launch {
            pod_id: POD,
            request: PodScheduleRequest { resume_artifact: None, suspend: false },
            spec: Some(Arc::new(PodSpec {
                network: Some(pod_network()),
                containers: Arc::new(vec![]),
                resources: None,
                volumes: Arc::new(vec![]),
            })),
        }),
    ));
    let mut effects = NamespaceEffects::new();
    core.run_cycle(drain, &mut effects);
    assert!(effects
        .worker_commands
        .iter()
        .any(|(w, c)| *w == WORKER && matches!(c, WorkerCommand::LaunchPod { .. })));
}

#[test]
fn an_early_grant_waits_for_its_worker() {
    let mut core = create_configured_core();
    push(
        &mut core,
        OrchestratorToNamespace::WorkerConnected {
            worker_id: WORKER,
            proto_worker_id: WORKER,
            info: WorkerInfo { capacity: 10, default_pool: None },
        },
    );
    let (ops, _) = push(&mut core, grant());
    assert!(!ops.iter().any(|o| matches!(o, RouterOp::CreateLease { .. })));
    let (ops, _) = push(
        &mut core,
        OrchestratorToNamespace::WorkerEvent(WorkerNamespaceEvent {
            worker_id: WORKER,
            event: WorkerNamespaceEventKind::NamespaceCreated,
        }),
    );
    assert!(ops.iter().any(|o| matches!(
        o,
        RouterOp::CreateLease { worker_id, pod_id, .. } if *worker_id == WORKER && *pod_id == POD
    )));
}

#[test]
fn the_spec_is_remembered() {
    let core = create_configured_core();
    assert!(core.current_spec().is_some());
    assert!(core.management().lookup_workload(&"w1".to_string()).is_some());
    assert!(core.management().lookup_service(&"s1".to_string()).is_some());
    assert_eq!(core.namespace_id(), &ns("test"));
}

#[test]
fn observers_hear_what_the_router_says() {
    let mut core = create_configured_core();
    let mut effects = NamespaceEffects::new();
    for events in [vec!["pod launched", "pod running"], vec!["service ready"]] {
        let mut drain = quiet();
        drain.observability_events = events;
        assert!(core.runs(&drain));
        core.run_cycle(drain, &mut effects);
    }
    assert_eq!(
        effects.observability_events,
        vec!["pod launched", "pod running", "service ready"]
    );
    assert!(effects.is_empty(), "what observers hear is nothing to be done");
}
