use std::sync::Arc;

use distvirt_orchestrator::adapter::timer::{TimerAction, TimerConfig, TimerIdentity};
use distvirt_orchestrator::engine::namespace::boundary::{
    NamespaceCoreEvent, NamespaceDirectory, NamespaceWithBoundary, RunningNamespace,
};
use distvirt_orchestrator::engine::namespace::effects::NamespaceEffects;
use distvirt_orchestrator::engine::namespace::router::{
    PodSnapshot, RouterDrain, RouterOp, RouterSnapshot,
};
use distvirt_orchestrator::engine::namespace::unit::NamespaceUnit;
use distvirt_orchestrator::engine::orchestrator::OrchestratorCore;
use distvirt_orchestrator::engine::types::{
    ClientCommand, ClientError, NamespacePatch, OrchestratorToNamespace, SchedulerDecision,
    WorkerNamespaceEvent, WorkerNamespaceEventKind,
};
use distvirt_orchestrator::id_registry::{IdRegistry, IdRegistryMap};
use distvirt_orchestrator::ids::{ArtifactId, NamespaceId};
use distvirt_orchestrator::sm::{
    EndpointId, PodId, PodStatus, ServiceId, WorkerId, WorkerInfo, WorkloadId, WorkloadTimerKey,
};
use distvirt_orchestrator::sorted_map::SortedMap;
use distvirt_orchestrator::types::{NamespaceSpec, NetworkConfig, PodNetworkConfig, WorkloadSpec};

const WORKER: WorkerId = WorkerId(3);
const POD: PodId = PodId(8);

fn ns(name: &str) -> NamespaceId {
    NamespaceId(name.into())
}

fn timers() -> TimerConfig {
    TimerConfig {
        retry_backoff_ms: 10,
        launch_timeout_ms: 20,
        suspend_timeout_ms: 30,
        idle_timeout_ms: 40,
    }
}

fn router() -> RouterSnapshot {
    let mut pods = SortedMap::new();
    pods.insert(
        POD,
        PodSnapshot {
            workload_id: None,
            worker_id: None,
            launch_spec: None,
            status: PodStatus::Pending,
        },
    );
    RouterSnapshot {
        pods,
        endpoints: SortedMap::new(),
        workloads: SortedMap::new(),
        services: SortedMap::new(),
    }
}

fn spec() -> NamespaceSpec {
    NamespaceSpec {
        network: NetworkConfig {
            subnet: 0x0a00_0000,
            gateway: 0x0a00_0001,
            prefix_len: 24,
            segment_id: None,
        },
        workloads: SortedMap::new(),
        services: SortedMap::new(),
    }
}

fn app() -> WorkloadSpec {
    WorkloadSpec {
        containers: Arc::new(vec![]),
        network: PodNetworkConfig { ip: 0x0a00_0005, mac: [0; 6], gateway: 0, netmask: String::new() },
        suspend_on_idle: false,
        resources: None,
        activation: None,
    }
}

fn connected() -> OrchestratorToNamespace {
    OrchestratorToNamespace::WorkerConnected {
        worker_id: WORKER,
        proto_worker_id: WORKER,
        info: WorkerInfo { capacity: 4, default_pool: None },
    }
}

fn up() -> OrchestratorToNamespace {
    reported(WorkerNamespaceEventKind::NamespaceCreated)
}

fn reported(event: WorkerNamespaceEventKind) -> OrchestratorToNamespace {
    OrchestratorToNamespace::WorkerEvent(WorkerNamespaceEvent { worker_id: WORKER, event })
}

#[test]
fn timers_run_out_once() {
    let mut unit = NamespaceUnit::new(ns("n"), timers());
    let identity = TimerIdentity::Workload(WorkloadId(1), WorkloadTimerKey::RetryBackoff);
    let mut effects = NamespaceEffects::<()>::new();
    effects.timer_actions.push(TimerAction::Start { identity, generation: 1, duration_ms: 50 });
    let out = unit.convert_effects(effects, 100);
    assert!(out.to_orchestrator.is_empty());
    assert_eq!(unit.next_deadline(), Some(150));
    assert!(unit.advance_to(149).is_empty());
    let fired = unit.advance_to(150);
    assert_eq!(fired.len(), 1);
    assert_eq!(fired[0].identity, identity);
    assert!(unit.advance_to(1_000).is_empty());
    assert_eq!(unit.next_deadline(), None);
}

#[test]
fn a_unit_passes_messages_on() {
    let mut unit = NamespaceUnit::new(ns("n"), timers());
    let mut effects = NamespaceEffects::<()>::new();
    for message in [connected(), up()] {
        assert!(unit.namespace.accepts(&message, &router(), &vec![]));
        unit.process(message, &router(), &vec![], &mut effects);
    }
    assert_eq!(unit.active_worker_ids(), vec![WORKER]);
    assert!(unit.current_spec().is_none());
    assert_eq!(unit.management().workload_count(), 0);
    assert_eq!(unit.status_report(&router()).namespace_id, ns("n"));
    assert_eq!(unit.router_pod_to_proto(&POD), Some(POD));
}

#[test]
fn a_snapshot_without_a_number_is_not_taken() {
    let mut unit = NamespaceUnit::new(ns("n"), timers());
    let mut effects = NamespaceEffects::<()>::new();
    let suspended = |text: &str| {
        reported(WorkerNamespaceEventKind::PodSuspended {
            pod_id: POD,
            artifact_id: ArtifactId(text.into()),
        })
    };
    assert!(unit.namespace.accepts(&suspended("x"), &router(), &vec![]));
    unit.process(connected(), &router(), &vec![], &mut effects);
    unit.process(up(), &router(), &vec![], &mut effects);
    assert!(!unit.namespace.accepts(&suspended("x"), &router(), &vec![]));
    assert!(unit.namespace.accepts(&suspended("17"), &router(), &vec![]));
}

#[test]
fn an_empty_delivery_runs() {
    let mut unit = NamespaceUnit::new(ns("n"), timers());
    let drain = RouterDrain {
        timers: vec![],
        schedule_requests: vec![],
        workers: vec![],
        endpoints: vec![],
        names: vec![],
        observability_events: vec![],
    };
    assert!(unit.namespace.runs(&drain));
    let mut effects = NamespaceEffects::<()>::new();
    unit.namespace.run_cycle(drain, &mut effects);
    unit.namespace.finish_cycle(&vec![], &mut effects);
    assert!(effects.worker_commands.is_empty());
    assert!(effects.scheduler_messages.is_empty());
}

#[test]
fn the_boundary_takes_timers_and_messages_alike() {
    let mut boundary = NamespaceWithBoundary::new(ns("n"), timers());
    let mut effects = NamespaceEffects::<()>::new();
    let ops = boundary.process_event(
        NamespaceCoreEvent::TimerFired {
            identity: TimerIdentity::Workload(WorkloadId(1), WorkloadTimerKey::RetryBackoff),
            generation: 1,
        },
        &router(),
        &vec![],
        &mut effects,
    );
    assert!(matches!(ops.as_slice(), [RouterOp::FireTimer(_)]));

    let ops = boundary.process_event(
        NamespaceCoreEvent::WorkerConnected {
            worker_id: WORKER,
            proto_worker_id: WORKER,
            info: WorkerInfo { capacity: 4, default_pool: None },
        },
        &router(),
        &vec![],
        &mut effects,
    );
    boundary.process_event(
        NamespaceCoreEvent::WorkerEvent(WorkerNamespaceEvent {
            worker_id: WORKER,
            event: WorkerNamespaceEventKind::NamespaceCreated,
        }),
        &router(),
        &vec![],
        &mut effects,
    );
    assert!(ops.iter().all(|o| !matches!(o, RouterOp::FireTimer(_))));
    assert_eq!(boundary.active_workers(), vec![WORKER]);

    let ops = boundary.process_event(
        NamespaceCoreEvent::SchedulerDecision(SchedulerDecision::Grant {
            namespace_id: ns("n"),
            pod_id: POD,
            worker_id: WORKER,
        }),
        &router(),
        &vec![],
        &mut effects,
    );
    assert!(ops
        .iter()
        .any(|o| matches!(o, RouterOp::CreateLease { pod_id, .. } if *pod_id == POD)));

    boundary.process_event(
        NamespaceCoreEvent::ClientCommand(ClientCommand::UpdateSpec(spec())),
        &router(),
        &vec![],
        &mut effects,
    );
    assert!(boundary.current_spec().is_some());
    boundary.process_event(
        NamespaceCoreEvent::WorkerDisconnected { worker_id: WORKER },
        &router(),
        &vec![],
        &mut effects,
    );
    assert!(boundary.active_workers().is_empty());
}

#[test]
fn a_directory_reports_on_what_it_holds() {
    let mut directory = NamespaceDirectory::new();
    for name in ["b", "a"] {
        let mut boundary = NamespaceWithBoundary::new(ns(name), timers());
        let mut wanted = spec();
        wanted.workloads.insert(distvirt_orchestrator::ids::WorkloadId("app".into()), app());
        boundary.process_event(
            NamespaceCoreEvent::ClientCommand(ClientCommand::UpdateSpec(wanted)),
            &router(),
            &vec![],
            &mut NamespaceEffects::<()>::new(),
        );
        let mut snapshot = router();
        let workload_id = boundary.management().lookup_workload(&"app".to_string());
        snapshot.pods.insert(
            PodId(9),
            PodSnapshot {
                workload_id,
                worker_id: Some(WORKER),
                launch_spec: None,
                status: PodStatus::Pending,
            },
        );
        directory.namespaces.insert(ns(name), RunningNamespace { boundary, snapshot });
    }
    let all = directory.list_namespaces();
    assert_eq!(all.len(), 2);
    assert_eq!((&all[0].namespace_id, &all[1].namespace_id), (&ns("a"), &ns("b")));
    assert!(directory.namespace(&ns("a")).is_some());
    assert!(directory.namespace(&ns("c")).is_none());
    assert_eq!(directory.get_namespace_status(&ns("a")).unwrap().pods.len(), 1);
    assert_eq!(directory.list_pods(&ns("b")).unwrap()[0].pod_id, PodId(9));
    assert!(matches!(
        directory.get_namespace_status(&ns("c")),
        Err(ClientError::NamespaceNotFound)
    ));
    assert!(matches!(directory.list_pods(&ns("c")), Err(ClientError::NamespaceNotFound)));
}

#[test]
fn commands_reach_their_namespace() {
    let mut core = OrchestratorCore::new(timers(), IdRegistryMap::new());
    let (r, out) = core.update_namespace(&ns("n"), spec());
    assert_eq!(r, Err(ClientError::NamespaceNotFound));
    assert!(out.to_namespaces.is_empty());
    let (r, _) = core.create_namespace(
        distvirt_orchestrator::engine::orchestrator::CreateNamespaceInfo {
            namespace_id: ns("n"),
            network: spec().network,
        },
    );
    assert!(r.is_ok());
    let (r, out) = core.update_namespace(&ns("n"), spec());
    assert_eq!(r, Ok(()));
    assert!(matches!(
        &out.to_namespaces[0].1,
        OrchestratorToNamespace::ClientCommand(ClientCommand::UpdateSpec(_))
    ));
    let (r, out) = core.disconnect_network(&ns("n"), [4; 32]);
    assert_eq!(r, Ok(()));
    assert!(matches!(
        &out.to_namespaces[0].1,
        OrchestratorToNamespace::ClientCommand(ClientCommand::Disconnect { client_public_key })
            if *client_public_key == [4; 32]
    ));
}

#[test]
fn names_go_with_what_they_name() {
    let mut registry = IdRegistry::new();
    registry.register_workload(WorkloadId(1), "app".into());
    registry.register_service(ServiceId(2), "web".into());
    registry.register_pod(POD, WorkloadId(1));
    registry.register_endpoint(EndpointId(5), ServiceId(2));
    assert_eq!(registry.pod_workload_id(&POD), Some(WorkloadId(1)));
    assert_eq!(registry.endpoint_service_id(&EndpointId(5)), Some(ServiceId(2)));
    registry.unregister_pod(&POD);
    registry.unregister_endpoint(&EndpointId(5));
    assert_eq!(registry.pod_workload_id(&POD), None);
    assert_eq!(registry.endpoint_service_id(&EndpointId(5)), None);
    assert_eq!(registry.workload_name(&WorkloadId(1)), Some("app".to_string()));
}

#[test]
fn a_patch_changes_what_it_names() {
    let mut unit = NamespaceUnit::new(ns("n"), timers());
    let mut effects = NamespaceEffects::<()>::new();
    let id = |name: &str| distvirt_orchestrator::ids::WorkloadId(name.into());
    let mut wanted = spec();
    wanted.workloads.insert(id("a"), app());
    wanted.workloads.insert(id("b"), app());
    let mut more = SortedMap::new();
    more.insert(id("c"), app());
    let patch = NamespacePatch {
        workloads: more,
        services: SortedMap::new(),
        remove_workloads: vec![id("a")],
        remove_services: vec![],
    };
    for command in [ClientCommand::UpdateSpec(wanted), ClientCommand::PatchSpec(patch)] {
        let message = OrchestratorToNamespace::ClientCommand(command);
        assert!(unit.namespace.accepts(&message, &router(), &vec![]));
        unit.process(message, &router(), &vec![], &mut effects);
    }
    let workloads = &unit.current_spec().unwrap().workloads;
    assert_eq!(workloads.len(), 2);
    assert!(workloads.contains_key(&id("b")) && workloads.contains_key(&id("c")));
    assert!(unit.management().lookup_workload(&"a".to_string()).is_none());
    assert!(unit.management().lookup_workload(&"c".to_string()).is_some());
}

#[test]
fn what_observers_hear_goes_out_with_the_rest() {
    let mut unit = NamespaceUnit::new(ns("n"), timers());
    let mut effects = NamespaceEffects::new();
    effects.observability_events.push("first");
    let mut out = unit.convert_effects(effects, 0);
    let mut effects = NamespaceEffects::new();
    effects.observability_events.push("second");
    out.merge(unit.convert_effects(effects, 0));
    assert_eq!(out.observability_events, vec!["first", "second"]);
}
