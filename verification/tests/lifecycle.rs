use std::sync::Arc;

use distvirt_orchestrator::agenda::Agenda;
use distvirt_orchestrator::ids::{ClientId, NamespaceId, PodId, ServiceId, WorkerId, WorkloadId};
use distvirt_orchestrator::namespace::events::WorkerEvent;
use distvirt_orchestrator::namespace::step::NamespaceInput;
use distvirt_orchestrator::namespace::wireguard::{ConnectResult, WgPeerOutput};
use distvirt_orchestrator::namespace::{FollowUp, NamespaceStateMachine, WgPeer};
use distvirt_orchestrator::orchestrator::client::ClientCommand;
use distvirt_orchestrator::orchestrator::step::OrchestratorInput;
use distvirt_orchestrator::orchestrator::{
    Lease, Orchestrator, OrchestratorOutput, Task, WorkerCapabilities, WorkerWgConfig,
};
use distvirt_orchestrator::output::ClientEvent;
use distvirt_orchestrator::sorted_map::SortedMap;
use distvirt_orchestrator::types::{
    NamespaceSpec, NetworkConfig, PodNetworkConfig, PressureBand, PressureBands, ServicePolicy,
    ServiceSpec, TimerKey, WorkerCommand, WorkloadSpec,
};
use distvirt_orchestrator::workload::{
    WorkloadInput, WorkloadOutput, WorkloadState, WorkloadStatus,
};

fn ns() -> NamespaceId {
    NamespaceId("n".into())
}

fn workload() -> WorkloadId {
    WorkloadId("app".into())
}

fn worker(name: &str) -> WorkerId {
    WorkerId(name.into())
}

fn pod(number: u64) -> PodId {
    PodId(format!("pod-{}", number))
}

/// One workload behind one service.
fn spec() -> NamespaceSpec {
    let mut workloads = SortedMap::new();
    workloads.insert(
        workload(),
        WorkloadSpec {
            containers: Arc::new(vec![]),
            network: PodNetworkConfig {
                ip: 0x0a00_0005,
                mac: [0; 6],
                gateway: 0,
                netmask: String::new(),
            },
            suspend_on_idle: false,
            resources: None,
            activation: None,
        },
    );
    let mut services = SortedMap::new();
    services.insert(
        ServiceId("web".into()),
        ServiceSpec {
            workload_id: workload(),
            ip: 0x0a00_0064,
            policy: Arc::new(ServicePolicy { buffer_frames: 0, timeout_ms: 0, activator: None }),
            activation: None,
        },
    );
    NamespaceSpec {
        network: NetworkConfig {
            subnet: 0x0a00_0000,
            gateway: 0x0a00_0001,
            prefix_len: 24,
            segment_id: None,
        },
        workloads,
        services,
    }
}

/// A plain lifecycle: wait for a worker, start, run.
fn machine(before: &WorkloadStatus, input: WorkloadInput) -> (WorkloadStatus, Vec<WorkloadOutput>) {
    let demand = before.current_demand;
    let timeout = |pod_id: &PodId| TimerKey::LaunchTimeout {
        workload_id: workload(),
        pod_id: pod_id.clone(),
    };
    let (state, current_demand, outputs) = match input {
        WorkloadInput::SetDemand { count } => {
            (WorkloadState::WaitingForCapacity, count, vec![WorkloadOutput::PodRequest])
        }
        WorkloadInput::LaunchPod { worker_id, pod_id } => {
            let t = timeout(&pod_id);
            let out = vec![WorkloadOutput::TimerSet(timeout(&pod_id), 60_000)];
            (WorkloadState::Launching { pod_id, worker_id, launch_timeout: t }, demand, out)
        }
        WorkloadInput::PodRunning { pod_id } => {
            let worker_id = before.state.worker_id().unwrap().clone();
            let out = vec![
                WorkloadOutput::TimerCancel(timeout(&pod_id)),
                WorkloadOutput::BecameReady {
                    pod_id: pod_id.clone(),
                    worker_id: worker_id.clone(),
                },
            ];
            (WorkloadState::Running { pod_id, worker_id }, demand, out)
        }
        WorkloadInput::WorkerLost { .. } => {
            (WorkloadState::WaitingForCapacity, demand, vec![WorkloadOutput::BecameUnready])
        }
        other => panic!("unexpected {:?}", other),
    };
    (WorkloadStatus { state, current_demand, retiring: vec![] }, outputs)
}

fn run_namespace(
    n: &mut NamespaceStateMachine,
    orch: &mut Orchestrator,
    input: NamespaceInput,
) -> distvirt_orchestrator::output::NamespaceOutput {
    let (mut out, follow_ups) = n.step(input, &mut orch.placement_table);
    let mut todo = Agenda::new();
    todo.first(follow_ups);
    while let Some(f) = n.settle(&mut todo, &mut out) {
        match f {
            FollowUp::StepWorkload { workload_id, input, retry } => {
                let (status, outputs) = machine(&n.workloads.get(&workload_id).unwrap().status, input);
                let more = n.workload_stepped(
                    &workload_id,
                    status,
                    &outputs,
                    retry,
                    &mut orch.placement_table,
                    &mut out,
                );
                todo.first(more);
            }
            FollowUp::ConnectPeer {
                client_id,
                client_public_key,
                worker_wg_public_key,
                worker_endpoint,
            } => {
                let client_ip = 0x0a00_00c8;
                let outputs =
                    vec![WgPeerOutput::AddPeer { peer_public_key: client_public_key, peer_ip: client_ip }];
                n.peer_connected(
                    client_id,
                    ConnectResult::Connected { client_ip, outputs },
                    vec![WgPeer { public_key: client_public_key, client_ip }],
                    worker_wg_public_key,
                    worker_endpoint,
                    "10.0.0.0/24".into(),
                    &mut out,
                );
            }
            FollowUp::DisconnectPeer { client_id, client_public_key } => {
                let outputs = vec![WgPeerOutput::RemovePeer { peer_public_key: client_public_key }];
                n.peer_disconnected(client_id, &outputs, vec![], &mut out);
            }
            other => panic!("{:?} stays inside", other),
        }
    }
    out
}

fn settle(orch: &mut Orchestrator, out: &mut OrchestratorOutput, tasks: Vec<Task>) {
    let mut todo = Agenda::new();
    todo.first(tasks);
    while let Some(task) = orch.settle(&mut todo, out) {
        if let Task::Run { namespace_id, input, scheduled } = task {
            let mut n = orch.namespaces.remove(&namespace_id).unwrap();
            let given = run_namespace(&mut n, orch, input);
            orch.namespaces.insert(namespace_id.clone(), n);
            let more = orch.namespace_ran(namespace_id, given, scheduled, out);
            todo.first(more);
        }
    }
    assert!(orch.check_invariants());
}

fn feed(orch: &mut Orchestrator, input: OrchestratorInput) -> OrchestratorOutput {
    let (mut out, tasks) = orch.step(input);
    settle(orch, &mut out, tasks);
    out
}

fn command(orch: &mut Orchestrator, command: ClientCommand) -> Vec<ClientEvent> {
    let out = feed(orch, OrchestratorInput::ClientCommand { client_id: ClientId(1), command });
    out.client_events.into_iter().map(|(_, e)| e).collect()
}

fn connect(orch: &mut Orchestrator, name: &str) {
    feed(
        orch,
        OrchestratorInput::WorkerConnected {
            worker_id: worker(name),
            capabilities: WorkerCapabilities {
                max_pods: 10,
                available_memory_mb: 1024,
                public_endpoint: "203.0.113.9".into(),
                pools: vec![],
            },
            wg_config: Some(WorkerWgConfig { listen_port: 51820, public_key: [5; 32] }),
            tunnel_config: None,
        },
    );
}

fn report(orch: &mut Orchestrator, name: &str, event: WorkerEvent) -> OrchestratorOutput {
    feed(
        orch,
        OrchestratorInput::NamespaceInput {
            namespace_id: ns(),
            input: NamespaceInput::WorkerEvent { worker_id: worker(name), event },
        },
    )
}

fn state(orch: &Orchestrator) -> &WorkloadState {
    &orch.namespaces.get(&ns()).unwrap().workloads.get(&workload()).unwrap().status.state
}

/// A cluster of one worker, whose part of the one namespace is up, and to whose pod traffic comes.
fn started() -> (Orchestrator, OrchestratorOutput) {
    let mut orch = Orchestrator::new();
    assert_eq!(
        command(&mut orch, ClientCommand::CreateNamespace { namespace_id: ns(), spec: spec() }),
        vec![ClientEvent::Done]
    );
    connect(&mut orch, "w1");
    report(&mut orch, "w1", WorkerEvent::NamespaceCreated);
    assert_eq!(state(&orch), &WorkloadState::Dormant);
    let out = report(
        &mut orch,
        "w1",
        WorkerEvent::EndpointActivation { ip: 0x0a00_0005, service_id: None },
    );
    (orch, out)
}

#[test]
fn a_workload_that_is_wanted_comes_up() {
    let (mut orch, out) = started();
    assert!(out.worker_commands.iter().any(|(w, c)| *w == worker("w1")
        && matches!(c, WorkerCommand::LaunchPod { pod_id, .. } if *pod_id == pod(0))));
    assert!(out.timers_set.iter().any(|(n, t)| *n == ns()
        && t.key == TimerKey::LaunchTimeout { workload_id: workload(), pod_id: pod(0) }));
    assert_eq!(orch.pod_count(&worker("w1")), 1);
    assert_eq!(orch.next_pod_id, 1);

    let out = report(&mut orch, "w1", WorkerEvent::PodRunning { pod_id: pod(0) });
    assert_eq!(
        state(&orch),
        &WorkloadState::Running { pod_id: pod(0), worker_id: worker("w1") }
    );
    assert_eq!(out.timers_cancel.len(), 1);
    assert!(orch
        .namespaces
        .get(&ns())
        .unwrap()
        .workload_readiness
        .contains_key(&workload()));
}

#[test]
fn a_pod_moves_when_its_worker_is_lost() {
    let (mut orch, _) = started();
    report(&mut orch, "w1", WorkerEvent::PodRunning { pod_id: pod(0) });
    connect(&mut orch, "w2");
    report(&mut orch, "w2", WorkerEvent::NamespaceCreated);

    let out = feed(&mut orch, OrchestratorInput::WorkerDisconnected { worker_id: worker("w1") });
    assert!(out.worker_commands.iter().any(|(w, c)| *w == worker("w2")
        && matches!(c, WorkerCommand::LaunchPod { pod_id, .. } if *pod_id == pod(1))));
    assert_eq!(orch.pod_count(&worker("w1")), 0);
    assert_eq!(orch.pod_count(&worker("w2")), 1);
}

#[test]
fn a_pod_waits_while_every_worker_is_hard_pressed() {
    let (mut orch, _) = started();
    report(&mut orch, "w1", WorkerEvent::PodRunning { pod_id: pod(0) });
    connect(&mut orch, "w2");
    report(&mut orch, "w2", WorkerEvent::NamespaceCreated);
    let high = PressureBands {
        memory: PressureBand::High,
        compute: PressureBand::Normal,
        storage: PressureBand::Normal,
    };
    assert!(orch.handle_worker_pressure_update(&worker("w2"), high).is_empty());
    let n = orch.namespaces.get(&ns()).unwrap();
    assert_eq!(n.workers.get(&worker("w2")).unwrap().pressure_band, PressureBand::High);

    feed(&mut orch, OrchestratorInput::WorkerDisconnected { worker_id: worker("w1") });
    assert_eq!(state(&orch), &WorkloadState::WaitingForCapacity);

    let normal = PressureBands { memory: PressureBand::Normal, ..high };
    let tasks = orch.handle_worker_pressure_update(&worker("w2"), normal);
    let mut out = OrchestratorOutput::new();
    settle(&mut orch, &mut out, tasks);
    assert_eq!(state(&orch).worker_id(), Some(&worker("w2")));
}

#[test]
fn leases_end_with_the_start() {
    let (mut orch, _) = started();
    orch.lease_table.leases.insert(pod(0), Lease { worker_id: worker("w1"), memory_mb: 64 });
    assert_eq!(orch.committed_mb(&worker("w1"), 512), 576);
    report(&mut orch, "w1", WorkerEvent::PodRunning { pod_id: pod(0) });
    assert_eq!(orch.committed_mb(&worker("w1"), 512), 512);
}

#[test]
fn a_client_gets_an_address() {
    let (mut orch, _) = started();
    let events = command(
        &mut orch,
        ClientCommand::Connect { namespace_id: ns(), client_public_key: [7; 32] },
    );
    assert_eq!(
        events,
        vec![ClientEvent::ConnectResult {
            server_public_key: [5; 32],
            endpoint: "203.0.113.9:51820".into(),
            client_ip: "10.0.0.200".into(),
            subnet: "10.0.0.0/24".into(),
        }]
    );
    assert_eq!(orch.namespaces.get(&ns()).unwrap().wg_peers.len(), 1);
    let events = command(
        &mut orch,
        ClientCommand::Disconnect { namespace_id: ns(), client_public_key: [7; 32] },
    );
    assert_eq!(events, vec![ClientEvent::Done]);
    assert!(orch.namespaces.get(&ns()).unwrap().wg_peers.is_empty());
}

#[test]
fn a_namespace_that_is_not_up_takes_no_client() {
    let mut orch = Orchestrator::new();
    command(&mut orch, ClientCommand::CreateNamespace { namespace_id: ns(), spec: spec() });
    let mut n = orch.namespaces.remove(&ns()).unwrap();
    let out = run_namespace(
        &mut n,
        &mut orch,
        NamespaceInput::Connect {
            client_id: ClientId(1),
            client_public_key: [7; 32],
            worker_wg_public_key: [5; 32],
            worker_endpoint: String::new(),
        },
    );
    assert_eq!(
        out.client_events,
        vec![(ClientId(1), ClientEvent::Error { message: "namespace is not active".into() })]
    );
}

#[test]
fn a_namespace_goes_when_its_workers_have_let_go() {
    let (mut orch, _) = started();
    command(&mut orch, ClientCommand::DeleteNamespace { namespace_id: ns() });
    assert!(orch.namespaces.contains_key(&ns()));
    assert!(orch.active_segment_ids.contains_key(&1));
    report(&mut orch, "w1", WorkerEvent::NamespaceDestroyed);
    assert!(!orch.namespaces.contains_key(&ns()));
    assert!(!orch.active_segment_ids.contains_key(&1));
    assert!(orch.workers.get(&worker("w1")).unwrap().namespaces.is_empty());
}

#[test]
fn what_is_not_there_yet_says_so() {
    let (mut orch, _) = started();
    let events = command(
        &mut orch,
        ClientCommand::StreamLogs { namespace_id: ns(), service_id: ServiceId("web".into()) },
    );
    assert_eq!(
        events,
        vec![ClientEvent::Error { message: "StreamLogs not yet implemented".into() }]
    );
}

#[test]
fn a_status_names_workloads_and_services() {
    let (mut orch, _) = started();
    let events = command(&mut orch, ClientCommand::GetNamespaceStatus { namespace_id: ns() });
    match &events[0] {
        ClientEvent::NamespaceStatus { namespace_id, status } => {
            assert_eq!(*namespace_id, ns());
            assert_eq!(status.workloads.len(), 1);
            assert_eq!(status.workloads[0].1.state, "launching");
            assert_eq!(status.services.len(), 1);
            assert_eq!(status.pods.len(), 1);
        }
        other => panic!("unexpected {:?}", other),
    }
}

#[test]
fn broken_links_are_noticed() {
    let (mut orch, _) = started();
    assert!(orch.check_invariants());
    orch.lease_table.leases.insert(pod(9), Lease { worker_id: worker("nobody"), memory_mb: 1 });
    assert!(!orch.check_invariants());
    orch.lease_table.leases.remove(&pod(9));

    let mut w = orch.workers.remove(&worker("w1")).unwrap();
    w.namespaces.remove(&ns());
    orch.workers.insert(worker("w1"), w);
    assert!(!orch.check_invariants());

    let mut w = orch.workers.remove(&worker("w1")).unwrap();
    w.namespaces.insert(ns(), ());
    w.namespaces.insert(NamespaceId("gone".into()), ());
    orch.workers.insert(worker("w1"), w);
    assert!(!orch.check_invariants());
}

#[test]
fn conditions_come_and_go() {
    let (mut orch, _) = started();
    orch.handle_worker_condition_update(&worker("w1"), "disk".into(), true, "full".into());
    let condition = |orch: &Orchestrator| {
        let w = orch.workers.get(&worker("w1")).unwrap();
        w.conditions.get(&"disk".to_string()).map(|c| c.message.clone())
    };
    assert_eq!(condition(&orch), Some("full".to_string()));
    orch.handle_worker_condition_update(&worker("w1"), "disk".into(), false, String::new());
    assert_eq!(condition(&orch), None);
}
