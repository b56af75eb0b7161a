use distvirt_orchestrator::ids::{ClientId, NamespaceId, WorkerId};
use distvirt_orchestrator::orchestrator::client::{taken_text, ClientCommand};
use distvirt_orchestrator::orchestrator::networking::host_port_text;
use distvirt_orchestrator::orchestrator::step::OrchestratorInput;
use distvirt_orchestrator::orchestrator::{Orchestrator, WorkerCapabilities};
use distvirt_orchestrator::output::ClientEvent;
use distvirt_orchestrator::sorted_map::SortedMap;
use distvirt_orchestrator::types::{NamespaceSpec, NetworkConfig, WorkerCommand};

fn spec() -> NamespaceSpec {
    NamespaceSpec {
        network: NetworkConfig {
            subnet: 0x0a00_0000,
            gateway: 0x0a00_0001,
            prefix_len: 24,
            segment_id: None,
        },
        workloads: SortedMap::new(),
        services: SortedMap::new(),
    }
}

fn command(orch: &mut Orchestrator, command: ClientCommand) -> Vec<ClientEvent> {
    let client_id = ClientId(1);
    let (out, tasks) = orch.step(OrchestratorInput::ClientCommand { client_id, command });
    let mut out = out;
    let mut tasks = tasks;
    while let Some(task) = tasks.pop() {
        for next in orch.perform(task, &mut out) {
            if !matches!(
                next,
                distvirt_orchestrator::orchestrator::Task::Run { .. }
                    | distvirt_orchestrator::orchestrator::Task::Recompute { .. }
            ) {
                tasks.push(next);
            }
        }
    }
    out.client_events.into_iter().map(|(_, e)| e).collect()
}

fn create(orch: &mut Orchestrator, name: &str) -> Vec<ClientEvent> {
    command(
        orch,
        ClientCommand::CreateNamespace { namespace_id: NamespaceId(name.into()), spec: spec() },
    )
}

fn connect(orch: &mut Orchestrator, name: &str) -> Vec<(WorkerId, WorkerCommand)> {
    let (out, _) = orch.step(OrchestratorInput::WorkerConnected {
        worker_id: WorkerId(name.into()),
        capabilities: WorkerCapabilities {
            max_pods: 10,
            available_memory_mb: 1024,
            public_endpoint: "203.0.113.9".into(),
            pools: vec![],
        },
        wg_config: None,
        tunnel_config: None,
    });
    out.worker_commands
}

#[test]
fn a_taken_name_is_quoted_back() {
    let mut orch = Orchestrator::new();
    assert_eq!(create(&mut orch, "x"), vec![ClientEvent::Done]);
    assert_eq!(
        create(&mut orch, "x"),
        vec![ClientEvent::Error { message: "namespace \"x\" already exists".into() }]
    );
    assert_eq!(taken_text("<x>"), "namespace <x> already exists");
    create(&mut orch, "a\"b");
    assert_eq!(
        create(&mut orch, "a\"b"),
        vec![ClientEvent::Error { message: "namespace \"a\\\"b\" already exists".into() }]
    );
}

#[test]
fn what_is_not_there_is_not_found() {
    let mut orch = Orchestrator::new();
    assert_eq!(
        command(
            &mut orch,
            ClientCommand::DeleteNamespace { namespace_id: NamespaceId("y".into()) }
        ),
        vec![ClientEvent::Error { message: "namespace not found".into() }]
    );
    assert_eq!(
        command(&mut orch, ClientCommand::GetWorker { worker_id: WorkerId("w".into()) }),
        vec![ClientEvent::Error { message: "worker 'w' not found".into() }]
    );
}

#[test]
fn segments_are_apart() {
    let mut orch = Orchestrator::new();
    create(&mut orch, "a");
    create(&mut orch, "b");
    let of = |orch: &Orchestrator, n: &str| {
        orch.namespaces.get(&NamespaceId(n.into())).unwrap().segment_id
    };
    assert_eq!((of(&orch, "a"), of(&orch, "b")), (1, 2));
}

#[test]
fn segment_numbers_go_round_the_end() {
    let mut orch = Orchestrator::new();
    orch.next_segment_id = u16::MAX;
    assert_eq!(orch.alloc_segment_id(), u16::MAX);
    assert_eq!(orch.alloc_segment_id(), 1);
    orch.free_segment_id(u16::MAX);
    orch.next_segment_id = u16::MAX;
    assert_eq!(orch.alloc_segment_id(), u16::MAX);
}

#[test]
fn a_new_worker_joins_every_namespace() {
    let mut orch = Orchestrator::new();
    create(&mut orch, "a");
    create(&mut orch, "b");
    connect(&mut orch, "w1");
    let worker = orch.workers.get(&WorkerId("w1".into())).unwrap();
    assert_eq!(worker.namespaces.len(), 2);
    for n in ["a", "b"] {
        let ns = orch.namespaces.get(&NamespaceId(n.into())).unwrap();
        assert!(ns.workers.contains_key(&WorkerId("w1".into())));
    }
}

#[test]
fn pods_are_numbered() {
    let mut orch = Orchestrator::new();
    let a = orch.gen_pod_id();
    let b = orch.gen_pod_id();
    assert_ne!(a, b);
}

#[test]
fn addresses_are_written_with_their_port() {
    assert_eq!(host_port_text("203.0.113.9", 51820), "203.0.113.9:51820");
}
