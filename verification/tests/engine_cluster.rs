use distvirt_orchestrator::adapter::timer::TimerConfig;
use distvirt_orchestrator::engine::orchestrator::{
    connect_reply, ConnectTarget, CreateNamespaceInfo, OrchestratorCore, WorkerConnectedInfo,
};
use distvirt_orchestrator::engine::types::{
    ClientCommand, ClientError, OrchestratorToNamespace,
};
use distvirt_orchestrator::engine::worker_state::{WorkerCapabilities, WorkerTunnelInfo};
use distvirt_orchestrator::id_registry::IdRegistryMap;
use distvirt_orchestrator::ids::NamespaceId;
use distvirt_orchestrator::sm::{WorkerId, WorkloadId};
use distvirt_orchestrator::types::NetworkConfig;

fn ns(name: &str) -> NamespaceId {
    NamespaceId(name.into())
}

fn cluster() -> OrchestratorCore {
    OrchestratorCore::new(
        TimerConfig {
            retry_backoff_ms: 1,
            launch_timeout_ms: 2,
            suspend_timeout_ms: 3,
            idle_timeout_ms: 4,
        },
        IdRegistryMap::new(),
    )
}

fn create(core: &mut OrchestratorCore, name: &str) -> Result<u16, ClientError> {
    let (r, _) = core.create_namespace(CreateNamespaceInfo {
        namespace_id: ns(name),
        network: NetworkConfig {
            subnet: 0x0a00_0000,
            gateway: 0x0a00_0001,
            prefix_len: 24,
            segment_id: None,
        },
    });
    r.map(|info| info.network.segment_id.unwrap())
}

fn worker(id: u64, tunnel: Option<WorkerTunnelInfo>) -> WorkerConnectedInfo {
    WorkerConnectedInfo {
        worker_id: WorkerId(id),
        capabilities: WorkerCapabilities {
            has_kvm: true,
            has_containerd: true,
            available_adapters: vec![],
            max_pods: 8,
            available_memory_mb: 512,
            public_endpoint: "203.0.113.9".into(),
            pools: vec![],
        },
        tunnel_info: tunnel,
        wireguard_info: None,
        proto_worker_id: WorkerId(id),
    }
}

#[test]
fn namespaces_get_segments_of_their_own() {
    let mut core = cluster();
    assert_eq!(create(&mut core, "a"), Ok(1));
    assert_eq!(create(&mut core, "b"), Ok(2));
    assert_eq!(create(&mut core, "a"), Err(ClientError::NamespaceAlreadyExists));
    let (r, _) = core.destroy_namespace(&ns("a"));
    assert_eq!(r, Ok(()));
    assert_eq!(core.namespace_ids().len(), 1);
    let (r, _) = core.destroy_namespace(&ns("a"));
    assert_eq!(r, Err(ClientError::NamespaceNotFound));
}

#[test]
fn workers_are_told_of_and_found() {
    let mut core = cluster();
    let _ = create(&mut core, "a");
    let out = core.worker_connected(worker(1, None));
    assert!(out.to_namespaces.iter().any(|(n, m)| *n == ns("a")
        && matches!(
            m,
            OrchestratorToNamespace::WorkerConnected { worker_id, .. } if *worker_id == WorkerId(1)
        )));
    assert_eq!(core.list_workers().len(), 1);
    assert_eq!(core.get_worker(WorkerId(1)).unwrap().max_pods, 8);
    let out = core.worker_disconnected(WorkerId(1));
    assert!(out.to_namespaces.iter().any(|(n, m)| *n == ns("a")
        && matches!(m, OrchestratorToNamespace::WorkerDisconnected { .. })));
    assert!(matches!(core.get_worker(WorkerId(1)), Err(ClientError::WorkerNotFound)));
}

#[test]
fn clients_connect_through_a_tunnel() {
    let mut core = cluster();
    let (r, _) = core.connect_network(&ns("a"), [1; 32]);
    assert!(matches!(r, Err(ClientError::NamespaceNotFound)));
    let _ = create(&mut core, "a");
    let (r, _) = core.connect_network(&ns("a"), [1; 32]);
    assert!(matches!(r, Err(ClientError::NoTunnelWorker)));
    core.worker_connected(worker(
        1,
        Some(WorkerTunnelInfo { listen_port: 51820, public_key: [5; 32] }),
    ));
    let (r, out) = core.connect_network(&ns("a"), [1; 32]);
    let target = r.unwrap();
    assert_eq!(target.endpoint, "203.0.113.9:51820");
    assert_eq!(target.server_public_key, [5; 32]);
    assert!(matches!(
        &out.to_namespaces[0].1,
        OrchestratorToNamespace::ClientCommand(ClientCommand::Connect { client_public_key, .. })
            if *client_public_key == [1; 32]
    ));
}

#[test]
fn a_connection_needs_an_address() {
    let target = || ConnectTarget {
        worker_id: WorkerId(1),
        server_public_key: [5; 32],
        endpoint: "203.0.113.9:51820".into(),
    };
    let c = connect_reply(target(), Some(0x0a00_00fe), 0x0a00_0000, 24).unwrap();
    assert_eq!((c.client_ip, c.subnet.as_str()), (0x0a00_00fe, "10.0.0.0/24"));
    assert_eq!(connect_reply(target(), None, 0, 0), Err(ClientError::IpExhausted));
}

#[test]
fn a_new_namespace_gets_its_registry_and_the_others_keep_theirs() {
    let mut map = IdRegistryMap::new();
    map.register_workload(&ns("a"), WorkloadId(3), "app".into());
    map.register_workload(&ns("b"), WorkloadId(4), "db".into());
    let mut core = OrchestratorCore::new(cluster().timer_config, map);
    let network = NetworkConfig {
        subnet: 0x0a00_0000,
        gateway: 0x0a00_0001,
        prefix_len: 24,
        segment_id: None,
    };
    let (r, _) =
        core.create_namespace(CreateNamespaceInfo { namespace_id: ns("a"), network });
    let made = r.unwrap();
    assert_eq!(made.id_registry.workload_name(&WorkloadId(3)), Some("app".to_string()));
    let (r, _) =
        core.create_namespace(CreateNamespaceInfo { namespace_id: ns("c"), network });
    assert_eq!(r.unwrap().id_registry.workload_name(&WorkloadId(3)), None);
    for (name, id) in [("a", 3), ("b", 4)] {
        let registry = core.id_registry_map.get(&ns(name)).unwrap();
        assert!(registry.workload_name(&WorkloadId(id)).is_some());
    }
    assert!(core.id_registry_map.get(&ns("c")).is_some());
    core.id_registry_map.register_workload(&ns("c"), WorkloadId(5), "late".into());
    assert_eq!(
        core.id_registry_map.get(&ns("c")).unwrap().workload_name(&WorkloadId(5)),
        Some("late".to_string())
    );
}
