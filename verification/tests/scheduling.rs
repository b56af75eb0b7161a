use distvirt_orchestrator::ids::{NamespaceId, PodId, WorkerId, WorkloadId};
use distvirt_orchestrator::namespace::NamespaceStateMachine;
use distvirt_orchestrator::orchestrator::{Orchestrator, WorkerCapabilities, WorkerState};
use distvirt_orchestrator::pod_map::PodInfo;
use distvirt_orchestrator::sorted_map::SortedMap;
use distvirt_orchestrator::types::{
    FabricStatus, NamespaceSpec, NamespaceWorkerState, NetworkConfig, PressureBand, PressureBands,
};

fn test_ns_spec() -> NamespaceSpec {
    NamespaceSpec {
        network: NetworkConfig {
            subnet: 0x0a00_0000,
            gateway: 0x0a00_0001,
            prefix_len: 24,
            segment_id: None,
        },
        workloads: SortedMap::new(),
        services: SortedMap::new(),
    }
}

/// What a scenario says of a worker.
struct Setup {
    bands: PressureBands,
    status: FabricStatus,
    pods: usize,
}

fn calm() -> Setup {
    Setup { bands: PressureBands::default(), status: FabricStatus::Active, pods: 0 }
}

fn memory(band: PressureBand) -> Setup {
    let mut s = calm();
    s.bands.memory = band;
    s
}

fn storage(band: PressureBand) -> Setup {
    let mut s = calm();
    s.bands.storage = band;
    s
}

fn compute(band: PressureBand) -> Setup {
    let mut s = calm();
    s.bands.compute = band;
    s
}

fn with_pods(pods: usize) -> Setup {
    let mut s = calm();
    s.pods = pods;
    s
}

fn wid(i: usize) -> WorkerId {
    WorkerId(format!("w-{}", i))
}

/// The worker that a cluster of the given workers picks.
fn select(setups: Vec<Setup>) -> Option<WorkerId> {
    let ns_id = NamespaceId("test-ns".into());
    let mut orch = Orchestrator::new();
    let mut ns = NamespaceStateMachine::new(ns_id.clone(), test_ns_spec(), 1);
    for (i, setup) in setups.into_iter().enumerate() {
        ns.workers.insert(
            wid(i),
            NamespaceWorkerState {
                fabric_status: setup.status,
                primary_pool_id: None,
                pressure_band: PressureBand::Normal,
            },
        );
        for p in 0..setup.pods {
            ns.pod_map.insert(
                PodId(format!("{}-{}", i, p)),
                PodInfo { workload_id: WorkloadId("wl".into()), worker_id: wid(i) },
            );
        }
        let mut namespaces = SortedMap::new();
        namespaces.insert(ns_id.clone(), ());
        orch.workers.insert(
            wid(i),
            WorkerState {
                capabilities: WorkerCapabilities {
                    max_pods: 10,
                    available_memory_mb: 1024,
                    public_endpoint: String::new(),
                    pools: vec![],
                },
                namespaces,
                wg_config: None,
                tunnel_config: None,
                conditions: SortedMap::new(),
                transfer_listen_port: None,
                pressure_bands: setup.bands,
            },
        );
    }
    orch.namespaces.insert(ns_id.clone(), ns);
    orch.select_worker_for_pod(&ns_id)
}

#[test]
fn test_select_worker_prefers_normal_over_elevated() {
    let selected = select(vec![memory(PressureBand::Elevated), calm()]).unwrap();
    assert_eq!(selected, wid(1), "should prefer Normal over Elevated");
}

#[test]
fn test_select_worker_excludes_high_pressure() {
    let selected = select(vec![memory(PressureBand::High), calm()]).unwrap();
    assert_eq!(selected, wid(1), "should exclude High pressure worker");
}

#[test]
fn test_select_worker_excludes_critical_pressure() {
    let selected = select(vec![storage(PressureBand::Critical), calm()]).unwrap();
    assert_eq!(selected, wid(1), "should exclude Critical pressure worker");
}

#[test]
fn test_select_worker_none_when_all_high() {
    let selected = select(vec![memory(PressureBand::High), compute(PressureBand::Critical)]);
    assert!(selected.is_none(), "should return None when all workers are at High+ pressure");
}

#[test]
fn test_select_worker_elevated_is_fallback() {
    let selected =
        select(vec![memory(PressureBand::High), memory(PressureBand::Elevated)]).unwrap();
    assert_eq!(selected, wid(1), "Elevated worker should be selected when High is excluded");
}

#[test]
fn test_select_worker_pod_count_tiebreaker() {
    let selected = select(vec![with_pods(3), with_pods(1)]).unwrap();
    assert_eq!(selected, wid(1), "should prefer worker with fewer pods at same pressure");
}

#[test]
fn test_select_worker_pressure_trumps_pod_count() {
    let selected = select(vec![with_pods(5), memory(PressureBand::Elevated)]).unwrap();
    assert_eq!(
        selected,
        wid(0),
        "should prefer Normal worker even with more pods over Elevated"
    );
}

#[test]
fn test_select_worker_skips_inactive() {
    let mut inactive = calm();
    inactive.status = FabricStatus::Creating;
    let selected = select(vec![inactive, calm()]).unwrap();
    assert_eq!(selected, wid(1), "should skip inactive worker");
}

#[test]
fn test_select_worker_max_band_across_dimensions() {
    let selected = select(vec![calm(), storage(PressureBand::High)]).unwrap();
    assert_eq!(selected, wid(0), "High on any dimension should exclude the worker");
}

#[test]
fn no_worker_without_a_namespace() {
    let orch = Orchestrator::new();
    assert!(orch.select_worker_for_pod(&NamespaceId("nowhere".into())).is_none());
}
