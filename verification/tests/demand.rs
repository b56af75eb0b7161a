use distvirt_orchestrator::adapter::backend_need::{
    BackendNeedAdapter, BackendNeedOp, FlowDemandAdapter,
};
use distvirt_orchestrator::adapter::endpoint_demand::{
    EndpointDemandAdapter, EndpointDemandOp, EndpointDemandSignal,
};
use distvirt_orchestrator::sm::{BackendNeedId, EndpointId, ServiceId, WorkerId};
use distvirt_orchestrator::types::BackendNeed;

const S1: ServiceId = ServiceId(1);
const EP1: EndpointId = EndpointId(1);
const EP2: EndpointId = EndpointId(2);
const WK1: WorkerId = WorkerId(1);
const WK2: WorkerId = WorkerId(2);

#[test]
fn push_need_creates_port() {
    let mut next = 0;
    let mut adapter = EndpointDemandAdapter::new();
    adapter.push_demand(WK1, EP1, EndpointDemandSignal::Traffic, &mut next);
    assert_eq!(adapter.port_count(), 1);
    assert!(adapter.port(WK1, EP1).is_some());
}

#[test]
fn push_need_reuses_port() {
    let mut next = 0;
    let mut adapter = EndpointDemandAdapter::new();
    adapter.push_demand(WK1, EP1, EndpointDemandSignal::Traffic, &mut next);
    let port_id_first = adapter.port(WK1, EP1).unwrap();

    adapter.push_demand(WK1, EP1, EndpointDemandSignal::Active { active: true }, &mut next);
    let port_id_second = adapter.port(WK1, EP1).unwrap();

    assert_eq!(port_id_first, port_id_second);
    assert_eq!(adapter.port_count(), 1);
}

#[test]
fn multiple_workers_separate_ports() {
    let mut next = 0;
    let mut adapter = EndpointDemandAdapter::new();
    adapter.push_demand(WK1, EP1, EndpointDemandSignal::Traffic, &mut next);
    adapter.push_demand(WK2, EP1, EndpointDemandSignal::Traffic, &mut next);

    assert_eq!(adapter.port_count(), 2);
    assert_ne!(adapter.port(WK1, EP1).unwrap(), adapter.port(WK2, EP1).unwrap());
}

#[test]
fn tests_remove_worker_cleans_up() {
    let mut next = 0;
    let mut adapter = EndpointDemandAdapter::new();
    adapter.push_demand(WK1, EP1, EndpointDemandSignal::Traffic, &mut next);
    adapter.push_demand(WK1, EP2, EndpointDemandSignal::Active { active: true }, &mut next);
    adapter.push_demand(WK2, EP1, EndpointDemandSignal::Traffic, &mut next);
    assert_eq!(adapter.port_count(), 3);

    let ops = adapter.remove_worker(WK1);
    assert_eq!(ops.iter().filter(|o| matches!(o, EndpointDemandOp::Destroy { .. })).count(), 2);
    assert_eq!(adapter.port_count(), 1);
    assert!(adapter.port(WK2, EP1).is_some());
}

#[test]
fn need_none_keeps_port() {
    let mut next = 0;
    let mut adapter = EndpointDemandAdapter::new();
    adapter.push_demand(WK1, EP1, EndpointDemandSignal::Traffic, &mut next);
    adapter.push_demand(WK1, EP1, EndpointDemandSignal::Active { active: false }, &mut next);
    assert_eq!(adapter.port_count(), 1);
}

#[test]
fn set_active_creates_port() {
    let mut next = 0;
    let mut adapter = FlowDemandAdapter::new();
    adapter.set_active(WK1, S1, &mut next);
    assert_eq!(adapter.port_count(), 1);
    assert!(adapter.port(WK1, S1).is_some());
}

#[test]
fn set_active_twice_reuses_port() {
    let mut next = 0;
    let mut adapter = FlowDemandAdapter::new();
    adapter.set_active(WK1, S1, &mut next);
    let first = adapter.port(WK1, S1).unwrap();
    adapter.set_active(WK1, S1, &mut next);
    let second = adapter.port(WK1, S1).unwrap();

    assert_eq!(first, second);
    assert_eq!(adapter.port_count(), 1);
}

#[test]
fn set_inactive_keeps_port() {
    let mut next = 0;
    let mut adapter = FlowDemandAdapter::new();
    adapter.set_active(WK1, S1, &mut next);
    adapter.set_inactive(WK1, S1);
    assert_eq!(adapter.port_count(), 1);
}

#[test]
fn flow_remove_worker_cleans_up() {
    let mut next = 0;
    let mut adapter = FlowDemandAdapter::new();
    adapter.set_active(WK1, S1, &mut next);
    assert_eq!(adapter.port_count(), 1);

    adapter.remove_worker(WK1);
    assert_eq!(adapter.port_count(), 0);
}

#[test]
fn needs_reach_the_service_through_one_port() {
    let mut next = 5;
    let mut adapter = BackendNeedAdapter::new();
    let ops = adapter.push_need(WK1, S1, BackendNeed::Traffic, &mut next);
    assert_eq!(
        ops,
        vec![
            BackendNeedOp::Create { port: BackendNeedId(5), service_id: S1 },
            BackendNeedOp::SetLevel { port: BackendNeedId(5), need: BackendNeed::Traffic },
        ]
    );
    let ops = adapter.push_need(WK1, S1, BackendNeed::Nothing, &mut next);
    assert_eq!(
        ops,
        vec![BackendNeedOp::SetLevel { port: BackendNeedId(5), need: BackendNeed::Nothing }]
    );
    assert_eq!(adapter.remove_worker(WK1), vec![BackendNeedOp::Destroy { port: BackendNeedId(5) }]);
    assert_eq!(next, 6);
}
