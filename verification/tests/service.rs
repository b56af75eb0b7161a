use distvirt_orchestrator::ids::{NamespaceId, PodId, ServiceId, WorkerId, WorkloadId};
use distvirt_orchestrator::service::{
    ServiceInput, ServiceOutput, ServiceState, ServiceStateMachine,
};
use distvirt_orchestrator::types::{BackendNeed, ServiceBackend, TimerKey, WorkerCommand};

fn machine(has_activation: bool) -> ServiceStateMachine {
    ServiceStateMachine::new(
        ServiceId("s".into()),
        WorkloadId("w".into()),
        has_activation,
        30_000,
    )
}

fn ns() -> NamespaceId {
    NamespaceId("ns".into())
}

fn ready() -> ServiceInput {
    ServiceInput::WorkloadReady {
        pod_id: PodId("p".into()),
        worker_id: WorkerId("k".into()),
        backend: ServiceBackend { pod_ip: 0x0a00_0007 },
    }
}

#[test]
fn traffic_wakes_a_sleeping_service() {
    let mut s = machine(true);
    s.state = ServiceState::Idle;
    assert!(!s.wants_backend());
    let out = s.step(ServiceInput::ServiceActivation, &ns());
    assert_eq!(s.state, ServiceState::NeedBackend);
    assert!(out.contains(&ServiceOutput::DemandUp));
    assert!(s.wants_backend());
}

#[test]
fn a_ready_workload_makes_the_service_active() {
    let mut s = machine(true);
    s.state = ServiceState::NeedBackend;
    let out = s.step(ready(), &ns());
    assert!(matches!(&s.state, ServiceState::Active { .. }));
    assert_eq!(s.active_worker_id(), Some(&WorkerId("k".into())));
    assert_eq!(
        out[1],
        ServiceOutput::BroadcastWorkerCommand(WorkerCommand::ServiceReady {
            namespace_id: ns(),
            service_id: ServiceId("s".into()),
        })
    );
}

#[test]
fn an_idle_service_goes_to_sleep() {
    let mut s = machine(true);
    s.state = ServiceState::NeedBackend;
    s.step(ready(), &ns());
    let out = s.step(ServiceInput::ServiceBackendNeed { need: BackendNeed::Nothing }, &ns());
    let key = TimerKey::IdleTimeout { service_id: ServiceId("s".into()) };
    assert!(out.contains(&ServiceOutput::TimerSet(key.clone(), 30_000)));
    let out = s.step(ServiceInput::TimerFired { timer_key: key }, &ns());
    assert_eq!(s.state, ServiceState::Idle);
    assert!(out.contains(&ServiceOutput::DemandDown));
    assert_eq!(
        out[1],
        ServiceOutput::BroadcastWorkerCommand(WorkerCommand::UpdateServiceBackend {
            namespace_id: ns(),
            service_id: ServiceId("s".into()),
            backend: None,
        })
    );
}

#[test]
fn states_have_names() {
    assert_eq!(ServiceState::Pending.as_str(), "pending");
    assert_eq!(ServiceState::Idle.as_str(), "idle");
    assert_eq!(ServiceState::NeedBackend.as_str(), "need_backend");
}
