use std::collections::HashMap;
use std::sync::Arc;

use distvirt_orchestrator::adapter::management::{ManagementAdapter, ManagementOp};
use distvirt_orchestrator::ids;
use distvirt_orchestrator::sm::{AdminCmd, ManagementId, ServiceId, WorkloadId};
use distvirt_orchestrator::sorted_map::SortedMap;
use distvirt_orchestrator::types::{
    ActivationSpec, ContainerConfig, ContainerSpec, NamespaceSpec, NetworkConfig, PodNetworkConfig,
    ServicePolicy, ServiceSpec, WorkloadSpec,
};

/// What a workload machine shows of itself.
#[derive(Debug, Clone, Default)]
struct Workload {
    has_spec: bool,
    spec_version: u64,
    has_demand: bool,
    pod_id: Option<u64>,
    commands: Vec<AdminCmd>,
}

/// What a service machine shows of itself.
#[derive(Debug, Clone, Default)]
struct Service {
    has_activation: bool,
    active: bool,
    workload: Option<WorkloadId>,
}

/// A router that keeps just what the operations tell it.
#[derive(Default)]
struct Router {
    next: u64,
    workload_ports: HashMap<ManagementId, WorkloadId>,
    service_ports: HashMap<ManagementId, ServiceId>,
    workloads: HashMap<u64, Workload>,
    services: HashMap<u64, Service>,
}

impl Router {
    fn run(&mut self, ops: Vec<ManagementOp>) {
        for op in ops {
            match op {
                ManagementOp::CreateWorkload { port, workload_id } => {
                    assert!(self.workload_ports.insert(port, workload_id).is_none());
                    self.workloads.insert(workload_id.0, Workload::default());
                }
                ManagementOp::CreateService { port, service_id, has_activation } => {
                    assert!(self.service_ports.insert(port, service_id).is_none());
                    self.services
                        .insert(service_id.0, Service { has_activation, ..Service::default() });
                }
                ManagementOp::SetWorkloadSpec { port, spec: _ } => {
                    let id = self.workload_ports[&port];
                    let w = self.workloads.get_mut(&id.0).unwrap();
                    w.has_spec = true;
                    w.spec_version += 1;
                }
                ManagementOp::SetServiceSpec { port, spec } => {
                    let id = self.service_ports[&port];
                    let s = self.services.get_mut(&id.0).unwrap();
                    s.has_activation = spec.has_activation;
                    s.workload = Some(spec.workload);
                }
                ManagementOp::Destroy { port } => {
                    if let Some(id) = self.workload_ports.remove(&port) {
                        self.workloads.remove(&id.0);
                    } else {
                        let id = self.service_ports.remove(&port).unwrap();
                        self.services.remove(&id.0);
                    }
                }
                ManagementOp::SendAdminCommand { port, workload_id, cmd } => {
                    assert_eq!(self.workload_ports[&port], workload_id);
                    self.workloads.get_mut(&workload_id.0).unwrap().commands.push(cmd);
                }
                ManagementOp::SendActivateService { port, service_id, active } => {
                    assert_eq!(self.service_ports[&port], service_id);
                    self.services.get_mut(&service_id.0).unwrap().active = active;
                }
            }
        }
        for (id, w) in self.workloads.iter_mut() {
            w.has_demand = self
                .services
                .values()
                .any(|s| s.workload == Some(WorkloadId(*id)) && (!s.has_activation || s.active));
            w.pod_id = if w.has_demand && w.has_spec { Some(*id) } else { None };
        }
    }
}

fn apply(
    adapter: &mut ManagementAdapter,
    router: &mut Router,
    old: Option<&NamespaceSpec>,
    new: &NamespaceSpec,
) {
    let ops = adapter.apply_namespace_spec(old, new, &mut router.next);
    router.run(ops);
}

fn workload_spec(image: &str) -> WorkloadSpec {
    WorkloadSpec {
        containers: Arc::new(vec![ContainerSpec {
            container_id: "main".into(),
            image_ref: image.into(),
            config: ContainerConfig {
                entrypoint: vec![],
                args: vec![],
                env: vec![],
                working_dir: None,
                uid: None,
                gid: None,
                hostname: None,
                capture_output: false,
                stdin: false,
            },
        }]),
        network: PodNetworkConfig {
            ip: 0x0a00_0001,
            mac: [0; 6],
            gateway: 0x0a00_0001,
            netmask: "255.255.0.0".into(),
        },
        suspend_on_idle: false,
        resources: None,
        activation: None,
    }
}

fn simple_workload_spec() -> WorkloadSpec {
    workload_spec("app:v1")
}

fn simple_service_spec(workload_name: &str) -> ServiceSpec {
    ServiceSpec {
        workload_id: ids::WorkloadId(workload_name.into()),
        ip: 0x0a00_0101,
        policy: Arc::new(ServicePolicy { buffer_frames: 0, timeout_ms: 0, activator: None }),
        activation: None,
    }
}

fn make_namespace_spec(
    workloads: Vec<(&str, WorkloadSpec)>,
    services: Vec<(&str, ServiceSpec)>,
) -> NamespaceSpec {
    let mut spec = NamespaceSpec {
        network: NetworkConfig {
            subnet: 0x0a00_0000,
            gateway: 0x0a00_0001,
            prefix_len: 16,
            segment_id: None,
        },
        workloads: SortedMap::new(),
        services: SortedMap::new(),
    };
    for (n, s) in workloads {
        spec.workloads.insert(ids::WorkloadId(n.into()), s);
    }
    for (n, s) in services {
        spec.services.insert(ids::ServiceId(n.into()), s);
    }
    spec
}

fn name(s: &str) -> String {
    s.to_string()
}

#[test]
fn create_workload_from_spec() {
    let mut router = Router::default();
    let mut adapter = ManagementAdapter::new();

    let spec = make_namespace_spec(vec![("web", simple_workload_spec())], vec![]);
    apply(&mut adapter, &mut router, None, &spec);

    let wl_id = adapter.lookup_workload(&name("web")).expect("workload should be mapped");
    let wl = router.workloads.get(&wl_id.0).expect("workload should exist in router");
    assert!(wl.has_spec, "workload should have spec after apply");
}

#[test]
fn update_workload_spec() {
    let mut router = Router::default();
    let mut adapter = ManagementAdapter::new();

    let spec1 = make_namespace_spec(vec![("web", simple_workload_spec())], vec![]);
    apply(&mut adapter, &mut router, None, &spec1);

    let wl_id = adapter.lookup_workload(&name("web")).unwrap();
    let wl_before = router.workloads[&wl_id.0].clone();

    let spec2 = make_namespace_spec(vec![("web", workload_spec("app:v2"))], vec![]);
    apply(&mut adapter, &mut router, Some(&spec1), &spec2);

    let wl_after = &router.workloads[&wl_id.0];
    assert!(
        wl_after.spec_version > wl_before.spec_version,
        "spec version should increment on update"
    );
}

#[test]
fn remove_workload_destroys_management() {
    let mut router = Router::default();
    let mut adapter = ManagementAdapter::new();

    let spec1 = make_namespace_spec(vec![("web", simple_workload_spec())], vec![]);
    apply(&mut adapter, &mut router, None, &spec1);

    let wl_id = adapter.lookup_workload(&name("web")).unwrap();
    assert!(router.workloads.get(&wl_id.0).is_some());

    let spec2 = make_namespace_spec(vec![], vec![]);
    apply(&mut adapter, &mut router, Some(&spec1), &spec2);

    assert!(adapter.lookup_workload(&name("web")).is_none());
    assert!(router.workload_ports.is_empty());
}

#[test]
fn create_service_linked_to_workload() {
    let mut router = Router::default();
    let mut adapter = ManagementAdapter::new();

    let spec = make_namespace_spec(
        vec![("web", simple_workload_spec())],
        vec![("web-svc", simple_service_spec("web"))],
    );
    apply(&mut adapter, &mut router, None, &spec);

    let wl_id = adapter.lookup_workload(&name("web")).expect("workload mapped");
    let svc_id = adapter.lookup_service(&name("web-svc")).expect("service mapped");
    let svc = router.services.get(&svc_id.0).expect("service exists in router");

    assert!(!svc.has_activation);
    assert_eq!(svc.workload, Some(wl_id));
}

#[test]
fn admin_command_dispatched() {
    let mut router = Router::default();
    let mut adapter = ManagementAdapter::new();

    let spec = make_namespace_spec(
        vec![("web", simple_workload_spec())],
        vec![("web-svc", simple_service_spec("web"))],
    );
    apply(&mut adapter, &mut router, None, &spec);

    let wl_id = adapter.lookup_workload(&name("web")).unwrap();
    let wl = &router.workloads[&wl_id.0];
    assert!(wl.pod_id.is_some(), "should have created a pod from demand+spec");

    router.run(adapter.send_admin_command(&name("web"), AdminCmd::Restart));

    let wl_after = &router.workloads[&wl_id.0];
    assert!(wl_after.has_spec);
    assert_eq!(wl_after.commands, vec![AdminCmd::Restart]);
}

#[test]
fn activate_service_command() {
    let mut router = Router::default();
    let mut adapter = ManagementAdapter::new();

    let mut svc_spec = simple_service_spec("web");
    svc_spec.activation = Some(ActivationSpec { idle_timeout_ms: 60_000 });

    let spec = make_namespace_spec(
        vec![("web", simple_workload_spec())],
        vec![("web-svc", svc_spec)],
    );
    apply(&mut adapter, &mut router, None, &spec);

    let svc_id = adapter.lookup_service(&name("web-svc")).unwrap();
    let svc = &router.services[&svc_id.0];
    assert!(svc.has_activation);

    let wl_id = adapter.lookup_workload(&name("web")).unwrap();
    assert!(!router.workloads[&wl_id.0].has_demand);

    router.run(adapter.send_activate_service(&name("web-svc"), true));

    let wl = &router.workloads[&wl_id.0];
    assert!(wl.has_demand, "workload should have demand after service activation");
}

#[test]
fn multiple_workloads_and_services() {
    let mut router = Router::default();
    let mut adapter = ManagementAdapter::new();

    let spec = make_namespace_spec(
        vec![("web", simple_workload_spec()), ("api", simple_workload_spec())],
        vec![
            ("web-svc", simple_service_spec("web")),
            ("api-svc", simple_service_spec("api")),
        ],
    );
    apply(&mut adapter, &mut router, None, &spec);

    assert!(adapter.lookup_workload(&name("web")).is_some());
    assert!(adapter.lookup_workload(&name("api")).is_some());
    assert!(adapter.lookup_service(&name("web-svc")).is_some());
    assert!(adapter.lookup_service(&name("api-svc")).is_some());

    let spec2 = make_namespace_spec(
        vec![("web", simple_workload_spec())],
        vec![("web-svc", simple_service_spec("web"))],
    );
    apply(&mut adapter, &mut router, Some(&spec), &spec2);

    assert!(adapter.lookup_workload(&name("web")).is_some());
    assert!(adapter.lookup_workload(&name("api")).is_none());
    assert!(adapter.lookup_service(&name("web-svc")).is_some());
    assert!(adapter.lookup_service(&name("api-svc")).is_none());
}

#[test]
fn proto_name_roundtrip() {
    let mut router = Router::default();
    let mut adapter = ManagementAdapter::new();

    let spec = make_namespace_spec(
        vec![("my-workload", simple_workload_spec())],
        vec![("my-service", simple_service_spec("my-workload"))],
    );
    apply(&mut adapter, &mut router, None, &spec);

    let wl_id = adapter.lookup_workload(&name("my-workload")).unwrap();
    assert_eq!(adapter.workload_proto_name(wl_id), Some(&name("my-workload")));

    let svc_id = adapter.lookup_service(&name("my-service")).unwrap();
    assert_eq!(adapter.service_proto_name(svc_id), Some(&name("my-service")));
}

#[test]
fn unknown_names_are_ignored() {
    let adapter = ManagementAdapter::new();
    assert!(adapter.send_admin_command(&name("web"), AdminCmd::Restart).is_empty());
    assert!(adapter.send_activate_service(&name("web-svc"), true).is_empty());
    assert_eq!(adapter.lookup_workload(&name("web")), None);
}

#[test]
fn numbers_survive_an_update() {
    let mut router = Router::default();
    let mut adapter = ManagementAdapter::new();
    let spec1 = make_namespace_spec(vec![("web", simple_workload_spec())], vec![]);
    apply(&mut adapter, &mut router, None, &spec1);
    let before = adapter.lookup_workload(&name("web"));
    let spec2 = make_namespace_spec(
        vec![("api", simple_workload_spec()), ("web", simple_workload_spec())],
        vec![],
    );
    apply(&mut adapter, &mut router, Some(&spec1), &spec2);
    assert_eq!(adapter.lookup_workload(&name("web")), before);
    assert_eq!(before, Some(WorkloadId(1)));
    assert_eq!(adapter.lookup_workload(&name("api")), Some(WorkloadId(2)));
}
