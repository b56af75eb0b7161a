use distvirt_orchestrator::engine::types::ClientError;
use distvirt_orchestrator::grpc::calls::{call_of, Call};
use distvirt_orchestrator::grpc::conversions::{
    convert_proto_spec, leaves_gateway, parse_mac, parse_network_config, parse_user_field,
};
use distvirt_orchestrator::grpc::proto;
use distvirt_orchestrator::grpc::reports::{convert_sm_event_to_proto, convert_status_report};
use distvirt_orchestrator::grpc::service::{
    convert_log_chunk, errand_of, expected_of, read_worker_id, reply_to, DistvirtClientService,
    Errand, Expected, Reply, Request,
};
use distvirt_orchestrator::grpc::status::{
    check_client_auth, client_error_to_status, event_to_error_status, Code,
};
use distvirt_orchestrator::ids::{NamespaceId, PodId, ServiceId, WorkerId, WorkloadId};
use distvirt_orchestrator::orchestrator::client::ClientCommand;
use distvirt_orchestrator::output::{
    ClientEvent, NamespaceStatusReport, PodStatus, PodStatusReport, ServiceStatusReport,
    SmNamespaceEvent, SmServiceEvent, SmWorkloadEvent, WorkerStatusReport,
};
use distvirt_orchestrator::service::ServiceDeactivationReason;
use distvirt_orchestrator::types::{ActivatorConfig, BackendNeed, NamespaceStatus};

fn message<T>(r: Result<T, distvirt_orchestrator::grpc::status::Status>) -> (Code, String) {
    match r {
        Ok(_) => panic!("expected a refusal"),
        Err(e) => (e.code, e.message),
    }
}

#[test]
fn networks_are_read() {
    let n = parse_network_config("10.0.0.0/24").unwrap();
    assert_eq!((n.subnet, n.gateway, n.prefix_len), (0x0a00_0000, 0x0a00_0001, 24));
    assert_eq!(n.segment_id, None);
}

#[test]
fn bad_networks_are_refused() {
    assert_eq!(
        message(parse_network_config("10.0.0.0")),
        (
            Code::InvalidArgument,
            "invalid subnet format: '10.0.0.0', expected CIDR notation".to_string()
        )
    );
    assert_eq!(message(parse_network_config("10.0.0/24")).1, "invalid subnet IP: '10.0.0'");
    assert_eq!(message(parse_network_config("10.0.0.01/24")).1, "invalid subnet IP: '10.0.0.01'");
    assert_eq!(message(parse_network_config("10.0.0.0/x")).1, "invalid prefix length: 'x'");
    assert_eq!(message(parse_network_config("10.0.0.0/256")).1, "invalid prefix length: '256'");
    assert!(!leaves_gateway("255.255.255.255/32"));
    assert!(leaves_gateway("255.255.255.255/999"));
}

#[test]
fn hardware_addresses_are_read() {
    assert_eq!(parse_mac("02:00:0a:00:FF:01").unwrap(), [2, 0, 10, 0, 255, 1]);
    assert_eq!(message(parse_mac("02:00")).1, "invalid MAC address: '02:00'");
    assert_eq!(message(parse_mac("02:00:0a:00:zz:01")).1, "invalid MAC address byte: 'zz'");
    assert_eq!(message(parse_mac("02:00:0a:00:100:01")).1, "invalid MAC address byte: '100'");
}

#[test]
fn users_are_read() {
    assert_eq!(parse_user_field("1000:50").unwrap(), (Some(1000), Some(50)));
    assert_eq!(parse_user_field("7").unwrap(), (Some(7), None));
    assert_eq!(message(parse_user_field("root:50")).1, "non-numeric uid: 'root'");
    assert_eq!(message(parse_user_field("1:wheel")).1, "non-numeric gid: 'wheel'");
    assert_eq!(message(parse_user_field("root")).1, "non-numeric user: 'root'");
    assert_eq!(message(parse_user_field("1:2:3")).1, "non-numeric gid: '2:3'");
    assert_eq!(message(parse_user_field("4294967296")).1, "non-numeric user: '4294967296'");
}

fn ip(s: &str) -> Option<proto::EndpointNetwork> {
    Some(proto::EndpointNetwork { ip: s.into() })
}

fn container(config: Option<proto::ContainerConfig>) -> proto::ContainerSpec {
    proto::ContainerSpec { name: "main".into(), image: "app:v1".into(), config }
}

fn workload(network: Option<proto::EndpointNetwork>) -> proto::WorkloadSpec {
    proto::WorkloadSpec {
        network,
        containers: vec![
            container(None),
            container(Some(proto::ContainerConfig {
                entrypoint: vec!["/bin/app".into()],
                args: vec!["-v".into()],
                env: vec![("A".into(), "1".into()), ("B".into(), "".into())],
                working_dir: "/srv".into(),
                user: "10:20".into(),
                hostname: "".into(),
            })),
        ],
        suspend_on_idle: true,
        resources: None,
    }
}

fn service(
    network: Option<proto::EndpointNetwork>,
    activation: Option<proto::ActivationConfig>,
) -> proto::ServiceSpec {
    proto::ServiceSpec { workload_id: "web".into(), network, activation }
}

fn spec(w: proto::WorkloadSpec, s: proto::ServiceSpec) -> proto::NamespaceSpec {
    proto::NamespaceSpec {
        network: Some(proto::NetworkSpec { subnet: "10.0.0.0/24".into() }),
        workloads: vec![("web".into(), w)],
        services: vec![("svc".into(), s)],
    }
}

#[test]
fn specs_are_converted() {
    let activation = proto::ActivationConfig {
        activator: Some(proto::ActivatorConfig {
            activator: Some(proto::Activator::Tcp { ports: vec![80, 65_616] }),
        }),
        idle_timeout_ms: 9_000,
    };
    let s = convert_proto_spec(&spec(
        workload(ip("10.0.0.7")),
        service(ip("10.0.0.100"), Some(activation)),
    ))
    .unwrap_or_else(|e| panic!("{:?}", e));
    let w = s.workloads.get(&WorkloadId("web".into())).unwrap();
    assert_eq!(w.network.ip, 0x0a00_0007);
    assert_eq!(w.network.mac, [2, 0, 10, 0, 0, 7]);
    assert_eq!((w.network.gateway, w.network.netmask.as_str()), (0, ""));
    assert!(w.suspend_on_idle);
    assert_eq!(w.containers.len(), 2);
    let bare = &w.containers[0].config;
    assert_eq!((bare.uid, bare.gid, bare.capture_output, bare.stdin), (None, None, true, false));
    let full = &w.containers[1].config;
    assert_eq!(full.env, vec!["A=1".to_string(), "B=".to_string()]);
    assert_eq!((full.uid, full.gid), (Some(10), Some(20)));
    assert_eq!(full.working_dir, Some("/srv".to_string()));
    assert_eq!(full.hostname, None);
    assert_eq!(full.entrypoint, vec!["/bin/app".to_string()]);

    let v = s.services.get(&ServiceId("svc".into())).unwrap();
    assert_eq!(v.workload_id, WorkloadId("web".into()));
    assert_eq!((v.policy.buffer_frames, v.policy.timeout_ms), (64, 5000));
    assert_eq!(
        v.policy.activator,
        Some(ActivatorConfig::Tcp { ports: Some(vec![80, 80]), tcp_only: false, max_flows: 1024 })
    );
    assert_eq!(v.activation.unwrap().idle_timeout_ms, 9_000);
}

#[test]
fn services_without_activation_buffer_nothing() {
    let s = convert_proto_spec(&spec(workload(ip("10.0.0.7")), service(ip("10.0.0.100"), None)))
        .unwrap_or_else(|e| panic!("{:?}", e));
    let v = s.services.get(&ServiceId("svc".into())).unwrap();
    assert_eq!((v.policy.buffer_frames, v.policy.timeout_ms), (0, 0));
    assert_eq!(v.policy.activator, None);
    assert!(v.activation.is_none());

    let any_port = proto::ActivationConfig {
        activator: Some(proto::ActivatorConfig {
            activator: Some(proto::Activator::Tcp { ports: vec![] }),
        }),
        idle_timeout_ms: 1,
    };
    let s = convert_proto_spec(&spec(
        workload(ip("10.0.0.7")),
        service(ip("10.0.0.100"), Some(any_port)),
    ))
    .unwrap_or_else(|e| panic!("{:?}", e));
    assert_eq!(
        s.services.get(&ServiceId("svc".into())).unwrap().policy.activator,
        Some(ActivatorConfig::Tcp { ports: None, tcp_only: false, max_flows: 1024 })
    );
}

#[test]
fn bad_specs_are_refused() {
    let good = || service(ip("10.0.0.100"), None);
    let refusal = |w, s| message(convert_proto_spec(&spec(w, s))).1;
    assert_eq!(refusal(workload(None), good()), "workload missing network config");
    assert_eq!(refusal(workload(ip("10")), good()), "invalid workload IP: '10'");
    assert_eq!(
        refusal(workload(ip("10.0.0.7")), service(None, None)),
        "service missing network config"
    );
    assert_eq!(
        refusal(workload(ip("10.0.0.7")), service(ip("x"), None)),
        "invalid service IP: 'x'"
    );
    let mut bad_user = workload(ip("10.0.0.7"));
    bad_user.containers[1].config.as_mut().unwrap().user = "me".into();
    assert_eq!(refusal(bad_user, good()), "non-numeric user: 'me'");
    let bare = proto::NamespaceSpec { network: None, workloads: vec![], services: vec![] };
    assert_eq!(message(convert_proto_spec(&bare)).1, "missing network config");
}

#[test]
fn errors_get_their_codes() {
    let code = |m: &str| event_to_error_status(m.to_string()).code;
    assert_eq!(code("namespace 'a' not found"), Code::NotFound);
    assert_eq!(code("namespace \"a\" already exists"), Code::AlreadyExists);
    assert_eq!(code("workload not spliced"), Code::FailedPrecondition);
    assert_eq!(code("workload already spliced"), Code::FailedPrecondition);
    assert_eq!(code("boom"), Code::Internal);
    assert_eq!(code(""), Code::Internal);

    let code = |e: ClientError| client_error_to_status(e, "x".to_string()).code;
    assert_eq!(code(ClientError::WorkerNotFound), Code::NotFound);
    assert_eq!(code(ClientError::NamespaceNotFound), Code::NotFound);
    assert_eq!(code(ClientError::NamespaceAlreadyExists), Code::AlreadyExists);
    assert_eq!(code(ClientError::NoTunnelWorker), Code::FailedPrecondition);
    assert_eq!(code(ClientError::IpExhausted), Code::ResourceExhausted);
    assert_eq!(code(ClientError::ShellGone), Code::Unavailable);
}

#[test]
fn only_the_secret_opens() {
    assert!(check_client_auth(Some("Bearer s3"), "s3").is_ok());
    assert_eq!(
        message(check_client_auth(Some("Bearer s4"), "s3")),
        (Code::Unauthenticated, "invalid token".to_string())
    );
    assert_eq!(message(check_client_auth(Some("Bearer s33"), "s3")).1, "invalid token");
    assert_eq!(message(check_client_auth(Some("s3"), "s3")).1, "missing authorization header");
    assert_eq!(message(check_client_auth(None, "s3")).1, "missing authorization header");
}

#[test]
fn requests_become_commands() {
    let r = errand_of(Request::DeleteNamespace { namespace_id: "a".into() });
    assert!(matches!(
        r,
        Ok(Errand::Command(ClientCommand::DeleteNamespace { namespace_id })) if namespace_id.0 == "a"
    ));
    let r = errand_of(Request::CreateNamespace {
        namespace_id: "a".into(),
        spec: Some(spec(workload(ip("10.0.0.7")), service(ip("10.0.0.100"), None))),
    });
    assert!(matches!(
        r,
        Ok(Errand::Command(ClientCommand::CreateNamespace { namespace_id, .. })) if namespace_id.0 == "a"
    ));
    assert_eq!(
        message(errand_of(Request::UpdateNamespace { namespace_id: "a".into(), spec: None })).1,
        "missing spec"
    );
    assert_eq!(
        message(errand_of(Request::ConnectNetwork {
            namespace_id: "a".into(),
            client_public_key: vec![1; 31],
        }))
        .1,
        "client_public_key must be 32 bytes"
    );
    let r = errand_of(Request::DisconnectNetwork {
        namespace_id: "a".into(),
        client_public_key: vec![7; 32],
    });
    assert!(matches!(
        r,
        Ok(Errand::Command(ClientCommand::Disconnect { client_public_key, .. })) if client_public_key == [7; 32]
    ));
    assert_eq!(message(errand_of(Request::StreamEvents)).0, Code::Unimplemented);
    assert_eq!(message(errand_of(Request::WatchNamespaceStatus)).0, Code::Unimplemented);
    let r = errand_of(Request::DeactivateWorkload {
        namespace_id: "a".into(),
        workload_id: "web".into(),
    });
    assert!(matches!(
        r,
        Ok(Errand::Command(ClientCommand::DeactivateWorkload { namespace_id, workload_id }))
            if namespace_id.0 == "a" && workload_id.0 == "web"
    ));
    for workload in [Some("web".to_string()), None] {
        let r = errand_of(Request::StreamLogs {
            namespace_id: "a".into(),
            workload_id: workload.clone(),
        });
        assert!(matches!(
            r,
            Ok(Errand::Logs { namespace_id, workload_id })
                if namespace_id.0 == "a" && workload_id.clone().map(|w| w.0) == workload
        ));
    }
    let r = errand_of(Request::GetWorker { worker_id: "w-1".into() });
    assert!(matches!(
        r,
        Ok(Errand::Command(ClientCommand::GetWorker { worker_id })) if worker_id.0 == "w-1"
    ));
    assert_eq!(read_worker_id("42").unwrap(), 42);
    assert_eq!(message(read_worker_id("w-1")).1, "invalid worker_id");
}

#[test]
fn requests_become_calls() {
    let r = call_of(Request::CreateNamespace {
        namespace_id: "a".into(),
        spec: Some(spec(workload(ip("10.0.0.7")), service(ip("10.0.0.100"), None))),
    });
    assert!(matches!(
        r,
        Ok(Call::CreateNamespace { namespace_id, network })
            if namespace_id.0 == "a" && network.segment_id.is_none() && network.prefix_len == 24
    ));
    let r = call_of(Request::DeleteNamespace { namespace_id: "a".into() });
    assert!(matches!(r, Ok(Call::DestroyNamespace { namespace_id }) if namespace_id.0 == "a"));
    let r = call_of(Request::GetWorker { worker_id: "42".into() });
    assert!(matches!(r, Ok(Call::GetWorker { worker_id }) if worker_id.0 == 42));
    assert_eq!(
        message(call_of(Request::GetWorker { worker_id: "w-1".into() })),
        (Code::InvalidArgument, "invalid worker_id".to_string())
    );
    let r = call_of(Request::ConnectNetwork {
        namespace_id: "a".into(),
        client_public_key: vec![7; 32],
    });
    assert!(matches!(
        r,
        Ok(Call::ConnectNetwork { client_public_key, .. }) if client_public_key == [7; 32]
    ));
    assert_eq!(
        message(call_of(Request::DisconnectNetwork {
            namespace_id: "a".into(),
            client_public_key: vec![7; 33],
        }))
        .1,
        "client_public_key must be 32 bytes"
    );
    assert_eq!(
        message(call_of(Request::DeactivateWorkload {
            namespace_id: "a".into(),
            workload_id: "web".into(),
        })),
        (
            Code::Unimplemented,
            "DeactivateWorkload not yet implemented in new core".to_string()
        )
    );
    assert_eq!(
        message(call_of(Request::StreamLogs { namespace_id: "a".into(), workload_id: None })),
        (Code::Unimplemented, "StreamLogs not yet implemented in new core".to_string())
    );
    assert_eq!(
        message(call_of(Request::StreamEvents)).1,
        "StreamEvents not yet implemented in new core"
    );
    assert_eq!(
        message(call_of(Request::WatchNamespaceStatus)).1,
        "WatchNamespaceStatus not yet implemented"
    );
}

#[test]
fn each_request_waits_for_its_kind_of_answer() {
    let a = || "a".to_string();
    for (request, expected) in [
        (Request::CreateNamespace { namespace_id: a(), spec: None }, Expected::Done),
        (Request::GetNamespaceStatus { namespace_id: a() }, Expected::NamespaceStatus),
        (Request::ListNamespaces, Expected::Namespaces),
        (Request::ListWorkers, Expected::Workers),
        (Request::GetWorker { worker_id: a() }, Expected::Worker),
        (Request::ListPods { namespace_id: a() }, Expected::Pods),
        (
            Request::ConnectNetwork { namespace_id: a(), client_public_key: vec![] },
            Expected::Connection,
        ),
        (
            Request::DisconnectNetwork { namespace_id: a(), client_public_key: vec![] },
            Expected::Done,
        ),
        (
            Request::DeactivateWorkload { namespace_id: a(), workload_id: a() },
            Expected::Deactivation,
        ),
        (Request::StreamLogs { namespace_id: a(), workload_id: None }, Expected::Stream),
        (Request::StreamEvents, Expected::Stream),
    ] {
        assert_eq!(expected_of(&request), expected);
    }
}

#[test]
fn output_is_passed_on_with_its_time() {
    let chunk = convert_log_chunk(WorkloadId("web".into()), vec![104, 105], 1_700_000_000_000);
    assert_eq!(
        chunk,
        proto::LogChunk {
            workload_id: "web".into(),
            data: vec![104, 105],
            timestamp_unix_ms: 1_700_000_000_000,
        }
    );
}

#[test]
fn events_become_replies() {
    assert!(matches!(reply_to(Expected::Done, ClientEvent::Done), Ok(Reply::Done)));
    assert_eq!(
        message(reply_to(Expected::Pods, ClientEvent::Done)),
        (Code::Internal, "unexpected response from orchestrator".to_string())
    );
    assert_eq!(
        message(reply_to(
            Expected::Pods,
            ClientEvent::Error { message: "pod 'x' not found".into() }
        )),
        (Code::NotFound, "pod 'x' not found".to_string())
    );
    let r = reply_to(
        Expected::Worker,
        ClientEvent::WorkerStatus {
            worker: WorkerStatusReport {
                worker_id: WorkerId("w".into()),
                max_pods: 3,
                available_memory_mb: 4,
                active_pods: 2,
            },
        },
    );
    assert!(matches!(r, Ok(Reply::Worker(w)) if w.worker_id == "w" && w.active_pods == 2));
    let r = reply_to(
        Expected::Pods,
        ClientEvent::PodList {
            pods: vec![PodStatusReport {
                pod_id: PodId("p".into()),
                workload_id: WorkloadId("w".into()),
                worker_id: WorkerId("k".into()),
                ip: "10.0.0.7".into(),
                state: PodStatus::Running,
            }],
        },
    );
    assert!(matches!(r, Ok(Reply::Pods(p)) if p[0].state == proto::PodState::Running));
    let r = reply_to(
        Expected::Deactivation,
        ClientEvent::DeactivateWorkloadResult { deactivated: false, reason: "busy".into() },
    );
    assert!(matches!(r, Ok(Reply::Deactivation(d)) if !d.deactivated && d.reason == "busy"));
}

fn service_report(workload: &str, service_state: &str, workload_state: &str) -> ServiceStatusReport {
    ServiceStatusReport {
        workload_id: WorkloadId(workload.into()),
        service_state: service_state.into(),
        workload_state: workload_state.into(),
        pod_id: Some(PodId("p".into())),
        worker_id: None,
        backend_need: Some(BackendNeed::Traffic),
        activation_enabled: true,
        ip: "10.0.0.9".into(),
        workload_conditions: vec![],
        service_conditions: vec![],
    }
}

#[test]
fn the_first_service_reports_its_workload() {
    let report = NamespaceStatusReport {
        namespace_id: NamespaceId("ns".into()),
        status: NamespaceStatus::Active,
        workloads: vec![],
        services: vec![
            (ServiceId("a".into()), service_report("w", "active", "running")),
            (ServiceId("b".into()), service_report("w", "idle", "dormant")),
        ],
        pods: vec![],
    };
    let r = convert_status_report(&report);
    assert_eq!(r.namespace_id, "ns");
    assert_eq!(r.state, proto::NamespaceState::Active);
    assert_eq!(r.workloads.len(), 1);
    assert_eq!(
        r.workloads.get(&"w".to_string()).unwrap().state,
        proto::WorkloadState::Running { pod_id: "p".into(), worker_id: "".into() }
    );
    assert_eq!(
        r.services.get(&"a".to_string()).unwrap().state,
        proto::ServiceState::Active {
            pod_id: "p".into(),
            worker_id: "".into(),
            backend_need: proto::BackendNeed::Traffic,
        }
    );
    let b = r.services.get(&"b".to_string()).unwrap();
    assert_eq!((&b.state, b.ip.as_str(), b.mac.as_str()), (&proto::ServiceState::Idle, "10.0.0.9", ""));
}

#[test]
fn events_are_stamped() {
    let e = convert_sm_event_to_proto(
        SmNamespaceEvent::Workload {
            workload_id: WorkloadId("w".into()),
            event: SmWorkloadEvent::PodStopped { exit_code: -9 },
        },
        1_234,
    );
    assert_eq!(e.timestamp_unix_ms, 1_234);
    assert_eq!(
        e.event,
        proto::Happening::Workload {
            workload_id: "w".into(),
            event: proto::WorkloadEvent::PodStopped { exit_code: -9 },
        }
    );
    let e = convert_sm_event_to_proto(
        SmNamespaceEvent::Service {
            service_id: ServiceId("s".into()),
            workload_id: WorkloadId("w".into()),
            event: SmServiceEvent::Deactivated {
                reason: ServiceDeactivationReason::ForceDeactivate,
            },
        },
        0,
    );
    assert_eq!(
        e.event,
        proto::Happening::Service {
            service_id: "s".into(),
            workload_id: "w".into(),
            event: proto::ServiceEvent::Deactivated {
                reason: proto::ServiceDeactivationReason::ForceDeactivate,
            },
        }
    );
}

#[test]
fn the_service_keeps_its_handle() {
    let svc = DistvirtClientService::new("handle");
    assert_eq!(*svc.handle(), "handle");
}
