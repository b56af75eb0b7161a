use distvirt_orchestrator::adapter::timer::{TimerAction, TimerIdentity};
use distvirt_orchestrator::config::{default_wg_port, setting, WireguardConfig};
use distvirt_orchestrator::engine::placement_table::PlacementTable;
use distvirt_orchestrator::engine::timer_wheel::TimerWheel;
use distvirt_orchestrator::engine::types::ArtifactPlacementEvent;
use distvirt_orchestrator::id_registry::{IdRegistry, IdRegistryMap};
use distvirt_orchestrator::ids::{ArtifactId, NamespaceId, PoolId};
use distvirt_orchestrator::scan::{
    constant_time_eq, contains, parse_ipv4, split_text, split_text_once, strip_prefix,
};
use distvirt_orchestrator::sm::{
    EndpointId, PodId, ServiceId, WorkerId, WorkloadId, WorkloadTimerKey,
};
use distvirt_orchestrator::text::{decimal_text, dotted_text, prefix_len_to_netmask};

#[test]
fn netmasks_are_written_out() {
    assert_eq!(prefix_len_to_netmask(24), "255.255.255.0");
    assert_eq!(prefix_len_to_netmask(0), "0.0.0.0");
    assert_eq!(prefix_len_to_netmask(32), "255.255.255.255");
    assert_eq!(prefix_len_to_netmask(20), "255.255.240.0");
}

#[test]
fn addresses_are_read_back() {
    for ip in [0, 1, 0x0a00_0001, 0xac10_0064, u32::MAX] {
        assert_eq!(parse_ipv4(&dotted_text(ip)), Some(ip));
    }
    for bad in ["", "1.2.3", "1.2.3.4.5", "256.0.0.1", "01.2.3.4", "+1.2.3.4", "1..2.3", "a.b.c.d"] {
        assert_eq!(parse_ipv4(bad), None, "{}", bad);
    }
}

#[test]
fn numbers_are_written_out() {
    assert_eq!(decimal_text(0), "0");
    assert_eq!(decimal_text(u64::MAX), "18446744073709551615");
}

#[test]
fn texts_are_taken_apart() {
    assert_eq!(split_text("a/b", '/'), vec!["a", "b"]);
    assert_eq!(split_text("/", '/'), vec!["", ""]);
    assert_eq!(split_text("", '/'), vec![""]);
    assert_eq!(split_text_once("a:b:c", ':'), Some(("a", "b:c")));
    assert_eq!(split_text_once("abc", ':'), None);
    assert!(contains("it was not found here", "not found"));
    assert!(!contains("not  found", "not found"));
    assert!(contains("x", ""));
    assert_eq!(strip_prefix("Bearer t", "Bearer "), Some("t"));
    assert_eq!(strip_prefix("Bear", "Bearer "), None);
    assert!(constant_time_eq("abc", "abc"));
    assert!(!constant_time_eq("abc", "abd"));
    assert!(!constant_time_eq("abc", "ab"));
}

#[test]
fn settings_have_defaults() {
    assert_eq!(default_wg_port(), 51820);
    assert_eq!(WireguardConfig::default().listen_port, 51820);
    assert_eq!(setting(Some("a".into()), Some("b".into())), Some("a".to_string()));
    assert_eq!(setting(None, Some("b".into())), Some("b".to_string()));
    assert_eq!(setting(None, None), None);
}

#[test]
fn registries_forget_what_is_unregistered() {
    let mut r = IdRegistry::new();
    r.register_workload(WorkloadId(1), "web".into());
    r.register_service(ServiceId(2), "svc".into());
    r.register_pod(PodId(3), WorkloadId(1));
    r.register_endpoint(EndpointId(4), ServiceId(2));
    assert_eq!(r.pod_workload_name(&PodId(3)), Some("web".to_string()));
    assert_eq!(r.endpoint_service_name(&EndpointId(4)), Some("svc".to_string()));
    r.unregister_workload(&WorkloadId(1));
    assert_eq!(r.workload_name(&WorkloadId(1)), None);
    assert_eq!(r.pod_workload_name(&PodId(3)), None);
    r.unregister_service(&ServiceId(2));
    assert_eq!(r.service_name(&ServiceId(2)), None);

    let mut all = IdRegistryMap::new();
    let ns = NamespaceId("a".into());
    assert!(all.get(&ns).is_none());
    all.get_or_create(&ns);
    assert!(all.get(&ns).is_some());
    assert!(all.remove(&ns).is_some());
    assert!(all.get(&ns).is_none());
}

#[test]
fn what_is_registered_for_a_namespace_is_read_by_all() {
    let mut all = IdRegistryMap::new();
    let (a, b) = (NamespaceId("a".into()), NamespaceId("b".into()));
    all.unregister_pod(&a, &PodId(3));
    assert!(all.get(&a).is_none());
    all.register_workload(&a, WorkloadId(1), "web".into());
    all.register_pod(&a, PodId(3), WorkloadId(1));
    all.register_service(&a, ServiceId(2), "svc".into());
    all.register_endpoint(&a, EndpointId(4), ServiceId(2));
    assert!(all.get(&b).is_none());
    let r = all.get(&a).unwrap();
    assert_eq!(r.pod_workload_name(&PodId(3)), Some("web".to_string()));
    assert_eq!(r.endpoint_service_name(&EndpointId(4)), Some("svc".to_string()));

    let earlier = all.clone();
    all.unregister_pod(&a, &PodId(3));
    all.unregister_endpoint(&a, &EndpointId(4));
    let r = all.get(&a).unwrap();
    assert_eq!(r.pod_workload_id(&PodId(3)), None);
    assert_eq!(r.endpoint_service_id(&EndpointId(4)), None);
    assert_eq!(r.workload_name(&WorkloadId(1)), Some("web".to_string()));
    all.unregister_workload(&a, &WorkloadId(1));
    all.unregister_service(&a, &ServiceId(2));
    let r = all.get(&a).unwrap();
    assert_eq!(r.workload_name(&WorkloadId(1)), None);
    assert_eq!(r.service_name(&ServiceId(2)), None);
    let r = earlier.get(&a).unwrap();
    assert_eq!(r.pod_workload_name(&PodId(3)), Some("web".to_string()));
}

#[test]
fn timers_can_be_absorbed_in_turn() {
    let identity = |id| TimerIdentity::Workload(WorkloadId(id), WorkloadTimerKey::RetryBackoff);
    let a = NamespaceId("a".into());
    let first = vec![
        TimerAction::Start { identity: identity(1), generation: 1, duration_ms: 10 },
        TimerAction::Start { identity: identity(2), generation: 1, duration_ms: 20 },
    ];
    let second = vec![
        TimerAction::Cancel { identity: identity(1) },
        TimerAction::Start { identity: identity(2), generation: 2, duration_ms: 30 },
    ];
    let mut in_turn = TimerWheel::new();
    in_turn.absorb(&a, &first, 100);
    in_turn.absorb(&a, &second, 100);
    let mut at_once = TimerWheel::new();
    at_once.absorb(&a, &first.iter().chain(second.iter()).copied().collect(), 100);
    for mut wheel in [in_turn, at_once] {
        assert_eq!(wheel.next_deadline(), Some(130));
        let fired = wheel.fire_expired(130);
        assert_eq!(fired.len(), 1);
        assert_eq!((fired[0].identity, fired[0].generation), (identity(2), 2));
    }
}

#[test]
fn timers_fire_when_due() {
    let identity = TimerIdentity::Workload(WorkloadId(1), WorkloadTimerKey::RetryBackoff);
    let (a, b) = (NamespaceId("a".into()), NamespaceId("b".into()));
    let mut wheel = TimerWheel::new();
    let start = |ms| vec![TimerAction::Start { identity, generation: 1, duration_ms: ms }];
    wheel.absorb(&a, &start(500), 1_000);
    wheel.absorb(&b, &start(100), 1_000);
    assert_eq!(wheel.next_deadline(), Some(1_100));
    assert!(wheel.fire_expired(1_099).is_empty());
    assert_eq!(wheel.fire_expired(1_100).len(), 1);
    assert_eq!(wheel.next_deadline(), Some(1_500));
    wheel.remove_namespace(&a);
    assert_eq!(wheel.next_deadline(), None);
}

#[test]
fn lost_workers_take_their_snapshots_along() {
    let mut table = PlacementTable::new();
    let (art, pool) = (ArtifactId("x".into()), PoolId("p".into()));
    table.apply_event(
        WorkerId(1),
        ArtifactPlacementEvent::WriteStarted { artifact_id: art.clone(), pool_id: pool.clone() },
    );
    assert!(!table.is_ready_on(&art, WorkerId(1)));
    table.apply_event(
        WorkerId(1),
        ArtifactPlacementEvent::WriteCommitted {
            artifact_id: art.clone(),
            pool_id: pool,
            size_bytes: 7,
        },
    );
    assert!(table.is_ready_on(&art, WorkerId(1)));
    assert_eq!(table.workers_with_artifact(&art), vec![WorkerId(1)]);
    table.remove_worker(WorkerId(1));
    assert!(table.any_worker_with_artifact(&art).is_none());
}

#[test]
fn a_timer_that_starts_again_fires_once() {
    let identity = TimerIdentity::Workload(WorkloadId(1), WorkloadTimerKey::RetryBackoff);
    let a = NamespaceId("a".into());
    let mut wheel = TimerWheel::new();
    let actions = vec![
        TimerAction::Start { identity, generation: 1, duration_ms: 5_000 },
        TimerAction::Start { identity, generation: 2, duration_ms: 20_000 },
    ];
    wheel.absorb(&a, &actions, 10_000);
    assert_eq!(wheel.next_deadline(), Some(30_000));
    assert!(wheel.fire_expired(29_000).is_empty());
    let fired = wheel.fire_expired(30_000);
    assert_eq!(fired.len(), 1);
    assert_eq!((&fired[0].namespace_id, fired[0].generation), (&a, 2));
    assert_eq!(fired[0].identity, identity);
    assert!(wheel.fire_expired(30_000).is_empty());
}

#[test]
fn a_cancelled_timer_leaves_those_of_other_namespaces() {
    let identity = TimerIdentity::Workload(WorkloadId(1), WorkloadTimerKey::RetryBackoff);
    let (a, b) = (NamespaceId("a".into()), NamespaceId("b".into()));
    let start = vec![TimerAction::Start { identity, generation: 1, duration_ms: 5_000 }];
    let mut wheel = TimerWheel::new();
    wheel.absorb(&a, &start, 0);
    wheel.absorb(&b, &start, 0);
    wheel.absorb(&a, &vec![TimerAction::Cancel { identity }], 1_000);
    let fired = wheel.fire_expired(5_000);
    assert_eq!(fired.len(), 1);
    assert_eq!((&fired[0].namespace_id, fired[0].generation), (&b, 1));
    assert_eq!(wheel.next_deadline(), None);
}

#[test]
fn a_copied_registry_knows_the_same() {
    let mut registry = IdRegistry::new();
    registry.register_workload(WorkloadId(1), "app".into());
    registry.register_pod(PodId(7), WorkloadId(1));
    let copy = registry.clone();
    assert_eq!(copy.pod_workload_name(&PodId(7)), Some("app".to_string()));
}
