use distvirt_orchestrator::adapter::dns_registry::{
    DnsRegistryAction, DnsRegistryAdapter, DnsRegistryPortInput, EndpointDnsIncrementalAggregator,
    WorkloadDnsIncrementalAggregator,
};
use distvirt_orchestrator::sm::{DnsEntryInfo, DnsRegistryId, DNS_REGISTRY};

const IP: u32 = 0xac10_0064; // 172.16.0.100

fn entry(name: &str, ip: u32) -> Option<DnsEntryInfo> {
    Some(DnsEntryInfo { name: name.into(), ip })
}

/// What the port delivers for the changes of one endpoint.
fn delivery(
    actions: Option<Vec<DnsRegistryAction>>,
) -> Vec<(DnsRegistryId, DnsRegistryPortInput)> {
    match actions {
        Some(a) => vec![(DNS_REGISTRY, DnsRegistryPortInput::EndpointDnsInput(a))],
        None => vec![],
    }
}

#[test]
fn service_with_dns_produces_add_action() {
    let mut adapter = DnsRegistryAdapter::new(DNS_REGISTRY);
    let changes = EndpointDnsIncrementalAggregator.added(&entry("echo-svc", IP));
    let (actions, _) = adapter.reconcile(&delivery(changes));

    assert_eq!(actions.len(), 1);
    assert_eq!(actions[0], DnsRegistryAction::Add { name: "echo-svc".into(), ip: IP });

    let sync = adapter.build_sync();
    assert_eq!(sync.len(), 1);
    assert!(sync.iter().any(|(n, ip)| n == "echo-svc" && *ip == IP));
}

#[test]
fn service_removal_produces_remove_action() {
    let mut adapter = DnsRegistryAdapter::new(DNS_REGISTRY);
    let changes = EndpointDnsIncrementalAggregator.added(&entry("echo-svc", IP));
    let _ = adapter.reconcile(&delivery(changes));

    let changes = EndpointDnsIncrementalAggregator.removed(&entry("echo-svc", IP));
    let (actions, _) = adapter.reconcile(&delivery(changes));
    assert!(
        actions
            .iter()
            .any(|a| matches!(a, DnsRegistryAction::Remove { name } if name == "echo-svc")),
        "expected Remove action for echo-svc, got {:?}",
        actions
    );
    assert!(adapter.build_sync().is_empty());
}

#[test]
fn no_dns_info_no_actions() {
    let mut adapter = DnsRegistryAdapter::new(DNS_REGISTRY);
    let changes = EndpointDnsIncrementalAggregator.added(&None);
    let (actions, _) = adapter.reconcile(&delivery(changes));
    assert!(actions.is_empty());
}

#[test]
fn a_new_name_replaces_the_old_one() {
    let mut adapter = DnsRegistryAdapter::new(DNS_REGISTRY);
    let changes = WorkloadDnsIncrementalAggregator.added(&entry("old", IP));
    let _ = adapter.reconcile(&delivery(changes));
    let changes =
        WorkloadDnsIncrementalAggregator.changed(&entry("old", IP), &entry("new", IP + 1));
    let _ = adapter.reconcile(&delivery(changes));
    assert_eq!(adapter.build_sync(), vec![("new".to_string(), IP + 1)]);
}

#[test]
fn names_of_other_registries_are_ignored() {
    let mut adapter = DnsRegistryAdapter::new(DNS_REGISTRY);
    let inputs = vec![(
        DNS_REGISTRY + 1,
        DnsRegistryPortInput::WorkloadDnsInput(vec![DnsRegistryAction::Add {
            name: "x".into(),
            ip: IP,
        }]),
    )];
    let (actions, _) = adapter.reconcile(&inputs);
    assert!(actions.is_empty());
    assert!(adapter.build_sync().is_empty());
}
