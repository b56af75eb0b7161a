//! What a namespace makes of what it is told by the cluster, its workers and its clients.
use vstd::prelude::*;

use crate::adapter::delivery_laws::{
    law_own_endpoint_changes_are_delivered, law_own_name_changes_are_delivered,
    law_pod_changes_are_addressed,
};
use crate::adapter::dns_registry::{DnsRegistryAction, DnsRegistryPortInput};
use crate::adapter::endpoint::{EndpointAction, FabricEndpointPortInput};
use crate::adapter::endpoint_demand::{EndpointDemandOp, EndpointDemandSignal};
use crate::adapter::management::ManagementOpView;
use crate::adapter::pod_assignment::{
    PodAssignmentAction, PodAssignmentDelta, WorkerPortInput,
};
use crate::adapter::timer::{TimerFired, TimerIdentity};
use crate::engine::namespace::assignments::{listed, AssignmentsView};
use crate::engine::namespace::boundary::{NamespaceCoreEvent, NamespaceWithBoundary};
use crate::engine::namespace::commands::ReconcileActions;
use crate::engine::namespace::effects::NamespaceEffectsView;
use crate::engine::namespace::events::{
    endpoint_list, entries, grants_off, is_patched, name_set, peers_added, peers_removed,
    peers_told,
};
use crate::engine::namespace::router::{
    endpoint_at, EndpointSnapshot, RouterDrain, RouterOpView, RouterSnapshot,
};
use crate::engine::namespace::Namespace;
use crate::engine::protocol::CommandView;
use crate::engine::types::{
    ClientCommand, NamespacePatch, OrchestratorToNamespace, SchedulerDecision,
    WorkerNamespaceEvent, WorkerNamespaceEventKind,
};
use crate::ids::NamespaceId;
use crate::namespace::command_laws::lemma_contains_pushed;
use crate::namespace::wireguard::WgPeerOutput;
use crate::sm::{
    AdminCmd, ArtifactPortId, EndpointDemandId, EndpointId, ManagementId, PodId, PodStatus, ScheduleLeaseId,
    ServiceId, WireGuardPeerEndpointInfo, WireGuardPeerId, WorkerId, WorkloadId, TIMER,
};
use crate::sorted_map::{has_key, increasing, lemma_rank_exists, position, rank, upsert, Key};
use crate::text::number;
use crate::types::NamespaceSpec;

verus! {

// ---- workers ------------------------------------------------------------------------------------

/// A worker that has connected is waited for: nothing is asked of it before its part in the
/// namespace is up. A snapshot that is lost is given up.
pub proof fn law_cluster_messages<E>(
    before: Namespace,
    event: OrchestratorToNamespace,
    snapshot: RouterSnapshot,
    peers: Seq<WgPeerOutput>,
    e: NamespaceEffectsView<E>,
    after: Namespace,
    ops: Seq<RouterOpView>,
    f: NamespaceEffectsView<E>,
)
    requires
        before.pushed(event, snapshot, peers, e, after, ops, f),
    ensures
        event matches OrchestratorToNamespace::WorkerConnected { worker_id, info, .. } ==> {
            &&& after.pending_workers@ == before.pending_workers@.insert(worker_id, info)
            &&& after.active_workers == before.active_workers
            &&& ops.len() == 0
        },
        event matches OrchestratorToNamespace::ArtifactInvalidated { artifact_port_id } ==> ops
            == seq![RouterOpView::DestroyArtifact { artifact: artifact_port_id }],
        event matches OrchestratorToNamespace::WorkerDisconnected { worker_id } ==> {
            &&& !after.active_workers@.contains_key(worker_id)
            &&& !after.pending_workers@.contains_key(worker_id)
            &&& before.active_workers@.contains_key(worker_id) ==> ops.len() > 0 && ops.last() == (
            RouterOpView::DestroyWorker { worker_id })
            &&& !before.active_workers@.contains_key(worker_id) ==> ops.len() == 0
        },
        !(event is WorkerEvent) ==> f == e,
{
}

/// A worker whose part in the namespace has come up is active, with its first store, and waited for
/// no longer. The router hears of it with all that is known of it. The worker is told all names, all
/// endpoints, and each client that enters through it.
pub proof fn law_worker_comes_up<E>(
    before: Namespace,
    worker_id: WorkerId,
    snapshot: RouterSnapshot,
    peers: Seq<WgPeerOutput>,
    e: NamespaceEffectsView<E>,
    after: Namespace,
    ops: Seq<RouterOpView>,
    f: NamespaceEffectsView<E>,
    i: int,
    k: int,
)
    requires
        before.pushed(
            OrchestratorToNamespace::WorkerEvent(
                WorkerNamespaceEvent {
                    worker_id,
                    event: WorkerNamespaceEventKind::NamespaceCreated,
                },
            ),
            snapshot,
            peers,
            e,
            after,
            ops,
            f,
        ),
        before.pending_workers@.contains_key(worker_id),
    ensures
        after.active_workers@ == before.active_workers@.insert(
            worker_id,
            before.pending_workers@[worker_id].default_pool,
        ),
        after.pending_workers@ == before.pending_workers@.remove(worker_id),
        ops.len() >= 2,
        ops[0] == (RouterOpView::CreateWorker { worker_id }),
        ops[1] == (RouterOpView::SetWorkerInfo {
            worker_id,
            info: before.pending_workers@[worker_id],
        }),
        0 <= i < before.dns_registry.seq().len() ==> exists|c: CommandView| #[trigger]
            f.worker_commands.contains((worker_id, c)) && (c matches CommandView::RegistrySync {
                namespace_id,
                entries,
            } && namespace_id == before.namespace_id && entries.len()
                == before.dns_registry.seq().len() && entries[i].name
                == before.dns_registry.seq()[i].0 && entries[i].ip
                == before.dns_registry.seq()[i].1),
        0 <= i < before.endpoint.endpoints().len() ==> exists|c: CommandView| #[trigger]
            f.worker_commands.contains((worker_id, c)) && (c matches CommandView::EndpointSync {
                namespace_id,
                endpoints,
            } && namespace_id == before.namespace_id && endpoints.len()
                == before.endpoint.endpoints().len() + before.endpoint.peers().len()
                && endpoints[i].ip == before.endpoint.endpoints()[i].1.ip && (
            endpoints[i].kind is Service <==> before.endpoint.endpoints()[i].1.kind is Service)
                && (before.endpoint.endpoints()[i].1.kind is Workload
                ==> endpoints[i].kind is Pod)),
        0 <= k < before.endpoint.peers().len() && before.endpoint.peers()[k].1.worker_id
            == worker_id ==> f.worker_commands.contains(
            (
                worker_id,
                CommandView::AddWireGuardPeer {
                    namespace_id: before.namespace_id,
                    peer_public_key: before.endpoint.peers()[k].1.peer_public_key,
                    peer_ip: before.endpoint.peers()[k].1.peer_ip,
                    preshared_key: None,
                },
            ),
        ),
{
    let names = before.dns_registry.seq();
    let named = if names.len() == 0 {
        e
    } else {
        e.commanded(
            worker_id,
            CommandView::RegistrySync {
                namespace_id: before.namespace_id,
                entries: entries(names),
            },
        )
    };
    let all = endpoint_list(
        before.endpoint.endpoints(),
        before.endpoint.peers(),
    );
    let sync = CommandView::EndpointSync { namespace_id: before.namespace_id, endpoints: all };
    let placed = if all.len() == 0 {
        named
    } else {
        named.commanded(worker_id, sync)
    };
    lemma_peers_told(placed, before.namespace_id, worker_id, before.endpoint.peers(), k);
    assert(f == peers_told(placed, before.namespace_id, worker_id, before.endpoint.peers()));
    if names.len() > 0 {
        let c = CommandView::RegistrySync {
            namespace_id: before.namespace_id,
            entries: entries(names),
        };
        lemma_contains_pushed(e.worker_commands, (worker_id, c), (worker_id, c));
        lemma_contains_pushed(named.worker_commands, (worker_id, sync), (worker_id, c));
        assert(placed.worker_commands.contains((worker_id, c)));
        assert(f.worker_commands.contains((worker_id, c)));
    }
    if all.len() > 0 {
        lemma_contains_pushed(named.worker_commands, (worker_id, sync), (worker_id, sync));
        assert(placed.worker_commands.contains((worker_id, sync)));
        assert(f.worker_commands.contains((worker_id, sync)));
    }
}

proof fn lemma_peers_told<E>(
    e: NamespaceEffectsView<E>,
    ns: NamespaceId,
    worker_id: WorkerId,
    peers: Seq<(WireGuardPeerId, WireGuardPeerEndpointInfo)>,
    k: int,
)
    ensures
        forall|x: (WorkerId, CommandView)|
            e.worker_commands.contains(x) ==> #[trigger] peers_told(
                e,
                ns,
                worker_id,
                peers,
            ).worker_commands.contains(x),
        0 <= k < peers.len() && peers[k].1.worker_id == worker_id ==> peers_told(
            e,
            ns,
            worker_id,
            peers,
        ).worker_commands.contains(
            (
                worker_id,
                CommandView::AddWireGuardPeer {
                    namespace_id: ns,
                    peer_public_key: peers[k].1.peer_public_key,
                    peer_ip: peers[k].1.peer_ip,
                    preshared_key: None,
                },
            ),
        ),
    decreases peers.len(),
{
    if peers.len() > 0 {
        let front = peers.drop_last();
        let last = peers.last().1;
        let rest = peers_told(e, ns, worker_id, front);
        let all = peers_told(e, ns, worker_id, peers);
        lemma_peers_told(e, ns, worker_id, front, k);
        let add = CommandView::AddWireGuardPeer {
            namespace_id: ns,
            peer_public_key: last.peer_public_key,
            peer_ip: last.peer_ip,
            preshared_key: None,
        };
        assert forall|x: (WorkerId, CommandView)|
            rest.worker_commands.contains(x) implies #[trigger] all.worker_commands.contains(x) by {
            lemma_contains_pushed(rest.worker_commands, (worker_id, add), x);
        }
        lemma_contains_pushed(rest.worker_commands, (worker_id, add), (worker_id, add));
        if 0 <= k < front.len() {
            assert(front[k] == peers[k]);
        }
    }
}

/// What an active worker says of a pod that is there is passed on: that it runs, that it has ended
/// well or badly, or that it was suspended into a snapshot. What is said of a pod that is not there,
/// or by a worker that is not active, is not.
pub proof fn law_pod_reports_are_passed_on<E>(
    before: Namespace,
    worker_id: WorkerId,
    event: WorkerNamespaceEventKind,
    snapshot: RouterSnapshot,
    peers: Seq<WgPeerOutput>,
    e: NamespaceEffectsView<E>,
    after: Namespace,
    ops: Seq<RouterOpView>,
    f: NamespaceEffectsView<E>,
    pod: PodId,
)
    requires
        before.pushed(
            OrchestratorToNamespace::WorkerEvent(WorkerNamespaceEvent { worker_id, event }),
            snapshot,
            peers,
            e,
            after,
            ops,
            f,
        ),
        match event {
            WorkerNamespaceEventKind::PodRunning { pod_id } => pod_id == pod,
            WorkerNamespaceEventKind::PodExited { pod_id, .. } => pod_id == pod,
            WorkerNamespaceEventKind::PodFailed { pod_id } => pod_id == pod,
            WorkerNamespaceEventKind::PodSuspended { pod_id, .. } => pod_id == pod,
            WorkerNamespaceEventKind::PodSuspendFailed { pod_id } => pod_id == pod,
            _ => false,
        },
    ensures
        after == before,
        f == e,
        !(before.active_workers@.contains_key(worker_id) && snapshot.pods@.contains_key(pod))
            ==> ops.len() == 0,
        before.active_workers@.contains_key(worker_id) && snapshot.pods@.contains_key(pod) ==> {
            &&& ops.len() == 1
            &&& match event {
                WorkerNamespaceEventKind::PodRunning { .. } => ops[0] == (
                RouterOpView::NotifyPodStatus {
                    worker_id,
                    pod_id: pod,
                    status: PodStatus::Running,
                }),
                WorkerNamespaceEventKind::PodExited { exit_code: 0, .. } => ops[0] == (
                RouterOpView::NotifyPodStatus {
                    worker_id,
                    pod_id: pod,
                    status: PodStatus::Finished,
                }),
                WorkerNamespaceEventKind::PodSuspended { artifact_id, .. } => ops[0] matches
                    RouterOpView::NotifyPodSuspended { worker_id: w, pod_id: p, artifact } && w
                    == worker_id && p == pod && (number(artifact_id.0@, 10, u64::MAX as nat) matches
                    Some(n) ==> artifact == ArtifactPortId(n as u64)),
                _ => ops[0] == (RouterOpView::NotifyPodStatus {
                    worker_id,
                    pod_id: pod,
                    status: PodStatus::Failed,
                }),
            }
        },
{
}

// ---- grants -------------------------------------------------------------------------------------

proof fn lemma_listed(pods: Seq<(PodId, ())>, pod: PodId)
    requires
        increasing(pods),
    ensures
        listed(upsert(pods, pod, ())).contains(pod),
{
    let all = upsert(pods, pod, ());
    let names = listed(all);
    if has_key(pods, pod.id()) {
        let p = position(pods, pod.id());
        assert(0 <= p < pods.len() && pods[p].0.id() == pod.id());
        assert(names[p] == pod);
    } else {
        lemma_rank_exists(pods, pod.id());
        let p = rank(pods, pod.id());
        assert(all[p] == (pod, ()));
        assert(names[p] == pod);
    }
}

/// A worker that is granted to a pod that is there is leased to it under a number of its own, and
/// the pod is among those that the worker is to run. A grant for a worker that is not active yet is
/// kept for later.
pub proof fn law_grant_assigns_pod<E>(
    before: Namespace,
    namespace_id: NamespaceId,
    pod_id: PodId,
    worker_id: WorkerId,
    snapshot: RouterSnapshot,
    peers: Seq<WgPeerOutput>,
    e: NamespaceEffectsView<E>,
    after: Namespace,
    ops: Seq<RouterOpView>,
    f: NamespaceEffectsView<E>,
)
    requires
        before.pushed(
            OrchestratorToNamespace::SchedulerDecision(
                SchedulerDecision::Grant { namespace_id, pod_id, worker_id },
            ),
            snapshot,
            peers,
            e,
            after,
            ops,
            f,
        ),
        before.next_port < u64::MAX,
        increasing(before.assignments@.pods_of(worker_id)),
    ensures
        f == e,
        before.active_workers@.contains_key(worker_id) && snapshot.pods@.contains_key(pod_id) ==> {
            &&& ops.len() == 2
            &&& ops[0] == (RouterOpView::CreateLease {
                lease: ScheduleLeaseId(before.next_port),
                worker_id,
                pod_id,
            })
            &&& ops[1] matches RouterOpView::AssignPods { worker_id: w, pods } && w == worker_id
                && pods.contains(pod_id)
            &&& after.assignments@.leases.contains_key(pod_id)
            &&& after.assignments@.leases[pod_id] == ScheduleLeaseId(before.next_port)
            &&& after.assignments@.pod_worker.contains_key(pod_id)
            &&& after.assignments@.pod_worker[pod_id] == worker_id
            &&& after.next_port == before.next_port + 1
        },
        before.active_workers@.contains_key(worker_id) && !snapshot.pods@.contains_key(pod_id)
            ==> ops.len() == 0 && after.next_port == before.next_port,
        !before.active_workers@.contains_key(worker_id) ==> {
            &&& ops.len() == 0
            &&& after.assignments == before.assignments
            &&& after.deferred_grants@ == before.deferred_grants@.push((pod_id, worker_id))
        },
{
    reveal_with_fuel(AssignmentsView::all_granted, 3);
    let one = seq![pod_id];
    assert(one.drop_last() =~= Seq::<PodId>::empty());
    assert(one.last() == pod_id);
    lemma_listed(before.assignments@.pods_of(worker_id), pod_id);
}

/// A pod whose worker is taken back has no lease any more and is not among the pods that the worker
/// is to run.
pub proof fn law_revocation_frees_worker<E>(
    before: Namespace,
    namespace_id: NamespaceId,
    pod_id: PodId,
    worker_id: WorkerId,
    snapshot: RouterSnapshot,
    peers: Seq<WgPeerOutput>,
    e: NamespaceEffectsView<E>,
    after: Namespace,
    ops: Seq<RouterOpView>,
    f: NamespaceEffectsView<E>,
)
    requires
        before.pushed(
            OrchestratorToNamespace::SchedulerDecision(
                SchedulerDecision::Revoke { namespace_id, pod_id, worker_id },
            ),
            snapshot,
            peers,
            e,
            after,
            ops,
            f,
        ),
    ensures
        f == e,
        !after.assignments@.leases.contains_key(pod_id),
        !after.assignments@.pod_worker.contains_key(pod_id),
        before.assignments@.leases.contains_key(pod_id) ==> ops.len() > 0 && ops[0] == (
        RouterOpView::DestroyLease { lease: before.assignments@.leases[pod_id] }),
        before.assignments@.pod_worker.contains_key(pod_id)
            && before.assignments@.edges.contains_key(before.assignments@.pod_worker[pod_id])
            ==> ops.len() > 0 && (ops.last() matches RouterOpView::AssignPods { worker_id: w, .. }
            && w == before.assignments@.pod_worker[pod_id]),
{
}

// ---- clients ------------------------------------------------------------------------------------

/// A patch of a spec: a name that it sets is as it says, a name that it removes and does not set is
/// gone, and any other name is as it was. The network stays.
pub proof fn law_patch_changes_what_it_names(
    current: NamespaceSpec,
    patch: NamespacePatch,
    r: NamespaceSpec,
    name: Seq<char>,
)
    requires
        is_patched(current, patch, r),
    ensures
        r.network == current.network,
        patch.workloads@.contains_key(name) ==> r.workloads@.contains_key(name)
            && r.workloads@[name] == patch.workloads@[name],
        !patch.workloads@.contains_key(name) && (exists|i: int|
            0 <= i < patch.remove_workloads@.len() && (
            #[trigger] patch.remove_workloads@[i]).id() == name) ==> !r.workloads@.contains_key(
            name,
        ),
        !patch.workloads@.contains_key(name) && !(exists|i: int|
            0 <= i < patch.remove_workloads@.len() && (
            #[trigger] patch.remove_workloads@[i]).id() == name) ==> (r.workloads@.contains_key(
            name,
        ) == current.workloads@.contains_key(name)) && (r.workloads@.contains_key(name)
            ==> r.workloads@[name] == current.workloads@[name]),
        patch.services@.contains_key(name) ==> r.services@.contains_key(name) && r.services@[name]
            == patch.services@[name],
        !patch.services@.contains_key(name) && (exists|i: int|
            0 <= i < patch.remove_services@.len() && (#[trigger] patch.remove_services@[i]).id()
                == name) ==> !r.services@.contains_key(name),
        !patch.services@.contains_key(name) && !(exists|i: int|
            0 <= i < patch.remove_services@.len() && (#[trigger] patch.remove_services@[i]).id()
                == name) ==> (r.services@.contains_key(name) == current.services@.contains_key(name))
            && (r.services@.contains_key(name) ==> r.services@[name] == current.services@[name]),
{
    assert(name_set(patch.remove_workloads@).contains(name) == (exists|i: int|
        0 <= i < patch.remove_workloads@.len() && (#[trigger] patch.remove_workloads@[i]).id()
            == name));
    assert(name_set(patch.remove_services@).contains(name) == (exists|i: int|
        0 <= i < patch.remove_services@.len() && (#[trigger] patch.remove_services@[i]).id()
            == name));
}

/// A command on a workload or a service reaches the port that it has, if it is there. The state of
/// the namespace does not change.
pub proof fn law_admin_commands_reach_their_target<E>(
    before: Namespace,
    command: ClientCommand,
    snapshot: RouterSnapshot,
    peers: Seq<WgPeerOutput>,
    e: NamespaceEffectsView<E>,
    after: Namespace,
    ops: Seq<RouterOpView>,
    f: NamespaceEffectsView<E>,
)
    requires
        before.pushed(
            OrchestratorToNamespace::ClientCommand(command),
            snapshot,
            peers,
            e,
            after,
            ops,
            f,
        ),
        command is AdminRestart || command is Scavenge || command is ActivateService,
    ensures
        after == before,
        command matches ClientCommand::AdminRestart { workload_name } ==> reaches_workload(
            before,
            workload_name@,
            AdminCmd::Restart,
            ops,
        ),
        command matches ClientCommand::Scavenge { workload_name } ==> reaches_workload(
            before,
            workload_name@,
            AdminCmd::Scavenge,
            ops,
        ),
        command matches ClientCommand::ActivateService { service_name, active } ==> {
            let table = before.management@.services;
            &&& !table.ids.contains_key(service_name@) ==> ops.len() == 0
            &&& table.ids.contains_key(service_name@) ==> ops.len() == 1 && ops[0]
                == RouterOpView::Management(
                ManagementOpView::SendActivateService {
                    port: ManagementId(table.ports[table.ids[service_name@]]),
                    service_id: ServiceId(table.ids[service_name@]),
                    active,
                },
            )
        },
{
}

/// A command reaches the port of a workload that is there.
pub open spec fn reaches_workload(
    ns: Namespace,
    name: Seq<char>,
    cmd: AdminCmd,
    ops: Seq<RouterOpView>,
) -> bool {
    let table = ns.management@.workloads;
    &&& !table.ids.contains_key(name) ==> ops.len() == 0
    &&& table.ids.contains_key(name) ==> ops.len() == 1 && ops[0] == RouterOpView::Management(
        ManagementOpView::SendAdminCommand {
            port: ManagementId(table.ports[table.ids[name]]),
            workload_id: WorkloadId(table.ids[name]),
            cmd,
        },
    )
}

/// A client that comes in gets a port under a number that was not used before, with its address, its
/// key, and the worker that it enters through. A client that leaves loses the port that its key has.
pub proof fn law_clients_come_and_go(
    ports: Map<Seq<u8>, WireGuardPeerId>,
    next: u64,
    worker_id: WorkerId,
    key: [u8; 32],
    ip: u32,
)
    requires
        next < u64::MAX,
    ensures
        ({
            let (p, n, ops) = peers_added(
                ports,
                next,
                worker_id,
                seq![WgPeerOutput::AddPeer { peer_public_key: key, peer_ip: ip }],
            );
            &&& p == ports.insert(key@, WireGuardPeerId(next))
            &&& n == next + 1
            &&& ops == seq![
                RouterOpView::CreatePeer {
                    peer: WireGuardPeerId(next),
                    info: WireGuardPeerEndpointInfo {
                        peer_ip: ip,
                        worker_id,
                        peer_public_key: key,
                    },
                },
            ]
        }),
        ({
            let (p, ops) = peers_removed(
                ports,
                seq![WgPeerOutput::RemovePeer { peer_public_key: key }],
            );
            &&& p == ports.remove(key@)
            &&& ports.contains_key(key@) ==> ops == seq![
                RouterOpView::DestroyPeer { peer: ports[key@] },
            ]
            &&& !ports.contains_key(key@) ==> ops.len() == 0
        }),
{
    reveal_with_fuel(peers_added, 2);
    reveal_with_fuel(peers_removed, 2);
    let add = seq![WgPeerOutput::AddPeer { peer_public_key: key, peer_ip: ip }];
    let remove = seq![WgPeerOutput::RemovePeer { peer_public_key: key }];
    assert(add.drop_last() =~= Seq::<WgPeerOutput>::empty());
    assert(remove.drop_last() =~= Seq::<WgPeerOutput>::empty());
    assert(peers_added(ports, next, worker_id, add).2 =~= seq![
        RouterOpView::CreatePeer {
            peer: WireGuardPeerId(next),
            info: WireGuardPeerEndpointInfo { peer_ip: ip, worker_id, peer_public_key: key },
        },
    ]);
    if ports.contains_key(key@) {
        assert(peers_removed(ports, remove).1 =~= seq![
            RouterOpView::DestroyPeer { peer: ports[key@] },
        ]);
    } else {
        assert(ports.remove(key@) =~= ports);
    }
}

/// Traffic at an address belongs to the first endpoint that has it.
pub proof fn law_traffic_finds_endpoint(endpoints: Seq<(EndpointId, EndpointSnapshot)>, ip: u32)
    ensures
        match endpoint_at(endpoints, ip) {
            Some(id) => exists|i: int|
                0 <= i < endpoints.len() && (#[trigger] endpoints[i]).0 == id && endpoints[i].1.ip
                    == ip && forall|k: int| 0 <= k < i ==> (#[trigger] endpoints[k]).1.ip != ip,
            None => forall|i: int| 0 <= i < endpoints.len() ==> (#[trigger] endpoints[i]).1.ip != ip,
        },
    decreases endpoints.len(),
{
    if endpoints.len() > 0 && endpoints[0].1.ip != ip {
        let rest = endpoints.skip(1);
        law_traffic_finds_endpoint(rest, ip);
        match endpoint_at(rest, ip) {
            Some(id) => {
                let i = choose|i: int|
                    0 <= i < rest.len() && (#[trigger] rest[i]).0 == id && rest[i].1.ip == ip
                        && forall|k: int| 0 <= k < i ==> (#[trigger] rest[k]).1.ip != ip;
                assert(endpoints[i + 1] == rest[i]);
                assert forall|k: int| 0 <= k < i + 1 implies (#[trigger] endpoints[k]).1.ip != ip by {
                    if k > 0 {
                        assert(rest[k - 1] == endpoints[k]);
                    }
                }
            },
            None => {
                assert forall|i: int| 0 <= i < endpoints.len() implies (#[trigger] endpoints[i]).1.ip
                    != ip by {
                    if i > 0 {
                        assert(rest[i - 1] == endpoints[i]);
                    }
                }
            },
        }
    }
}

// ---- the cycle ----------------------------------------------------------------------------------

/// A timer that went off reaches the machine that it was set for, and changes nothing else. Every
/// other event is taken in as the message that it stands for.
pub proof fn law_events_pass_the_boundary<E>(
    before: NamespaceWithBoundary,
    event: NamespaceCoreEvent,
    snapshot: RouterSnapshot,
    peers: Seq<WgPeerOutput>,
    e: NamespaceEffectsView<E>,
    after: NamespaceWithBoundary,
    ops: Seq<RouterOpView>,
    f: NamespaceEffectsView<E>,
)
    requires
        before.translated(event, snapshot, peers, e, after, ops, f),
    ensures
        match event {
            NamespaceCoreEvent::TimerFired { identity, .. } => {
                &&& after == before
                &&& f == e
                &&& ops.len() == 1
                &&& ops[0] matches RouterOpView::FireTimer(t) && (match identity {
                    TimerIdentity::Workload(id, key) => t == TimerFired::Workload(TIMER, id, key),
                    TimerIdentity::Service(id, key) => t == TimerFired::Service(TIMER, id, key),
                    TimerIdentity::Endpoint(id, key) => t == TimerFired::Endpoint(TIMER, id, key),
                    TimerIdentity::Pod(id, key) => t == TimerFired::Pod(TIMER, id, key),
                })
            },
            NamespaceCoreEvent::WorkerConnected { worker_id, proto_worker_id, info } => {
                before.core.pushed(
                    OrchestratorToNamespace::WorkerConnected { worker_id, proto_worker_id, info },
                    snapshot,
                    peers,
                    e,
                    after.core,
                    ops,
                    f,
                )
            },
            NamespaceCoreEvent::WorkerDisconnected { worker_id } => before.core.pushed(
                OrchestratorToNamespace::WorkerDisconnected { worker_id },
                snapshot,
                peers,
                e,
                after.core,
                ops,
                f,
            ),
            NamespaceCoreEvent::WorkerEvent(w) => before.core.pushed(
                OrchestratorToNamespace::WorkerEvent(w),
                snapshot,
                peers,
                e,
                after.core,
                ops,
                f,
            ),
            NamespaceCoreEvent::SchedulerDecision(d) => before.core.pushed(
                OrchestratorToNamespace::SchedulerDecision(d),
                snapshot,
                peers,
                e,
                after.core,
                ops,
                f,
            ),
            NamespaceCoreEvent::ClientCommand(c) => before.core.pushed(
                OrchestratorToNamespace::ClientCommand(c),
                snapshot,
                peers,
                e,
                after.core,
                ops,
                f,
            ),
            NamespaceCoreEvent::ArtifactInvalidated { artifact_port_id } => before.core.pushed(
                OrchestratorToNamespace::ArtifactInvalidated { artifact_port_id },
                snapshot,
                peers,
                e,
                after.core,
                ops,
                f,
            ),
        },
{
}

/// What the router delivers becomes actions: each change to the pods of a worker becomes one at that
/// worker, each change to an endpoint or a name that is for the own port becomes one, and
/// observations are passed on as they are. The spec and the workers of the namespace stay.
pub proof fn law_deliveries_become_actions<E>(
    before: Namespace,
    drain: RouterDrain<E>,
    after: Namespace,
    actions: ReconcileActions<E>,
    i: int,
    action: EndpointAction,
    change: DnsRegistryAction,
)
    requires
        before.reconciled(drain, after, actions),
    ensures
        actions.pod_actions@.len() == drain.workers@.len(),
        0 <= i < drain.workers@.len() ==> (match (actions.pod_actions@[i], drain.workers@[i].1) {
            (
                PodAssignmentAction::Launch { worker_id, pod_id, spec, .. },
                WorkerPortInput::AssignedPodsInput(
                    PodAssignmentDelta::Launch { pod_id: p, spec: s, .. },
                ),
            ) => worker_id == drain.workers@[i].0 && pod_id == p && spec == s,
            (
                PodAssignmentAction::Resume { worker_id, pod_id, artifact_id, spec },
                WorkerPortInput::AssignedPodsInput(
                    PodAssignmentDelta::Resume { pod_id: p, artifact_id: a, spec: s },
                ),
            ) => worker_id == drain.workers@[i].0 && pod_id == p && artifact_id == a && spec == s,
            (
                PodAssignmentAction::Stop { worker_id, pod_id },
                WorkerPortInput::AssignedPodsInput(PodAssignmentDelta::Stop { pod_id: p }),
            ) => worker_id == drain.workers@[i].0 && pod_id == p,
            (
                PodAssignmentAction::Suspend { worker_id, pod_id },
                WorkerPortInput::AssignedPodsInput(PodAssignmentDelta::Suspend { pod_id: p }),
            ) => worker_id == drain.workers@[i].0 && pod_id == p,
            _ => false,
        }),
        actions.observability_events@ == drain.observability_events@,
        0 <= i < drain.endpoints@.len() && drain.endpoints@[i].0 == before.endpoint.port() && (
        match drain.endpoints@[i].1 {
            FabricEndpointPortInput::EndpointsInput(list) => list@.contains(action),
        }) ==> actions.endpoint_actions@.contains(action),
        0 <= i < drain.names@.len() && drain.names@[i].0 == before.dns_registry.port() && (
        match drain.names@[i].1 {
            DnsRegistryPortInput::EndpointDnsInput(list) => list@.contains(change),
            DnsRegistryPortInput::WorkloadDnsInput(list) => list@.contains(change),
        }) ==> actions.dns_registry_actions@.contains(change),
        after.current_spec == before.current_spec,
        after.active_workers == before.active_workers,
        after.assignments == before.assignments,
{
    law_own_endpoint_changes_are_delivered(before.endpoint.port(), drain.endpoints@, action);
    law_own_name_changes_are_delivered(before.dns_registry.port(), drain.names@, change);
    if 0 <= i < drain.workers@.len() {
        law_pod_changes_are_addressed(drain.workers@, i);
    }
}

/// A worker whose part in the namespace could not be set up is waited for no longer, and grants that
/// were kept for it are dropped.
pub proof fn law_failed_worker_is_given_up<E>(
    before: Namespace,
    worker_id: WorkerId,
    error: String,
    snapshot: RouterSnapshot,
    peers: Seq<WgPeerOutput>,
    e: NamespaceEffectsView<E>,
    after: Namespace,
    ops: Seq<RouterOpView>,
    f: NamespaceEffectsView<E>,
    grant: (PodId, WorkerId),
)
    requires
        before.pushed(
            OrchestratorToNamespace::WorkerEvent(
                WorkerNamespaceEvent {
                    worker_id,
                    event: WorkerNamespaceEventKind::NamespaceFailed { error },
                },
            ),
            snapshot,
            peers,
            e,
            after,
            ops,
            f,
        ),
    ensures
        !after.pending_workers@.contains_key(worker_id),
        after.active_workers == before.active_workers,
        after.deferred_grants@.contains(grant) <==> before.deferred_grants@.contains(grant)
            && grant.1 != worker_id,
        ops.len() == 0,
        f == e,
{
    lemma_grants_off(before.deferred_grants@, worker_id, grant);
}

proof fn lemma_grants_off(
    grants: Seq<(PodId, WorkerId)>,
    worker_id: WorkerId,
    grant: (PodId, WorkerId),
)
    ensures
        grants_off(grants, worker_id).contains(grant) <==> grants.contains(grant) && grant.1
            != worker_id,
    decreases grants.len(),
{
    if grants.len() > 0 {
        let front = grants.drop_last();
        lemma_grants_off(front, worker_id, grant);
        assert(grants =~= front.push(grants.last()));
        lemma_contains_pushed(front, grants.last(), grant);
        lemma_contains_pushed(grants_off(front, worker_id), grants.last(), grant);
    }
}

/// Traffic that an active worker sees at the address of an endpoint is signalled to that endpoint.
/// Traffic at an address that no endpoint has, or seen by a worker that is not active, is not.
pub proof fn law_traffic_is_signalled<E>(
    before: Namespace,
    worker_id: WorkerId,
    ip: u32,
    signal: EndpointDemandSignal,
    snapshot: RouterSnapshot,
    peers: Seq<WgPeerOutput>,
    e: NamespaceEffectsView<E>,
    after: Namespace,
    ops: Seq<RouterOpView>,
    f: NamespaceEffectsView<E>,
    i: int,
)
    requires
        before.pushed(
            OrchestratorToNamespace::WorkerEvent(
                WorkerNamespaceEvent {
                    worker_id,
                    event: WorkerNamespaceEventKind::EndpointDemand { ip, signal },
                },
            ),
            snapshot,
            peers,
            e,
            after,
            ops,
            f,
        ),
        0 <= i < snapshot.endpoints.seq().len(),
        snapshot.endpoints.seq()[i].1.ip == ip,
        forall|k: int| 0 <= k < i ==> (#[trigger] snapshot.endpoints.seq()[k]).1.ip != ip,
    ensures
        f == e,
        !before.active_workers@.contains_key(worker_id) ==> ops.len() == 0 && after == before,
        before.active_workers@.contains_key(worker_id) ==> {
            let id = snapshot.endpoints.seq()[i].0;
            &&& ops.len() > 0
            &&& after.endpoint_demand@.contains_key((worker_id, id))
            &&& ops.last() == RouterOpView::Demand(
                match signal {
                    EndpointDemandSignal::Active { active } => EndpointDemandOp::SetActive {
                        port: EndpointDemandId(after.endpoint_demand@[(worker_id, id)]),
                        active,
                    },
                    EndpointDemandSignal::Traffic => EndpointDemandOp::SendTraffic {
                        port: EndpointDemandId(after.endpoint_demand@[(worker_id, id)]),
                        endpoint_id: id,
                    },
                },
            )
        },
{
    let s = snapshot.endpoints.seq();
    law_traffic_finds_endpoint(s, ip);
    let id = endpoint_at(s, ip).unwrap();
    let j = choose|j: int|
        0 <= j < s.len() && (#[trigger] s[j]).0 == id && s[j].1.ip == ip && forall|k: int|
            0 <= k < j ==> (#[trigger] s[k]).1.ip != ip;
    if j < i {
        assert(s[j].1.ip != ip);
    }
    if i < j {
        assert(s[i].1.ip != ip);
    }
}

} // verus!
