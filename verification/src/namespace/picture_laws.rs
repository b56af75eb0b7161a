//! The picture that a namespace gives of itself: its endpoints, routes and names to the workers, and
//! its status to clients.
use vstd::prelude::*;

use crate::broadcast::{law_targets, reached, targets, to_each};
use crate::ids::{NamespaceId, PodId, ServiceId, WorkerId};
use crate::namespace::command_laws::{
    is_up, lemma_broadcast, lemma_contains_pushed, lemma_sent_to_each,
};
use crate::namespace::wireguard::{ConnectResult, WgPeerOutput};
use crate::namespace::{placement_of, registry_of, routes_for, NamespaceStateMachine};
use crate::output::{ClientEventView, PodStatus};
use crate::pod_map::PodInfo;
use crate::service::ServiceState;
use crate::sorted_map::{increasing, lemma_position_unique, Key};
use crate::text::dotted;
use crate::types::{
    CommandView, EndpointKind, EndpointPlacement, EndpointPodBackend, EndpointSpec,
    FabricRouteEntry, FabricStatus, NamespaceSpec, NamespaceStatus, NamespaceWorkerState,
    WorkloadSpec,
};
use crate::workload::WorkloadState;

verus! {

/// A service is announced under the address and with the policy of its spec. The registry of names
/// gives the same address. There is a backend exactly while the service is active and its workload
/// is in the spec: the workload's address, at the worker that serves.
pub proof fn law_service_endpoint(ns: NamespaceStateMachine, i: int)
    requires
        0 <= i < ns.spec.services.seq().len(),
        increasing(ns.spec.services.seq()),
    ensures
        ns.endpoints().len() == ns.spec.workloads.seq().len() + ns.spec.services.seq().len()
            + ns.wg_peers@.len(),
        registry_of(ns.spec.services.seq()).len() == ns.spec.services.seq().len(),
        registry_of(ns.spec.services.seq())[i].name == ns.spec.services.seq()[i].0.0,
        registry_of(ns.spec.services.seq())[i].ip == ns.spec.services.seq()[i].1.ip,
        ns.endpoints()[ns.spec.workloads.seq().len() + i].ip == ns.spec.services.seq()[i].1.ip,
        ns.endpoints()[ns.spec.workloads.seq().len() + i].kind matches EndpointKind::Service {
            service_id,
            policy,
            backend,
        } && service_id == ns.spec.services.seq()[i].0 && policy
            == ns.spec.services.seq()[i].1.policy && backend == (
        if ns.services@.contains_key(service_id.id()) {
            let svc = ns.services@[service_id.id()];
            match svc.state {
                ServiceState::Active { worker_id, .. } => if ns.spec.workloads@.contains_key(
                    svc.workload_id.id(),
                ) {
                    Some(
                        EndpointPodBackend {
                            pod_ip: ns.spec.workloads@[svc.workload_id.id()].network.ip,
                            placement: Some(EndpointPlacement { worker_id }),
                            ready: true,
                        },
                    )
                } else {
                    None
                },
                _ => None,
            }
        } else {
            None
        }),
{
    lemma_position_unique(ns.spec.services.seq(), i);
}

/// A workload is announced under its address, at the worker of a pod that is its own. Without a pod
/// it is announced without a place.
pub proof fn law_workload_endpoint(ns: NamespaceStateMachine, i: int)
    requires
        0 <= i < ns.spec.workloads.seq().len(),
        increasing(ns.spec.workloads.seq()),
    ensures
        ns.endpoints()[i].ip == ns.spec.workloads.seq()[i].1.network.ip,
        ns.endpoints()[i].kind matches EndpointKind::Pod { placement } && match placement {
            Some(p) => exists|k: int|
                0 <= k < ns.pod_map.seq().len() && (#[trigger] ns.pod_map.seq()[k]).1.workload_id.id()
                    == ns.spec.workloads.seq()[i].0.id() && ns.pod_map.seq()[k].1.worker_id
                    == p.worker_id,
            None => forall|k: int|
                0 <= k < ns.pod_map.seq().len() ==> (
                #[trigger] ns.pod_map.seq()[k]).1.workload_id.id()
                    != ns.spec.workloads.seq()[i].0.id(),
        },
{
    lemma_position_unique(ns.spec.workloads.seq(), i);
    law_placement(ns.pod_map.seq(), ns.spec.workloads.seq()[i].0.id());
}

/// The place of a workload is the worker of its first pod, in the order of the pods' names.
pub proof fn law_placement(pods: Seq<(PodId, PodInfo)>, workload: Seq<char>)
    ensures
        match placement_of(pods, workload) {
            Some(p) => exists|k: int|
                0 <= k < pods.len() && (#[trigger] pods[k]).1.workload_id.id() == workload
                    && pods[k].1.worker_id == p.worker_id && forall|j: int|
                    0 <= j < k ==> (#[trigger] pods[j]).1.workload_id.id() != workload,
            None => forall|k: int|
                0 <= k < pods.len() ==> (#[trigger] pods[k]).1.workload_id.id() != workload,
        },
    decreases pods.len(),
{
    if pods.len() > 0 && pods[0].1.workload_id.id() != workload {
        let rest = pods.drop_first();
        law_placement(rest, workload);
        match placement_of(rest, workload) {
            Some(p) => {
                let k = choose|k: int|
                    0 <= k < rest.len() && (#[trigger] rest[k]).1.workload_id.id() == workload
                        && rest[k].1.worker_id == p.worker_id && forall|j: int|
                        0 <= j < k ==> (#[trigger] rest[j]).1.workload_id.id() != workload;
                assert(pods[k + 1] == rest[k]);
                assert forall|j: int| 0 <= j < k + 1 implies (
                #[trigger] pods[j]).1.workload_id.id() != workload by {
                    if j > 0 {
                        assert(rest[j - 1] == pods[j]);
                    }
                }
            },
            None => {
                assert forall|k: int| 0 <= k < pods.len() implies (
                #[trigger] pods[k]).1.workload_id.id() != workload by {
                    if k > 0 {
                        assert(rest[k - 1] == pods[k]);
                    }
                }
            },
        }
    }
}

/// A client on the network is announced under its address, at the first worker whose fabric is up if
/// there is one.
pub proof fn law_client_endpoint(ns: NamespaceStateMachine, i: int)
    requires
        0 <= i < ns.wg_peers@.len(),
    ensures
        ns.endpoints()[ns.spec.workloads.seq().len() + ns.spec.services.seq().len() + i].ip
            == ns.wg_peers@[i].client_ip,
        ns.endpoints()[ns.spec.workloads.seq().len() + ns.spec.services.seq().len() + i].kind
            matches EndpointKind::WireGuardPeer { placement } && match placement {
            Some(p) => is_first_up(ns, p.worker_id),
            None => forall|w: WorkerId| !(#[trigger] is_up(ns, w)),
        },
{
    lemma_up_targets(ns);
    lemma_first_up(ns);
}

/// The worker is the first of the namespace's, in the order of their names, whose fabric is up.
pub open spec fn is_first_up(ns: NamespaceStateMachine, w: WorkerId) -> bool {
    exists|i: int|
        0 <= i < ns.workers.seq().len() && (#[trigger] ns.workers.seq()[i]).0 == w
            && ns.workers.seq()[i].1.fabric_status == FabricStatus::Active && forall|k: int|
            0 <= k < i ==> (#[trigger] ns.workers.seq()[k]).1.fabric_status != FabricStatus::Active
}

proof fn lemma_first_target(s: Seq<(WorkerId, NamespaceWorkerState)>)
    ensures
        targets(s, None).len() > 0 ==> exists|i: int|
            0 <= i < s.len() && (#[trigger] s[i]).0 == targets(s, None)[0] && s[i].1.fabric_status
                == FabricStatus::Active && forall|k: int|
                0 <= k < i ==> (#[trigger] s[k]).1.fabric_status != FabricStatus::Active,
        targets(s, None).len() == 0 ==> forall|k: int|
            0 <= k < s.len() ==> (#[trigger] s[k]).1.fabric_status != FabricStatus::Active,
    decreases s.len(),
{
    if s.len() > 0 {
        let front = s.drop_last();
        let last = s.len() - 1;
        lemma_first_target(front);
        if targets(front, None).len() > 0 {
            let i = choose|i: int|
                0 <= i < front.len() && (#[trigger] front[i]).0 == targets(front, None)[0]
                    && front[i].1.fabric_status == FabricStatus::Active && forall|k: int|
                    0 <= k < i ==> (#[trigger] front[k]).1.fabric_status != FabricStatus::Active;
            assert(s[i] == front[i]);
            assert(targets(s, None)[0] == targets(front, None)[0]);
            assert forall|k: int| 0 <= k < i implies (#[trigger] s[k]).1.fabric_status
                != FabricStatus::Active by {
                assert(front[k] == s[k]);
            }
        } else {
            assert forall|k: int| 0 <= k < last implies (#[trigger] s[k]).1.fabric_status
                != FabricStatus::Active by {
                assert(front[k] == s[k]);
            }
            if s[last].1.fabric_status == FabricStatus::Active {
                assert(targets(s, None)[0] == s[last].0);
            }
        }
    }
}

/// The first of the workers that a command for all goes to is the first whose fabric is up.
pub proof fn lemma_first_up(ns: NamespaceStateMachine)
    ensures
        targets(ns.workers.seq(), None).len() > 0 ==> is_first_up(
            ns,
            targets(ns.workers.seq(), None)[0],
        ),
{
    let s = ns.workers.seq();
    lemma_first_target(s);
    if targets(s, None).len() > 0 {
        let i = choose|i: int|
            0 <= i < s.len() && (#[trigger] s[i]).0 == targets(s, None)[0] && s[i].1.fabric_status
                == FabricStatus::Active && forall|k: int|
                0 <= k < i ==> (#[trigger] s[k]).1.fabric_status != FabricStatus::Active;
        assert(s[i].0 == targets(s, None)[0]);
    }
}

proof fn lemma_up_targets(ns: NamespaceStateMachine)
    ensures
        forall|w: WorkerId| #[trigger]
            is_up(ns, w) <==> targets(ns.workers.seq(), None).contains(w),
        targets(ns.workers.seq(), None).len() > 0 ==> is_up(ns, targets(ns.workers.seq(), None)[0]),
{
    let all = targets(ns.workers.seq(), None);
    assert forall|w: WorkerId| #[trigger] is_up(ns, w) <==> all.contains(w) by {
        let c = ns.endpoint_sync();
        lemma_broadcast(ns, c, w, c);
        lemma_sent_to_each(all, c, w, c);
    }
    if all.len() > 0 {
        assert(all.contains(all[0]));
        assert(is_up(ns, all[0]));
    }
}

/// A worker gets a route to a pod exactly if the pod runs elsewhere and its workload is in the spec.
/// The route leads from the workload's address to the pod's worker.
pub proof fn law_routes_lead_elsewhere(
    pods: Seq<(PodId, PodInfo)>,
    workloads: Map<Seq<char>, WorkloadSpec>,
    target: Seq<char>,
    route: FabricRouteEntry,
)
    ensures
        routes_for(pods, workloads, target).contains(route) <==> exists|k: int|
            0 <= k < pods.len() && (#[trigger] pods[k]).1.worker_id.id() != target
                && workloads.contains_key(pods[k].1.workload_id.id()) && route.ip
                == workloads[pods[k].1.workload_id.id()].network.ip && route.remote_worker
                == pods[k].1.worker_id,
    decreases pods.len(),
{
    if pods.len() > 0 {
        let front = pods.drop_last();
        let last = pods.len() - 1;
        law_routes_lead_elsewhere(front, workloads, target, route);
        let info = pods[last].1;
        lemma_contains_pushed(
            routes_for(front, workloads, target),
            FabricRouteEntry {
                ip: workloads[info.workload_id.id()].network.ip,
                remote_worker: info.worker_id,
            },
            route,
        );
        if routes_for(front, workloads, target).contains(route) {
            let k = choose|k: int|
                0 <= k < front.len() && (#[trigger] front[k]).1.worker_id.id() != target
                    && workloads.contains_key(front[k].1.workload_id.id()) && route.ip
                    == workloads[front[k].1.workload_id.id()].network.ip && route.remote_worker
                    == front[k].1.worker_id;
            assert(pods[k] == front[k]);
        }
        if exists|k: int|
            0 <= k < pods.len() && (#[trigger] pods[k]).1.worker_id.id() != target
                && workloads.contains_key(pods[k].1.workload_id.id()) && route.ip
                == workloads[pods[k].1.workload_id.id()].network.ip && route.remote_worker
                == pods[k].1.worker_id {
            let k = choose|k: int|
                0 <= k < pods.len() && (#[trigger] pods[k]).1.worker_id.id() != target
                    && workloads.contains_key(pods[k].1.workload_id.id()) && route.ip
                    == workloads[pods[k].1.workload_id.id()].network.ip && route.remote_worker
                    == pods[k].1.worker_id;
            if k < last {
                assert(front[k] == pods[k]);
            }
        }
    }
}

/// The renewal of an endpoint reaches exactly the workers whose fabric is up. It carries that one
/// endpoint and takes none away.
pub proof fn law_endpoint_renewal_reaches_workers(
    ns: NamespaceStateMachine,
    service_id: ServiceId,
    workload: Seq<char>,
    w: WorkerId,
    c: CommandView,
)
    ensures
        ns.service_update(service_id, ns.service(service_id.id())).contains((w, c)) <==> {
            &&& is_up(ns, w)
            &&& ns.spec.services@.contains_key(service_id.id())
            &&& c == (CommandView::EndpointUpdate {
                namespace_id: ns.namespace_id,
                upserted: seq![
                    EndpointSpec {
                        ip: ns.spec.services@[service_id.id()].ip,
                        kind: EndpointKind::Service {
                            service_id,
                            policy: ns.spec.services@[service_id.id()].policy,
                            backend: ns.backend_of(ns.service(service_id.id())),
                        },
                    },
                ],
                removed_ips: seq![],
            })
        },
        ns.workload_update(workload).contains((w, c)) <==> {
            &&& is_up(ns, w)
            &&& ns.spec.workloads@.contains_key(workload)
            &&& c == (CommandView::EndpointUpdate {
                namespace_id: ns.namespace_id,
                upserted: seq![
                    EndpointSpec {
                        ip: ns.spec.workloads@[workload].network.ip,
                        kind: EndpointKind::Pod {
                            placement: placement_of(ns.pod_map.seq(), workload),
                        },
                    },
                ],
                removed_ips: seq![],
            })
        },
{
    let a = ns.endpoint_update(ns.service_endpoint(service_id, ns.service(service_id.id())));
    let b = ns.endpoint_update(ns.workload_endpoint(workload));
    lemma_broadcast(ns, a, w, c);
    lemma_broadcast(ns, b, w, c);
}

// ---- clients on the network ---------------------------------------------------------------------

/// A client that got an address is made known to one worker, the first one whose fabric is up. One
/// that leaves is taken away from every worker whose fabric is up.
pub proof fn law_clients_are_made_known(ns: NamespaceStateMachine, key: [u8; 32], ip: u32, w: WorkerId, c: CommandView)
    ensures
        ns.wg_commands(WgPeerOutput::AddPeer { peer_public_key: key, peer_ip: ip }).len() <= 1,
        (exists|x: WorkerId| #[trigger] is_up(ns, x)) ==> ns.wg_commands(
            WgPeerOutput::AddPeer { peer_public_key: key, peer_ip: ip },
        ).len() == 1,
        ns.wg_commands(WgPeerOutput::AddPeer { peer_public_key: key, peer_ip: ip }).contains((w, c))
            ==> is_first_up(ns, w) && c == (CommandView::AddWireGuardPeer {
            namespace_id: ns.namespace_id,
            peer_public_key: key,
            peer_ip: ip,
            preshared_key: None,
        }),
        ns.wg_commands(WgPeerOutput::RemovePeer { peer_public_key: key }).contains((w, c)) <==> (
        is_up(ns, w) && c == (CommandView::RemoveWireGuardPeer { peer_public_key: key })),
{
    lemma_up_targets(ns);
    lemma_first_up(ns);
    let up = targets(ns.workers.seq(), None);
    let remove = CommandView::RemoveWireGuardPeer { peer_public_key: key };
    lemma_sent_to_each(up, remove, w, c);
    if exists|x: WorkerId| #[trigger] is_up(ns, x) {
        let x = choose|x: WorkerId| #[trigger] is_up(ns, x);
        assert(up.contains(x));
    }
    let add = ns.wg_commands(WgPeerOutput::AddPeer { peer_public_key: key, peer_ip: ip });
    if add.contains((w, c)) {
        let k = add.index_of((w, c));
        assert(add[k] == (w, c));
    }
}

/// The commands for several outputs of the allocation are those for each of them, in order.
pub proof fn law_client_commands_in_turn(
    ns: NamespaceStateMachine,
    first: Seq<WgPeerOutput>,
    second: Seq<WgPeerOutput>,
    output: WgPeerOutput,
)
    ensures
        ns.all_wg_commands(seq![output]) == ns.wg_commands(output),
        ns.all_wg_commands(first + second) == ns.all_wg_commands(first) + ns.all_wg_commands(second),
    decreases second.len(),
{
    reveal_with_fuel(NamespaceStateMachine::all_wg_commands, 2);
    assert(seq![output].drop_last() =~= Seq::<WgPeerOutput>::empty());
    assert(ns.all_wg_commands(seq![output]) =~= ns.wg_commands(output));
    if second.len() == 0 {
        assert(first + second =~= first);
        assert(ns.all_wg_commands(first) =~= ns.all_wg_commands(first) + ns.all_wg_commands(second));
    } else {
        assert((first + second).drop_last() =~= first + second.drop_last());
        law_client_commands_in_turn(ns, first, second.drop_last(), output);
        assert(ns.all_wg_commands(first + second) =~= ns.all_wg_commands(first)
            + ns.all_wg_commands(second));
    }
}

// ---- status -------------------------------------------------------------------------------------

/// The name of the state of a workload.
pub open spec fn named(state: WorkloadState, name: Seq<char>) -> bool {
    match state {
        WorkloadState::Dormant => name == "dormant"@,
        WorkloadState::WaitingForCapacity => name == "waiting_for_capacity"@,
        WorkloadState::Launching { .. } => name == "launching"@,
        WorkloadState::Running { .. } => name == "running"@,
        WorkloadState::Suspending { .. } => name == "suspending"@,
        WorkloadState::Suspended { .. } => name == "suspended"@,
        WorkloadState::Resuming { .. } => name == "resuming"@,
    }
}

/// A status report lists every workload under its name, with its state, and with its pod where it
/// has one.
pub proof fn law_report_lists_workloads(ns: NamespaceStateMachine, i: int)
    requires
        0 <= i < ns.workloads.seq().len(),
    ensures
        ns.report().namespace_id == ns.namespace_id,
        ns.report().status == ns.status,
        ns.report().workloads.len() == ns.workloads.seq().len(),
        ns.report().workloads[i].0 == ns.workloads.seq()[i].0,
        named(ns.workloads.seq()[i].1.status.state, ns.report().workloads[i].1.state),
        ns.report().workloads[i].1.conditions == ns.workloads.seq()[i].1.conditions.seq(),
        match ns.workloads.seq()[i].1.status.state {
            WorkloadState::Launching { pod_id, .. } => ns.report().workloads[i].1.pod_id == Some(
                pod_id,
            ),
            WorkloadState::Running { pod_id, .. } => ns.report().workloads[i].1.pod_id == Some(
                pod_id,
            ),
            WorkloadState::Suspending { pod_id, .. } => ns.report().workloads[i].1.pod_id == Some(
                pod_id,
            ),
            WorkloadState::Resuming { pod_id, .. } => ns.report().workloads[i].1.pod_id == Some(
                pod_id,
            ),
            _ => ns.report().workloads[i].1.pod_id is None,
        },
{
}

/// A status report lists every service under its name, with its state, the state of its workload,
/// its address, and whether and how it is needed.
pub proof fn law_report_lists_services(ns: NamespaceStateMachine, i: int)
    requires
        0 <= i < ns.services.seq().len(),
    ensures
        ns.report().services.len() == ns.services.seq().len(),
        ns.report().services[i].0 == ns.services.seq()[i].0,
        ns.report().services[i].1.workload_id == ns.services.seq()[i].1.workload_id,
        match ns.services.seq()[i].1.state {
            ServiceState::Pending => ns.report().services[i].1.service_state == "pending"@,
            ServiceState::Idle => ns.report().services[i].1.service_state == "idle"@,
            ServiceState::NeedBackend => ns.report().services[i].1.service_state == "need_backend"@,
            ServiceState::Active { .. } => ns.report().services[i].1.service_state == "active"@,
        },
        ns.services.seq()[i].1.state matches ServiceState::Active { backend_need, .. }
            ==> ns.report().services[i].1.backend_need == Some(backend_need),
        !(ns.services.seq()[i].1.state is Active) ==> ns.report().services[i].1.backend_need is None,
        ns.report().services[i].1.activation_enabled == ns.services.seq()[i].1.has_activation,
        ns.spec.services@.contains_key(ns.services.seq()[i].0.id())
            ==> ns.report().services[i].1.ip == dotted(
            ns.spec.services@[ns.services.seq()[i].0.id()].ip,
        ),
        ns.workloads@.contains_key(ns.services.seq()[i].1.workload_id.id()) ==> named(
            ns.workloads@[ns.services.seq()[i].1.workload_id.id()].status.state,
            ns.report().services[i].1.workload_state,
        ),
        !ns.workloads@.contains_key(ns.services.seq()[i].1.workload_id.id())
            ==> ns.report().services[i].1.workload_state == "dormant"@
            && ns.report().services[i].1.pod_id is None
            && ns.report().services[i].1.worker_id is None,
        ns.workloads@.contains_key(ns.services.seq()[i].1.workload_id.id()) ==> (
        match ns.workloads@[ns.services.seq()[i].1.workload_id.id()].status.state {
            WorkloadState::Launching { pod_id, worker_id, .. } => {
                ns.report().services[i].1.pod_id == Some(pod_id)
                    && ns.report().services[i].1.worker_id == Some(worker_id)
            },
            WorkloadState::Running { pod_id, worker_id } => {
                ns.report().services[i].1.pod_id == Some(pod_id)
                    && ns.report().services[i].1.worker_id == Some(worker_id)
            },
            WorkloadState::Suspending { pod_id, worker_id, .. } => {
                ns.report().services[i].1.pod_id == Some(pod_id)
                    && ns.report().services[i].1.worker_id == Some(worker_id)
            },
            WorkloadState::Resuming { pod_id, worker_id, .. } => {
                ns.report().services[i].1.pod_id == Some(pod_id)
                    && ns.report().services[i].1.worker_id == Some(worker_id)
            },
            _ => ns.report().services[i].1.pod_id is None
                && ns.report().services[i].1.worker_id is None,
        }),
        ns.workloads@.contains_key(ns.services.seq()[i].1.workload_id.id())
            ==> ns.report().services[i].1.workload_conditions
            == ns.workloads@[ns.services.seq()[i].1.workload_id.id()].conditions.seq(),
        ns.report().services[i].1.service_conditions == ns.services.seq()[i].1.conditions.seq(),
{
}

/// A status report lists every pod with its workload, its worker and its address. A pod counts as
/// running exactly if its workload runs in it.
pub proof fn law_report_lists_pods(ns: NamespaceStateMachine, i: int)
    requires
        0 <= i < ns.pod_map.seq().len(),
    ensures
        ns.report().pods.len() == ns.pod_map.seq().len(),
        ns.report().pods[i].pod_id == ns.pod_map.seq()[i].0,
        ns.report().pods[i].workload_id == ns.pod_map.seq()[i].1.workload_id,
        ns.report().pods[i].worker_id == ns.pod_map.seq()[i].1.worker_id,
        ns.spec.workloads@.contains_key(ns.pod_map.seq()[i].1.workload_id.id())
            ==> ns.report().pods[i].ip == dotted(
            ns.spec.workloads@[ns.pod_map.seq()[i].1.workload_id.id()].network.ip,
        ),
        ns.report().pods[i].state == PodStatus::Running <==> (ns.workloads@.contains_key(
            ns.pod_map.seq()[i].1.workload_id.id(),
        ) && (ns.workloads@[ns.pod_map.seq()[i].1.workload_id.id()].status.state matches
            WorkloadState::Running { pod_id, .. } && pod_id.id() == ns.pod_map.seq()[i].0.id())),
        ns.report().pods[i].state != PodStatus::Running ==> ns.report().pods[i].state
            == PodStatus::Launching,
{
}

/// A client that is let in is told its own address, the network that it is in, and the key and the
/// address of the worker that it enters through. One that is not is told why.
pub proof fn law_connection_is_answered(
    client_ip: u32,
    outputs: Vec<WgPeerOutput>,
    message: String,
    key: [u8; 32],
    endpoint: Seq<char>,
    subnet: Seq<char>,
)
    ensures
        NamespaceStateMachine::connect_answer(
            ConnectResult::Connected { client_ip, outputs },
            key,
            endpoint,
            subnet,
        ) == (ClientEventView::ConnectResult {
            server_public_key: key,
            endpoint,
            client_ip: dotted(client_ip),
            subnet,
        }),
        NamespaceStateMachine::connect_answer(
            ConnectResult::Error { message },
            key,
            endpoint,
            subnet,
        ) == (ClientEventView::Error { message: message@ }),
{
}

/// A new namespace waits for its first worker. Its workloads rest, its services have not started,
/// and each service belongs to the workload that the spec gives it.
pub proof fn law_new_namespace_is_at_rest(
    ns: NamespaceStateMachine,
    namespace_id: NamespaceId,
    spec: NamespaceSpec,
    segment_id: u16,
    name: Seq<char>,
)
    requires
        ns.fresh(namespace_id, spec, segment_id),
    ensures
        ns.namespace_id == namespace_id,
        ns.spec == spec,
        ns.segment_id == segment_id,
        ns.status == NamespaceStatus::Creating,
        ns.workloads@.contains_key(name) <==> spec.workloads@.contains_key(name),
        ns.workloads@.contains_key(name) ==> ns.workloads@[name].status.state
            == WorkloadState::Dormant && ns.workloads@[name].status.current_demand == 0
            && ns.workloads@[name].suspend_on_idle == spec.workloads@[name].suspend_on_idle,
        ns.services@.contains_key(name) <==> spec.services@.contains_key(name),
        ns.services@.contains_key(name) ==> {
            &&& ns.services@[name].state == ServiceState::Pending
            &&& ns.services@[name].service_id.id() == name
            &&& ns.services@[name].workload_id == spec.services@[name].workload_id
            &&& ns.services@[name].has_activation <==> spec.services@[name].activation is Some
            &&& spec.services@[name].activation matches Some(a)
                ==> ns.services@[name].idle_timeout_ms == a.idle_timeout_ms
            &&& spec.services@[name].activation is None ==> ns.services@[name].idle_timeout_ms
                == 30_000
            &&& ns.service_workload@.contains_key(name)
            &&& ns.service_workload@[name] == spec.services@[name].workload_id
        },
        !ns.pod_map@.contains_key(name),
        !ns.workers@.contains_key(name),
        !ns.active_flows@.contains_key(name),
        ns.wg_peers@.len() == 0,
{
    assert(ns.workloads@.dom().contains(name) == spec.workloads@.dom().contains(name));
    assert(ns.services@.dom().contains(name) == spec.services@.dom().contains(name));
    assert(ns.service_workload@.dom().contains(name) == spec.services@.dom().contains(name));
}

/// A change of one route. The removal of a route reaches every worker whose fabric is up, and a new
/// route every such worker but the pod's own: it leads from the pod's address to the pod's worker.
pub proof fn law_route_changes_reach_workers(
    ns: NamespaceStateMachine,
    ip: u32,
    host: WorkerId,
    w: WorkerId,
    c: CommandView,
)
    ensures
        ns.broadcast(ns.route_remove(ip)).contains((w, c)) <==> is_up(ns, w) && c == (
        CommandView::FabricRouteUpdate {
            namespace_id: ns.namespace_id,
            added: seq![],
            removed_ips: seq![ip],
        }),
        to_each(targets(ns.workers.seq(), Some(host.id())), ns.route_add(ip, host)).contains((w, c))
            <==> is_up(ns, w) && w.id() != host.id() && c == (CommandView::FabricRouteUpdate {
            namespace_id: ns.namespace_id,
            added: seq![FabricRouteEntry { ip, remote_worker: host }],
            removed_ips: seq![],
        }),
{
    let s = ns.workers.seq();
    lemma_broadcast(ns, ns.route_remove(ip), w, c);
    lemma_sent_to_each(targets(s, Some(host.id())), ns.route_add(ip, host), w, c);
    law_targets(s, Some(host.id()), w);
    if reached(s, Some(host.id()), w) {
        let i = choose|i: int|
            0 <= i < s.len() && (#[trigger] s[i]).0 == w && s[i].1.fabric_status
                == FabricStatus::Active && Some(host.id()) != Some(w.id());
        assert(s[i].0 == w);
        assert(w.id() != host.id());
        assert(is_up(ns, w));
    }
    if is_up(ns, w) && w.id() != host.id() {
        let i = choose|i: int|
            0 <= i < s.len() && (#[trigger] s[i]).0 == w && s[i].1.fabric_status
                == FabricStatus::Active;
        assert(s[i].0 == w);
        assert(reached(s, Some(host.id()), w));
    }
}

/// All routes of a worker, as they are sent to it: the routes to the pods of the namespace that run
/// elsewhere.
pub proof fn law_all_routes_are_sent(
    ns: NamespaceStateMachine,
    worker: Seq<char>,
    route: FabricRouteEntry,
)
    ensures
        ns.route_sync(worker) matches CommandView::FabricRouteSync { namespace_id, routes }
            && namespace_id == ns.namespace_id && (routes.contains(route) <==> exists|k: int|
            0 <= k < ns.pod_map.seq().len() && (#[trigger] ns.pod_map.seq()[k]).1.worker_id.id()
                != worker && ns.spec.workloads@.contains_key(
                ns.pod_map.seq()[k].1.workload_id.id(),
            ) && route.ip == ns.spec.workloads@[ns.pod_map.seq()[k].1.workload_id.id()].network.ip
                && route.remote_worker == ns.pod_map.seq()[k].1.worker_id),
{
    law_routes_lead_elsewhere(ns.pod_map.seq(), ns.spec.workloads@, worker, route);
}

} // verus!
