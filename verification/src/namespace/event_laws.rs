//! What reports of workers, lost workers and timers do to a namespace.
use vstd::prelude::*;

use crate::ids::{ArtifactId, ClientId, PodId, PoolId, ServiceId, WorkerId, WorkloadId};
use crate::namespace::command_laws::{is_up, lemma_broadcast, lemma_contains_pushed, sits};
use crate::namespace::events::{
    concerned, hosted, law_loss_reaches_hosted, law_unique, lists, loss_told, retires_on,
    retiring_on, stale, workload_at, WorkerEvent,
};
use crate::namespace::step::NamespaceInput;
use crate::namespace::{placement_of, FollowUp, NamespaceStateMachine};
use crate::output::{ClientEventView, EventView, OutputView, WorkloadEventView};
use crate::placement::{ArtifactPlacement, ArtifactStatus};
use crate::service::ServiceState;
use crate::sorted_map::{
    has_key, increasing, lemma_contains_either, lemma_position_unique, position, Key,
};
use crate::types::{
    BackendNeed, CommandView, EndpointKind, EndpointSpec, FabricStatus, NamespaceSpec,
    NamespaceStatus, TimerKey, WorkloadSpec,
};
use crate::workload::{PodGoneReason, Workload, WorkloadInput, WorkloadState};

verus! {

/// The names of the services and their addresses, as a namespace's spec has them.
pub open spec fn tells_names(ns: NamespaceStateMachine, c: CommandView) -> bool {
    &&& c matches CommandView::RegistrySync { namespace_id, entries }
    &&& namespace_id == ns.namespace_id
    &&& entries.len() == ns.spec.services.seq().len()
    &&& forall|i: int|
        0 <= i < entries.len() ==> (#[trigger] entries[i]).name == ns.spec.services.seq()[i].0.0
            && entries[i].ip == ns.spec.services.seq()[i].1.ip
}

/// All endpoints of a namespace: one for each workload, service and client.
pub open spec fn tells_endpoints(ns: NamespaceStateMachine, c: CommandView) -> bool {
    let w = ns.spec.workloads.seq();
    let s = ns.spec.services.seq();
    &&& c matches CommandView::EndpointSync { namespace_id, endpoints }
    &&& namespace_id == ns.namespace_id
    &&& endpoints.len() == w.len() + s.len() + ns.wg_peers@.len()
    &&& forall|i: int|
        0 <= i < w.len() ==> (#[trigger] endpoints[i]).ip == ns.spec.workloads@[w[i].0.id()].network.ip
            && endpoints[i].kind is Pod
    &&& forall|i: int|
        0 <= i < s.len() ==> (#[trigger] endpoints[w.len() + i]).ip
            == ns.spec.services@[s[i].0.id()].ip && (endpoints[w.len() + i].kind matches
            EndpointKind::Service { service_id, policy, .. } && service_id == s[i].0 && policy
            == ns.spec.services@[s[i].0.id()].policy)
    &&& forall|i: int|
        0 <= i < ns.wg_peers@.len() ==> (#[trigger] endpoints[w.len() + s.len() + i]).ip
            == ns.wg_peers@[i].client_ip && endpoints[w.len() + s.len() + i].kind is WireGuardPeer
}

/// When a worker says that its fabric is up, it counts as active from then on, and so does a
/// namespace that waited for this. A namespace that becomes active so tells all names and endpoints
/// to every worker whose fabric is up, and checks the demand for each of its workloads. One that was
/// active tells them to the new worker.
pub proof fn law_fabric_comes_up(
    before: NamespaceStateMachine,
    worker_id: WorkerId,
    placements: Map<Seq<char>, ArtifactPlacement>,
    after: NamespaceStateMachine,
    placements_after: Map<Seq<char>, ArtifactPlacement>,
    out: OutputView,
    next: Seq<FollowUp>,
    w: WorkerId,
    i: int,
)
    requires
        before.takes(
            NamespaceInput::WorkerEvent { worker_id, event: WorkerEvent::NamespaceCreated },
            placements,
            after,
            placements_after,
            out,
            next,
        ),
        before.workers@.contains_key(worker_id.id()),
        before.workers@[worker_id.id()].fabric_status == FabricStatus::Creating,
        before.status != NamespaceStatus::Destroying,
        increasing(before.workers.seq()),
        increasing(after.workers.seq()),
        0 <= i < before.workers.seq().len(),
    ensures
        after.workers@.contains_key(worker_id.id()),
        after.workers@[worker_id.id()].fabric_status == FabricStatus::Active,
        before.workers.seq()[i].0.id() != worker_id.id() ==> after.workers.seq()[i]
            == before.workers.seq()[i],
        after.status == NamespaceStatus::Active,
        before.status == NamespaceStatus::Creating ==> {
            &&& is_up(after, w) ==> exists|c: CommandView| #[trigger]
                out.worker_commands.contains((w, c)) && tells_names(after, c)
            &&& is_up(after, w) ==> exists|c: CommandView| #[trigger]
                out.worker_commands.contains((w, c)) && tells_endpoints(after, c)
            &&& next.len() == before.workloads.seq().len()
            &&& forall|k: int|
                0 <= k < next.len() ==> #[trigger] next[k] == (FollowUp::ReconcileDemand {
                    workload_id: before.workloads.seq()[k].0,
                })
        },
        before.status == NamespaceStatus::Active ==> {
            &&& exists|c: CommandView| #[trigger]
                out.worker_commands.contains((worker_id, c)) && tells_names(after, c)
            &&& exists|c: CommandView| #[trigger]
                out.worker_commands.contains((worker_id, c)) && tells_endpoints(after, c)
            &&& next.len() == 0
        },
{
    let s = before.workers.seq();
    let t = after.workers.seq();
    assert(has_key(s, worker_id.id()));
    let p = position(s, worker_id.id());
    assert(0 <= p < s.len() && s[p].0.id() == worker_id.id());
    lemma_position_unique(s, p);
    lemma_position_unique(t, p);
    assert(t[p].1.fabric_status == FabricStatus::Active);
    let names = after.registry_sync();
    let ends = after.endpoint_sync();
    let a = OutputView::nothing().worker_commands;
    if before.status == NamespaceStatus::Creating {
        lemma_broadcast(after, names, w, names);
        lemma_broadcast(after, ends, w, ends);
        lemma_contains_either(a, after.broadcast(names), (w, names));
        lemma_contains_either(
            a + after.broadcast(names),
            after.broadcast(ends),
            (w, names),
        );
        lemma_contains_either(
            a + after.broadcast(names),
            after.broadcast(ends),
            (w, ends),
        );
        assert(tells_names(after, names));
        assert(tells_endpoints(after, ends));
        if is_up(after, w) {
            assert(out.worker_commands.contains((w, names)));
            assert(out.worker_commands.contains((w, ends)));
        }
    } else {
        lemma_contains_pushed(a, (worker_id, names), (worker_id, names));
        lemma_contains_pushed(a.push((worker_id, names)), (worker_id, ends), (worker_id, names));
        lemma_contains_pushed(a.push((worker_id, names)), (worker_id, ends), (worker_id, ends));
        assert(tells_names(after, names));
        assert(tells_endpoints(after, ends));
        assert(out.worker_commands.contains((worker_id, names)));
        assert(out.worker_commands.contains((worker_id, ends)));
    }
}

/// When a known pod comes to its end, it is forgotten and no other pod is. Its workload learns what
/// happened, and the demand for it is checked. Every worker whose fabric is up learns where the
/// workload's address leads now.
pub proof fn law_pod_end_reaches_workload(
    before: NamespaceStateMachine,
    worker_id: WorkerId,
    event: WorkerEvent,
    placements: Map<Seq<char>, ArtifactPlacement>,
    after: NamespaceStateMachine,
    placements_after: Map<Seq<char>, ArtifactPlacement>,
    out: OutputView,
    next: Seq<FollowUp>,
    pod: PodId,
    told: WorkloadInput,
    w: WorkerId,
)
    requires
        before.takes(
            NamespaceInput::WorkerEvent { worker_id, event },
            placements,
            after,
            placements_after,
            out,
            next,
        ),
        before.workers@.contains_key(worker_id.id()),
        before.status != NamespaceStatus::Destroying,
        before.pod_map@.contains_key(pod.id()),
        before.workloads@.contains_key(before.pod_map@[pod.id()].workload_id.id()),
        match event {
            WorkerEvent::PodExited { pod_id, exit_code } => pod_id == pod && told == (
            WorkloadInput::PodGone { pod_id: pod, reason: PodGoneReason::Exited { exit_code } }),
            WorkerEvent::PodFailed { pod_id, error } => pod_id == pod && told == (
            WorkloadInput::PodGone { pod_id: pod, reason: PodGoneReason::Failed { error } }),
            WorkerEvent::PodSuspended { pod_id, artifact_id, .. } => pod_id == pod && told == (
            WorkloadInput::PodSuspended { pod_id: pod, artifact_id }),
            WorkerEvent::PodSuspendFailed { pod_id, .. } => pod_id == pod && told == (
            WorkloadInput::PodSuspendFailed { pod_id: pod }),
            _ => false,
        },
    ensures
        after.pod_map@ == before.pod_map@.remove(pod.id()),
        after.workloads == before.workloads,
        after.services == before.services,
        after.status == before.status,
        next.len() == 2,
        next[0] == (FollowUp::StepWorkload {
            workload_id: before.pod_map@[pod.id()].workload_id,
            input: told,
            retry: false,
        }),
        next[1] == (FollowUp::ReconcileDemand {
            workload_id: before.pod_map@[pod.id()].workload_id,
        }),
        out.events == seq![
            EventView::Workload {
                workload_id: before.pod_map@[pod.id()].workload_id,
                event: match event {
                    WorkerEvent::PodExited { exit_code, .. } => WorkloadEventView::PodStopped {
                        exit_code,
                    },
                    WorkerEvent::PodFailed { error, .. } => WorkloadEventView::PodFailed {
                        reason: error@,
                    },
                    WorkerEvent::PodSuspended { artifact_id, .. } => {
                        WorkloadEventView::PodSuspended {
                            worker_id: before.pod_map@[pod.id()].worker_id,
                            artifact_id,
                        }
                    },
                    WorkerEvent::PodSuspendFailed { error, .. } => {
                        WorkloadEventView::PodSuspendFailed { reason: error@ }
                    },
                    _ => arbitrary(),
                },
            },
        ],
        is_up(before, w) && before.spec.workloads@.contains_key(
            before.pod_map@[pod.id()].workload_id.id(),
        ) ==> exists|c: CommandView| #[trigger]
            out.worker_commands.contains((w, c)) && (c matches CommandView::EndpointUpdate {
                namespace_id,
                upserted,
                removed_ips,
            } && namespace_id == before.namespace_id && removed_ips.len() == 0 && upserted == seq![
                EndpointSpec {
                    ip: before.spec.workloads@[before.pod_map@[pod.id()].workload_id.id()].network.ip,
                    kind: EndpointKind::Pod {
                        placement: placement_of(
                            after.pod_map.seq(),
                            before.pod_map@[pod.id()].workload_id.id(),
                        ),
                    },
                },
            ]),
{
    let wl = before.pod_map@[pod.id()].workload_id.id();
    assert(out.events =~= seq![out.events[0]]);
    if is_up(before, w) && before.spec.workloads@.contains_key(wl) {
        let c = after.endpoint_update(after.workload_endpoint(wl));
        assert(is_up(after, w)) by {
            let k = choose|k: int|
                0 <= k < before.workers.seq().len() && (#[trigger] before.workers.seq()[k]).0 == w
                    && before.workers.seq()[k].1.fabric_status == FabricStatus::Active;
            assert(after.workers.seq()[k].0 == w);
        }
        lemma_broadcast(after, c, w, c);
        lemma_contains_either(OutputView::nothing().worker_commands, after.broadcast(c), (w, c));
        assert(out.worker_commands.contains((w, c)));
    }
}

/// When a known pod runs, its workload learns of it, and the demand for it is checked.
pub proof fn law_running_pod_reaches_workload(
    before: NamespaceStateMachine,
    worker_id: WorkerId,
    pod_id: PodId,
    placements: Map<Seq<char>, ArtifactPlacement>,
    after: NamespaceStateMachine,
    placements_after: Map<Seq<char>, ArtifactPlacement>,
    out: OutputView,
    next: Seq<FollowUp>,
)
    requires
        before.takes(
            NamespaceInput::WorkerEvent { worker_id, event: WorkerEvent::PodRunning { pod_id } },
            placements,
            after,
            placements_after,
            out,
            next,
        ),
        before.workers@.contains_key(worker_id.id()),
        before.status != NamespaceStatus::Destroying,
        before.pod_map@.contains_key(pod_id.id()),
        before.workloads@.contains_key(before.pod_map@[pod_id.id()].workload_id.id()),
    ensures
        after == before,
        placements_after == placements,
        out.worker_commands.len() == 0,
        out.events == seq![
            EventView::Workload {
                workload_id: before.pod_map@[pod_id.id()].workload_id,
                event: WorkloadEventView::PodRunning {
                    pod_id,
                    worker_id: before.pod_map@[pod_id.id()].worker_id,
                },
            },
        ],
        next == seq![
            FollowUp::StepWorkload {
                workload_id: before.pod_map@[pod_id.id()].workload_id,
                input: WorkloadInput::PodRunning { pod_id },
                retry: false,
            },
            FollowUp::ReconcileDemand { workload_id: before.pod_map@[pod_id.id()].workload_id },
        ],
{
    assert(out.events =~= seq![out.events[0]]);
    assert(next =~= seq![
        FollowUp::StepWorkload {
            workload_id: before.pod_map@[pod_id.id()].workload_id,
            input: WorkloadInput::PodRunning { pod_id },
            retry: false,
        },
        FollowUp::ReconcileDemand { workload_id: before.pod_map@[pod_id.id()].workload_id },
    ]);
}

/// What a worker says of a snapshot is written down: where it is being written, and that it is
/// ready. Nothing else changes.
pub proof fn law_snapshot_reports_are_kept(
    before: NamespaceStateMachine,
    worker_id: WorkerId,
    event: WorkerEvent,
    placements: Map<Seq<char>, ArtifactPlacement>,
    after: NamespaceStateMachine,
    placements_after: Map<Seq<char>, ArtifactPlacement>,
    out: OutputView,
    next: Seq<FollowUp>,
)
    requires
        before.takes(
            NamespaceInput::WorkerEvent { worker_id, event },
            placements,
            after,
            placements_after,
            out,
            next,
        ),
        before.workers@.contains_key(worker_id.id()),
        before.status != NamespaceStatus::Destroying,
        event is ArtifactWriteStarted || event is ArtifactWriteCommitted,
    ensures
        after == before,
        next.len() == 0,
        out.worker_commands.len() == 0,
        event matches WorkerEvent::ArtifactWriteStarted { artifact_id, pool_id }
            ==> placements_after == placements.insert(
            artifact_id.id(),
            ArtifactPlacement { pool_id, worker_id, status: ArtifactStatus::Writing },
        ),
        event matches WorkerEvent::ArtifactWriteCommitted { artifact_id, .. } ==> {
            &&& placements_after.dom() == placements.dom()
            &&& placements.contains_key(artifact_id.id()) ==> {
                &&& placements_after[artifact_id.id()].status == ArtifactStatus::Ready
                &&& placements_after[artifact_id.id()].pool_id
                    == placements[artifact_id.id()].pool_id
                &&& placements_after[artifact_id.id()].worker_id
                    == placements[artifact_id.id()].worker_id
            }
            &&& forall|a: Seq<char>|
                a != artifact_id.id() && #[trigger] placements.contains_key(a)
                    ==> placements_after[a] == placements[a]
        },
{
    if let WorkerEvent::ArtifactWriteCommitted { artifact_id, .. } = event {
        assert(placements_after.dom() =~= placements.dom());
    }
}

/// A worker that says that it has destroyed a namespace on its way out is waited for no longer. The
/// namespace is gone exactly when no other worker is waited for.
pub proof fn law_last_worker_ends_namespace(
    before: NamespaceStateMachine,
    worker_id: WorkerId,
    placements: Map<Seq<char>, ArtifactPlacement>,
    after: NamespaceStateMachine,
    placements_after: Map<Seq<char>, ArtifactPlacement>,
    out: OutputView,
    next: Seq<FollowUp>,
)
    requires
        before.takes(
            NamespaceInput::WorkerEvent { worker_id, event: WorkerEvent::NamespaceDestroyed },
            placements,
            after,
            placements_after,
            out,
            next,
        ),
        before.workers@.contains_key(worker_id.id()),
        before.status == NamespaceStatus::Destroying,
    ensures
        after.workers@ == before.workers@.remove(worker_id.id()),
        after.status == NamespaceStatus::Destroying,
        out.destroyed <==> after.workers.seq().len() == 0,
        after.workers.seq().len() == before.workers.seq().len() - 1,
        next.len() == 0,
        out.worker_commands.len() == 0,
{
    let s = before.workers.seq();
    assert(has_key(s, worker_id.id()));
    let p = position(s, worker_id.id());
    assert(0 <= p < s.len() && s[p].0.id() == worker_id.id());
}

/// A lost worker that leaves the list of a namespace on its way out ends it if it was the last one.
/// An active namespace without workers waits for one again; with workers it checks the demand for
/// each of its workloads.
pub proof fn law_lost_worker_leaves(
    before: NamespaceStateMachine,
    worker_id: WorkerId,
    after: NamespaceStateMachine,
    out: OutputView,
    out_after: OutputView,
    next: Seq<FollowUp>,
)
    requires
        before.follows(FollowUp::DropWorker { worker_id }, after, out, out_after, next),
    ensures
        after.workers@ == before.workers@.remove(worker_id.id()),
        before.status == NamespaceStatus::Destroying ==> after.status
            == NamespaceStatus::Destroying && next.len() == 0 && (out_after.destroyed
            <==> out.destroyed || after.workers.seq().len() == 0),
        before.status != NamespaceStatus::Destroying ==> out_after == out,
        before.status == NamespaceStatus::Creating ==> after.status == NamespaceStatus::Creating
            && next.len() == 0,
        before.status == NamespaceStatus::Active && after.workers.seq().len() == 0 ==> after.status
            == NamespaceStatus::Creating && next.len() == 0,
        before.status == NamespaceStatus::Active && after.workers.seq().len() > 0 ==> after.status
            == NamespaceStatus::Active && next.len() == before.workloads.seq().len() && forall|
            k: int,
        |
            0 <= k < next.len() ==> #[trigger] next[k] == (FollowUp::ReconcileDemand {
                workload_id: before.workloads.seq()[k].0,
            }),
        after.workloads == before.workloads,
        after.services == before.services,
        after.pod_map == before.pod_map,
{
}

proof fn lemma_loss_told(list: Seq<WorkloadId>, worker_id: WorkerId, i: int)
    requires
        0 <= i < list.len(),
    ensures
        loss_told(list, worker_id).len() == 2 * list.len(),
        loss_told(list, worker_id)[2 * i] == (FollowUp::StepWorkload {
            workload_id: list[i],
            input: WorkloadInput::WorkerLost { worker_id },
            retry: false,
        }),
        loss_told(list, worker_id)[2 * i + 1] == (FollowUp::ReconcileDemand {
            workload_id: list[i],
        }),
    decreases list.len(),
{
    let front = list.drop_last();
    reveal_with_fuel(loss_told, 2);
    if i < front.len() {
        lemma_loss_told(front, worker_id, i);
    } else if front.len() > 0 {
        lemma_loss_told(front, worker_id, 0);
    }
}

/// When a worker is lost, its pods and its snapshots are forgotten and no others. Every workload
/// with a pod on it learns of the loss, and the demand for it is checked. The worker itself goes
/// last.
pub proof fn law_lost_worker_takes_its_pods(
    before: NamespaceStateMachine,
    worker_id: WorkerId,
    placements: Map<Seq<char>, ArtifactPlacement>,
    after: NamespaceStateMachine,
    placements_after: Map<Seq<char>, ArtifactPlacement>,
    out: OutputView,
    next: Seq<FollowUp>,
    name: Seq<char>,
    i: int,
    pod: PodId,
    host: WorkerId,
)
    requires
        before.takes(
            NamespaceInput::WorkerLost { worker_id },
            placements,
            after,
            placements_after,
            out,
            next,
        ),
    ensures
        after.pod_map@.contains_key(name) <==> before.pod_map@.contains_key(name)
            && before.pod_map@[name].worker_id.id() != worker_id.id(),
        after.pod_map@.contains_key(name) ==> after.pod_map@[name] == before.pod_map@[name],
        placements_after.contains_key(name) <==> placements.contains_key(name)
            && placements[name].worker_id.id() != worker_id.id(),
        placements_after.contains_key(name) ==> placements_after[name] == placements[name],
        after.workers == before.workers,
        after.status == before.status,
        next.len() > 0,
        next.last() == (FollowUp::DropWorker { worker_id }),
        0 <= i < before.workloads.seq().len() && sits(
            before.workloads.seq()[i].1.status.state,
            pod,
            host,
        ) && host.id() == worker_id.id() ==> exists|k: int|
            #![trigger next[k]]
            0 <= k < next.len() - 2 && (next[k] matches FollowUp::StepWorkload {
                workload_id,
                input,
                retry,
            } && workload_id.id() == before.workloads.seq()[i].0.id() && input == (
            WorkloadInput::WorkerLost { worker_id }) && !retry && next[k + 1] == (
            FollowUp::ReconcileDemand { workload_id })),
{
    let s = before.workloads.seq();
    if 0 <= i < s.len() && sits(s[i].1.status.state, pod, host) && host.id() == worker_id.id() {
        law_loss_reaches_hosted(s, placements_after, worker_id.id(), i);
        let list = concerned(s, placements_after, worker_id.id());
        let j = choose|j: int| 0 <= j < list.len() && (#[trigger] list[j]).id() == s[i].0.id();
        lemma_loss_told(list, worker_id, j);
        assert(next[2 * j] == loss_told(list, worker_id)[2 * j]);
        assert(next[2 * j + 1] == loss_told(list, worker_id)[2 * j + 1]);
    }
}

/// Traffic to a service of the namespace wakes it if it sleeps. A need for its backend is passed on
/// to it. Open or closed flows are noted for the workload whose address they are at, and for no
/// other. Each of these has the demand for the workload checked.
pub proof fn law_traffic_reports(
    before: NamespaceStateMachine,
    worker_id: WorkerId,
    event: WorkerEvent,
    placements: Map<Seq<char>, ArtifactPlacement>,
    after: NamespaceStateMachine,
    placements_after: Map<Seq<char>, ArtifactPlacement>,
    out: OutputView,
    next: Seq<FollowUp>,
    other: Seq<char>,
)
    requires
        before.takes(
            NamespaceInput::WorkerEvent { worker_id, event },
            placements,
            after,
            placements_after,
            out,
            next,
        ),
        before.workers@.contains_key(worker_id.id()),
        before.status != NamespaceStatus::Destroying,
    ensures
        event matches WorkerEvent::EndpointActivation { service_id: Some(id), .. }
            && before.services@.contains_key(id.id()) ==> {
            &&& after.services@[event->EndpointActivation_service_id.unwrap().id()].state == (
            if before.services@[event->EndpointActivation_service_id.unwrap().id()].state is Idle {
                ServiceState::NeedBackend
            } else {
                before.services@[event->EndpointActivation_service_id.unwrap().id()].state
            })
            &&& next == seq![
                FollowUp::ReconcileDemand {
                    workload_id: before.services@[event->EndpointActivation_service_id.unwrap().id()].workload_id,
                },
            ]
        },
        event matches WorkerEvent::ServiceBackendNeed { service_id, need }
            && before.services@.contains_key(service_id.id())
            && before.services@[service_id.id()].state is Active ==> {
            &&& after.services@[event->ServiceBackendNeed_service_id.id()].state is Active
            &&& after.services@[event->ServiceBackendNeed_service_id.id()].state->backend_need
                == event->need
            &&& next == seq![
                FollowUp::ReconcileDemand {
                    workload_id: before.services@[event->ServiceBackendNeed_service_id.id()].workload_id,
                },
            ]
        },
        event matches WorkerEvent::EndpointFlowStatus {
            service_id: Some(id),
            has_active_flows,
            ..
        } && before.service_workload@.contains_key(id.id()) ==> {
            let target = before.service_workload@[event->EndpointFlowStatus_service_id.unwrap().id()];
            &&& after.active_flows@.contains_key(target.id()) <==> event->has_active_flows
            &&& other != target.id() ==> after.active_flows@.contains_key(other)
                == before.active_flows@.contains_key(other)
            &&& next == seq![FollowUp::ReconcileDemand { workload_id: target }]
        },
{
}

/// A timer that went off reaches the service or the workload that it was set for. A pod stays until
/// its worker says that it is gone.
pub proof fn law_timer_reaches_its_owner(
    before: NamespaceStateMachine,
    timer_key: TimerKey,
    placements: Map<Seq<char>, ArtifactPlacement>,
    after: NamespaceStateMachine,
    placements_after: Map<Seq<char>, ArtifactPlacement>,
    out: OutputView,
    next: Seq<FollowUp>,
)
    requires
        before.takes(
            NamespaceInput::TimerFired { timer_key },
            placements,
            after,
            placements_after,
            out,
            next,
        ),
    ensures
        after.pod_map == before.pod_map,
        after.workloads == before.workloads,
        placements_after == placements,
        match timer_key {
            TimerKey::IdleTimeout { service_id } => before.services@.contains_key(service_id.id())
                ==> {
                &&& next == seq![
                    FollowUp::ReconcileDemand {
                        workload_id: before.services@[service_id.id()].workload_id,
                    },
                ]
                &&& before.services@[service_id.id()].well_formed()
                    && before.services@[service_id.id()].service_id.id() == service_id.id()
                    && before.services@[service_id.id()].has_activation && (
                before.services@[service_id.id()].state matches ServiceState::Active {
                    backend_need,
                    ..
                } && backend_need == BackendNeed::Nothing)
                    ==> after.services@[service_id.id()].state == ServiceState::Idle
            },
            TimerKey::LaunchTimeout { workload_id, .. } => due(before, workload_id, timer_key, next),
            TimerKey::SuspendTimeout { workload_id, .. } => due(
                before,
                workload_id,
                timer_key,
                next,
            ),
            TimerKey::ResumeTimeout { workload_id, .. } => due(before, workload_id, timer_key, next),
            TimerKey::RetryBackoffTimeout { workload_id } => due(
                before,
                workload_id,
                timer_key,
                next,
            ),
        },
{
    if let TimerKey::IdleTimeout { service_id } = timer_key {
        if before.services@.contains_key(service_id.id()) {
            assert(next =~= seq![
                FollowUp::ReconcileDemand {
                    workload_id: before.services@[service_id.id()].workload_id,
                },
            ]);
        }
    }
}

/// A workload that is there is told that its timer went off, and the demand for it is checked.
pub open spec fn due(
    ns: NamespaceStateMachine,
    workload_id: WorkloadId,
    timer_key: TimerKey,
    next: Seq<FollowUp>,
) -> bool {
    &&& !ns.workloads@.contains_key(workload_id.id()) ==> next.len() == 0
    &&& ns.workloads@.contains_key(workload_id.id()) ==> {
        &&& next.len() == 2
        &&& next[0] == (FollowUp::StepWorkload {
            workload_id,
            input: WorkloadInput::TimerFired { timer_key },
            retry: false,
        })
        &&& next[1] == (FollowUp::ReconcileDemand { workload_id })
    }
}

/// Nothing of what an unknown worker reports changes a namespace.
pub proof fn law_unknown_worker_is_ignored(
    before: NamespaceStateMachine,
    worker_id: WorkerId,
    event: WorkerEvent,
    placements: Map<Seq<char>, ArtifactPlacement>,
    after: NamespaceStateMachine,
    placements_after: Map<Seq<char>, ArtifactPlacement>,
    out: OutputView,
    next: Seq<FollowUp>,
)
    requires
        before.takes(
            NamespaceInput::WorkerEvent { worker_id, event },
            placements,
            after,
            placements_after,
            out,
            next,
        ),
        !before.workers@.contains_key(worker_id.id()),
    ensures
        after == before,
        placements_after == placements,
        out.worker_commands.len() == 0,
        out.client_events.len() == 0,
        !out.destroyed,
        next.len() == 0,
{
}

/// What a client that asks to be connected gets: a namespace that is active allocates an address
/// for it, and any other refuses. A client that leaves always gives its address back.
pub proof fn law_only_active_namespace_connects(
    before: NamespaceStateMachine,
    client_id: ClientId,
    key: [u8; 32],
    worker_key: [u8; 32],
    worker_endpoint: String,
    placements: Map<Seq<char>, ArtifactPlacement>,
    after: NamespaceStateMachine,
    placements_after: Map<Seq<char>, ArtifactPlacement>,
    out: OutputView,
    next: Seq<FollowUp>,
)
    requires
        before.takes(
            NamespaceInput::Connect {
                client_id,
                client_public_key: key,
                worker_wg_public_key: worker_key,
                worker_endpoint,
            },
            placements,
            after,
            placements_after,
            out,
            next,
        ),
    ensures
        after == before,
        before.status == NamespaceStatus::Active ==> out.client_events.len() == 0 && next == seq![
            FollowUp::ConnectPeer {
                client_id,
                client_public_key: key,
                worker_wg_public_key: worker_key,
                worker_endpoint,
            },
        ],
        before.status != NamespaceStatus::Active ==> next.len() == 0 && out.client_events.len() == 1
            && out.client_events[0].0 == client_id && out.client_events[0].1 is Error,
{
}

// ---- whom a loss concerns -----------------------------------------------------------------------

/// The loss of a worker concerns a workload: its pod is on the worker, or its snapshot is no longer
/// stored anywhere, or a pod of it on the worker is on its way out.
pub open spec fn concerns(
    wl: Workload,
    placements: Map<Seq<char>, ArtifactPlacement>,
    worker: Seq<char>,
) -> bool {
    ||| match wl.status.state {
        WorkloadState::Launching { worker_id, .. } => worker_id.id() == worker,
        WorkloadState::Running { worker_id, .. } => worker_id.id() == worker,
        WorkloadState::Suspending { worker_id, .. } => worker_id.id() == worker,
        WorkloadState::Resuming { worker_id, .. } => worker_id.id() == worker,
        WorkloadState::Suspended { artifact_id, .. } => !placements.contains_key(artifact_id.id()),
        _ => false,
    }
    ||| exists|k: int|
        0 <= k < wl.status.retiring@.len() && (#[trigger] wl.status.retiring@[k]).worker_id.id()
            == worker
}

proof fn lemma_lists_pushed(list: Seq<WorkloadId>, last: WorkloadId, name: Seq<char>)
    ensures
        lists(list.push(last), name) <==> lists(list, name) || last.id() == name,
{
    let all = list.push(last);
    if lists(list, name) {
        let i = choose|i: int| 0 <= i < list.len() && (#[trigger] list[i]).id() == name;
        assert(all[i].id() == name);
    }
    if last.id() == name {
        assert(all[list.len() as int].id() == name);
    }
    if lists(all, name) {
        let i = choose|i: int| 0 <= i < all.len() && (#[trigger] all[i]).id() == name;
        if i < list.len() {
            assert(list[i].id() == name);
        }
    }
}

proof fn lemma_lists_either(a: Seq<WorkloadId>, b: Seq<WorkloadId>, name: Seq<char>)
    ensures
        lists(a + b, name) <==> lists(a, name) || lists(b, name),
    decreases b.len(),
{
    if b.len() == 0 {
        assert(a + b =~= a);
    } else {
        lemma_lists_either(a, b.drop_last(), name);
        assert(a + b =~= (a + b.drop_last()).push(b.last()));
        assert(b =~= b.drop_last().push(b.last()));
        lemma_lists_pushed(a + b.drop_last(), b.last(), name);
        lemma_lists_pushed(b.drop_last(), b.last(), name);
    }
}

proof fn lemma_concerned(
    workloads: Seq<(WorkloadId, Workload)>,
    placements: Map<Seq<char>, ArtifactPlacement>,
    worker: Seq<char>,
    name: Seq<char>,
)
    ensures
        (lists(hosted(workloads, worker), name) || lists(stale(workloads, placements), name)
            || lists(retiring_on(workloads, worker), name)) <==> exists|i: int|
            0 <= i < workloads.len() && (#[trigger] workloads[i]).0.id() == name && concerns(
                workloads[i].1,
                placements,
                worker,
            ),
    decreases workloads.len(),
{
    if workloads.len() > 0 {
        let front = workloads.drop_last();
        let last = workloads.len() - 1;
        lemma_concerned(front, placements, worker, name);
        lemma_lists_pushed(hosted(front, worker), workloads[last].0, name);
        lemma_lists_pushed(stale(front, placements), workloads[last].0, name);
        lemma_lists_pushed(retiring_on(front, worker), workloads[last].0, name);
        if exists|i: int|
            0 <= i < front.len() && (#[trigger] front[i]).0.id() == name && concerns(
                front[i].1,
                placements,
                worker,
            ) {
            let i = choose|i: int|
                0 <= i < front.len() && (#[trigger] front[i]).0.id() == name && concerns(
                    front[i].1,
                    placements,
                    worker,
                );
            assert(workloads[i] == front[i]);
        }
        if exists|i: int|
            0 <= i < workloads.len() && (#[trigger] workloads[i]).0.id() == name && concerns(
                workloads[i].1,
                placements,
                worker,
            ) {
            let i = choose|i: int|
                0 <= i < workloads.len() && (#[trigger] workloads[i]).0.id() == name && concerns(
                    workloads[i].1,
                    placements,
                    worker,
                );
            if i < last {
                assert(front[i] == workloads[i]);
            }
        }
        let r = workloads[last].1.status.retiring@;
        assert(retires_on(r, worker) <==> exists|k: int|
            0 <= k < r.len() && (#[trigger] r[k]).worker_id.id() == worker);
    }
}

/// The workloads that learn of the loss of a worker are those that it concerns, and no others, each
/// once.
pub proof fn law_loss_is_told_to_those_concerned(
    workloads: Seq<(WorkloadId, Workload)>,
    placements: Map<Seq<char>, ArtifactPlacement>,
    worker: Seq<char>,
    name: Seq<char>,
)
    ensures
        lists(concerned(workloads, placements, worker), name) <==> exists|i: int|
            0 <= i < workloads.len() && (#[trigger] workloads[i]).0.id() == name && concerns(
                workloads[i].1,
                placements,
                worker,
            ),
        forall|i: int, j: int|
            0 <= i < j < concerned(workloads, placements, worker).len() ==> (#[trigger] concerned(
                workloads,
                placements,
                worker,
            )[i]).id() != (#[trigger] concerned(workloads, placements, worker)[j]).id(),
{
    let (a, b, c) = (
        hosted(workloads, worker),
        stale(workloads, placements),
        retiring_on(workloads, worker),
    );
    lemma_concerned(workloads, placements, worker, name);
    law_unique(a + b + c, name);
    lemma_lists_either(a + b, c, name);
    lemma_lists_either(a, b, name);
}

// ---- requests -----------------------------------------------------------------------------------

/// A launch that goes ahead is noted: the pod is known with its workload and its worker, and the
/// workload learns of it. One that does not leaves everything as it was.
pub proof fn law_launch_is_noted(
    before: NamespaceStateMachine,
    workload_id: WorkloadId,
    worker_id: WorkerId,
    pod_id: PodId,
    placements: Map<Seq<char>, ArtifactPlacement>,
    after: NamespaceStateMachine,
    placements_after: Map<Seq<char>, ArtifactPlacement>,
    out: OutputView,
    next: Seq<FollowUp>,
)
    requires
        before.takes(
            NamespaceInput::LaunchPod { workload_id, worker_id, pod_id },
            placements,
            after,
            placements_after,
            out,
            next,
        ),
    ensures
        placements_after == placements,
        after.workloads == before.workloads,
        after.services == before.services,
        before.can_launch(workload_id.id(), worker_id.id()) ==> {
            &&& after.pod_map@.contains_key(pod_id.id())
            &&& after.pod_map@[pod_id.id()].workload_id == workload_id
            &&& after.pod_map@[pod_id.id()].worker_id == worker_id
            &&& forall|p: Seq<char>|
                p != pod_id.id() ==> #[trigger] after.pod_map@.contains_key(p)
                    == before.pod_map@.contains_key(p)
            &&& next == seq![
                FollowUp::StepWorkload {
                    workload_id,
                    input: WorkloadInput::LaunchPod { worker_id, pod_id },
                    retry: false,
                },
            ]
        },
        !before.can_launch(workload_id.id(), worker_id.id()) ==> after == before && next.len() == 0
            && out.worker_commands.len() == 0,
{
}

/// A resumption that goes ahead is noted: the pod is known with its workload and its worker, and the
/// workload learns of it with the snapshot and the pool. One that does not leaves everything as it
/// was.
pub proof fn law_resumption_is_noted(
    before: NamespaceStateMachine,
    workload_id: WorkloadId,
    worker_id: WorkerId,
    pod_id: PodId,
    artifact_id: ArtifactId,
    pool_id: PoolId,
    placements: Map<Seq<char>, ArtifactPlacement>,
    after: NamespaceStateMachine,
    placements_after: Map<Seq<char>, ArtifactPlacement>,
    out: OutputView,
    next: Seq<FollowUp>,
)
    requires
        before.takes(
            NamespaceInput::ResumePod { workload_id, worker_id, pod_id, artifact_id, pool_id },
            placements,
            after,
            placements_after,
            out,
            next,
        ),
    ensures
        placements_after == placements,
        before.can_resume(workload_id.id(), worker_id.id()) ==> {
            &&& after.pod_map@.contains_key(pod_id.id())
            &&& after.pod_map@[pod_id.id()].workload_id == workload_id
            &&& after.pod_map@[pod_id.id()].worker_id == worker_id
            &&& next == seq![
                FollowUp::StepWorkload {
                    workload_id,
                    input: WorkloadInput::ResumePod { worker_id, pod_id, artifact_id, pool_id },
                    retry: false,
                },
            ]
        },
        !before.can_resume(workload_id.id(), worker_id.id()) ==> after == before && next.len() == 0
            && out.worker_commands.len() == 0,
{
}

/// A namespace on its way out refuses a new spec. Any other takes it, and an active one then checks
/// the demand for each workload that it has.
pub proof fn law_new_spec_is_taken(
    before: NamespaceStateMachine,
    client_id: ClientId,
    spec: NamespaceSpec,
    placements: Map<Seq<char>, ArtifactPlacement>,
    after: NamespaceStateMachine,
    placements_after: Map<Seq<char>, ArtifactPlacement>,
    out: OutputView,
    next: Seq<FollowUp>,
)
    requires
        before.takes(
            NamespaceInput::UpdateSpec { client_id, spec },
            placements,
            after,
            placements_after,
            out,
            next,
        ),
    ensures
        before.status == NamespaceStatus::Destroying ==> after == before && next.len() == 0
            && out.worker_commands.len() == 0 && out.client_events.len() == 1
            && out.client_events[0].0 == client_id && out.client_events[0].1 is Error,
        before.status != NamespaceStatus::Destroying ==> after.spec == spec && before.respecified(
            spec,
            after,
        ) && out == before.respecified_out(client_id, spec, after, OutputView::nothing()),
        before.status == NamespaceStatus::Active ==> next.len() == after.workloads.seq().len()
            && forall|k: int|
            0 <= k < next.len() ==> #[trigger] next[k] == (FollowUp::ReconcileDemand {
                workload_id: after.workloads.seq()[k].0,
            }),
        before.status == NamespaceStatus::Creating ==> next.len() == 0,
{
}

/// A client that deletes a namespace, or asks for its status, or wants a workload put to sleep, gets
/// one answer. A workload that was put to sleep has its demand checked.
pub proof fn law_clients_are_answered(
    before: NamespaceStateMachine,
    input: NamespaceInput,
    placements: Map<Seq<char>, ArtifactPlacement>,
    after: NamespaceStateMachine,
    placements_after: Map<Seq<char>, ArtifactPlacement>,
    out: OutputView,
    next: Seq<FollowUp>,
)
    requires
        before.takes(input, placements, after, placements_after, out, next),
    ensures
        placements_after == placements || input is WorkerEvent || input is WorkerLost,
        input matches NamespaceInput::Delete { client_id } ==> before.dissolved(after) && out
            == before.dissolved_out(client_id, OutputView::nothing()) && next.len() == 0,
        input matches NamespaceInput::GetStatus { client_id } ==> after == before && next.len() == 0
            && out.worker_commands.len() == 0 && out.client_events == seq![
            (
                client_id,
                ClientEventView::NamespaceStatus {
                    namespace_id: before.namespace_id,
                    status: before.report(),
                },
            ),
        ],
        input matches NamespaceInput::Disconnect { client_id, client_public_key } ==> after
            == before && next == seq![FollowUp::DisconnectPeer { client_id, client_public_key }],
        input matches NamespaceInput::DeactivateWorkload { client_id, workload_id } ==> {
            &&& out.client_events.len() > 0
            &&& out.client_events.last() == (client_id, before.sleep_answer(workload_id))
            &&& before.sleep_answer(workload_id) matches
                ClientEventView::DeactivateWorkloadResult { deactivated, .. } && (deactivated
                ==> next == seq![FollowUp::ReconcileDemand { workload_id }]) && (!deactivated
                ==> next.len() == 0)
        },
{
    if let NamespaceInput::GetStatus { client_id } = input {
        assert(out.client_events =~= seq![
            (
                client_id,
                ClientEventView::NamespaceStatus {
                    namespace_id: before.namespace_id,
                    status: before.report(),
                },
            ),
        ]);
    }
}

/// A worker that says that it could not set a namespace up, or that it has destroyed one that is not
/// on its way out, is as good as lost: the same is done as for a lost worker.
pub proof fn law_failed_worker_is_lost(
    before: NamespaceStateMachine,
    worker_id: WorkerId,
    event: WorkerEvent,
    placements: Map<Seq<char>, ArtifactPlacement>,
    after: NamespaceStateMachine,
    placements_after: Map<Seq<char>, ArtifactPlacement>,
    out: OutputView,
    next: Seq<FollowUp>,
)
    requires
        before.takes(
            NamespaceInput::WorkerEvent { worker_id, event },
            placements,
            after,
            placements_after,
            out,
            next,
        ),
        before.workers@.contains_key(worker_id.id()),
        event is NamespaceFailed || (event is NamespaceDestroyed && before.status
            != NamespaceStatus::Destroying),
    ensures
        before.takes(
            NamespaceInput::WorkerLost { worker_id },
            placements,
            after,
            placements_after,
            out,
            next,
        ),
{
}

/// Flows at an address belong to the first workload that has it. Flows of a service belong to the
/// workload of the service.
pub proof fn law_flows_find_workload(ns: NamespaceStateMachine, ip: u32, service: ServiceId)
    ensures
        match ns.flow_target(ip, None) {
            Some(id) => exists|i: int|
                0 <= i < ns.spec.workloads.seq().len() && (
                #[trigger] ns.spec.workloads.seq()[i]).0 == id
                    && ns.spec.workloads.seq()[i].1.network.ip == ip && forall|k: int|
                    0 <= k < i ==> (#[trigger] ns.spec.workloads.seq()[k]).1.network.ip != ip,
            None => forall|i: int|
                0 <= i < ns.spec.workloads.seq().len() ==> (
                #[trigger] ns.spec.workloads.seq()[i]).1.network.ip != ip,
        },
        ns.service_workload@.contains_key(service.id()) ==> ns.flow_target(ip, Some(service))
            == Some(ns.service_workload@[service.id()]),
        !ns.service_workload@.contains_key(service.id()) ==> ns.flow_target(
            ip,
            Some(service),
        ) is None,
{
    let s = ns.spec.workloads.seq();
    lemma_workload_at(s, ip);
    if let Some(id) = workload_at(s, ip) {
        let i = choose|i: int|
            0 <= i < s.len() && (#[trigger] s[i]).0 == id && s[i].1.network.ip == ip && forall|
                k: int,
            |
                0 <= k < i ==> (#[trigger] s[k]).1.network.ip != ip;
        assert(s[i].0 == id);
    }
}

proof fn lemma_workload_at(s: Seq<(WorkloadId, WorkloadSpec)>, ip: u32)
    ensures
        match workload_at(s, ip) {
            Some(id) => exists|i: int|
                0 <= i < s.len() && (#[trigger] s[i]).0 == id && s[i].1.network.ip == ip && forall|
                    k: int,
                |
                    0 <= k < i ==> (#[trigger] s[k]).1.network.ip != ip,
            None => forall|i: int| 0 <= i < s.len() ==> (#[trigger] s[i]).1.network.ip != ip,
        },
    decreases s.len(),
{
    if s.len() > 0 && s[0].1.network.ip != ip {
        let rest = s.drop_first();
        lemma_workload_at(rest, ip);
        match workload_at(rest, ip) {
            Some(id) => {
                let i = choose|i: int|
                    0 <= i < rest.len() && (#[trigger] rest[i]).0 == id && rest[i].1.network.ip
                        == ip && forall|k: int|
                        0 <= k < i ==> (#[trigger] rest[k]).1.network.ip != ip;
                assert(s[i + 1] == rest[i]);
                assert forall|k: int| 0 <= k < i + 1 implies (#[trigger] s[k]).1.network.ip != ip by {
                    if k > 0 {
                        assert(rest[k - 1] == s[k]);
                    }
                }
            },
            None => {
                assert forall|i: int| 0 <= i < s.len() implies (#[trigger] s[i]).1.network.ip
                    != ip by {
                    if i > 0 {
                        assert(rest[i - 1] == s[i]);
                    }
                }
            },
        }
    }
}

} // verus!
