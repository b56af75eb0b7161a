//! What the cluster owes to its clients, its workers and its namespaces.
use vstd::prelude::*;

use crate::broadcast::{targets, to_each};
use crate::ids::{ArtifactId, ClientId, NamespaceId, PodId, PoolId, WorkerId, WorkloadId};
use crate::namespace::command_laws::{lemma_contains_pushed, lemma_sent_to_each};
use crate::namespace::events::WorkerEvent;
use crate::namespace::picture_laws::{is_first_up, lemma_first_up};
use crate::namespace::step::NamespaceInput;
use crate::namespace::NamespaceStateMachine;
use crate::orchestrator::client::ClientCommand;
use crate::orchestrator::networking::{segments_of, Links};
use crate::orchestrator::routing::{after_run, pods_on};
use crate::orchestrator::segments::{place, usable};
use crate::orchestrator::step::OrchestratorInput;
use crate::orchestrator::workers::{assignable, pool_index, with_pool, with_pools};
use crate::orchestrator::{
    leased, ClusterView, Lease, Orchestrator, PoolInfo, Task, WorkerCapabilities, WorkerState,
    WorkerTunnelConfig, WorkerWgConfig,
};
use crate::output::{ClientEventView, OutputView};
use crate::pod_map::on_worker;
use crate::sorted_map::{lemma_contains_either, Key};
use crate::text::{decimal, lex_before};
use crate::types::{
    CommandView, FabricStatus, NamespaceSpec, NamespaceStatus, PeerView, PressureBand,
    PressureBands, TimerKey,
};

verus! {

// ---- placing pods -------------------------------------------------------------------------------

/// No dimension of a worker is under high or critical pressure.
pub open spec fn has_room(bands: PressureBands) -> bool {
    &&& bands.memory == PressureBand::Normal || bands.memory == PressureBand::Elevated
    &&& bands.compute == PressureBand::Normal || bands.compute == PressureBand::Elevated
    &&& bands.storage == PressureBand::Normal || bands.storage == PressureBand::Elevated
}

/// No dimension of a worker is under any pressure.
pub open spec fn is_calm(bands: PressureBands) -> bool {
    &&& bands.memory == PressureBand::Normal
    &&& bands.compute == PressureBand::Normal
    &&& bands.storage == PressureBand::Normal
}

/// A pod of a namespace can go to a worker: the namespace's fabric is up there, the worker is
/// connected, and it has room.
pub open spec fn can_host(cluster: Orchestrator, ns: NamespaceStateMachine, w: Seq<char>) -> bool {
    &&& ns.workers@.contains_key(w)
    &&& ns.workers@[w].fabric_status == FabricStatus::Active
    &&& cluster.workers@.contains_key(w)
    &&& has_room(cluster.workers@[w].pressure_bands)
}

proof fn lemma_can_host(cluster: Orchestrator, ns: NamespaceStateMachine, w: Seq<char>)
    ensures
        cluster.eligible(ns, w) == can_host(cluster, ns, w),
{
}

/// A pod is launched exactly if some worker can host it. It goes to a worker that can, under a name
/// that was not used before. No other worker that can host it is a better place: less pressed, or
/// as pressed with fewer pods of the namespace, or alike in both and earlier by name.
pub proof fn law_launch_finds_best_worker(
    cluster: Orchestrator,
    namespace_id: NamespaceId,
    workload_id: WorkloadId,
    after: Orchestrator,
    out: ClusterView,
    out_after: ClusterView,
    next: Seq<Task>,
    o: Seq<char>,
)
    requires
        cluster.does(Task::Launch { namespace_id, workload_id }, after, out, out_after, next),
        cluster.namespaces@.contains_key(namespace_id.id()),
        cluster.next_pod_id < u64::MAX,
    ensures
        out_after == out,
        after.namespaces == cluster.namespaces,
        can_host(cluster, cluster.namespaces@[namespace_id.id()], o) ==> {
            &&& next.len() == 1
            &&& after.next_pod_id == cluster.next_pod_id + 1
            &&& next[0] matches Task::Run {
                namespace_id: n,
                input: NamespaceInput::LaunchPod { workload_id: wl, worker_id, pod_id },
                scheduled: true,
            } && n == namespace_id && wl == workload_id && pod_id.0@ == "pod-"@ + decimal(
                cluster.next_pod_id as nat,
            ) && can_host(cluster, cluster.namespaces@[namespace_id.id()], worker_id.id()) && (
            worker_id.id() != o ==> {
                let ns = cluster.namespaces@[namespace_id.id()];
                let mine = on_worker(ns.pod_map@, worker_id.id()).len();
                let theirs = on_worker(ns.pod_map@, o).len();
                let w = worker_id.id();
                &&& is_calm(cluster.workers@[o].pressure_bands) ==> is_calm(
                    cluster.workers@[w].pressure_bands,
                )
                &&& is_calm(cluster.workers@[o].pressure_bands) == is_calm(
                    cluster.workers@[w].pressure_bands,
                ) ==> mine < theirs || (mine == theirs && lex_before(w, o))
            })
        },
        (forall|w: Seq<char>|
            !(#[trigger] can_host(cluster, cluster.namespaces@[namespace_id.id()], w))) ==> next.len()
            == 0 && after == cluster,
{
    let ns = cluster.namespaces@[namespace_id.id()];
    assert forall|w: Seq<char>| #[trigger] cluster.eligible(ns, w) == can_host(cluster, ns, w) by {
        lemma_can_host(cluster, ns, w);
    }
    if can_host(cluster, ns, o) {
        assert(cluster.eligible(ns, o));
        lemma_worst(cluster.workers@[o].pressure_bands);
        if let Task::Run { input: NamespaceInput::LaunchPod { worker_id, .. }, .. } = next[0] {
            assert(cluster.eligible(ns, worker_id.id()));
            lemma_worst(cluster.workers@[worker_id.id()].pressure_bands);
        }
    }
}

proof fn lemma_worst(bands: PressureBands)
    ensures
        has_room(bands) <==> bands.worst().level() < 2,
        is_calm(bands) <==> bands.worst().level() == 0,
        bands.worst().level() >= 0,
{
}

/// The pressure of a worker over all dimensions is that of the hardest pressed one.
pub proof fn law_worst_band(bands: PressureBands)
    ensures
        bands.worst() == bands.memory || bands.worst() == bands.compute || bands.worst()
            == bands.storage,
        bands.worst() == PressureBand::Critical <==> bands.memory == PressureBand::Critical
            || bands.compute == PressureBand::Critical || bands.storage == PressureBand::Critical,
        bands.worst() == PressureBand::Normal <==> is_calm(bands),
        (bands.worst() == PressureBand::Normal || bands.worst() == PressureBand::Elevated)
            <==> has_room(bands),
{
}

/// A workload goes on from its snapshot at the worker and out of the pool that the snapshot lies on,
/// under a name that was not used before. Where the snapshot is not known, nothing is started.
pub proof fn law_resumption_goes_to_snapshot(
    cluster: Orchestrator,
    namespace_id: NamespaceId,
    workload_id: WorkloadId,
    artifact: ArtifactId,
    after: Orchestrator,
    out: ClusterView,
    out_after: ClusterView,
    next: Seq<Task>,
)
    requires
        cluster.does(
            Task::Resume { namespace_id, workload_id, artifact_id: artifact },
            after,
            out,
            out_after,
            next,
        ),
        cluster.namespaces@.contains_key(namespace_id.id()),
        cluster.next_pod_id < u64::MAX,
    ensures
        out_after == out,
        after.next_pod_id == cluster.next_pod_id + 1,
        cluster.placement_table@.contains_key(artifact.id()) ==> next.len() == 1 && (next[0] matches
            Task::Run {
            namespace_id: n,
            input: NamespaceInput::ResumePod {
                workload_id: wl,
                worker_id,
                pod_id,
                artifact_id,
                pool_id,
            },
            scheduled: true,
        } && n == namespace_id && wl == workload_id && artifact_id == artifact && worker_id
            == cluster.placement_table@[artifact.id()].worker_id && pool_id
            == cluster.placement_table@[artifact.id()].pool_id && pod_id.0@ == "pod-"@ + decimal(
            cluster.next_pod_id as nat,
        )),
        !cluster.placement_table@.contains_key(artifact.id()) ==> next.len() == 0,
{
}

// ---- namespaces ---------------------------------------------------------------------------------

proof fn lemma_assignments_of(
    cluster: Orchestrator,
    namespace_id: NamespaceId,
    workers: Seq<(WorkerId, WorkerState)>,
    out: ClusterView,
    w: WorkerId,
    c: CommandView,
)
    requires
        cluster.namespaces@.contains_key(namespace_id.id()),
    ensures
        cluster.assignments_of(namespace_id, workers, out).worker_commands.contains((w, c)) <==> (
        out.worker_commands.contains((w, c)) || (c == (CommandView::CreateNamespace {
            namespace_id,
            network: cluster.namespaces@[namespace_id.id()].spec.network,
        }) && exists|i: int| 0 <= i < workers.len() && (#[trigger] workers[i]).0 == w)),
        cluster.assignments_of(namespace_id, workers, out).client_events == out.client_events,
    decreases workers.len(),
{
    if workers.len() > 0 {
        let front = workers.drop_last();
        let last = workers.len() - 1;
        let rest = cluster.assignments_of(namespace_id, front, out);
        lemma_assignments_of(cluster, namespace_id, front, out, w, c);
        let create = CommandView::CreateNamespace {
            namespace_id,
            network: cluster.namespaces@[namespace_id.id()].spec.network,
        };
        lemma_contains_pushed(rest.worker_commands, (workers[last].0, create), (w, c));
        if exists|i: int| 0 <= i < front.len() && (#[trigger] front[i]).0 == w {
            let i = choose|i: int| 0 <= i < front.len() && (#[trigger] front[i]).0 == w;
            assert(workers[i] == front[i]);
        }
        if exists|i: int| 0 <= i < workers.len() && (#[trigger] workers[i]).0 == w {
            let i = choose|i: int| 0 <= i < workers.len() && (#[trigger] workers[i]).0 == w;
            if i < last {
                assert(front[i] == workers[i]);
            }
        }
    }
}

/// A namespace lists a worker, whose fabric is still to come up, and the worker lists the namespace.
pub open spec fn are_linked(links: Links, namespace: Seq<char>, worker: Seq<char>) -> bool {
    &&& links.members.contains_key(namespace)
    &&& links.members[namespace].contains_key(worker)
    &&& links.members[namespace][worker].fabric_status == FabricStatus::Creating
    &&& links.homes.contains_key(worker)
    &&& links.homes[worker].contains_key(namespace)
}

proof fn lemma_all_linked(
    cluster: Orchestrator,
    namespace: Seq<char>,
    workers: Seq<(WorkerId, WorkerState)>,
    k: int,
)
    requires
        cluster.namespaces@.contains_key(namespace),
        forall|i: int|
            0 <= i < workers.len() ==> cluster.workers@.contains_key((#[trigger] workers[i]).0.id()),
    ensures
        cluster.with_all_assigned(namespace, workers).members.dom() == cluster.namespaces@.dom(),
        cluster.with_all_assigned(namespace, workers).homes.dom() == cluster.workers@.dom(),
        0 <= k < workers.len() ==> are_linked(
            cluster.with_all_assigned(namespace, workers),
            namespace,
            workers[k].0.id(),
        ),
    decreases workers.len(),
{
    if workers.len() > 0 {
        let front = workers.drop_last();
        let last = workers.len() - 1;
        assert forall|i: int| 0 <= i < front.len() implies cluster.workers@.contains_key(
            (#[trigger] front[i]).0.id(),
        ) by {
            assert(front[i] == workers[i]);
        }
        lemma_all_linked(cluster, namespace, front, k);
        let rest = cluster.with_all_assigned(namespace, front);
        let all = cluster.with_all_assigned(namespace, workers);
        assert(cluster.workers@.contains_key(workers[last].0.id()));
        assert(rest.members.contains_key(namespace));
        assert(rest.homes.contains_key(workers[last].0.id()));
        assert(all.members.dom() =~= cluster.namespaces@.dom());
        assert(all.homes.dom() =~= cluster.workers@.dom());
        if 0 <= k < last {
            assert(front[k] == workers[k]);
        }
    } else {
        assert(cluster.links().members.dom() =~= cluster.namespaces@.dom());
        assert(cluster.links().homes.dom() =~= cluster.workers@.dom());
    }
}

/// A namespace that is created gets a segment of its own, and every connected worker is told to set
/// its network up and is linked to it. The client is told that it is done.
pub proof fn law_created_namespace_reaches_workers(
    cluster: Orchestrator,
    client_id: ClientId,
    namespace_id: NamespaceId,
    spec: NamespaceSpec,
    after: Orchestrator,
    out: ClusterView,
    next: Seq<Task>,
    k: int,
)
    requires
        cluster.takes(
            OrchestratorInput::ClientCommand {
                client_id,
                command: ClientCommand::CreateNamespace { namespace_id, spec },
            },
            after,
            out,
            next,
        ),
        !cluster.namespaces@.contains_key(namespace_id.id()),
        0 <= k < cluster.workers.seq().len(),
        forall|i: int|
            0 <= i < cluster.workers.seq().len() ==> cluster.workers@.contains_key(
                (#[trigger] cluster.workers.seq()[i]).0.id(),
            ),
    ensures
        next.len() == 0,
        after.namespaces@.contains_key(namespace_id.id()),
        after.namespaces@[namespace_id.id()].status == NamespaceStatus::Creating,
        after.namespaces@[namespace_id.id()].spec.workloads == spec.workloads,
        after.namespaces@[namespace_id.id()].spec.services == spec.services,
        after.namespaces@[namespace_id.id()].spec.network.subnet == spec.network.subnet,
        after.namespaces@[namespace_id.id()].spec.network.gateway == spec.network.gateway,
        after.namespaces@[namespace_id.id()].spec.network.prefix_len == spec.network.prefix_len,
        after.namespaces@[namespace_id.id()].segment_id != 0,
        !cluster.active_segment_ids@.contains_key(after.namespaces@[namespace_id.id()].segment_id),
        after.active_segment_ids@.contains_key(after.namespaces@[namespace_id.id()].segment_id),
        after.namespaces@[namespace_id.id()].spec.network.segment_id == Some(
            after.namespaces@[namespace_id.id()].segment_id,
        ),
        out.worker_commands.contains(
            (
                cluster.workers.seq()[k].0,
                CommandView::CreateNamespace {
                    namespace_id,
                    network: after.namespaces@[namespace_id.id()].spec.network,
                },
            ),
        ),
        are_linked(after.links(), namespace_id.id(), cluster.workers.seq()[k].0.id()),
        out.client_events == seq![(client_id, ClientEventView::Done)],
{
    let n = namespace_id.id();
    let nothing = ClusterView::nothing();
    let (segment_id, mid) = choose|segment_id: u16, mid: Orchestrator|
        {
            &&& #[trigger] cluster.opened(namespace_id, spec, segment_id, mid)
            &&& mid.only_links_differ(after)
            &&& after.links() == mid.with_all_assigned(n, mid.workers.seq())
            &&& out == after.registry_out(
                mid.assignments_of(namespace_id, mid.workers.seq(), nothing),
            ).with_client_event(client_id, ClientEventView::Done)
        };
    let s = mid.workers.seq();
    assert(mid.namespaces@.contains_key(n));
    assert(after.namespaces@.dom().contains(n));
    let c = CommandView::CreateNamespace {
        namespace_id,
        network: after.namespaces@[n].spec.network,
    };
    let w = s[k].0;
    lemma_assignments_of(mid, namespace_id, s, nothing, w, c);
    lemma_all_linked(mid, n, s, k);
    let first = mid.assignments_of(namespace_id, s, nothing);
    let sync = CommandView::WorkerRegistrySync { workers: after.registry(after.workers.seq()) };
    lemma_contains_either(first.worker_commands, to_each(after.worker_ids(), sync), (w, c));
    assert(s[k].0 == w);
    assert(out.client_events =~= seq![(client_id, ClientEventView::Done)]);
}

/// A name that is taken is refused, and nothing changes.
pub proof fn law_taken_name_is_refused(
    cluster: Orchestrator,
    client_id: ClientId,
    namespace_id: NamespaceId,
    spec: NamespaceSpec,
    after: Orchestrator,
    out: ClusterView,
    next: Seq<Task>,
)
    requires
        cluster.takes(
            OrchestratorInput::ClientCommand {
                client_id,
                command: ClientCommand::CreateNamespace { namespace_id, spec },
            },
            after,
            out,
            next,
        ),
        cluster.namespaces@.contains_key(namespace_id.id()),
    ensures
        after == cluster,
        next.len() == 0,
        out.worker_commands.len() == 0,
        out.client_events.len() == 1,
        out.client_events[0].0 == client_id,
        out.client_events[0].1 is Error,
{
}

/// A namespace that is gone is forgotten: no worker lists it, and its segment is free for another.
/// Every other namespace stays as it is.
pub proof fn law_gone_namespace_is_forgotten(
    cluster: Orchestrator,
    namespace_id: NamespaceId,
    after: Orchestrator,
    out: ClusterView,
    out_after: ClusterView,
    next: Seq<Task>,
    name: Seq<char>,
)
    requires
        cluster.does(Task::RemoveNamespace { namespace_id }, after, out, out_after, next),
        cluster.namespaces@.contains_key(namespace_id.id()),
    ensures
        !after.namespaces@.contains_key(namespace_id.id()),
        !after.active_segment_ids@.contains_key(cluster.namespaces@[namespace_id.id()].segment_id),
        name != namespace_id.id() ==> after.namespaces@.contains_key(name)
            == cluster.namespaces@.contains_key(name),
        name != namespace_id.id() && cluster.namespaces@.contains_key(name)
            ==> after.namespaces@[name] == cluster.namespaces@[name],
        cluster.workers@.contains_key(name) ==> after.workers@.contains_key(name)
            && !after.workers@[name].namespaces@.contains_key(namespace_id.id()),
        next.len() == 0,
{
    assert(after.workers@.dom().contains(name) == cluster.workers@.dom().contains(name));
    if cluster.workers@.contains_key(name) {
        assert(after.workers@[name].namespaces@ == cluster.workers@[name].namespaces@.remove(
            namespace_id.id(),
        ));
    }
}

/// An input for a namespace that is there is handed to it. A client that names one that is not there
/// is refused.
pub proof fn law_inputs_reach_their_namespace(
    cluster: Orchestrator,
    client_id: ClientId,
    namespace_id: NamespaceId,
    command: ClientCommand,
    input: NamespaceInput,
    after: Orchestrator,
    out: ClusterView,
    next: Seq<Task>,
)
    requires
        cluster.takes(OrchestratorInput::ClientCommand { client_id, command }, after, out, next),
        match command {
            ClientCommand::DeleteNamespace { namespace_id: n } => n == namespace_id && input == (
            NamespaceInput::Delete { client_id }),
            ClientCommand::UpdateNamespace { namespace_id: n, spec } => n == namespace_id && input
                == (NamespaceInput::UpdateSpec { client_id, spec }),
            ClientCommand::GetNamespaceStatus { namespace_id: n } => n == namespace_id && input == (
            NamespaceInput::GetStatus { client_id }),
            ClientCommand::Disconnect { namespace_id: n, client_public_key } => n == namespace_id
                && input == (NamespaceInput::Disconnect { client_id, client_public_key }),
            ClientCommand::DeactivateWorkload { namespace_id: n, workload_id } => n == namespace_id
                && input == (NamespaceInput::DeactivateWorkload { client_id, workload_id }),
            ClientCommand::Splice { namespace_id: n, workload_id, worker_id } => n == namespace_id
                && input == (NamespaceInput::Splice { client_id, workload_id, worker_id }),
            ClientCommand::Unsplice { namespace_id: n, workload_id } => n == namespace_id && input
                == (NamespaceInput::Unsplice { client_id, workload_id }),
            ClientCommand::StreamLogs { namespace_id: n, service_id } => n == namespace_id && input
                == (NamespaceInput::StreamLogs { client_id, service_id }),
            _ => false,
        },
    ensures
        after.namespaces == cluster.namespaces,
        after.workers == cluster.workers,
        out.worker_commands.len() == 0,
        cluster.namespaces@.contains_key(namespace_id.id()) ==> out.client_events.len() == 0
            && next == seq![Task::Run { namespace_id, input, scheduled: false }],
        !cluster.namespaces@.contains_key(namespace_id.id()) ==> next.len() == 0
            && out.client_events == seq![
            (client_id, ClientEventView::Error { message: "namespace not found"@ }),
        ],
{
    if !cluster.namespaces@.contains_key(namespace_id.id()) {
        assert(out.client_events =~= seq![
            (client_id, ClientEventView::Error { message: "namespace not found"@ }),
        ]);
    }
}

/// Once a namespace has run, a worker is sought for each pod that it asked for, each snapshot that
/// it asked for is resumed, and all that wait are looked at again. A namespace that is gone is
/// removed, and no other is.
pub proof fn law_requests_of_namespace_are_followed(
    namespace_id: NamespaceId,
    given: OutputView,
    i: int,
)
    ensures
        0 <= i < given.pod_requests.len() ==> after_run(namespace_id, given).contains(
            Task::Launch { namespace_id, workload_id: given.pod_requests[i].workload_id },
        ),
        0 <= i < given.resume_requests.len() ==> after_run(namespace_id, given).contains(
            Task::Resume {
                namespace_id,
                workload_id: given.resume_requests[i].workload_id,
                artifact_id: given.resume_requests[i].artifact_id,
            },
        ),
        after_run(namespace_id, given).contains(Task::ScheduleWaiting),
        after_run(namespace_id, given).contains(Task::RecomputeAll),
        given.destroyed <==> after_run(namespace_id, given).contains(
            Task::RemoveNamespace { namespace_id },
        ),
{
    let all = after_run(namespace_id, given);
    let a = given.pod_requests.len() as int;
    let b = given.resume_requests.len() as int;
    if 0 <= i < a {
        assert(all[i] == (Task::Launch {
            namespace_id,
            workload_id: given.pod_requests[i].workload_id,
        }));
    }
    if 0 <= i < b {
        assert(all[a + i] == (Task::Resume {
            namespace_id,
            workload_id: given.resume_requests[i].workload_id,
            artifact_id: given.resume_requests[i].artifact_id,
        }));
    }
    assert(all[a + b] == Task::ScheduleWaiting);
    assert(all[a + b + 1] == Task::RecomputeAll);
    if given.destroyed {
        assert(all[a + b + 2] == (Task::RemoveNamespace { namespace_id }));
    }
}

// ---- workers ------------------------------------------------------------------------------------

proof fn lemma_assignable(
    namespaces: Seq<(NamespaceId, NamespaceStateMachine)>,
    worker: Seq<char>,
    id: NamespaceId,
)
    ensures
        assignable(namespaces, worker).contains(id) <==> exists|i: int|
            0 <= i < namespaces.len() && (#[trigger] namespaces[i]).0 == id
                && namespaces[i].1.status != NamespaceStatus::Destroying
                && !namespaces[i].1.workers@.contains_key(worker),
    decreases namespaces.len(),
{
    if namespaces.len() > 0 {
        let front = namespaces.drop_last();
        let last = namespaces.len() - 1;
        lemma_assignable(front, worker, id);
        lemma_contains_pushed(assignable(front, worker), namespaces[last].0, id);
        if assignable(front, worker).contains(id) {
            let i = choose|i: int|
                0 <= i < front.len() && (#[trigger] front[i]).0 == id && front[i].1.status
                    != NamespaceStatus::Destroying && !front[i].1.workers@.contains_key(worker);
            assert(namespaces[i] == front[i]);
        }
        if exists|i: int|
            0 <= i < namespaces.len() && (#[trigger] namespaces[i]).0 == id
                && namespaces[i].1.status != NamespaceStatus::Destroying
                && !namespaces[i].1.workers@.contains_key(worker) {
            let i = choose|i: int|
                0 <= i < namespaces.len() && (#[trigger] namespaces[i]).0 == id
                    && namespaces[i].1.status != NamespaceStatus::Destroying
                    && !namespaces[i].1.workers@.contains_key(worker);
            if i < last {
                assert(front[i] == namespaces[i]);
            }
        }
    }
}

proof fn lemma_assignments_to(
    cluster: Orchestrator,
    list: Seq<NamespaceId>,
    worker_id: WorkerId,
    out: ClusterView,
    id: NamespaceId,
)
    requires
        list.contains(id),
        cluster.namespaces@.contains_key(id.id()),
    ensures
        cluster.assignments_to(list, worker_id, out).worker_commands.contains(
            (
                worker_id,
                CommandView::CreateNamespace {
                    namespace_id: id,
                    network: cluster.namespaces@[id.id()].spec.network,
                },
            ),
        ),
    decreases list.len(),
{
    let c = CommandView::CreateNamespace {
        namespace_id: id,
        network: cluster.namespaces@[id.id()].spec.network,
    };
    let front = list.drop_last();
    let last = list.last();
    let rest = cluster.assignments_to(front, worker_id, out);
    assert(list =~= front.push(last));
    lemma_contains_pushed(front, last, id);
    let d = CommandView::CreateNamespace {
        namespace_id: last,
        network: cluster.namespaces@[last.id()].spec.network,
    };
    lemma_contains_pushed(rest.worker_commands, (worker_id, d), (worker_id, c));
    if front.contains(id) {
        lemma_assignments_to(cluster, front, worker_id, out, id);
    }
}

proof fn lemma_each_linked(
    links: Links,
    list: Seq<NamespaceId>,
    worker: Seq<char>,
    pool: Option<PoolId>,
    id: NamespaceId,
)
    requires
        links.homes.contains_key(worker),
    ensures
        links.assigned_to_each(list, worker, pool).homes.contains_key(worker),
        links.assigned_to_each(list, worker, pool).members.dom() == links.members.dom(),
        list.contains(id) && links.members.contains_key(id.id()) ==> are_linked(
            links.assigned_to_each(list, worker, pool),
            id.id(),
            worker,
        ),
    decreases list.len(),
{
    if list.len() > 0 {
        let front = list.drop_last();
        lemma_each_linked(links, front, worker, pool, id);
        assert(list =~= front.push(list.last()));
        lemma_contains_pushed(front, list.last(), id);
        let all = links.assigned_to_each(list, worker, pool);
        assert(all.members.dom() =~= links.members.dom());
    }
}

/// A worker that joins is known as it described itself, without pressure. Every namespace that does
/// not have it yet and is not on its way out has it set its network up and is linked to it. Every worker is told of all
/// workers.
pub proof fn law_joining_worker_gets_namespaces(
    cluster: Orchestrator,
    worker_id: WorkerId,
    capabilities: WorkerCapabilities,
    wg_config: Option<WorkerWgConfig>,
    tunnel_config: Option<WorkerTunnelConfig>,
    after: Orchestrator,
    out: ClusterView,
    next: Seq<Task>,
    i: int,
    k: int,
)
    requires
        cluster.takes(
            OrchestratorInput::WorkerConnected {
                worker_id,
                capabilities,
                wg_config,
                tunnel_config,
            },
            after,
            out,
            next,
        ),
        !cluster.workers@.contains_key(worker_id.id()),
        0 <= i < cluster.namespaces.seq().len(),
        cluster.namespaces@.contains_key(cluster.namespaces.seq()[i].0.id()),
        cluster.namespaces.seq()[i].1.status != NamespaceStatus::Destroying,
        !cluster.namespaces.seq()[i].1.workers@.contains_key(worker_id.id()),
    ensures
        next.len() == 0,
        after.workers@.contains_key(worker_id.id()),
        after.workers@[worker_id.id()].capabilities == capabilities,
        after.workers@[worker_id.id()].wg_config == wg_config,
        after.workers@[worker_id.id()].tunnel_config == tunnel_config,
        is_calm(after.workers@[worker_id.id()].pressure_bands),
        out.worker_commands.contains(
            (
                worker_id,
                CommandView::CreateNamespace {
                    namespace_id: cluster.namespaces.seq()[i].0,
                    network: cluster.namespaces@[cluster.namespaces.seq()[i].0.id()].spec.network,
                },
            ),
        ),
        are_linked(after.links(), cluster.namespaces.seq()[i].0.id(), worker_id.id()),
        0 <= k < after.workers.seq().len() ==> out.worker_commands.contains(
            (
                after.workers.seq()[k].0,
                CommandView::WorkerRegistrySync { workers: after.registry(after.workers.seq()) },
            ),
        ),
{
    let w = worker_id.id();
    let s = cluster.namespaces.seq();
    let list = assignable(s, w);
    let nothing = ClusterView::nothing();
    let mid = choose|mid: Orchestrator|
        {
            &&& #[trigger] cluster.joined_by(worker_id, capabilities, wg_config, tunnel_config, mid)
            &&& mid.only_links_differ(after)
            &&& after.links() == mid.links().assigned_to_each(list, w, mid.first_pool(w))
            &&& out == after.registry_out(mid.assignments_to(list, worker_id, nothing))
        };
    lemma_assignable(s, w, s[i].0);
    lemma_assignments_to(mid, list, worker_id, nothing, s[i].0);
    assert(mid.links().homes.contains_key(w));
    assert(mid.links().members.contains_key(s[i].0.id()));
    lemma_each_linked(mid.links(), list, w, mid.first_pool(w), s[i].0);
    assert(mid.workers@.contains_key(w));
    assert(after.workers@.dom().contains(w));
    let first = mid.assignments_to(list, worker_id, nothing);
    let sync = CommandView::WorkerRegistrySync { workers: after.registry(after.workers.seq()) };
    let c = CommandView::CreateNamespace {
        namespace_id: s[i].0,
        network: cluster.namespaces@[s[i].0.id()].spec.network,
    };
    let ids = after.worker_ids();
    lemma_contains_either(first.worker_commands, to_each(ids, sync), (worker_id, c));
    if 0 <= k < after.workers.seq().len() {
        let x = after.workers.seq()[k].0;
        assert(ids[k] == x);
        lemma_sent_to_each(ids, sync, x, sync);
        lemma_contains_either(first.worker_commands, to_each(ids, sync), (x, sync));
    }
}

/// A worker that leaves is forgotten, with what was set aside on it and nothing else that was set
/// aside. Each of its namespaces learns of the loss, and then every worker is told of those that
/// are left.
pub proof fn law_leaving_worker_is_lost_to_namespaces(
    cluster: Orchestrator,
    worker_id: WorkerId,
    after: Orchestrator,
    out: ClusterView,
    next: Seq<Task>,
    i: int,
    pod: Seq<char>,
)
    requires
        cluster.takes(OrchestratorInput::WorkerDisconnected { worker_id }, after, out, next),
        cluster.workers@.contains_key(worker_id.id()),
    ensures
        after.workers@ == cluster.workers@.remove(worker_id.id()),
        after.namespaces == cluster.namespaces,
        after.lease_table@.contains_key(pod) <==> cluster.lease_table@.contains_key(pod)
            && cluster.lease_table@[pod].worker_id.id() != worker_id.id(),
        next.len() == cluster.workers@[worker_id.id()].namespaces.seq().len() + 1,
        next.last() == Task::PushRegistry,
        0 <= i < cluster.workers@[worker_id.id()].namespaces.seq().len() ==> next[i] == (
        Task::Route {
            namespace_id: cluster.workers@[worker_id.id()].namespaces.seq()[i].0,
            input: NamespaceInput::WorkerLost { worker_id },
        }),
{
}

/// A worker is made known to the others exactly if it has a tunnel and a public address: under its
/// address and the port of its tunnel, with the key of its tunnel.
pub proof fn law_registry_lists_reachable_workers(
    cluster: Orchestrator,
    workers: Seq<(WorkerId, WorkerState)>,
    peer: PeerView,
)
    ensures
        cluster.registry(workers).contains(peer) <==> exists|i: int|
            0 <= i < workers.len() && (#[trigger] workers[i]).0 == peer.worker_id
                && workers[i].1.tunnel_config is Some
                && workers[i].1.capabilities.public_endpoint@.len() > 0 && peer.public_key
                == workers[i].1.tunnel_config.unwrap().public_key && peer.endpoint
                == workers[i].1.capabilities.public_endpoint@ + ":"@ + decimal(
                workers[i].1.tunnel_config.unwrap().listen_port as nat,
            ) && peer.segments == segments_of(workers[i].1.namespaces.seq(), cluster.namespaces@),
    decreases workers.len(),
{
    if workers.len() > 0 {
        let front = workers.drop_last();
        let last = workers.len() - 1;
        law_registry_lists_reachable_workers(cluster, front, peer);
        let rest = cluster.registry(front);
        if let Some(p) = cluster.peer_of(workers[last].0, workers[last].1) {
            lemma_contains_pushed(rest, p, peer);
        }
        if rest.contains(peer) {
            let i = choose|i: int|
                0 <= i < front.len() && (#[trigger] front[i]).0 == peer.worker_id
                    && front[i].1.tunnel_config is Some
                    && front[i].1.capabilities.public_endpoint@.len() > 0 && peer.public_key
                    == front[i].1.tunnel_config.unwrap().public_key && peer.endpoint
                    == front[i].1.capabilities.public_endpoint@ + ":"@ + decimal(
                    front[i].1.tunnel_config.unwrap().listen_port as nat,
                ) && peer.segments == segments_of(
                    front[i].1.namespaces.seq(),
                    cluster.namespaces@,
                );
            assert(workers[i] == front[i]);
        }
        if exists|i: int|
            0 <= i < workers.len() && (#[trigger] workers[i]).0 == peer.worker_id
                && workers[i].1.tunnel_config is Some
                && workers[i].1.capabilities.public_endpoint@.len() > 0 && peer.public_key
                == workers[i].1.tunnel_config.unwrap().public_key && peer.endpoint
                == workers[i].1.capabilities.public_endpoint@ + ":"@ + decimal(
                workers[i].1.tunnel_config.unwrap().listen_port as nat,
            ) && peer.segments == segments_of(
                workers[i].1.namespaces.seq(),
                cluster.namespaces@,
            ) {
            let i = choose|i: int|
                0 <= i < workers.len() && (#[trigger] workers[i]).0 == peer.worker_id
                    && workers[i].1.tunnel_config is Some
                    && workers[i].1.capabilities.public_endpoint@.len() > 0 && peer.public_key
                    == workers[i].1.tunnel_config.unwrap().public_key && peer.endpoint
                    == workers[i].1.capabilities.public_endpoint@ + ":"@ + decimal(
                    workers[i].1.tunnel_config.unwrap().listen_port as nat,
                ) && peer.segments == segments_of(
                    workers[i].1.namespaces.seq(),
                    cluster.namespaces@,
                );
            if i < last {
                assert(front[i] == workers[i]);
            }
        }
    }
}

/// The segments of a worker are those of its namespaces that are there.
pub proof fn law_segments_of_worker(
    homes: Seq<(NamespaceId, ())>,
    namespaces: Map<Seq<char>, NamespaceStateMachine>,
    segment: u16,
)
    ensures
        segments_of(homes, namespaces).contains(segment) <==> exists|i: int|
            0 <= i < homes.len() && namespaces.contains_key((#[trigger] homes[i]).0.id())
                && namespaces[homes[i].0.id()].segment_id == segment,
    decreases homes.len(),
{
    if homes.len() > 0 {
        let front = homes.drop_last();
        let last = homes.len() - 1;
        law_segments_of_worker(front, namespaces, segment);
        lemma_contains_pushed(
            segments_of(front, namespaces),
            namespaces[homes[last].0.id()].segment_id,
            segment,
        );
        if segments_of(front, namespaces).contains(segment) {
            let i = choose|i: int|
                0 <= i < front.len() && namespaces.contains_key((#[trigger] front[i]).0.id())
                    && namespaces[front[i].0.id()].segment_id == segment;
            assert(homes[i] == front[i]);
        }
        if exists|i: int|
            0 <= i < homes.len() && namespaces.contains_key((#[trigger] homes[i]).0.id())
                && namespaces[homes[i].0.id()].segment_id == segment {
            let i = choose|i: int|
                0 <= i < homes.len() && namespaces.contains_key((#[trigger] homes[i]).0.id())
                    && namespaces[homes[i].0.id()].segment_id == segment;
            if i < last {
                assert(front[i] == homes[i]);
            }
        }
    }
}

/// The pressure of a worker is kept with the worker, and its worst part is told to every namespace
/// that lists the worker. No other worker is touched.
pub proof fn law_pressure_reaches_namespaces(
    cluster: Orchestrator,
    worker: Seq<char>,
    bands: PressureBands,
    after: Orchestrator,
    n: Seq<char>,
    o: Seq<char>,
)
    requires
        cluster.with_bands(worker, bands, after),
        cluster.workers@.contains_key(worker),
    ensures
        after.workers@[worker].pressure_bands == bands,
        after.workers@[worker].capabilities == cluster.workers@[worker].capabilities,
        o != worker && cluster.workers@.contains_key(o) ==> after.workers@[o]
            == cluster.workers@[o],
        cluster.namespaces@.contains_key(n) && cluster.namespaces@[n].workers@.contains_key(worker)
            ==> {
            &&& after.namespaces@[n].workers@.contains_key(worker)
            &&& after.namespaces@[n].workers@[worker].fabric_status
                == cluster.namespaces@[n].workers@[worker].fabric_status
            &&& is_calm(bands) <==> after.namespaces@[n].workers@[worker].pressure_band
                == PressureBand::Normal
            &&& has_room(bands) <==> (after.namespaces@[n].workers@[worker].pressure_band
                == PressureBand::Normal || after.namespaces@[n].workers@[worker].pressure_band
                == PressureBand::Elevated)
            &&& after.namespaces@[n].workers@[worker].pressure_band == PressureBand::Critical <==> (
            bands.memory == PressureBand::Critical || bands.compute == PressureBand::Critical
                || bands.storage == PressureBand::Critical)
        },
        cluster.namespaces@.contains_key(n) && o != worker
            && cluster.namespaces@[n].workers@.contains_key(o)
            ==> after.namespaces@[n].workers@[o] == cluster.namespaces@[n].workers@[o],
{
    law_worst_band(bands);
    if cluster.namespaces@.contains_key(n) {
        assert(after.namespaces@[n].workers@.dom() =~= cluster.namespaces@[n].workers@.dom());
    }
}

/// A report on a store changes the sizes of the store of that name and nothing else.
pub proof fn law_store_report(pools: Seq<PoolInfo>, report: PoolInfo, i: int)
    requires
        0 <= i < pools.len(),
        forall|j: int, k: int|
            0 <= j < k < pools.len() ==> (#[trigger] pools[j]).pool_id.id() != (
            #[trigger] pools[k]).pool_id.id(),
    ensures
        with_pool(pools, report).len() == pools.len(),
        with_pool(pools, report)[i].pool_id == pools[i].pool_id,
        pools[i].pool_id.id() == report.pool_id.id() ==> with_pool(pools, report)[i].capacity_bytes
            == report.capacity_bytes && with_pool(pools, report)[i].available_bytes
            == report.available_bytes,
        pools[i].pool_id.id() != report.pool_id.id() ==> with_pool(pools, report)[i] == pools[i],
{
    lemma_pool_index(pools, report.pool_id.id());
}

proof fn lemma_pool_index(pools: Seq<PoolInfo>, pool: Seq<char>)
    ensures
        match pool_index(pools, pool) {
            Some(i) => 0 <= i < pools.len() && pools[i].pool_id.id() == pool,
            None => forall|i: int| 0 <= i < pools.len() ==> (#[trigger] pools[i]).pool_id.id() != pool,
        },
    decreases pools.len(),
{
    if pools.len() > 0 {
        let rest = pools.drop_first();
        lemma_pool_index(rest, pool);
        if pools[0].pool_id.id() != pool && pool_index(rest, pool) is None {
            assert forall|i: int| 0 <= i < pools.len() implies (#[trigger] pools[i]).pool_id.id()
                != pool by {
                if i > 0 {
                    assert(rest[i - 1] == pools[i]);
                }
            }
        }
    }
}

/// What is set aside on a worker grows by the memory of each lease on it, and by nothing else.
pub proof fn law_leases_add_up(leases: Seq<(PodId, Lease)>, lease: (PodId, Lease), worker: Seq<char>)
    ensures
        leased(Seq::empty(), worker) == 0,
        leased(leases.push(lease), worker) == leased(leases, worker) + (if lease.1.worker_id.id()
            == worker {
            lease.1.memory_mb as nat
        } else {
            0nat
        }),
{
    assert(leases.push(lease).drop_last() =~= leases);
}

/// The pods on a worker are those of each namespace on it.
pub proof fn law_pods_add_up(
    namespaces: Seq<(NamespaceId, NamespaceStateMachine)>,
    ns: (NamespaceId, NamespaceStateMachine),
    worker: Seq<char>,
)
    ensures
        pods_on(Seq::empty(), worker) == 0,
        pods_on(namespaces.push(ns), worker) == pods_on(namespaces, worker) + Set::new(
            |p: Seq<char>|
                ns.1.pod_map@.contains_key(p) && ns.1.pod_map@[p].worker_id.id() == worker,
        ).len(),
{
    assert(namespaces.push(ns).drop_last() =~= namespaces);
    assert(on_worker(ns.1.pod_map@, worker) =~= Set::new(
        |p: Seq<char>| ns.1.pod_map@.contains_key(p) && ns.1.pod_map@[p].worker_id.id() == worker,
    ));
}

// ---- clients ------------------------------------------------------------------------------------

/// A client reaches a namespace through the first worker whose fabric is up there, if that listens
/// for clients at a public address. It is told that address with the port, and the worker's key.
pub proof fn law_connection_goes_to_active_worker(
    cluster: Orchestrator,
    client_id: ClientId,
    namespace_id: NamespaceId,
    key: [u8; 32],
    after: Orchestrator,
    out: ClusterView,
    next: Seq<Task>,
)
    requires
        cluster.takes(
            OrchestratorInput::ClientCommand {
                client_id,
                command: ClientCommand::Connect { namespace_id, client_public_key: key },
            },
            after,
            out,
            next,
        ),
    ensures
        after == cluster,
        out.worker_commands.len() == 0,
        next.len() == 0 ==> out.client_events.len() == 1 && out.client_events[0].0 == client_id
            && out.client_events[0].1 is Error,
        next.len() > 0 ==> {
            &&& next.len() == 1
            &&& out.client_events.len() == 0
            &&& cluster.namespaces@.contains_key(namespace_id.id())
            &&& next[0] matches Task::Run {
                namespace_id: n,
                input: NamespaceInput::Connect {
                    client_id: c,
                    client_public_key,
                    worker_wg_public_key,
                    worker_endpoint,
                },
                ..
            } && n == namespace_id && c == client_id && client_public_key == key && exists|i: int|
                {
                    let s = cluster.namespaces@[namespace_id.id()].workers.seq();
                    &&& 0 <= i < s.len()
                    &&& is_first_up(
                        cluster.namespaces@[namespace_id.id()],
                        (#[trigger] cluster.namespaces@[namespace_id.id()].workers.seq()[i]).0,
                    )
                    &&& cluster.workers@.contains_key(s[i].0.id())
                    &&& cluster.workers@[s[i].0.id()].wg_config matches Some(cfg)
                        && worker_wg_public_key == cfg.public_key && worker_endpoint@
                        == cluster.workers@[s[i].0.id()].capabilities.public_endpoint@ + ":"@
                        + decimal(cfg.listen_port as nat)
                    &&& cluster.workers@[s[i].0.id()].capabilities.public_endpoint@.len() > 0
                }
        },
{
    if next.len() > 0 {
        let s = cluster.namespaces@[namespace_id.id()].workers.seq();
        let up = targets(s, None);
        lemma_first_up(cluster.namespaces@[namespace_id.id()]);
        let i = choose|i: int|
            0 <= i < s.len() && (#[trigger] s[i]).0 == up[0] && s[i].1.fabric_status
                == FabricStatus::Active && forall|k: int|
                0 <= k < i ==> (#[trigger] s[k]).1.fabric_status != FabricStatus::Active;
        assert(s[i].0.id() == up[0].id());
    }
}

/// A worker is reported with its own sizes and with the number of pods on it. One that is not there
/// is reported as an error.
pub proof fn law_worker_report(
    cluster: Orchestrator,
    client_id: ClientId,
    worker_id: WorkerId,
    after: Orchestrator,
    out: ClusterView,
    next: Seq<Task>,
)
    requires
        cluster.takes(
            OrchestratorInput::ClientCommand {
                client_id,
                command: ClientCommand::GetWorker { worker_id },
            },
            after,
            out,
            next,
        ),
    ensures
        after == cluster,
        next.len() == 0,
        out.client_events.len() == 1,
        out.client_events[0].0 == client_id,
        cluster.workers@.contains_key(worker_id.id()) ==> (out.client_events[0].1 matches
            ClientEventView::WorkerStatus { worker } && worker.worker_id == worker_id
            && worker.max_pods == cluster.workers@[worker_id.id()].capabilities.max_pods
            && worker.available_memory_mb
            == cluster.workers@[worker_id.id()].capabilities.available_memory_mb
            && worker.active_pods == pods_on(cluster.namespaces.seq(), worker_id.id()) as u32),
        !cluster.workers@.contains_key(worker_id.id()) ==> out.client_events[0].1 is Error,
{
}

/// A list of workers or of namespaces holds one entry for each, in order.
pub proof fn law_lists_are_complete(
    cluster: Orchestrator,
    client_id: ClientId,
    command: ClientCommand,
    after: Orchestrator,
    out: ClusterView,
    next: Seq<Task>,
    i: int,
)
    requires
        cluster.takes(OrchestratorInput::ClientCommand { client_id, command }, after, out, next),
        command is ListWorkers || command is ListNamespaces,
    ensures
        after == cluster,
        next.len() == 0,
        out.client_events.len() == 1,
        out.client_events[0].0 == client_id,
        command is ListWorkers ==> (out.client_events[0].1 matches ClientEventView::WorkerList {
            workers,
        } && workers.len() == cluster.workers.seq().len() && (0 <= i < workers.len()
            ==> workers[i].worker_id == cluster.workers.seq()[i].0 && workers[i].max_pods
            == cluster.workers.seq()[i].1.capabilities.max_pods)),
        command is ListNamespaces ==> (out.client_events[0].1 matches
            ClientEventView::NamespaceList { namespaces } && namespaces.len()
            == cluster.namespaces.seq().len() && (0 <= i < namespaces.len()
            ==> namespaces[i].namespace_id == cluster.namespaces.seq()[i].1.namespace_id
            && namespaces[i].status == cluster.namespaces.seq()[i].1.status)),
{
}

// ---- leases and output --------------------------------------------------------------------------

/// What a worker is committed to: the memory of a pod for each pod on it, and what is set aside.
pub proof fn law_committed_memory(cluster: Orchestrator, worker: Seq<char>, pod_memory_mb: u64)
    ensures
        cluster.committed(worker, pod_memory_mb) == pods_on(cluster.namespaces.seq(), worker)
            * pod_memory_mb + leased(cluster.lease_table.leases.seq(), worker),
{
}

/// Once a pod is known to run, to have ended or not to have started in time, nothing is set aside
/// for it any more. No other event ends a lease.
pub proof fn law_leases_end(
    cluster: Orchestrator,
    namespace_id: NamespaceId,
    input: NamespaceInput,
    after: Orchestrator,
    out: ClusterView,
    next: Seq<Task>,
    pod: Seq<char>,
)
    requires
        cluster.takes(OrchestratorInput::NamespaceInput { namespace_id, input }, after, out, next),
    ensures
        after.lease_table@.contains_key(pod) <==> cluster.lease_table@.contains_key(pod) && !(
        match input {
            NamespaceInput::WorkerEvent { event, .. } => match event {
                WorkerEvent::PodRunning { pod_id } => pod_id.id() == pod,
                WorkerEvent::PodExited { pod_id, .. } => pod_id.id() == pod,
                WorkerEvent::PodFailed { pod_id, .. } => pod_id.id() == pod,
                WorkerEvent::PodSuspended { pod_id, .. } => pod_id.id() == pod,
                WorkerEvent::PodSuspendFailed { pod_id, .. } => pod_id.id() == pod,
                _ => false,
            },
            NamespaceInput::TimerFired { timer_key } => match timer_key {
                TimerKey::LaunchTimeout { pod_id, .. } => pod_id.id() == pod,
                TimerKey::ResumeTimeout { pod_id, .. } => pod_id.id() == pod,
                _ => false,
            },
            _ => false,
        }),
        cluster.namespaces@.contains_key(namespace_id.id()) ==> next == seq![
            Task::Run { namespace_id, input, scheduled: false },
        ],
        !cluster.namespaces@.contains_key(namespace_id.id()) ==> next.len() == 0,
{
}

/// What a namespace gives out goes on to the workers and the clients as it is, and its timers and
/// events under its name. What was given out before stays.
pub proof fn law_namespace_output_goes_on(
    out: ClusterView,
    namespace_id: NamespaceId,
    given: OutputView,
    command: (WorkerId, CommandView),
    event: (ClientId, ClientEventView),
    i: int,
)
    ensures
        ({
            let all = out.with_namespace(namespace_id, given);
            &&& all.worker_commands.contains(command) <==> out.worker_commands.contains(command)
                || given.worker_commands.contains(command)
            &&& all.client_events.contains(event) <==> out.client_events.contains(event)
                || given.client_events.contains(event)
            &&& 0 <= i < given.timers_set.len() ==> all.timers_set[out.timers_set.len() + i] == (
                namespace_id,
                given.timers_set[i],
            )
            &&& 0 <= i < given.timers_cancel.len() ==> all.timers_cancel[out.timers_cancel.len()
                + i] == (namespace_id, given.timers_cancel[i])
            &&& all.timers_set.len() == out.timers_set.len() + given.timers_set.len()
            &&& all.timers_cancel.len() == out.timers_cancel.len() + given.timers_cancel.len()
            &&& all.events.len() == out.events.len() + given.events.len()
        }),
{
    lemma_contains_either(out.worker_commands, given.worker_commands, command);
    lemma_contains_either(out.client_events, given.client_events, event);
}

/// A worker that connects again under a name that is known is lost first and joins afterwards, as it
/// describes itself now.
pub proof fn law_worker_connects_again(
    cluster: Orchestrator,
    worker_id: WorkerId,
    capabilities: WorkerCapabilities,
    wg_config: Option<WorkerWgConfig>,
    tunnel_config: Option<WorkerTunnelConfig>,
    after: Orchestrator,
    out: ClusterView,
    next: Seq<Task>,
    i: int,
)
    requires
        cluster.takes(
            OrchestratorInput::WorkerConnected {
                worker_id,
                capabilities,
                wg_config,
                tunnel_config,
            },
            after,
            out,
            next,
        ),
        cluster.workers@.contains_key(worker_id.id()),
    ensures
        !after.workers@.contains_key(worker_id.id()),
        out.worker_commands.len() == 0,
        next.len() > 0,
        next.last() == (Task::Welcome { worker_id, capabilities, wg_config, tunnel_config }),
        0 <= i < cluster.workers@[worker_id.id()].namespaces.seq().len() ==> next[i] == (
        Task::Route {
            namespace_id: cluster.workers@[worker_id.id()].namespaces.seq()[i].0,
            input: NamespaceInput::WorkerLost { worker_id },
        }),
{
    let s = cluster.workers@[worker_id.id()].namespaces.seq();
    let front = next.drop_last();
    assert(front.len() == s.len() + 1);
    if 0 <= i < s.len() {
        assert(next[i] == front[i]);
    }
}

/// A new namespace gets the segment that comes first after the last one that was given out, among
/// those that are free: no free one lies nearer, counting on from that place and round the end.
pub proof fn law_nearest_segment_is_taken(
    cluster: Orchestrator,
    namespace_id: NamespaceId,
    spec: NamespaceSpec,
    segment_id: u16,
    mid: Orchestrator,
    other: u16,
)
    requires
        cluster.opened(namespace_id, spec, segment_id, mid),
        other != 0,
        !cluster.active_segment_ids@.contains_key(other),
    ensures
        segment_id != 0,
        !cluster.active_segment_ids@.contains_key(segment_id),
        (segment_id - cluster.next_segment_id) % 0x1_0000 <= (other - cluster.next_segment_id)
            % 0x1_0000,
        mid.next_segment_id == (segment_id + 1) % 0x1_0000,
{
    let next = cluster.next_segment_id;
    let d = choose|d: int|
        0 <= d < 0x1_0000 && segment_id == #[trigger] place(next, d) && forall|e: int|
            0 <= e < d ==> !usable(cluster.active_segment_ids@, #[trigger] place(next, e));
    let e = (other - next) % 0x1_0000;
    assert(place(next, e) == other);
    assert(usable(cluster.active_segment_ids@, other));
    assert((segment_id - next) % 0x1_0000 == d);
}

/// Where a worker has stores, a namespace keeps the first one as the worker's store.
pub proof fn law_members_keep_first_store(
    links: Links,
    namespace: Seq<char>,
    worker: Seq<char>,
    cluster: Orchestrator,
)
    requires
        links.members.contains_key(namespace),
        links.homes.contains_key(worker),
    ensures
        ({
            let after = links.assigned(namespace, worker, cluster.first_pool(worker));
            &&& are_linked(after, namespace, worker)
            &&& cluster.workers@.contains_key(worker)
                && cluster.workers@[worker].capabilities.pools@.len() > 0
                ==> after.members[namespace][worker].primary_pool_id == Some(
                cluster.workers@[worker].capabilities.pools@[0].pool_id,
            )
            &&& cluster.workers@.contains_key(worker)
                && cluster.workers@[worker].capabilities.pools@.len() == 0
                ==> after.members[namespace][worker].primary_pool_id is None
            &&& after.members[namespace][worker].pressure_band == PressureBand::Normal
            &&& forall|w: Seq<char>|
                w != worker && #[trigger] links.members[namespace].contains_key(w)
                    ==> after.members[namespace][w] == links.members[namespace][w]
        }),
{
}

/// Reports on stores are taken in one after the other.
pub proof fn law_store_reports_in_turn(pools: Seq<PoolInfo>, reports: Seq<PoolInfo>, report: PoolInfo)
    ensures
        with_pools(pools, Seq::empty()) == pools,
        with_pools(pools, reports.push(report)) == with_pool(with_pools(pools, reports), report),
{
    assert(reports.push(report).drop_last() =~= reports);
}

/// A client that asks for the pods of a namespace gets those that the namespace reports. One that
/// names a namespace that is not there is refused.
pub proof fn law_pods_are_listed(
    cluster: Orchestrator,
    client_id: ClientId,
    namespace_id: NamespaceId,
    after: Orchestrator,
    out: ClusterView,
    next: Seq<Task>,
)
    requires
        cluster.takes(
            OrchestratorInput::ClientCommand {
                client_id,
                command: ClientCommand::ListPods { namespace_id },
            },
            after,
            out,
            next,
        ),
    ensures
        after == cluster,
        next.len() == 0,
        out.client_events.len() == 1,
        out.client_events[0].0 == client_id,
        cluster.namespaces@.contains_key(namespace_id.id()) ==> (out.client_events[0].1 matches
            ClientEventView::PodList { pods } && pods
            == cluster.namespaces@[namespace_id.id()].report().pods),
        !cluster.namespaces@.contains_key(namespace_id.id()) ==> out.client_events[0].1 is Error,
{
}

} // verus!
