//! What the cluster decides reaches those whom it concerns.
use vstd::prelude::*;

use crate::engine::orchestrator::{
    default_pool, forwarded, introduced, introduced_to_each, parted_from_each, spread, summaries,
    withdrawn, ConnectedWorkerInfo, OrchestratorCore, OrchestratorInputNew,
};
use crate::engine::protocol::CommandView;
use crate::engine::routing::{
    done, inputs, law_outputs_only_grow, lemma_less_left, lemma_stays_orderly, left, run, taken,
    Routing, Work,
};
use crate::engine::scheduler_laws::law_request_is_granted_best_worker;
use crate::engine::types::{
    as_input, ClientCommand, ClientError, ClusterOutView, NamespaceToOrchestrator,
    OrchestratorToNamespace, SchedulerCoreInput, SchedulerDecision, SchedulerMessage,
};
use crate::engine::worker_state::{WorkerCapabilities, WorkerStateCoreEvent};
use crate::ids::{ArtifactId, NamespaceId};
use crate::namespace::command_laws::lemma_contains_pushed;
use crate::sm::{ArtifactPortId, PodId, WorkerId, WorkerInfo};
use crate::sorted_map::{as_map, has_key, increasing, lemma_stays_increasing, Key};
use crate::types::{NetworkConfig, PressureBand};

verus! {

proof fn lemma_prefix_contains<D>(a: Seq<D>, b: Seq<D>, d: D)
    requires
        a.is_prefix_of(b),
        a.contains(d),
    ensures
        b.contains(d),
{
    let k = a.index_of(d);
    assert(b[k] == d);
}

/// A namespace has been told a decision.
pub open spec fn decision_told(out: ClusterOutView, d: SchedulerDecision) -> bool {
    match d {
        SchedulerDecision::Grant { namespace_id, .. } => out.to_namespaces.contains(
            (namespace_id, OrchestratorToNamespace::SchedulerDecision(d)),
        ),
        SchedulerDecision::Revoke { namespace_id, .. } => out.to_namespaces.contains(
            (namespace_id, OrchestratorToNamespace::SchedulerDecision(d)),
        ),
    }
}

/// Work that is to be done has its effect: a decision is told to the namespace that it is for, a
/// lost snapshot is told to every namespace, and a deletion is given to the worker that it names.
pub proof fn law_work_has_its_effect(
    r: Routing,
    namespaces: Seq<(NamespaceId, ())>,
    work: Seq<Work>,
    i: int,
    k: int,
)
    requires
        r.sched.orderly(),
        0 <= i < work.len(),
    ensures
        work[i] matches Work::Decide(d) ==> decision_told(run(r, namespaces, work).out, d),
        work[i] matches Work::Tell(d) ==> decision_told(run(r, namespaces, work).out, d),
        work[i] matches Work::Invalidate(port) && 0 <= k < namespaces.len() ==> run(
            r,
            namespaces,
            work,
        ).out.to_namespaces.contains(
            (
                namespaces[k].0,
                OrchestratorToNamespace::ArtifactInvalidated {
                    artifact_port_id: ArtifactPortId(work[i]->Invalidate_0),
                },
            ),
        ),
        work[i] matches Work::Delete(c) ==> run(r, namespaces, work).out.worker_commands.contains(
            (
                c.worker_id,
                CommandView::DeleteArtifact { artifact_id: c.artifact_id.0@, pool_id: c.pool_id },
            ),
        ),
    decreases left(r, work),
{
    lemma_less_left(r, namespaces, work);
    let (after, more) = done(r, namespaces, work[0]);
    let rest = work.drop_first();
    let all = more + rest;
    if let Work::Input(input) = work[0] {
        lemma_stays_orderly(r.sched, input);
    }
    law_outputs_only_grow(after, namespaces, all);
    let end = run(after, namespaces, all);
    if i > 0 {
        assert(all[more.len() + i - 1] == work[i]);
        law_work_has_its_effect(after, namespaces, all, more.len() + i - 1, k);
    } else {
        match work[0] {
            Work::Decide(d) => {
                let n = more.len() - 1;
                assert(all[n] == Work::Tell(d));
                law_work_has_its_effect(after, namespaces, all, n, k);
            },
            Work::Tell(d) => {
                let id = match d {
                    SchedulerDecision::Grant { namespace_id, .. } => namespace_id,
                    SchedulerDecision::Revoke { namespace_id, .. } => namespace_id,
                };
                let m = (id, OrchestratorToNamespace::SchedulerDecision(d));
                lemma_contains_pushed(r.out.to_namespaces, m, m);
                lemma_prefix_contains(after.out.to_namespaces, end.out.to_namespaces, m);
            },
            Work::Invalidate(port) => {
                if 0 <= k < namespaces.len() {
                    let m = (
                        namespaces[k].0,
                        OrchestratorToNamespace::ArtifactInvalidated {
                            artifact_port_id: ArtifactPortId(port),
                        },
                    );
                    assert(after.out.to_namespaces[r.out.to_namespaces.len() + k] == m);
                    lemma_prefix_contains(after.out.to_namespaces, end.out.to_namespaces, m);
                }
            },
            Work::Delete(c) => {
                let m = (
                    c.worker_id,
                    CommandView::DeleteArtifact {
                        artifact_id: c.artifact_id.0@,
                        pool_id: c.pool_id,
                    },
                );
                lemma_contains_pushed(r.out.worker_commands, m, m);
                lemma_prefix_contains(after.out.worker_commands, end.out.worker_commands, m);
            },
            Work::Input(_) => {},
        }
    }
}

/// What the scheduler gives out on an input is all done: each decision is told, each lost snapshot
/// is told to every namespace, and each deletion goes to its worker.
pub proof fn law_scheduler_effects_are_done(
    r: Routing,
    namespaces: Seq<(NamespaceId, ())>,
    input: SchedulerCoreInput,
    i: int,
    k: int,
)
    requires
        r.sched.orderly(),
    ensures
        0 <= i < r.sched.next(input).1.decisions.len() ==> decision_told(
            run(r, namespaces, seq![Work::Input(input)]).out,
            r.sched.next(input).1.decisions[i],
        ),
        0 <= i < r.sched.next(input).1.artifact_invalidations.len() && 0 <= k < namespaces.len()
            ==> run(r, namespaces, seq![Work::Input(input)]).out.to_namespaces.contains(
            (
                namespaces[k].0,
                OrchestratorToNamespace::ArtifactInvalidated {
                    artifact_port_id: ArtifactPortId(
                        r.sched.next(input).1.artifact_invalidations[i],
                    ),
                },
            ),
        ),
        0 <= i < r.sched.next(input).1.delete_commands.len() ==> run(
            r,
            namespaces,
            seq![Work::Input(input)],
        ).out.worker_commands.contains(
            (
                r.sched.next(input).1.delete_commands[i].worker_id,
                CommandView::DeleteArtifact {
                    artifact_id: r.sched.next(input).1.delete_commands[i].artifact_id.0@,
                    pool_id: r.sched.next(input).1.delete_commands[i].pool_id,
                },
            ),
        ),
{
    let work = seq![Work::Input(input)];
    lemma_less_left(r, namespaces, work);
    lemma_stays_orderly(r.sched, input);
    let (after, more) = done(r, namespaces, work[0]);
    assert(more + work.drop_first() =~= more);
    let e = r.sched.next(input).1;
    let a = e.decisions.len() as int;
    let b = e.artifact_invalidations.len() as int;
    if 0 <= i < a {
        assert(more[i] == Work::Decide(e.decisions[i]));
        law_work_has_its_effect(after, namespaces, more, i, k);
    }
    if 0 <= i < b {
        assert(more[a + i] == Work::Invalidate(e.artifact_invalidations[i]));
        law_work_has_its_effect(after, namespaces, more, a + i, k);
    }
    if 0 <= i < e.delete_commands.len() {
        assert(more[a + b + i] == Work::Delete(e.delete_commands[i]));
        law_work_has_its_effect(after, namespaces, more, a + b + i, k);
    }
}

/// A namespace that asks for a worker is granted one if some listed worker is active, is not being
/// emptied and is under normal or elevated pressure: it is told of such a worker.
pub proof fn law_namespace_is_told_its_worker(
    core: OrchestratorCore,
    from: NamespaceId,
    namespace_id: NamespaceId,
    pod_id: PodId,
    resume: Option<ArtifactId>,
    some: int,
)
    requires
        core.routing().sched.orderly(),
        0 <= some < core.routing().sched.workers.len(),
        core.routing().sched.workers[some].1.active,
        !core.routing().sched.workers[some].1.draining,
        core.routing().sched.workers[some].1.max_pressure_band == PressureBand::Normal
            || core.routing().sched.workers[some].1.max_pressure_band == PressureBand::Elevated,
    ensures
        exists|b: int|
            #![trigger core.routing().sched.workers[b]]
            0 <= b < core.routing().sched.workers.len() && core.routing().sched.workers[b].1.active
                && !core.routing().sched.workers[b].1.draining && (
            core.routing().sched.workers[b].1.max_pressure_band == PressureBand::Normal
                || core.routing().sched.workers[b].1.max_pressure_band == PressureBand::Elevated)
                && core.processed(
                OrchestratorInputNew::FromNamespace {
                    namespace_id: from,
                    message: NamespaceToOrchestrator::SchedulerMessage(
                        SchedulerMessage::RequestLease {
                            namespace_id,
                            pod_id,
                            proto_resume_artifact: resume,
                        },
                    ),
                },
            ).out.to_namespaces.contains(
                (
                    namespace_id,
                    OrchestratorToNamespace::SchedulerDecision(
                        SchedulerDecision::Grant {
                            namespace_id,
                            pod_id,
                            worker_id: core.routing().sched.workers[b].1.worker_id,
                        },
                    ),
                ),
            ),
{
    let r = core.routing();
    let input = SchedulerCoreInput::RequestLease {
        namespace_id,
        pod_id,
        proto_resume_artifact: resume,
    };
    let (sched, effects) = r.sched.next(input);
    law_request_is_granted_best_worker(
        r.sched,
        namespace_id,
        pod_id,
        resume,
        sched,
        effects,
        some,
    );
    law_scheduler_effects_are_done(r, core.namespace_ids.seq(), input, 0, 0);
    let b = choose|b: int|
        #![trigger r.sched.workers[b]]
        0 <= b < r.sched.workers.len() && effects.decisions == seq![
            SchedulerDecision::Grant {
                namespace_id,
                pod_id,
                worker_id: r.sched.workers[b].1.worker_id,
            },
        ] && r.sched.workers[b].1.active && !r.sched.workers[b].1.draining && (
        r.sched.workers[b].1.max_pressure_band == PressureBand::Normal
            || r.sched.workers[b].1.max_pressure_band == PressureBand::Elevated);
    assert(core.routing().sched.workers[b].1.active);
    assert(effects.decisions[0] == (SchedulerDecision::Grant {
        namespace_id,
        pod_id,
        worker_id: r.sched.workers[b].1.worker_id,
    }));
}

/// A decision is counted with its worker: a pod more where one is granted, and one fewer where one
/// is revoked. The scheduler then hears of the worker, and the namespace of the decision.
pub proof fn law_decisions_are_counted(
    r: Routing,
    namespaces: Seq<(NamespaceId, ())>,
    d: SchedulerDecision,
    after: Routing,
    more: Seq<Work>,
    worker: WorkerId,
)
    requires
        (after, more) == done(r, namespaces, Work::Decide(d)),
        increasing(r.ws.workers),
        has_key(r.ws.workers, worker),
        as_map(r.ws.workers)[worker].pod_count < i32::MAX,
        match d {
            SchedulerDecision::Grant { worker_id, .. } => worker_id == worker,
            SchedulerDecision::Revoke { worker_id, .. } => worker_id == worker,
        },
    ensures
        d is Grant ==> as_map(after.ws.workers)[worker].pod_count == as_map(
            r.ws.workers,
        )[worker].pod_count + 1,
        d is Revoke && as_map(r.ws.workers)[worker].pod_count > 0 ==> as_map(
            after.ws.workers,
        )[worker].pod_count == as_map(r.ws.workers)[worker].pod_count - 1,
        after.sched == r.sched,
        after.out == r.out,
        more.len() == 2,
        more[0] matches Work::Input(SchedulerCoreInput::WorkerUpdate(w, c)) && w == worker
            && c.pod_count == as_map(after.ws.workers)[worker].pod_count,
        more[1] == Work::Tell(d),
{
    let delta: i32 = if d is Grant {
        1
    } else {
        -1i32
    };
    lemma_stays_increasing(r.ws.workers, worker, as_map(r.ws.workers)[worker].counted(delta));
}

// ---- workers come and go ------------------------------------------------------------------------

proof fn lemma_taken_grows(
    r: Routing,
    namespaces: Seq<(NamespaceId, ())>,
    event: WorkerStateCoreEvent,
)
    requires
        r.sched.orderly(),
    ensures
        taken(r, namespaces, event).sched.orderly(),
        r.out.to_namespaces.is_prefix_of(taken(r, namespaces, event).out.to_namespaces),
        r.out.worker_commands.is_prefix_of(taken(r, namespaces, event).out.worker_commands),
        taken(r, namespaces, event).out.direct_worker_commands == r.out.direct_worker_commands,
{
    let (ws, effects) = r.ws.next(event);
    let start = Routing { ws, ..r };
    law_outputs_only_grow(start, namespaces, inputs(effects.scheduler_updates));
    lemma_run_orderly(start, namespaces, inputs(effects.scheduler_updates));
}

proof fn lemma_run_orderly(r: Routing, namespaces: Seq<(NamespaceId, ())>, work: Seq<Work>)
    requires
        r.sched.orderly(),
    ensures
        run(r, namespaces, work).sched.orderly(),
    decreases left(r, work),
{
    if work.len() > 0 {
        lemma_less_left(r, namespaces, work);
        let (after, more) = done(r, namespaces, work[0]);
        if let Work::Input(input) = work[0] {
            lemma_stays_orderly(r.sched, input);
        }
        lemma_run_orderly(after, namespaces, more + work.drop_first());
    }
}

/// A worker that has connected is made known to each namespace, with the pods that it can take and
/// its first store. It is told to set up the network of each namespace that has one.
pub proof fn law_new_worker_meets_namespaces(
    r: Routing,
    namespaces: Seq<(NamespaceId, ())>,
    networks: Map<Seq<char>, NetworkConfig>,
    worker_id: WorkerId,
    info: ConnectedWorkerInfo,
    some: Seq<(NamespaceId, ())>,
    i: int,
)
    requires
        r.sched.orderly(),
        0 <= i < some.len(),
    ensures
        ({
            let end = introduced_to_each(r, namespaces, networks, worker_id, info, some);
            &&& end.out.to_namespaces.contains(
                (
                    some[i].0,
                    OrchestratorToNamespace::WorkerConnected {
                        worker_id,
                        proto_worker_id: info.proto_worker_id,
                        info: WorkerInfo {
                            capacity: info.max_pods,
                            default_pool: info.default_pool,
                        },
                    },
                ),
            )
            &&& networks.contains_key(some[i].0.id()) ==> end.out.direct_worker_commands.contains(
                (
                    worker_id,
                    CommandView::CreateNamespace {
                        namespace_id: some[i].0,
                        network: networks[some[i].0.id()],
                    },
                ),
            )
        }),
    decreases some.len(),
{
    let front = some.drop_last();
    let last = some.last().0;
    let rest = introduced_to_each(r, namespaces, networks, worker_id, info, front);
    lemma_introduced_orderly(r, namespaces, networks, worker_id, info, front);
    let m = OrchestratorToNamespace::WorkerConnected {
        worker_id,
        proto_worker_id: info.proto_worker_id,
        info: WorkerInfo { capacity: info.max_pods, default_pool: info.default_pool },
    };
    let c = CommandView::CreateNamespace {
        namespace_id: some[i].0,
        network: networks[some[i].0.id()],
    };
    let d = CommandView::CreateNamespace { namespace_id: last, network: networks[last.id()] };
    let out = if networks.contains_key(last.id()) {
        rest.out.directed(worker_id, d)
    } else {
        rest.out
    };
    let start = Routing { out: out.told(last, m), ..rest };
    let event = WorkerStateCoreEvent::NamespaceAssigned { worker_id, namespace_id: last };
    lemma_taken_grows(start, namespaces, event);
    let end = taken(start, namespaces, event);
    lemma_contains_pushed(out.to_namespaces, (last, m), (some[i].0, m));
    lemma_contains_pushed(rest.out.direct_worker_commands, (worker_id, d), (worker_id, c));
    if i < front.len() {
        assert(front[i] == some[i]);
        law_new_worker_meets_namespaces(r, namespaces, networks, worker_id, info, front, i);
    }
    lemma_prefix_contains(start.out.to_namespaces, end.out.to_namespaces, (some[i].0, m));
}

proof fn lemma_introduced_orderly(
    r: Routing,
    namespaces: Seq<(NamespaceId, ())>,
    networks: Map<Seq<char>, NetworkConfig>,
    worker_id: WorkerId,
    info: ConnectedWorkerInfo,
    some: Seq<(NamespaceId, ())>,
)
    requires
        r.sched.orderly(),
    ensures
        introduced_to_each(r, namespaces, networks, worker_id, info, some).sched.orderly(),
    decreases some.len(),
{
    if some.len() > 0 {
        let front = some.drop_last();
        let rest = introduced_to_each(r, namespaces, networks, worker_id, info, front);
        lemma_introduced_orderly(r, namespaces, networks, worker_id, info, front);
        let all = introduced(rest, namespaces, networks, worker_id, info, some.last().0);
        let m = OrchestratorToNamespace::WorkerConnected {
            worker_id,
            proto_worker_id: info.proto_worker_id,
            info: WorkerInfo { capacity: info.max_pods, default_pool: info.default_pool },
        };
        let id = some.last().0;
        let out = if networks.contains_key(id.id()) {
            rest.out.directed(
                worker_id,
                CommandView::CreateNamespace { namespace_id: id, network: networks[id.id()] },
            )
        } else {
            rest.out
        };
        lemma_taken_grows(
            Routing { out: out.told(id, m), ..rest },
            namespaces,
            WorkerStateCoreEvent::NamespaceAssigned { worker_id, namespace_id: id },
        );
    }
}

/// Each namespace is told that a worker is gone.
pub proof fn law_gone_worker_is_told(
    r: Routing,
    namespaces: Seq<(NamespaceId, ())>,
    worker_id: WorkerId,
    some: Seq<(NamespaceId, ())>,
    i: int,
)
    requires
        r.sched.orderly(),
    ensures
        parted_from_each(r, namespaces, worker_id, some).sched.orderly(),
        0 <= i < some.len() ==> parted_from_each(
            r,
            namespaces,
            worker_id,
            some,
        ).out.to_namespaces.contains(
            (some[i].0, OrchestratorToNamespace::WorkerDisconnected { worker_id }),
        ),
    decreases some.len(),
{
    if some.len() > 0 {
        let front = some.drop_last();
        let last = some.last().0;
        let rest = parted_from_each(r, namespaces, worker_id, front);
        let m = OrchestratorToNamespace::WorkerDisconnected { worker_id };
        law_gone_worker_is_told(r, namespaces, worker_id, front, i);
        let start = Routing { out: rest.out.told(last, m), ..rest };
        let event = WorkerStateCoreEvent::NamespaceUnassigned { worker_id, namespace_id: last };
        lemma_taken_grows(start, namespaces, event);
        if 0 <= i < some.len() {
            lemma_contains_pushed(rest.out.to_namespaces, (last, m), (some[i].0, m));
            if i < front.len() {
                assert(front[i] == some[i]);
            }
            lemma_prefix_contains(
                start.out.to_namespaces,
                taken(start, namespaces, event).out.to_namespaces,
                (some[i].0, m),
            );
        }
    }
}

/// Each worker is told to set up the network of a new namespace.
pub proof fn law_new_namespace_is_spread(
    r: Routing,
    namespaces: Seq<(NamespaceId, ())>,
    namespace_id: NamespaceId,
    network: NetworkConfig,
    some: Seq<(WorkerId, ConnectedWorkerInfo)>,
    i: int,
)
    requires
        r.sched.orderly(),
    ensures
        spread(r, namespaces, namespace_id, network, some).sched.orderly(),
        0 <= i < some.len() ==> spread(
            r,
            namespaces,
            namespace_id,
            network,
            some,
        ).out.direct_worker_commands.contains(
            (some[i].0, CommandView::CreateNamespace { namespace_id, network }),
        ),
    decreases some.len(),
{
    if some.len() > 0 {
        let front = some.drop_last();
        let last = some.last().0;
        let rest = spread(r, namespaces, namespace_id, network, front);
        let c = CommandView::CreateNamespace { namespace_id, network };
        law_new_namespace_is_spread(r, namespaces, namespace_id, network, front, i);
        let start = Routing { out: rest.out.directed(last, c), ..rest };
        let event = WorkerStateCoreEvent::NamespaceAssigned { worker_id: last, namespace_id };
        lemma_taken_grows(start, namespaces, event);
        if 0 <= i < some.len() {
            lemma_contains_pushed(rest.out.direct_worker_commands, (last, c), (some[i].0, c));
            if i < front.len() {
                assert(front[i] == some[i]);
            }
        }
    }
}

/// A command of a client is passed on to the namespace that it names, and to no other. If there is no
/// such namespace, nothing is passed on, and the client is told so.
pub proof fn law_commands_are_forwarded(
    namespaces: Map<Seq<char>, ()>,
    namespace_id: NamespaceId,
    command: ClientCommand,
)
    ensures
        namespaces.contains_key(namespace_id.id()) ==> {
            let (r, out) = forwarded(namespaces, namespace_id, command);
            &&& r is Ok
            &&& out.to_namespaces == seq![
                (namespace_id, OrchestratorToNamespace::ClientCommand(command)),
            ]
            &&& out.worker_commands.len() == 0
        },
        !namespaces.contains_key(namespace_id.id()) ==> {
            let (r, out) = forwarded(namespaces, namespace_id, command);
            &&& r == Err::<(), ClientError>(ClientError::NamespaceNotFound)
            &&& out.to_namespaces.len() == 0
            &&& out.worker_commands.len() == 0
        },
{
    let (r, out) = forwarded(namespaces, namespace_id, command);
    if namespaces.contains_key(namespace_id.id()) {
        assert(out.to_namespaces =~= seq![
            (namespace_id, OrchestratorToNamespace::ClientCommand(command)),
        ]);
    }
}

/// What a namespace tells the scheduler is what the scheduler hears.
pub proof fn law_messages_become_inputs(message: SchedulerMessage)
    ensures
        match message {
            SchedulerMessage::RequestLease { namespace_id, pod_id, proto_resume_artifact } => {
                as_input(message) == (SchedulerCoreInput::RequestLease {
                    namespace_id,
                    pod_id,
                    proto_resume_artifact,
                })
            },
            SchedulerMessage::DropRequest { namespace_id, pod_id } => as_input(message) == (
            SchedulerCoreInput::DropRequest { namespace_id, pod_id }),
            SchedulerMessage::ArtifactReferenced { namespace_id, proto_artifact_id } => as_input(
                message,
            ) == (SchedulerCoreInput::ArtifactReferenced { proto_artifact_id, namespace_id }),
            SchedulerMessage::ArtifactReleased { namespace_id, proto_artifact_id } => as_input(
                message,
            ) == (SchedulerCoreInput::ArtifactReleased { proto_artifact_id, namespace_id }),
        },
{
}

/// A new namespace hears of every connected worker, with what it can take and its first store.
pub proof fn law_new_namespace_hears_of_workers(
    workers: Seq<(WorkerId, ConnectedWorkerInfo)>,
    capabilities: WorkerCapabilities,
    i: int,
)
    requires
        0 <= i < workers.len(),
    ensures
        summaries(workers).len() == workers.len(),
        summaries(workers)[i].worker_id == workers[i].0,
        summaries(workers)[i].proto_worker_id == workers[i].1.proto_worker_id,
        summaries(workers)[i].max_pods == workers[i].1.max_pods,
        summaries(workers)[i].default_pool == workers[i].1.default_pool,
        capabilities.pools@.len() == 0 ==> default_pool(capabilities) is None,
        capabilities.pools@.len() > 0 ==> default_pool(capabilities) == Some(
            capabilities.pools@[0].pool_id,
        ),
{
}

/// When an event changes how the workers reach each other, all of them are told so, and not
/// otherwise.
pub proof fn law_changed_registry_is_announced(
    r: Routing,
    namespaces: Seq<(NamespaceId, ())>,
    event: WorkerStateCoreEvent,
)
    requires
        r.sched.orderly(),
    ensures
        r.ws.next(event).1.worker_registry_broadcast matches Some(peers) ==> taken(
            r,
            namespaces,
            event,
        ).out.global_broadcasts == r.out.global_broadcasts.push(
            CommandView::WorkerRegistrySync { workers: peers },
        ),
        r.ws.next(event).1.worker_registry_broadcast is None ==> taken(
            r,
            namespaces,
            event,
        ).out.global_broadcasts == r.out.global_broadcasts,
{
    let (ws, effects) = r.ws.next(event);
    law_outputs_only_grow(Routing { ws, ..r }, namespaces, inputs(effects.scheduler_updates));
}

/// A namespace that goes is taken from each worker in turn.
pub proof fn law_namespace_is_taken_from_each_worker(
    r: Routing,
    namespaces: Seq<(NamespaceId, ())>,
    namespace_id: NamespaceId,
    some: Seq<(WorkerId, ConnectedWorkerInfo)>,
    last: (WorkerId, ConnectedWorkerInfo),
)
    ensures
        withdrawn(r, namespaces, namespace_id, Seq::empty()) == r,
        withdrawn(r, namespaces, namespace_id, some.push(last)) == taken(
            withdrawn(r, namespaces, namespace_id, some),
            namespaces,
            WorkerStateCoreEvent::NamespaceUnassigned { worker_id: last.0, namespace_id },
        ),
{
    assert(some.push(last).drop_last() =~= some);
}

} // verus!
