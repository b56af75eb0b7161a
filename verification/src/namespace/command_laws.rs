//! What the requests of clients and of the scheduler bring about: who is told to stop, to start and
//! to forget what.
use vstd::prelude::*;

use crate::broadcast::{law_targets, reached, targets, to_each};
use crate::ids::{ArtifactId, ClientId, NamespaceId, PodId, PoolId, ServiceId, WorkerId, WorkloadId};
use crate::namespace::commands::{
    abandoned_all, destroyed_services, dropped, dropped_all, farewells, first_service,
    gone_services, gone_workloads, pods_without, timers_stopped,
};
use crate::namespace::NamespaceStateMachine;
use crate::output::{ClientEventView, EventView, OutputView, WorkloadEventView};
use crate::pod_map::PodInfo;
use crate::service::{ServiceState, ServiceStateMachine};
use crate::sorted_map::{
    erase, has_key, increasing, lemma_contains_either, lemma_position_unique, position, Key,
};
use crate::text::{dotted, mask_of};
use crate::types::{
    CommandView, FabricRouteEntry, FabricStatus, NamespaceSpec, NamespaceStatus,
    PodResourceValues, ServiceSpec, TimerKey, WorkloadSpec,
};
use crate::workload::{Workload, WorkloadState};

verus! {

/// A sequence with one more element contains what it contained and that element.
pub proof fn lemma_contains_pushed<D>(s: Seq<D>, last: D, d: D)
    ensures
        s.push(last).contains(d) <==> s.contains(d) || last == d,
{
    let all = s.push(last);
    if s.contains(d) {
        let k = s.index_of(d);
        assert(all[k] == d);
    }
    if last == d {
        assert(all[s.len() as int] == d);
    }
    if all.contains(d) {
        let k = all.index_of(d);
        if k < s.len() {
            assert(s[k] == d);
        }
    }
}

/// A command to each of several workers is a command to one worker exactly if it is among them.
pub proof fn lemma_sent_to_each(to: Seq<WorkerId>, command: CommandView, w: WorkerId, c: CommandView)
    ensures
        to_each(to, command).contains((w, c)) <==> c == command && to.contains(w),
{
    let all = to_each(to, command);
    if all.contains((w, c)) {
        let k = all.index_of((w, c));
        assert(all[k] == (to[k], command));
    }
    if to.contains(w) {
        let k = to.index_of(w);
        assert(all[k] == (w, command));
    }
}

/// The worker is one of the namespace's, and its fabric is up.
pub open spec fn is_up(ns: NamespaceStateMachine, w: WorkerId) -> bool {
    exists|i: int|
        0 <= i < ns.workers.seq().len() && (#[trigger] ns.workers.seq()[i]).0 == w
            && ns.workers.seq()[i].1.fabric_status == FabricStatus::Active
}

/// What goes to every active worker reaches a worker exactly if its fabric is up.
pub proof fn lemma_broadcast(
    ns: NamespaceStateMachine,
    command: CommandView,
    w: WorkerId,
    c: CommandView,
)
    ensures
        ns.broadcast(command).contains((w, c)) <==> c == command && is_up(ns, w),
{
    lemma_sent_to_each(targets(ns.workers.seq(), None), command, w, c);
    law_targets(ns.workers.seq(), None, w);
    assert(reached(ns.workers.seq(), None, w) == is_up(ns, w)) by {
        let s = ns.workers.seq();
        if reached(s, None, w) {
            let i = choose|i: int|
                0 <= i < s.len() && (#[trigger] s[i]).0 == w && s[i].1.fabric_status
                    == FabricStatus::Active;
            assert(s[i].0 == w);
        }
        if is_up(ns, w) {
            let i = choose|i: int|
                0 <= i < s.len() && (#[trigger] s[i]).0 == w && s[i].1.fabric_status
                    == FabricStatus::Active;
            assert(s[i].0 == w);
        }
    }
}

// ---- a new spec -----------------------------------------------------------------------------

/// The pod that a workload in some state has, and the worker that it is on.
pub open spec fn sits(state: WorkloadState, p: PodId, w: WorkerId) -> bool {
    match state {
        WorkloadState::Launching { pod_id, worker_id, .. } => pod_id == p && worker_id == w,
        WorkloadState::Running { pod_id, worker_id } => pod_id == p && worker_id == w,
        WorkloadState::Suspending { pod_id, worker_id, .. } => pod_id == p && worker_id == w,
        WorkloadState::Resuming { pod_id, worker_id, .. } => pod_id == p && worker_id == w,
        _ => false,
    }
}

/// The snapshot that a workload in some state rests in or wakes from, and where it lies.
pub open spec fn rests(state: WorkloadState, a: ArtifactId, q: PoolId, w: WorkerId) -> bool {
    match state {
        WorkloadState::Suspended { worker_id, artifact_id, pool_id } => {
            artifact_id == a && pool_id == q && worker_id == w
        },
        WorkloadState::Resuming { worker_id, artifact_id, pool_id, .. } => {
            artifact_id == a && pool_id == q && worker_id == w
        },
        _ => false,
    }
}

/// The timer that runs for a workload in some state.
pub open spec fn ticks(state: WorkloadState, key: TimerKey) -> bool {
    match state {
        WorkloadState::Launching { launch_timeout, .. } => launch_timeout == key,
        WorkloadState::Suspending { suspend_timeout, .. } => suspend_timeout == key,
        WorkloadState::Resuming { resume_timeout, .. } => resume_timeout == key,
        _ => false,
    }
}

/// A command stops the pod or deletes the snapshot of a workload in some state.
spec fn ends(ns: NamespaceId, state: WorkloadState, w: WorkerId, c: CommandView) -> bool {
    match c {
        CommandView::StopPod { namespace_id, pod_id, graceful } => namespace_id == ns && sits(
            state,
            pod_id,
            w,
        ) && graceful == state is Running,
        CommandView::DeleteArtifact { artifact_id, pool_id } => rests(
            state,
            artifact_id,
            pool_id,
            w,
        ),
        _ => false,
    }
}

proof fn lemma_dropped(
    ns: NamespaceId,
    state: WorkloadState,
    out: OutputView,
    w: WorkerId,
    c: CommandView,
    key: TimerKey,
)
    ensures
        dropped(ns, state, out).worker_commands.contains((w, c)) <==> out.worker_commands.contains(
            (w, c),
        ) || ends(ns, state, w, c),
        dropped(ns, state, out).timers_cancel.contains(key) <==> out.timers_cancel.contains(key)
            || ticks(state, key),
{
    match state {
        WorkloadState::Launching { pod_id, worker_id, launch_timeout } => {
            let stop = (worker_id, CommandView::StopPod { namespace_id: ns, pod_id, graceful: false });
            lemma_contains_pushed(out.worker_commands, stop, (w, c));
            lemma_contains_pushed(out.timers_cancel, launch_timeout, key);
        },
        WorkloadState::Running { pod_id, worker_id } => {
            let stop = (worker_id, CommandView::StopPod { namespace_id: ns, pod_id, graceful: true });
            lemma_contains_pushed(out.worker_commands, stop, (w, c));
        },
        WorkloadState::Suspending { pod_id, worker_id, suspend_timeout } => {
            let stop = (worker_id, CommandView::StopPod { namespace_id: ns, pod_id, graceful: false });
            lemma_contains_pushed(out.worker_commands, stop, (w, c));
            lemma_contains_pushed(out.timers_cancel, suspend_timeout, key);
        },
        WorkloadState::Suspended { worker_id, artifact_id, pool_id } => {
            let delete = (worker_id, CommandView::DeleteArtifact { artifact_id, pool_id });
            lemma_contains_pushed(out.worker_commands, delete, (w, c));
        },
        WorkloadState::Resuming { pod_id, worker_id, artifact_id, pool_id, resume_timeout } => {
            let stop = (worker_id, CommandView::StopPod { namespace_id: ns, pod_id, graceful: false });
            let delete = (worker_id, CommandView::DeleteArtifact { artifact_id, pool_id });
            lemma_contains_pushed(out.worker_commands, stop, (w, c));
            lemma_contains_pushed(out.worker_commands.push(stop), delete, (w, c));
            lemma_contains_pushed(out.timers_cancel, resume_timeout, key);
        },
        _ => {},
    }
}

proof fn lemma_dropped_all(
    ns: NamespaceId,
    states: Seq<WorkloadState>,
    out: OutputView,
    w: WorkerId,
    c: CommandView,
    key: TimerKey,
)
    ensures
        dropped_all(ns, states, out).worker_commands.contains((w, c)) <==> (
        out.worker_commands.contains((w, c)) || exists|j: int|
            0 <= j < states.len() && ends(ns, #[trigger] states[j], w, c)),
        dropped_all(ns, states, out).timers_cancel.contains(key) <==> (out.timers_cancel.contains(
            key,
        ) || exists|j: int| 0 <= j < states.len() && ticks(#[trigger] states[j], key)),
    decreases states.len(),
{
    if states.len() > 0 {
        let front = states.drop_last();
        let last = states.len() - 1;
        lemma_dropped_all(ns, front, out, w, c, key);
        lemma_dropped(ns, states[last], dropped_all(ns, front, out), w, c, key);
        if exists|j: int| 0 <= j < front.len() && ends(ns, #[trigger] front[j], w, c) {
            let j = choose|j: int| 0 <= j < front.len() && ends(ns, #[trigger] front[j], w, c);
            assert(states[j] == front[j]);
        }
        if exists|j: int| 0 <= j < states.len() && ends(ns, #[trigger] states[j], w, c) {
            let j = choose|j: int| 0 <= j < states.len() && ends(ns, #[trigger] states[j], w, c);
            if j < last {
                assert(front[j] == states[j]);
            }
        }
        if exists|j: int| 0 <= j < front.len() && ticks(#[trigger] front[j], key) {
            let j = choose|j: int| 0 <= j < front.len() && ticks(#[trigger] front[j], key);
            assert(states[j] == front[j]);
        }
        if exists|j: int| 0 <= j < states.len() && ticks(#[trigger] states[j], key) {
            let j = choose|j: int| 0 <= j < states.len() && ticks(#[trigger] states[j], key);
            if j < last {
                assert(front[j] == states[j]);
            }
        }
    }
}

proof fn lemma_gone_workloads(
    workloads: Seq<(WorkloadId, Workload)>,
    spec: Map<Seq<char>, WorkloadSpec>,
)
    ensures
        forall|i: int|
            0 <= i < workloads.len() && !spec.contains_key((#[trigger] workloads[i]).0.id())
                ==> gone_workloads(workloads, spec).contains(workloads[i].1.status.state),
        forall|j: int|
            0 <= j < gone_workloads(workloads, spec).len() ==> exists|i: int|
                0 <= i < workloads.len() && !spec.contains_key((#[trigger] workloads[i]).0.id())
                    && workloads[i].1.status.state == #[trigger] gone_workloads(workloads, spec)[j],
    decreases workloads.len(),
{
    if workloads.len() > 0 {
        let front = workloads.drop_last();
        let last = workloads.len() - 1;
        let rest = gone_workloads(front, spec);
        let all = gone_workloads(workloads, spec);
        lemma_gone_workloads(front, spec);
        assert forall|i: int|
            0 <= i < workloads.len() && !spec.contains_key(
                (#[trigger] workloads[i]).0.id(),
            ) implies all.contains(workloads[i].1.status.state) by {
            lemma_contains_pushed(rest, workloads[last].1.status.state, workloads[i].1.status.state);
            if i < last {
                assert(front[i] == workloads[i]);
            }
        }
        assert forall|j: int| 0 <= j < all.len() implies exists|i: int|
            0 <= i < workloads.len() && !spec.contains_key((#[trigger] workloads[i]).0.id())
                && workloads[i].1.status.state == #[trigger] all[j] by {
            if j < rest.len() {
                assert(rest[j] == all[j]);
                let i = choose|i: int|
                    0 <= i < front.len() && !spec.contains_key((#[trigger] front[i]).0.id())
                        && front[i].1.status.state == rest[j];
                assert(workloads[i] == front[i]);
            } else {
                assert(workloads[last].1.status.state == all[j]);
            }
        }
    }
}

proof fn lemma_gone_services(
    services: Seq<(ServiceId, ServiceStateMachine)>,
    spec: Map<Seq<char>, ServiceSpec>,
    id: ServiceId,
)
    ensures
        gone_services(services, spec).contains(id) <==> exists|i: int|
            0 <= i < services.len() && (#[trigger] services[i]).0 == id && !spec.contains_key(
                id.id(),
            ),
    decreases services.len(),
{
    if services.len() > 0 {
        let front = services.drop_last();
        let last = services.len() - 1;
        lemma_gone_services(front, spec, id);
        lemma_contains_pushed(gone_services(front, spec), services[last].0, id);
        if exists|i: int|
            0 <= i < front.len() && (#[trigger] front[i]).0 == id && !spec.contains_key(id.id()) {
            let i = choose|i: int|
                0 <= i < front.len() && (#[trigger] front[i]).0 == id && !spec.contains_key(id.id());
            assert(services[i] == front[i]);
        }
        if exists|i: int|
            0 <= i < services.len() && (#[trigger] services[i]).0 == id && !spec.contains_key(
                id.id(),
            ) {
            let i = choose|i: int|
                0 <= i < services.len() && (#[trigger] services[i]).0 == id && !spec.contains_key(
                    id.id(),
                );
            if i < last {
                assert(front[i] == services[i]);
            }
        }
    }
}

proof fn lemma_destroyed_services(
    ns: NamespaceId,
    to: Seq<WorkerId>,
    ids: Seq<ServiceId>,
    w: WorkerId,
    c: CommandView,
)
    ensures
        destroyed_services(ns, to, ids).contains((w, c)) <==> to.contains(w) && (c matches
            CommandView::DestroyService { namespace_id, service_id } && namespace_id == ns
            && ids.contains(service_id)),
    decreases ids.len(),
{
    if ids.len() > 0 {
        let front = ids.drop_last();
        let last = CommandView::DestroyService { namespace_id: ns, service_id: ids.last() };
        lemma_destroyed_services(ns, to, front, w, c);
        lemma_sent_to_each(to, last, w, c);
        lemma_contains_either(destroyed_services(ns, to, front), to_each(to, last), (w, c));
        assert(ids =~= front.push(ids.last()));
        if let CommandView::DestroyService { service_id, .. } = c {
            lemma_contains_pushed(front, ids.last(), service_id);
        }
    }
}

/// A new spec stops the pods of the workloads that it does not know, and no others: each at the
/// worker that it is on, and gracefully exactly where the workload was running. It has the snapshots
/// deleted that such workloads rest in or wake from, and no others, and it stops their timers.
pub proof fn law_unknown_workloads_are_stopped(
    before: NamespaceStateMachine,
    client_id: ClientId,
    spec: NamespaceSpec,
    after: NamespaceStateMachine,
    out: OutputView,
    given: OutputView,
    w: WorkerId,
    p: PodId,
    a: ArtifactId,
    q: PoolId,
    graceful: bool,
    key: TimerKey,
)
    requires
        before.respecified(spec, after),
        given == before.respecified_out(client_id, spec, after, out),
    ensures
        given.worker_commands.contains(
            (w, CommandView::StopPod { namespace_id: before.namespace_id, pod_id: p, graceful }),
        ) <==> (out.worker_commands.contains(
            (w, CommandView::StopPod { namespace_id: before.namespace_id, pod_id: p, graceful }),
        ) || exists|i: int|
            0 <= i < before.workloads.seq().len() && !spec.workloads@.contains_key(
                (#[trigger] before.workloads.seq()[i]).0.id(),
            ) && sits(before.workloads.seq()[i].1.status.state, p, w) && graceful
                == before.workloads.seq()[i].1.status.state is Running),
        given.worker_commands.contains(
            (w, CommandView::DeleteArtifact { artifact_id: a, pool_id: q }),
        ) <==> (out.worker_commands.contains(
            (w, CommandView::DeleteArtifact { artifact_id: a, pool_id: q }),
        ) || exists|i: int|
            0 <= i < before.workloads.seq().len() && !spec.workloads@.contains_key(
                (#[trigger] before.workloads.seq()[i]).0.id(),
            ) && rests(before.workloads.seq()[i].1.status.state, a, q, w)),
        given.timers_cancel.contains(key) <==> (out.timers_cancel.contains(key) || exists|i: int|
            0 <= i < before.workloads.seq().len() && !spec.workloads@.contains_key(
                (#[trigger] before.workloads.seq()[i]).0.id(),
            ) && ticks(before.workloads.seq()[i].1.status.state, key)),
{
    let ns = before.namespace_id;
    let s = before.workloads.seq();
    let states = gone_workloads(s, spec.workloads@);
    let gone = gone_services(before.services.seq(), spec.services@);
    let to = targets(before.workers.seq(), None);
    let first = dropped_all(ns, states, out);
    let second = destroyed_services(ns, to, gone);
    let third = after.broadcast(after.registry_sync());
    let stop = CommandView::StopPod { namespace_id: ns, pod_id: p, graceful };
    let delete = CommandView::DeleteArtifact { artifact_id: a, pool_id: q };
    lemma_gone_workloads(s, spec.workloads@);
    lemma_dropped_all(ns, states, out, w, stop, key);
    lemma_dropped_all(ns, states, out, w, delete, key);
    lemma_destroyed_services(ns, to, gone, w, stop);
    lemma_destroyed_services(ns, to, gone, w, delete);
    lemma_broadcast(after, after.registry_sync(), w, stop);
    lemma_broadcast(after, after.registry_sync(), w, delete);
    lemma_contains_either(first.worker_commands, second, (w, stop));
    lemma_contains_either(first.worker_commands, second, (w, delete));
    lemma_contains_either(first.worker_commands + second, third, (w, stop));
    lemma_contains_either(first.worker_commands + second, third, (w, delete));
    lemma_from_gone(s, spec.workloads@, |t: WorkloadState| ends(ns, t, w, stop));
    lemma_from_gone(s, spec.workloads@, |t: WorkloadState| ends(ns, t, w, delete));
    lemma_from_gone(s, spec.workloads@, |t: WorkloadState| ticks(t, key));
}

/// Some state among those of the unknown workloads has a property exactly if some unknown workload
/// is in such a state.
proof fn lemma_from_gone(
    s: Seq<(WorkloadId, Workload)>,
    spec: Map<Seq<char>, WorkloadSpec>,
    f: spec_fn(WorkloadState) -> bool,
)
    ensures
        (exists|j: int|
            0 <= j < gone_workloads(s, spec).len() && f(#[trigger] gone_workloads(s, spec)[j]))
            <==> (exists|i: int|
            0 <= i < s.len() && !spec.contains_key((#[trigger] s[i]).0.id()) && f(
                s[i].1.status.state,
            )),
{
    let states = gone_workloads(s, spec);
    lemma_gone_workloads(s, spec);
    if exists|j: int| 0 <= j < states.len() && f(#[trigger] states[j]) {
        let j = choose|j: int| 0 <= j < states.len() && f(#[trigger] states[j]);
        let i = choose|i: int|
            0 <= i < s.len() && !spec.contains_key((#[trigger] s[i]).0.id())
                && s[i].1.status.state == states[j];
        assert(f(s[i].1.status.state));
    }
    if exists|i: int|
        0 <= i < s.len() && !spec.contains_key((#[trigger] s[i]).0.id()) && f(s[i].1.status.state) {
        let i = choose|i: int|
            0 <= i < s.len() && !spec.contains_key((#[trigger] s[i]).0.id()) && f(
                s[i].1.status.state,
            );
        let j = states.index_of(s[i].1.status.state);
        assert(f(states[j]));
    }
}

/// A new spec has every active worker forget the services that it does not know, and no other
/// service. Where the namespace is active and there are such services, every active worker also
/// gets the names and addresses that are left.
pub proof fn law_unknown_services_are_destroyed(
    before: NamespaceStateMachine,
    client_id: ClientId,
    spec: NamespaceSpec,
    after: NamespaceStateMachine,
    out: OutputView,
    given: OutputView,
    w: WorkerId,
    id: ServiceId,
)
    requires
        before.respecified(spec, after),
        given == before.respecified_out(client_id, spec, after, out),
    ensures
        given.worker_commands.contains(
            (w, CommandView::DestroyService { namespace_id: before.namespace_id, service_id: id }),
        ) <==> (out.worker_commands.contains(
            (w, CommandView::DestroyService { namespace_id: before.namespace_id, service_id: id }),
        ) || is_up(before, w) && exists|i: int|
            0 <= i < before.services.seq().len() && (#[trigger] before.services.seq()[i]).0 == id
                && !spec.services@.contains_key(id.id())),
        before.status == NamespaceStatus::Active && is_up(before, w) && (exists|i: int|
            0 <= i < before.services.seq().len() && !spec.services@.contains_key(
                (#[trigger] before.services.seq()[i]).0.id(),
            )) ==> exists|c: CommandView| #[trigger]
            given.worker_commands.contains((w, c)) && (c matches CommandView::RegistrySync {
                namespace_id,
                entries,
            } && namespace_id == before.namespace_id && entries.len() == spec.services.seq().len()
                && forall|i: int|
                0 <= i < entries.len() ==> (#[trigger] entries[i]).name
                    == spec.services.seq()[i].0.0 && entries[i].ip == spec.services.seq()[i].1.ip),
        given.client_events == out.client_events.push((client_id, ClientEventView::Done)),
        given.destroyed == out.destroyed,
{
    let ns = before.namespace_id;
    let states = gone_workloads(before.workloads.seq(), spec.workloads@);
    let services = before.services.seq();
    let gone = gone_services(services, spec.services@);
    let to = targets(before.workers.seq(), None);
    let first = dropped_all(ns, states, out);
    let second = destroyed_services(ns, to, gone);
    let third = after.broadcast(after.registry_sync());
    let destroy = CommandView::DestroyService { namespace_id: ns, service_id: id };
    let sync = after.registry_sync();
    let key = TimerKey::IdleTimeout { service_id: id };
    lemma_dropped_all(ns, states, out, w, destroy, key);
    lemma_dropped_leaves(ns, states, out);
    lemma_destroyed_services(ns, to, gone, w, destroy);
    lemma_gone_services(services, spec.services@, id);
    lemma_broadcast(before, destroy, w, destroy);
    lemma_sent_to_each(to, destroy, w, destroy);
    lemma_broadcast(after, sync, w, destroy);
    lemma_broadcast(after, sync, w, sync);
    lemma_contains_either(first.worker_commands, second, (w, destroy));
    lemma_contains_either(first.worker_commands + second, third, (w, destroy));
    lemma_contains_either(first.worker_commands + second, third, (w, sync));
    if exists|i: int|
        0 <= i < services.len() && !spec.services@.contains_key((#[trigger] services[i]).0.id()) {
        let i = choose|i: int|
            0 <= i < services.len() && !spec.services@.contains_key(
                (#[trigger] services[i]).0.id(),
            );
        lemma_gone_services(services, spec.services@, services[i].0);
        assert(gone.contains(services[i].0));
        if before.status == NamespaceStatus::Active && is_up(before, w) {
            assert(is_up(after, w)) by {
                let k = choose|k: int|
                    0 <= k < before.workers.seq().len() && (#[trigger] before.workers.seq()[k]).0
                        == w && before.workers.seq()[k].1.fabric_status == FabricStatus::Active;
                assert(after.workers.seq()[k].0 == w);
            }
            assert(given.worker_commands.contains((w, sync)));
        }
    }
}

proof fn lemma_dropped_leaves(ns: NamespaceId, states: Seq<WorkloadState>, out: OutputView)
    ensures
        dropped_all(ns, states, out) == (OutputView {
            worker_commands: dropped_all(ns, states, out).worker_commands,
            timers_cancel: dropped_all(ns, states, out).timers_cancel,
            ..out
        }),
    decreases states.len(),
{
    if states.len() > 0 {
        lemma_dropped_leaves(ns, states.drop_last(), out);
    }
}

/// What a new spec makes of the workloads and services: there are those that it lists. One that was
/// there before goes on as it was, and one that is new starts at rest.
pub proof fn law_known_parts_go_on(
    before: NamespaceStateMachine,
    spec: NamespaceSpec,
    after: NamespaceStateMachine,
    name: Seq<char>,
)
    requires
        before.respecified(spec, after),
    ensures
        after.spec == spec,
        after.status == before.status,
        after.workers == before.workers,
        after.wg_peers == before.wg_peers,
        after.workloads@.contains_key(name) <==> spec.workloads@.contains_key(name),
        after.workloads@.contains_key(name) && before.workloads@.contains_key(name)
            ==> after.workloads@[name] == before.workloads@[name],
        after.workloads@.contains_key(name) && !before.workloads@.contains_key(name) ==> {
            &&& after.workloads@[name].status.state == WorkloadState::Dormant
            &&& after.workloads@[name].status.current_demand == 0
            &&& after.workloads@[name].suspend_on_idle == spec.workloads@[name].suspend_on_idle
        },
        after.services@.contains_key(name) <==> spec.services@.contains_key(name),
        after.services@.contains_key(name) && before.services@.contains_key(name)
            ==> after.services@[name] == before.services@[name],
        after.services@.contains_key(name) && !before.services@.contains_key(name) ==> {
            &&& after.services@[name].service_id.id() == name
            &&& after.services@[name].state == ServiceState::Pending
            &&& after.services@[name].workload_id == spec.services@[name].workload_id
            &&& after.services@[name].has_activation <==> spec.services@[name].activation is Some
            &&& spec.services@[name].activation matches Some(a)
                ==> after.services@[name].idle_timeout_ms == a.idle_timeout_ms
            &&& spec.services@[name].activation is None ==> after.services@[name].idle_timeout_ms
                == 30_000
            &&& after.service_workload@.contains_key(name)
            &&& after.service_workload@[name] == spec.services@[name].workload_id
        },
{
    assert(after.workloads@.dom().contains(name) == spec.workloads@.dom().contains(name));
    assert(after.services@.dom().contains(name) == spec.services@.dom().contains(name));
    if after.services@.contains_key(name) && !before.services@.contains_key(name) {
        assert(after.service_workload@.contains_key(name));
    }
}

proof fn lemma_erased(s: Seq<(PodId, PodInfo)>, k: Seq<char>, e: (PodId, PodInfo))
    requires
        increasing(s),
    ensures
        increasing(erase(s, k)),
        erase(s, k).contains(e) <==> s.contains(e) && e.0.id() != k,
{
    if has_key(s, k) {
        let at = position(s, k);
        let t = erase(s, k);
        assert(0 <= at < s.len() && s[at].0.id() == k);
        assert forall|a: int, b: int| 0 <= a < b < t.len() implies PodId::before(
            (#[trigger] t[a]).0.id(),
            (#[trigger] t[b]).0.id(),
        ) by {
            let sa = if a < at { a } else { a + 1 };
            let sb = if b < at { b } else { b + 1 };
            assert(t[a] == s[sa] && t[b] == s[sb]);
        }
        if t.contains(e) {
            let i = t.index_of(e);
            let j = if i < at { i } else { i + 1 };
            assert(s[j] == e);
            lemma_position_unique(s, j);
        }
        if s.contains(e) && e.0.id() != k {
            let j = s.index_of(e);
            let i = if j < at { j } else { j - 1 };
            assert(t[i] == e);
        }
    } else if s.contains(e) {
        let j = s.index_of(e);
        assert(s[j].0.id() == e.0.id());
    }
}

proof fn lemma_pods_without(
    pods: Seq<(PodId, PodInfo)>,
    states: Seq<WorkloadState>,
    e: (PodId, PodInfo),
)
    requires
        increasing(pods),
    ensures
        increasing(pods_without(pods, states)),
        pods_without(pods, states).contains(e) <==> pods.contains(e) && forall|j: int|
            0 <= j < states.len() ==> !has_pod(#[trigger] states[j], e.0.id()),
    decreases states.len(),
{
    if states.len() > 0 {
        let front = states.drop_last();
        let last = states.len() - 1;
        lemma_pods_without(pods, front, e);
        if let Some(p) = states[last].pod() {
            lemma_erased(pods_without(pods, front), p.id(), e);
        }
        assert(forall|j: int| 0 <= j < front.len() ==> front[j] == states[j]);
        assert(has_pod(states[last], e.0.id()) == (states[last].pod() matches Some(p) && p.id()
            == e.0.id()));
        if pods_without(pods, states).contains(e) {
            assert forall|j: int| 0 <= j < states.len() implies !has_pod(
                #[trigger] states[j],
                e.0.id(),
            ) by {
                if j < last {
                    assert(!has_pod(front[j], e.0.id()));
                }
            }
        }
        if forall|j: int| 0 <= j < states.len() ==> !has_pod(#[trigger] states[j], e.0.id()) {
            assert forall|j: int| 0 <= j < front.len() implies !has_pod(
                #[trigger] front[j],
                e.0.id(),
            ) by {
                assert(!has_pod(states[j], e.0.id()));
            }
            assert(!has_pod(states[last], e.0.id()));
        }
    }
}

/// A workload in some state has the pod of a name.
pub open spec fn has_pod(state: WorkloadState, pod: Seq<char>) -> bool {
    match state {
        WorkloadState::Launching { pod_id, .. } => pod_id.id() == pod,
        WorkloadState::Running { pod_id, .. } => pod_id.id() == pod,
        WorkloadState::Suspending { pod_id, .. } => pod_id.id() == pod,
        WorkloadState::Resuming { pod_id, .. } => pod_id.id() == pod,
        _ => false,
    }
}

/// A new spec makes the namespace forget the pods of the workloads that it does not know. Every
/// other pod stays where it is.
pub proof fn law_unknown_workloads_lose_their_pods(
    before: NamespaceStateMachine,
    spec: NamespaceSpec,
    after: NamespaceStateMachine,
    pod: (PodId, PodInfo),
)
    requires
        before.respecified(spec, after),
        increasing(before.pod_map.seq()),
    ensures
        after.pod_map.seq().contains(pod) <==> before.pod_map.seq().contains(pod) && !exists|i: int|
            0 <= i < before.workloads.seq().len() && !spec.workloads@.contains_key(
                (#[trigger] before.workloads.seq()[i]).0.id(),
            ) && has_pod(before.workloads.seq()[i].1.status.state, pod.0.id()),
{
    let s = before.workloads.seq();
    let states = gone_workloads(s, spec.workloads@);
    lemma_pods_without(before.pod_map.seq(), states, pod);
    lemma_from_gone(s, spec.workloads@, |t: WorkloadState| has_pod(t, pod.0.id()));
    let f = |t: WorkloadState| has_pod(t, pod.0.id());
    assert((exists|j: int| 0 <= j < states.len() && f(#[trigger] states[j])) == (exists|j: int|
        0 <= j < states.len() && has_pod(#[trigger] states[j], pod.0.id())));
    assert((exists|i: int|
        0 <= i < s.len() && !spec.workloads@.contains_key((#[trigger] s[i]).0.id()) && f(
            s[i].1.status.state,
        )) == (exists|i: int|
        0 <= i < s.len() && !spec.workloads@.contains_key((#[trigger] s[i]).0.id()) && has_pod(
            s[i].1.status.state,
            pod.0.id(),
        )));
}

// ---- the end of a namespace ---------------------------------------------------------------------

proof fn lemma_abandoned_all(
    workloads: Seq<(WorkloadId, Workload)>,
    out: OutputView,
    w: WorkerId,
    c: CommandView,
    key: TimerKey,
)
    ensures
        abandoned_all(workloads, out) == (OutputView {
            worker_commands: abandoned_all(workloads, out).worker_commands,
            timers_cancel: abandoned_all(workloads, out).timers_cancel,
            ..out
        }),
        abandoned_all(workloads, out).worker_commands.contains((w, c)) <==> (
        out.worker_commands.contains((w, c)) || (c matches CommandView::DeleteArtifact {
            artifact_id,
            pool_id,
        } && exists|i: int|
            0 <= i < workloads.len() && rests(
                (#[trigger] workloads[i]).1.status.state,
                artifact_id,
                pool_id,
                w,
            ))),
        abandoned_all(workloads, out).timers_cancel.contains(key) <==> (
        out.timers_cancel.contains(key) || exists|i: int|
            0 <= i < workloads.len() && ticks((#[trigger] workloads[i]).1.status.state, key)),
    decreases workloads.len(),
{
    if workloads.len() > 0 {
        let front = workloads.drop_last();
        let last = workloads.len() - 1;
        let rest = abandoned_all(front, out);
        let state = workloads[last].1.status.state;
        lemma_abandoned_all(front, out, w, c, key);
        match state {
            WorkloadState::Launching { launch_timeout, .. } => {
                lemma_contains_pushed(rest.timers_cancel, launch_timeout, key);
            },
            WorkloadState::Suspending { suspend_timeout, .. } => {
                lemma_contains_pushed(rest.timers_cancel, suspend_timeout, key);
            },
            WorkloadState::Suspended { worker_id, artifact_id, pool_id } => {
                lemma_contains_pushed(
                    rest.worker_commands,
                    (worker_id, CommandView::DeleteArtifact { artifact_id, pool_id }),
                    (w, c),
                );
            },
            WorkloadState::Resuming { worker_id, artifact_id, pool_id, resume_timeout, .. } => {
                lemma_contains_pushed(rest.timers_cancel, resume_timeout, key);
                lemma_contains_pushed(
                    rest.worker_commands,
                    (worker_id, CommandView::DeleteArtifact { artifact_id, pool_id }),
                    (w, c),
                );
            },
            _ => {},
        }
        if let CommandView::DeleteArtifact { artifact_id, pool_id } = c {
            if exists|i: int|
                0 <= i < front.len() && rests(
                    (#[trigger] front[i]).1.status.state,
                    artifact_id,
                    pool_id,
                    w,
                ) {
                let i = choose|i: int|
                    0 <= i < front.len() && rests(
                        (#[trigger] front[i]).1.status.state,
                        artifact_id,
                        pool_id,
                        w,
                    );
                assert(workloads[i] == front[i]);
            }
            if exists|i: int|
                0 <= i < workloads.len() && rests(
                    (#[trigger] workloads[i]).1.status.state,
                    artifact_id,
                    pool_id,
                    w,
                ) {
                let i = choose|i: int|
                    0 <= i < workloads.len() && rests(
                        (#[trigger] workloads[i]).1.status.state,
                        artifact_id,
                        pool_id,
                        w,
                    );
                if i < last {
                    assert(front[i] == workloads[i]);
                }
            }
        }
        if exists|i: int| 0 <= i < front.len() && ticks((#[trigger] front[i]).1.status.state, key) {
            let i = choose|i: int|
                0 <= i < front.len() && ticks((#[trigger] front[i]).1.status.state, key);
            assert(workloads[i] == front[i]);
        }
        if exists|i: int|
            0 <= i < workloads.len() && ticks((#[trigger] workloads[i]).1.status.state, key) {
            let i = choose|i: int|
                0 <= i < workloads.len() && ticks((#[trigger] workloads[i]).1.status.state, key);
            if i < last {
                assert(front[i] == workloads[i]);
            }
        }
    }
}

/// The idle timer of a service.
pub open spec fn idles(state: ServiceState, key: TimerKey) -> bool {
    state matches ServiceState::Active { idle_timer, .. } && idle_timer == Some(key)
}

proof fn lemma_timers_stopped(
    services: Seq<(ServiceId, ServiceStateMachine)>,
    out: OutputView,
    key: TimerKey,
)
    ensures
        timers_stopped(services, out) == (OutputView {
            timers_cancel: timers_stopped(services, out).timers_cancel,
            ..out
        }),
        timers_stopped(services, out).timers_cancel.contains(key) <==> (
        out.timers_cancel.contains(key) || exists|i: int|
            0 <= i < services.len() && idles((#[trigger] services[i]).1.state, key)),
    decreases services.len(),
{
    if services.len() > 0 {
        let front = services.drop_last();
        let last = services.len() - 1;
        let rest = timers_stopped(front, out);
        lemma_timers_stopped(front, out, key);
        if let ServiceState::Active { idle_timer: Some(k), .. } = services[last].1.state {
            lemma_contains_pushed(rest.timers_cancel, k, key);
        }
        if exists|i: int| 0 <= i < front.len() && idles((#[trigger] front[i]).1.state, key) {
            let i = choose|i: int| 0 <= i < front.len() && idles((#[trigger] front[i]).1.state, key);
            assert(services[i] == front[i]);
        }
        if exists|i: int| 0 <= i < services.len() && idles((#[trigger] services[i]).1.state, key) {
            let i = choose|i: int|
                0 <= i < services.len() && idles((#[trigger] services[i]).1.state, key);
            if i < last {
                assert(front[i] == services[i]);
            }
        }
    }
}

/// When a namespace is deleted, every worker that it knows is told to destroy it, whatever the state
/// of its fabric, and nobody else is. The namespace counts as gone at once exactly where there is no
/// such worker. The snapshots of its workloads are deleted, and its timers are stopped.
pub proof fn law_deleted_namespace_is_destroyed(
    before: NamespaceStateMachine,
    client_id: ClientId,
    out: OutputView,
    given: OutputView,
    w: WorkerId,
    a: ArtifactId,
    q: PoolId,
    key: TimerKey,
)
    requires
        given == before.dissolved_out(client_id, out),
    ensures
        given.worker_commands.contains(
            (w, CommandView::DestroyNamespace { namespace_id: before.namespace_id }),
        ) <==> (out.worker_commands.contains(
            (w, CommandView::DestroyNamespace { namespace_id: before.namespace_id }),
        ) || exists|i: int|
            0 <= i < before.workers.seq().len() && (#[trigger] before.workers.seq()[i]).0 == w),
        given.destroyed <==> out.destroyed || before.workers.seq().len() == 0,
        given.worker_commands.contains(
            (w, CommandView::DeleteArtifact { artifact_id: a, pool_id: q }),
        ) <==> (out.worker_commands.contains(
            (w, CommandView::DeleteArtifact { artifact_id: a, pool_id: q }),
        ) || exists|i: int|
            0 <= i < before.workloads.seq().len() && rests(
                (#[trigger] before.workloads.seq()[i]).1.status.state,
                a,
                q,
                w,
            )),
        given.timers_cancel.contains(key) <==> (out.timers_cancel.contains(key) || (exists|i: int|
            0 <= i < before.workloads.seq().len() && ticks(
                (#[trigger] before.workloads.seq()[i]).1.status.state,
                key,
            )) || (exists|i: int|
            0 <= i < before.services.seq().len() && idles(
                (#[trigger] before.services.seq()[i]).1.state,
                key,
            ))),
        given.client_events == out.client_events.push((client_id, ClientEventView::Done)),
        given.timers_set == out.timers_set,
        given.pod_requests == out.pod_requests,
        given.resume_requests == out.resume_requests,
{
    let ns = before.namespace_id;
    let workers = before.workers.seq();
    let first = abandoned_all(before.workloads.seq(), out);
    let second = timers_stopped(before.services.seq(), first);
    let last = farewells(ns, workers);
    let destroy = CommandView::DestroyNamespace { namespace_id: ns };
    let delete = CommandView::DeleteArtifact { artifact_id: a, pool_id: q };
    lemma_abandoned_all(before.workloads.seq(), out, w, destroy, key);
    lemma_abandoned_all(before.workloads.seq(), out, w, delete, key);
    lemma_timers_stopped(before.services.seq(), first, key);
    lemma_contains_either(second.worker_commands, last, (w, destroy));
    lemma_contains_either(second.worker_commands, last, (w, delete));
    if last.contains((w, destroy)) {
        let k = last.index_of((w, destroy));
        assert(workers[k].0 == w);
    }
    if exists|i: int| 0 <= i < workers.len() && (#[trigger] workers[i]).0 == w {
        let i = choose|i: int| 0 <= i < workers.len() && (#[trigger] workers[i]).0 == w;
        assert(last[i] == (w, destroy));
    }
    if last.contains((w, delete)) {
        let k = last.index_of((w, delete));
        assert(last[k] == (workers[k].0, destroy));
    }
}

/// A namespace that is deleted is on its way out: nothing runs in it, nothing is wanted, its
/// services sleep, and it waits for each of its workers.
pub proof fn law_deleted_namespace_rests(
    before: NamespaceStateMachine,
    after: NamespaceStateMachine,
    name: Seq<char>,
)
    requires
        before.dissolved(after),
    ensures
        after.status == NamespaceStatus::Destroying,
        !after.pod_map@.contains_key(name),
        after.workloads@.contains_key(name) <==> before.workloads@.contains_key(name),
        after.workloads@.contains_key(name) ==> after.workloads@[name].status.state
            == WorkloadState::Dormant && after.workloads@[name].status.current_demand == 0,
        after.services@.contains_key(name) <==> before.services@.contains_key(name),
        after.services@.contains_key(name) ==> after.services@[name].state == ServiceState::Idle,
        after.workers@.contains_key(name) <==> before.workers@.contains_key(name),
        after.workers@.contains_key(name) ==> after.workers@[name].fabric_status
            == FabricStatus::Destroying,
{
    assert(after.workloads@.dom().contains(name) == before.workloads@.dom().contains(name));
    assert(after.services@.dom().contains(name) == before.services@.dom().contains(name));
    assert(after.workers@.dom().contains(name) == before.workers@.dom().contains(name));
}

// ---- pods -------------------------------------------------------------------------------------

proof fn lemma_first_service(links: Seq<(ServiceId, WorkloadId)>, workload: Seq<char>)
    ensures
        match first_service(links, workload) {
            Some(id) => exists|i: int|
                0 <= i < links.len() && (#[trigger] links[i]).0 == id && links[i].1.id() == workload
                    && forall|k: int|
                    0 <= k < i ==> (#[trigger] links[k]).1.id() != workload,
            None => forall|i: int|
                0 <= i < links.len() ==> (#[trigger] links[i]).1.id() != workload,
        },
    decreases links.len(),
{
    if links.len() > 0 && links[0].1.id() != workload {
        let rest = links.drop_first();
        lemma_first_service(rest, workload);
        match first_service(rest, workload) {
            Some(id) => {
                let i = choose|i: int|
                    0 <= i < rest.len() && (#[trigger] rest[i]).0 == id && rest[i].1.id()
                        == workload && forall|k: int|
                        0 <= k < i ==> (#[trigger] rest[k]).1.id() != workload;
                assert(links[i + 1] == rest[i]);
                assert forall|k: int| 0 <= k < i + 1 implies (#[trigger] links[k]).1.id()
                    != workload by {
                    if k > 0 {
                        assert(rest[k - 1] == links[k]);
                    }
                }
            },
            None => {
                assert forall|i: int| 0 <= i < links.len() implies (#[trigger] links[i]).1.id()
                    != workload by {
                    if i > 0 {
                        assert(rest[i - 1] == links[i]);
                    }
                }
            },
        }
    }
}

/// A route to an address leads to a worker.
pub open spec fn leads(c: CommandView, ns: NamespaceId, ip: u32, host: WorkerId) -> bool {
    &&& c matches CommandView::FabricRouteUpdate { namespace_id, added, removed_ips }
    &&& namespace_id == ns
    &&& added == seq![FabricRouteEntry { ip, remote_worker: host }]
    &&& removed_ips.len() == 0
}

proof fn lemma_route_out(
    ns: NamespaceStateMachine,
    ip: u32,
    host: WorkerId,
    out: OutputView,
    w: WorkerId,
    c: CommandView,
)
    requires
        ns.worker_up(host.id()),
    ensures
        ns.route_out(ip, host, out) == (OutputView {
            worker_commands: ns.route_out(ip, host, out).worker_commands,
            ..out
        }),
        ns.route_out(ip, host, out).worker_commands.contains((w, c)) <==> (
        out.worker_commands.contains((w, c)) || (is_up(ns, w) && w.id() != host.id() && c
            == ns.route_add(ip, host))),
{
    let s = ns.workers.seq();
    let to = targets(s, Some(host.id()));
    let add = ns.route_add(ip, host);
    lemma_contains_either(out.worker_commands, to_each(to, add), (w, c));
    lemma_sent_to_each(to, add, w, c);
    law_targets(s, Some(host.id()), w);
    if reached(s, Some(host.id()), w) {
        let i = choose|i: int|
            0 <= i < s.len() && (#[trigger] s[i]).0 == w && s[i].1.fabric_status
                == FabricStatus::Active && Some(host.id()) != Some(w.id());
        assert(s[i].0 == w);
        assert(is_up(ns, w));
        assert(w.id() != host.id());
    }
    if is_up(ns, w) && w.id() != host.id() {
        let i = choose|i: int|
            0 <= i < s.len() && (#[trigger] s[i]).0 == w && s[i].1.fabric_status
                == FabricStatus::Active;
        assert(s[i].0 == w);
        assert(reached(s, Some(host.id()), w));
        assert(has_key(s, host.id()));
        let j = position(s, host.id());
        assert(0 <= j < s.len() && s[j].0.id() == host.id());
        assert(i != j);
    }
}

/// What a launch takes: a namespace that is not on its way out, a workload that waits for capacity
/// and is in the spec, a worker whose fabric is up, and a service of the workload that is in the
/// spec. Nothing else is asked for.
pub proof fn law_launch_needs(ns: NamespaceStateMachine, workload: Seq<char>, worker: Seq<char>)
    ensures
        ns.can_launch(workload, worker) <==> {
            &&& ns.status != NamespaceStatus::Destroying
            &&& ns.workloads@.contains_key(workload)
            &&& ns.workloads@[workload].status.state == WorkloadState::WaitingForCapacity
            &&& ns.workers@.contains_key(worker)
            &&& ns.workers@[worker].fabric_status == FabricStatus::Active
            &&& ns.spec.workloads@.contains_key(workload)
            &&& exists|i: int|
                0 <= i < ns.service_workload.seq().len()
                    && (#[trigger] ns.service_workload.seq()[i]).1.id() == workload
                    && ns.spec.services@.contains_key(ns.service_workload.seq()[i].0.id())
                    && forall|k: int|
                    0 <= k < i ==> (#[trigger] ns.service_workload.seq()[k]).1.id() != workload
        },
{
    let links = ns.service_workload.seq();
    lemma_first_service(links, workload);
    if let Some(id) = first_service(links, workload) {
        let i = choose|i: int|
            0 <= i < links.len() && (#[trigger] links[i]).0 == id && links[i].1.id() == workload
                && forall|k: int| 0 <= k < i ==> (#[trigger] links[k]).1.id() != workload;
        assert forall|j: int|
            0 <= j < links.len() && (#[trigger] links[j]).1.id() == workload && (forall|k: int|
                0 <= k < j ==> (#[trigger] links[k]).1.id() != workload) implies j == i by {
            if j < i {
                assert(links[j].1.id() != workload);
            }
            if i < j {
                assert(links[i].1.id() != workload);
            }
        }
    }
}

/// A launch that goes ahead makes a service of the workload known to the worker, with the address
/// and the policy that the spec holds for it. It has the worker start the pod with the workload's
/// own address, containers and resources, and tells the way to the pod to every other worker whose
/// fabric is up.
pub proof fn law_launch_brings_service_and_pod(
    before: NamespaceStateMachine,
    workload_id: WorkloadId,
    worker_id: WorkerId,
    pod: PodId,
    out: OutputView,
    given: OutputView,
    other: WorkerId,
)
    requires
        before.can_launch(workload_id.id(), worker_id.id()),
        given == before.launch_out(workload_id, worker_id, pod, out),
    ensures
        exists|i: int|
            0 <= i < before.service_workload.seq().len() && (
            #[trigger] before.service_workload.seq()[i]).1.id() == workload_id.id()
                && before.spec.services@.contains_key(before.service_workload.seq()[i].0.id())
                && given.worker_commands.contains(
                (
                    worker_id,
                    CommandView::CreateService {
                        namespace_id: before.namespace_id,
                        service_id: before.service_workload.seq()[i].0,
                        ip: before.spec.services@[before.service_workload.seq()[i].0.id()].ip,
                        policy: before.spec.services@[before.service_workload.seq()[i].0.id()].policy,
                    },
                ),
            ),
        exists|c: CommandView| #[trigger]
            given.worker_commands.contains((worker_id, c)) && (c matches CommandView::LaunchPod {
                namespace_id,
                pod_id,
                network,
                containers,
                resources,
            } && namespace_id == before.namespace_id && pod_id == pod && network.ip
                == before.spec.workloads@[workload_id.id()].network.ip && network.mac
                == before.spec.workloads@[workload_id.id()].network.mac && network.gateway
                == before.spec.network.gateway && network.netmask == dotted(
                mask_of(before.spec.network.prefix_len),
            ) && containers
                == before.spec.workloads@[workload_id.id()].containers && match (
                resources,
                before.spec.workloads@[workload_id.id()].resources,
            ) {
                (Some(r), Some(s)) => {
                    &&& r.requests is Some <==> s.requests is Some
                    &&& r.limits is Some <==> s.limits is Some
                    &&& s.requests matches Some(v) ==> r.requests == Some(
                        PodResourceValues { memory_mib: v.memory_mb, vcpus: v.vcpus },
                    )
                    &&& s.limits matches Some(v) ==> r.limits == Some(
                        PodResourceValues { memory_mib: v.memory_mb, vcpus: v.vcpus },
                    )
                },
                (None, None) => true,
                _ => false,
            }),
        is_up(before, other) && other.id() != worker_id.id() ==> exists|c: CommandView| #[trigger]
            given.worker_commands.contains((other, c)) && leads(
                c,
                before.namespace_id,
                before.spec.workloads@[workload_id.id()].network.ip,
                worker_id,
            ),
        given.events == out.events.push(
            EventView::Workload {
                workload_id,
                event: WorkloadEventView::PodLaunching { pod_id: pod, worker_id },
            },
        ),
        given.client_events == out.client_events,
        given.timers_set == out.timers_set,
        given.destroyed == out.destroyed,
{
    let w = workload_id.id();
    let links = before.service_workload.seq();
    let ip = before.spec.workloads@[w].network.ip;
    lemma_first_service(links, w);
    let id = first_service(links, w).unwrap();
    let i = choose|i: int|
        0 <= i < links.len() && (#[trigger] links[i]).0 == id && links[i].1.id() == w && forall|
            k: int,
        |
            0 <= k < i ==> (#[trigger] links[k]).1.id() != w;
    let create = CommandView::CreateService {
        namespace_id: before.namespace_id,
        service_id: links[i].0,
        ip: before.spec.services@[links[i].0.id()].ip,
        policy: before.spec.services@[links[i].0.id()].policy,
    };
    let launch = before.launch_command(w, pod);
    let add = before.route_add(ip, worker_id);
    let first = out.with_command(worker_id, create);
    let second = first.with_command(worker_id, launch);
    lemma_contains_pushed(out.worker_commands, (worker_id, create), (worker_id, create));
    lemma_contains_pushed(first.worker_commands, (worker_id, launch), (worker_id, create));
    lemma_contains_pushed(first.worker_commands, (worker_id, launch), (worker_id, launch));
    lemma_route_out(before, ip, worker_id, second, worker_id, create);
    lemma_route_out(before, ip, worker_id, second, worker_id, launch);
    lemma_route_out(before, ip, worker_id, second, other, add);
    assert(given.worker_commands == before.route_out(ip, worker_id, second).worker_commands);
    assert(given.worker_commands.contains((worker_id, launch)));
    if is_up(before, other) && other.id() != worker_id.id() {
        assert(given.worker_commands.contains((other, add)));
    }
}

/// What a resumption takes: a namespace that is not on its way out, a workload that is suspended and
/// in the spec, and a worker whose fabric is up. Nothing else is asked for.
pub proof fn law_resumption_needs(ns: NamespaceStateMachine, workload: Seq<char>, worker: Seq<char>)
    ensures
        ns.can_resume(workload, worker) <==> {
            &&& ns.status != NamespaceStatus::Destroying
            &&& ns.workloads@.contains_key(workload)
            &&& ns.workloads@[workload].status.state is Suspended
            &&& ns.workers@.contains_key(worker)
            &&& ns.workers@[worker].fabric_status == FabricStatus::Active
            &&& ns.spec.workloads@.contains_key(workload)
        },
{
}

/// A resumption that goes ahead has the worker bring the pod back from the snapshot that was named,
/// out of the pool that was named, with the workload's own address. The way to the pod is told to
/// every other worker whose fabric is up.
pub proof fn law_resumption_brings_pod_back(
    before: NamespaceStateMachine,
    workload_id: WorkloadId,
    worker_id: WorkerId,
    pod: PodId,
    a: ArtifactId,
    q: PoolId,
    out: OutputView,
    given: OutputView,
    other: WorkerId,
)
    requires
        before.can_resume(workload_id.id(), worker_id.id()),
        given == before.resume_out(workload_id, worker_id, pod, a, q, out),
    ensures
        exists|c: CommandView| #[trigger]
            given.worker_commands.contains((worker_id, c)) && (c matches CommandView::ResumePod {
                namespace_id,
                pod_id,
                artifact_id,
                network,
                pool_id,
            } && namespace_id == before.namespace_id && pod_id == pod && artifact_id == a
                && pool_id == q && network.ip == before.spec.workloads@[workload_id.id()].network.ip
                && network.mac == before.spec.workloads@[workload_id.id()].network.mac
                && network.gateway == before.spec.network.gateway && network.netmask == dotted(
                mask_of(before.spec.network.prefix_len),
            )),
        is_up(before, other) && other.id() != worker_id.id() ==> exists|c: CommandView| #[trigger]
            given.worker_commands.contains((other, c)) && leads(
                c,
                before.namespace_id,
                before.spec.workloads@[workload_id.id()].network.ip,
                worker_id,
            ),
        given.events == out.events.push(
            EventView::Workload {
                workload_id,
                event: WorkloadEventView::PodResuming { pod_id: pod, worker_id },
            },
        ),
        given.client_events == out.client_events,
        given.timers_set == out.timers_set,
        given.destroyed == out.destroyed,
{
    let w = workload_id.id();
    let ip = before.spec.workloads@[w].network.ip;
    let resume = CommandView::ResumePod {
        namespace_id: before.namespace_id,
        pod_id: pod,
        artifact_id: a,
        network: before.pod_network(w),
        pool_id: q,
    };
    let add = before.route_add(ip, worker_id);
    let first = out.with_command(worker_id, resume);
    lemma_contains_pushed(out.worker_commands, (worker_id, resume), (worker_id, resume));
    lemma_route_out(before, ip, worker_id, first, worker_id, resume);
    lemma_route_out(before, ip, worker_id, first, other, add);
    assert(given.worker_commands.contains((worker_id, resume)));
    if is_up(before, other) && other.id() != worker_id.id() {
        assert(given.worker_commands.contains((other, add)));
    }
}

} // verus!
