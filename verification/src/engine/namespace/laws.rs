//! What holds of a namespace over several events.
use vstd::prelude::*;

use crate::engine::namespace::assignments::{
    law_gone_worker_has_no_pods, law_grant_keeps_pods_listed, law_revocation_keeps_pods_listed,
    AssignmentsView,
};
use crate::engine::namespace::effects::NamespaceEffectsView;
use crate::engine::namespace::events::{grants_for, grants_off};
use crate::engine::namespace::router::{RouterOpView, RouterSnapshot};
use crate::engine::namespace::Namespace;
use crate::engine::types::{OrchestratorToNamespace, SchedulerDecision};
use crate::namespace::wireguard::WgPeerOutput;
use crate::sm::{PodId, WorkerId};

verus! {

proof fn lemma_all_granted_sound(
    a: AssignmentsView,
    worker_id: WorkerId,
    pods: Seq<PodId>,
    known: Set<PodId>,
    next: u64,
)
    requires
        a.sound(),
    ensures
        a.all_granted(worker_id, pods, known, next).0.sound(),
    decreases pods.len(),
{
    if pods.len() > 0 {
        lemma_all_granted_sound(a, worker_id, pods.drop_last(), known, next);
        let (b, n, _) = a.all_granted(worker_id, pods.drop_last(), known, next);
        law_grant_keeps_pods_listed(b, worker_id, pods.last(), n);
    }
}

/// Whatever happens, every pod that is on a worker stays among the pods that the worker is to run.
pub proof fn law_events_keep_pods_listed<E>(
    before: Namespace,
    event: OrchestratorToNamespace,
    snapshot: RouterSnapshot,
    peers: Seq<WgPeerOutput>,
    e: NamespaceEffectsView<E>,
    after: Namespace,
    ops: Seq<RouterOpView>,
    f: NamespaceEffectsView<E>,
)
    requires
        before.assignments@.sound(),
        before.pushed(event, snapshot, peers, e, after, ops, f),
    ensures
        after.assignments@.sound(),
{
    match event {
        OrchestratorToNamespace::WorkerDisconnected { worker_id } => {
            law_gone_worker_has_no_pods(before.assignments@, worker_id);
        },
        OrchestratorToNamespace::WorkerEvent(w) => {
            lemma_all_granted_sound(
                before.assignments@,
                w.worker_id,
                grants_for(before.deferred_grants@, w.worker_id),
                snapshot.pods@.dom(),
                before.next_port,
            );
        },
        OrchestratorToNamespace::SchedulerDecision(decision) => match decision {
            SchedulerDecision::Grant { pod_id, worker_id, .. } => {
                lemma_all_granted_sound(
                    before.assignments@,
                    worker_id,
                    seq![pod_id],
                    snapshot.pods@.dom(),
                    before.next_port,
                );
            },
            SchedulerDecision::Revoke { pod_id, .. } => {
                law_revocation_keeps_pods_listed(before.assignments@, pod_id);
            },
        },
        _ => {},
    }
}

proof fn lemma_no_grant_left(grants: Seq<(PodId, WorkerId)>, worker_id: WorkerId)
    ensures
        forall|i: int|
            0 <= i < grants_off(grants, worker_id).len() ==> (#[trigger] grants_off(
                grants,
                worker_id,
            )[i]).1 != worker_id,
    decreases grants.len(),
{
    if grants.len() > 0 {
        lemma_no_grant_left(grants.drop_last(), worker_id);
        let rest = grants_off(grants.drop_last(), worker_id);
        let all = grants_off(grants, worker_id);
        assert forall|i: int| 0 <= i < all.len() implies (#[trigger] all[i]).1 != worker_id by {
            if i < rest.len() {
                assert(all[i] == rest[i]);
            }
        }
    }
}

/// A worker that disconnects leaves nothing behind: it is neither pending nor active, no grant waits
/// for it, and no pod is on it if it was active.
pub proof fn law_departure_leaves_nothing(
    before: Namespace,
    worker_id: WorkerId,
    after: Namespace,
    ops: Seq<RouterOpView>,
)
    requires
        before.assignments@.sound(),
        before.departed(worker_id, after, ops),
    ensures
        !after.active_workers@.contains_key(worker_id),
        !after.pending_workers@.contains_key(worker_id),
        forall|i: int|
            0 <= i < after.deferred_grants@.len() ==> (#[trigger] after.deferred_grants@[i]).1
                != worker_id,
        before.active_workers@.contains_key(worker_id) ==> forall|p: PodId| #[trigger]
            after.assignments@.pod_worker.contains_key(p) ==> after.assignments@.pod_worker[p]
                != worker_id,
{
    lemma_no_grant_left(before.deferred_grants@, worker_id);
    law_gone_worker_has_no_pods(before.assignments@, worker_id);
}

/// A grant that comes before the worker's part in the namespace is up is carried out when it is: the
/// pod is on the worker then, under a lease.
pub proof fn law_early_grant_is_carried_out<E>(
    before: Namespace,
    worker_id: WorkerId,
    pod_id: PodId,
    first: Set<PodId>,
    mid: Namespace,
    ops: Seq<RouterOpView>,
    pods: Set<PodId>,
    e: NamespaceEffectsView<E>,
    after: Namespace,
    more: Seq<RouterOpView>,
    f: NamespaceEffectsView<E>,
)
    requires
        before.pending_workers@.contains_key(worker_id),
        !before.active_workers@.contains_key(worker_id),
        before.granted(worker_id, pod_id, first, mid, ops),
        mid.came_up(worker_id, pods, e, after, more, f),
        pods.contains(pod_id),
    ensures
        after.active_workers@.contains_key(worker_id),
        after.assignments@.pod_worker.contains_key(pod_id),
        after.assignments@.pod_worker[pod_id] == worker_id,
        after.assignments@.leases.contains_key(pod_id),
{
    let had = before.deferred_grants@;
    let all = mid.deferred_grants@;
    assert(all == had.push((pod_id, worker_id)));
    assert(all.drop_last() =~= had);
    let list = grants_for(all, worker_id);
    assert(list == grants_for(had, worker_id).push(pod_id));
    assert(list.drop_last() =~= grants_for(had, worker_id));
    assert(list.last() == pod_id);
}

/// A grant for a pod and its revocation leave the pod without a worker and without a lease.
pub proof fn law_revoked_pod_is_free<E>(
    before: Namespace,
    pod_id: PodId,
    snapshot: RouterSnapshot,
    peers: Seq<WgPeerOutput>,
    decision: SchedulerDecision,
    e: NamespaceEffectsView<E>,
    after: Namespace,
    ops: Seq<RouterOpView>,
    f: NamespaceEffectsView<E>,
)
    requires
        decision is Revoke,
        decision->Revoke_pod_id == pod_id,
        before.pushed(
            OrchestratorToNamespace::SchedulerDecision(decision),
            snapshot,
            peers,
            e,
            after,
            ops,
            f,
        ),
    ensures
        !after.assignments@.leases.contains_key(pod_id),
        !after.assignments@.pod_worker.contains_key(pod_id),
        before.assignments@.leases.contains_key(pod_id) ==> ops.contains(
            RouterOpView::DestroyLease { lease: before.assignments@.leases[pod_id] },
        ),
{
    if before.assignments@.leases.contains_key(pod_id) {
        assert(ops[0] == RouterOpView::DestroyLease { lease: before.assignments@.leases[pod_id] });
    }
}

} // verus!
