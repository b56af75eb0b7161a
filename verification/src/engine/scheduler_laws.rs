//! What the scheduler owes to the pods that ask for a worker, and to the snapshots on the workers.
use vstd::prelude::*;

use crate::engine::placement_table::{reachable, ready_on, ArtifactStatus, Copies};
use crate::engine::scheduler::{
    first_holder, grants_request, law_pick_is_best, law_update_grants_pending_once, lost, pick,
    request_of, SchedulerView,
};
use crate::engine::types::{
    ArtifactPlacementEvent, SchedulerCoreInput, SchedulerDecision,
    SchedulerEffectsView, WorkerCandidate,
};
use crate::ids::{ArtifactId, NamespaceId};
use crate::sm::{PodId, WorkerId};
use crate::sorted_map::Key;
use crate::text::number;
use crate::types::PressureBand;

verus! {

/// The snapshot to go on from lies ready on a worker.
pub open spec fn holds(worker_id: WorkerId, resume: Option<ArtifactId>, copies: Copies) -> bool {
    &&& resume matches Some(a)
    &&& copies.contains_key(a.id())
    &&& copies[a.id()].contains_key(worker_id)
    &&& copies[a.id()][worker_id] is Ready
}

/// One of two workers is no worse a place for a pod: it has the snapshot or neither has; of two
/// that are alike in this, it is under no more pressure; of two that are alike in both, it has no
/// more pods; and of two that are alike in all, it has the lower number.
pub open spec fn no_worse(
    a: WorkerCandidate,
    b: WorkerCandidate,
    resume: Option<ArtifactId>,
    copies: Copies,
) -> bool {
    &&& holds(b.worker_id, resume, copies) ==> holds(a.worker_id, resume, copies)
    &&& holds(b.worker_id, resume, copies) == holds(a.worker_id, resume, copies) ==> {
        &&& b.max_pressure_band == PressureBand::Normal ==> a.max_pressure_band
            == PressureBand::Normal
        &&& b.max_pressure_band == a.max_pressure_band ==> {
            &&& a.pod_count <= b.pod_count
            &&& a.pod_count == b.pod_count ==> a.worker_id.0 <= b.worker_id.0
        }
    }
}

proof fn lemma_picked_on_fields(
    workers: Seq<(WorkerId, WorkerCandidate)>,
    resume: Option<ArtifactId>,
    copies: Copies,
)
    ensures
        match pick(workers, resume, copies) {
            Some(best) => {
                &&& best.active && !best.draining
                &&& best.max_pressure_band == PressureBand::Normal || best.max_pressure_band
                    == PressureBand::Elevated
                &&& exists|i: int| 0 <= i < workers.len() && (#[trigger] workers[i]).1 == best
                &&& forall|i: int|
                    0 <= i < workers.len() && (#[trigger] workers[i]).1.active
                        && !workers[i].1.draining && (workers[i].1.max_pressure_band
                        == PressureBand::Normal || workers[i].1.max_pressure_band
                        == PressureBand::Elevated) ==> no_worse(
                        best,
                        workers[i].1,
                        resume,
                        copies,
                    )
            },
            None => forall|i: int|
                0 <= i < workers.len() ==> !(#[trigger] workers[i]).1.active
                    || workers[i].1.draining || workers[i].1.max_pressure_band == PressureBand::High
                    || workers[i].1.max_pressure_band == PressureBand::Critical,
        },
{
    law_pick_is_best(workers, resume, copies);
    if let Some(a) = resume {
        if let Some(best) = pick(workers, resume, copies) {
            assert forall|i: int|
                0 <= i < workers.len() && (#[trigger] workers[i]).1.active
                    && !workers[i].1.draining && (workers[i].1.max_pressure_band
                    == PressureBand::Normal || workers[i].1.max_pressure_band
                    == PressureBand::Elevated) implies no_worse(
                best,
                workers[i].1,
                resume,
                copies,
            ) by {
                let w = workers[i].1.worker_id;
                assert(holds(w, resume, copies) == ready_on(copies, a.id(), w));
                assert(holds(best.worker_id, resume, copies) == ready_on(
                    copies,
                    a.id(),
                    best.worker_id,
                ));
            }
        }
    }
}

/// Whatever the scheduler is told, it grants a pod only a listed worker that is active, is not being
/// emptied, and is under normal or elevated pressure.
pub proof fn law_grants_name_workers_with_room(
    before: SchedulerView,
    input: SchedulerCoreInput,
    after: SchedulerView,
    effects: SchedulerEffectsView,
)
    requires
        before.processed(input, after, effects),
        before.orderly(),
        before.tied(),
    ensures
        forall|i: int|
            #![trigger effects.decisions[i]]
            0 <= i < effects.decisions.len() ==> (effects.decisions[i] matches
                SchedulerDecision::Grant { worker_id, .. } ==> exists|j: int|
                #![trigger after.workers[j]]
                0 <= j < after.workers.len() && after.workers[j].1.worker_id == worker_id
                    && after.workers[j].1.active && !after.workers[j].1.draining && (
                after.workers[j].1.max_pressure_band == PressureBand::Normal
                    || after.workers[j].1.max_pressure_band == PressureBand::Elevated)),
{
    assert forall|i: int|
        #![trigger effects.decisions[i]]
        0 <= i < effects.decisions.len() implies (effects.decisions[i] matches
            SchedulerDecision::Grant { worker_id, .. } ==> exists|j: int|
            #![trigger after.workers[j]]
            0 <= j < after.workers.len() && after.workers[j].1.worker_id == worker_id
                && after.workers[j].1.active && !after.workers[j].1.draining && (
            after.workers[j].1.max_pressure_band == PressureBand::Normal
                || after.workers[j].1.max_pressure_band == PressureBand::Elevated)) by {
        match input {
            SchedulerCoreInput::RequestLease { proto_resume_artifact, .. } => {
                lemma_picked_on_fields(after.workers, proto_resume_artifact, after.copies);
            },
            SchedulerCoreInput::WorkerUpdate(worker_id, candidate) => {
                law_update_grants_pending_once(before, worker_id, candidate, after, effects);
                let resume = before.pending_by_pod[request_of(effects.decisions[i])];
                lemma_picked_on_fields(after.workers, resume, after.copies);
            },
            _ => {},
        }
    }
}

/// Where every listed worker is inactive, is being emptied, or is under high or critical pressure, a
/// request for a worker is answered with nothing and waits.
pub proof fn law_request_waits_for_room(
    before: SchedulerView,
    namespace_id: NamespaceId,
    pod_id: PodId,
    resume: Option<ArtifactId>,
    after: SchedulerView,
    effects: SchedulerEffectsView,
)
    requires
        before.processed(
            SchedulerCoreInput::RequestLease { namespace_id, pod_id, proto_resume_artifact: resume },
            after,
            effects,
        ),
        forall|i: int|
            0 <= i < before.workers.len() ==> !(#[trigger] before.workers[i]).1.active
                || before.workers[i].1.draining || before.workers[i].1.max_pressure_band
                == PressureBand::High || before.workers[i].1.max_pressure_band
                == PressureBand::Critical,
    ensures
        effects.decisions.len() == 0,
        effects.artifact_invalidations.len() == 0,
        effects.delete_commands.len() == 0,
        after.pending_by_pod == before.pending_by_pod.insert((namespace_id.id(), pod_id), resume),
        after.granted == before.granted,
        after.workers == before.workers,
        after.copies == before.copies,
        after.refs == before.refs,
{
    lemma_picked_on_fields(before.workers, resume, before.copies);
}

/// Where some listed worker is active, is not being emptied and is under normal or elevated
/// pressure, a request is granted at once. It is granted such a worker, and no other such worker is
/// a better place for the pod.
pub proof fn law_request_is_granted_best_worker(
    before: SchedulerView,
    namespace_id: NamespaceId,
    pod_id: PodId,
    resume: Option<ArtifactId>,
    after: SchedulerView,
    effects: SchedulerEffectsView,
    some: int,
)
    requires
        before.processed(
            SchedulerCoreInput::RequestLease { namespace_id, pod_id, proto_resume_artifact: resume },
            after,
            effects,
        ),
        0 <= some < before.workers.len(),
        before.workers[some].1.active,
        !before.workers[some].1.draining,
        before.workers[some].1.max_pressure_band == PressureBand::Normal
            || before.workers[some].1.max_pressure_band == PressureBand::Elevated,
    ensures
        effects.artifact_invalidations.len() == 0,
        effects.delete_commands.len() == 0,
        after.pending_by_pod == before.pending_by_pod,
        after.workers == before.workers,
        exists|b: int|
            #![trigger before.workers[b]]
            {
                &&& 0 <= b < before.workers.len()
                &&& effects.decisions == seq![
                    SchedulerDecision::Grant {
                        namespace_id,
                        pod_id,
                        worker_id: before.workers[b].1.worker_id,
                    },
                ]
                &&& after.granted == before.granted.insert(
                    (namespace_id.id(), pod_id),
                    before.workers[b].1.worker_id,
                )
                &&& before.workers[b].1.active && !before.workers[b].1.draining
                &&& before.workers[b].1.max_pressure_band == PressureBand::Normal
                    || before.workers[b].1.max_pressure_band == PressureBand::Elevated
                &&& forall|i: int|
                    0 <= i < before.workers.len() && (#[trigger] before.workers[i]).1.active
                        && !before.workers[i].1.draining && (before.workers[i].1.max_pressure_band
                        == PressureBand::Normal || before.workers[i].1.max_pressure_band
                        == PressureBand::Elevated) ==> no_worse(
                        before.workers[b].1,
                        before.workers[i].1,
                        resume,
                        before.copies,
                    )
            },
{
    lemma_picked_on_fields(before.workers, resume, before.copies);
}

/// When a worker is heard of, it is listed as it was described, and the others stay as they were. A
/// pending request is then granted if some listed worker is active, is not being emptied and is
/// under normal or elevated pressure, and stays pending if none is.
pub proof fn law_room_ends_waiting(
    before: SchedulerView,
    worker_id: WorkerId,
    candidate: WorkerCandidate,
    after: SchedulerView,
    effects: SchedulerEffectsView,
    key: (Seq<char>, PodId),
)
    requires
        before.processed(SchedulerCoreInput::WorkerUpdate(worker_id, candidate), after, effects),
        before.orderly(),
        before.tied(),
        before.pending_by_pod.contains_key(key),
    ensures
        after.workers_by_id == before.workers_by_id.insert(worker_id, candidate),
        after.copies == before.copies,
        effects.delete_commands.len() == 0,
        effects.artifact_invalidations.len() == 0,
        (exists|j: int|
            0 <= j < after.workers.len() && (#[trigger] after.workers[j]).1.active
                && !after.workers[j].1.draining && (after.workers[j].1.max_pressure_band
                == PressureBand::Normal || after.workers[j].1.max_pressure_band
                == PressureBand::Elevated)) ==> {
            &&& !after.pending_by_pod.contains_key(key)
            &&& exists|i: int|
                #![trigger effects.decisions[i]]
                0 <= i < effects.decisions.len() && (effects.decisions[i] matches
                    SchedulerDecision::Grant { namespace_id, pod_id, .. } && namespace_id.id()
                    == key.0 && pod_id == key.1)
        },
        (forall|j: int|
            0 <= j < after.workers.len() ==> !(#[trigger] after.workers[j]).1.active
                || after.workers[j].1.draining || after.workers[j].1.max_pressure_band
                == PressureBand::High || after.workers[j].1.max_pressure_band
                == PressureBand::Critical) ==> {
            &&& effects.decisions.len() == 0
            &&& after.pending_by_pod.contains_key(key)
            &&& after.pending_by_pod[key] == before.pending_by_pod[key]
        },
{
    law_update_grants_pending_once(before, worker_id, candidate, after, effects);
    let resume = before.pending_by_pod[key];
    lemma_picked_on_fields(after.workers, resume, after.copies);
    if pick(after.workers, resume, after.copies) is Some {
        let i = choose|i: int|
            0 <= i < effects.decisions.len() && grants_request(
                #[trigger] effects.decisions[i],
                key,
                resume,
                after.workers,
                after.copies,
            );
        assert(request_of(effects.decisions[i]) == key);
        assert(effects.decisions[i] matches SchedulerDecision::Grant { namespace_id, pod_id, .. }
            && namespace_id.id() == key.0 && pod_id == key.1);
    }
    if effects.decisions.len() > 0 {
        let r = before.pending_by_pod[request_of(effects.decisions[0])];
        lemma_picked_on_fields(after.workers, r, after.copies);
    }
}

/// A request that was granted is revoked from its worker when it is dropped, and no other grant
/// changes. One that was not granted is forgotten, and nothing is told.
pub proof fn law_drop_ends_request(
    before: SchedulerView,
    namespace_id: NamespaceId,
    pod_id: PodId,
    after: SchedulerView,
    effects: SchedulerEffectsView,
)
    requires
        before.processed(SchedulerCoreInput::DropRequest { namespace_id, pod_id }, after, effects),
    ensures
        after.granted == before.granted.remove((namespace_id.id(), pod_id)),
        effects.delete_commands.len() == 0,
        effects.artifact_invalidations.len() == 0,
        before.granted.contains_key((namespace_id.id(), pod_id)) ==> effects.decisions == seq![
            SchedulerDecision::Revoke {
                namespace_id,
                pod_id,
                worker_id: before.granted[(namespace_id.id(), pod_id)],
            },
        ],
        !before.granted.contains_key((namespace_id.id(), pod_id)) ==> effects.decisions.len() == 0
            && after.pending_by_pod == before.pending_by_pod.remove((namespace_id.id(), pod_id)),
        after.workers == before.workers,
        after.copies == before.copies,
{
    assert(after.granted =~= before.granted.remove((namespace_id.id(), pod_id)));
}

/// What a worker says of a snapshot changes what is known of that snapshot on that worker and of no
/// other copy. A copy that was written or received is ready, with the pool and the size that came
/// with it. One whose writing has begun is not ready yet, and one that failed to arrive is gone.
pub proof fn law_reported_copy_is_known(
    before: SchedulerView,
    worker_id: WorkerId,
    event: ArtifactPlacementEvent,
    after: SchedulerView,
    effects: SchedulerEffectsView,
    artifact: Seq<char>,
    other: WorkerId,
)
    requires
        before.processed(SchedulerCoreInput::ArtifactEvent { worker_id, event }, after, effects),
    ensures
        effects.decisions.len() == 0,
        effects.delete_commands.len() == 0,
        effects.artifact_invalidations.len() == 0,
        event matches ArtifactPlacementEvent::WriteStarted { artifact_id, .. } ==> {
            &&& after.copies.contains_key(artifact_id.id())
            &&& after.copies[artifact_id.id()].contains_key(worker_id)
            &&& after.copies[artifact_id.id()][worker_id] == ArtifactStatus::Writing
        },
        event matches ArtifactPlacementEvent::WriteCommitted { artifact_id, pool_id, size_bytes }
            ==> {
            &&& after.copies.contains_key(artifact_id.id())
            &&& after.copies[artifact_id.id()].contains_key(worker_id)
            &&& after.copies[artifact_id.id()][worker_id] == (ArtifactStatus::Ready {
                pool_id,
                size_bytes,
            })
        },
        event matches ArtifactPlacementEvent::TransferReceived { artifact_id, pool_id, size_bytes }
            ==> {
            &&& after.copies.contains_key(artifact_id.id())
            &&& after.copies[artifact_id.id()].contains_key(worker_id)
            &&& after.copies[artifact_id.id()][worker_id] == (ArtifactStatus::Ready {
                pool_id,
                size_bytes,
            })
        },
        event matches ArtifactPlacementEvent::TransferFailed { artifact_id } ==> !(
        after.copies.contains_key(artifact_id.id())
            && after.copies[artifact_id.id()].contains_key(worker_id)),
        other != worker_id || artifact != (match event {
            ArtifactPlacementEvent::WriteStarted { artifact_id, .. } => artifact_id.id(),
            ArtifactPlacementEvent::WriteCommitted { artifact_id, .. } => artifact_id.id(),
            ArtifactPlacementEvent::TransferReceived { artifact_id, .. } => artifact_id.id(),
            ArtifactPlacementEvent::TransferFailed { artifact_id } => artifact_id.id(),
        }) ==> {
            &&& (after.copies.contains_key(artifact) && after.copies[artifact].contains_key(other))
                == (before.copies.contains_key(artifact) && before.copies[artifact].contains_key(
                other,
            ))
            &&& after.copies.contains_key(artifact) && after.copies[artifact].contains_key(other)
                ==> after.copies[artifact][other] == before.copies[artifact][other]
        },
{
    if let ArtifactPlacementEvent::TransferFailed { artifact_id } = event {
        let a = artifact_id.id();
        if before.copies.contains_key(a) {
            let rest = before.copies[a].remove(worker_id);
            if other != worker_id && before.copies[a].contains_key(other) {
                assert(rest.contains_key(other));
            }
        }
    }
}

/// With a worker go its listing and its copies, and no other listing and no other copy.
pub proof fn law_removed_worker_takes_its_copies(
    before: SchedulerView,
    worker_id: WorkerId,
    after: SchedulerView,
    effects: SchedulerEffectsView,
    artifact: Seq<char>,
    other: WorkerId,
)
    requires
        before.processed(SchedulerCoreInput::WorkerRemoved(worker_id), after, effects),
    ensures
        effects.decisions.len() == 0,
        effects.delete_commands.len() == 0,
        after.workers_by_id == before.workers_by_id.remove(worker_id),
        after.pending == before.pending,
        after.granted == before.granted,
        !(after.copies.contains_key(artifact) && after.copies[artifact].contains_key(worker_id)),
        other != worker_id ==> {
            &&& (after.copies.contains_key(artifact) && after.copies[artifact].contains_key(other))
                == (before.copies.contains_key(artifact) && before.copies[artifact].contains_key(
                other,
            ))
            &&& after.copies.contains_key(artifact) && after.copies[artifact].contains_key(other)
                ==> after.copies[artifact][other] == before.copies[artifact][other]
        },
{
    if before.copies.contains_key(artifact) && other != worker_id
        && before.copies[artifact].contains_key(other) {
        assert(before.copies[artifact].remove(worker_id).contains_key(other));
    }
}

proof fn lemma_lost(refs: Seq<(ArtifactId, NamespaceId)>, copies: Copies, n: u64)
    ensures
        lost(refs, copies).contains(n) <==> exists|j: int|
            0 <= j < refs.len() && number((#[trigger] refs[j]).0.id(), 10, u64::MAX as nat) == Some(
                n as nat,
            ) && !reachable(copies, refs[j].0.id()),
    decreases refs.len(),
{
    if refs.len() > 0 {
        let front = refs.drop_last();
        let last = refs.last();
        lemma_lost(front, copies, n);
        let rest = lost(front, copies);
        let all = lost(refs, copies);
        if all.contains(n) {
            let i = choose|i: int| 0 <= i < all.len() && all[i] == n;
            if i < rest.len() {
                assert(rest[i] == n);
                let j = choose|j: int|
                    0 <= j < front.len() && number(
                        (#[trigger] front[j]).0.id(),
                        10,
                        u64::MAX as nat,
                    ) == Some(n as nat) && !reachable(copies, front[j].0.id());
                assert(refs[j] == front[j]);
            } else {
                assert(refs[refs.len() - 1] == last);
            }
        }
        if exists|j: int|
            0 <= j < refs.len() && number((#[trigger] refs[j]).0.id(), 10, u64::MAX as nat) == Some(
                n as nat,
            ) && !reachable(copies, refs[j].0.id()) {
            let j = choose|j: int|
                0 <= j < refs.len() && number((#[trigger] refs[j]).0.id(), 10, u64::MAX as nat)
                    == Some(n as nat) && !reachable(copies, refs[j].0.id());
            if j < front.len() {
                assert(front[j] == refs[j]);
                assert(rest.contains(n));
                let i = choose|i: int| 0 <= i < rest.len() && rest[i] == n;
                assert(all[i] == n);
            } else {
                assert(all[all.len() - 1] == n);
            }
        }
    }
}

/// When a worker goes, the snapshots that are told to be lost are those that someone wants to keep
/// and that lie ready on no worker that is left.
pub proof fn law_lost_snapshots_are_told(
    before: SchedulerView,
    worker_id: WorkerId,
    after: SchedulerView,
    effects: SchedulerEffectsView,
    n: u64,
)
    requires
        before.processed(SchedulerCoreInput::WorkerRemoved(worker_id), after, effects),
    ensures
        effects.artifact_invalidations.contains(n) <==> exists|j: int|
            0 <= j < before.refs.len() && number(
                (#[trigger] before.refs[j]).0.id(),
                10,
                u64::MAX as nat,
            ) == Some(n as nat) && forall|w: WorkerId|
                w != worker_id ==> !(#[trigger] holds(w, Some(before.refs[j].0), before.copies)),
{
    lemma_lost(before.refs, after.copies, n);
    assert forall|a: ArtifactId|
        reachable(after.copies, a.id()) == exists|w: WorkerId|
            w != worker_id && #[trigger] holds(w, Some(a), before.copies) by {
        if reachable(after.copies, a.id()) {
            let w = choose|w: WorkerId| ready_on(after.copies, a.id(), w);
            assert(holds(w, Some(a), before.copies));
        }
        if exists|w: WorkerId| w != worker_id && #[trigger] holds(w, Some(a), before.copies) {
            let w = choose|w: WorkerId| w != worker_id && #[trigger] holds(w, Some(a), before.copies);
            assert(before.copies[a.id()].remove(worker_id).contains_key(w));
            assert(ready_on(after.copies, a.id(), w));
        }
    }
}

/// When a snapshot is released it is forgotten with all its copies. If it lies ready somewhere, one
/// worker is told to delete it from the pool that it lies in: the one with the lowest number among
/// those that have it. If it does not, nobody is told.
pub proof fn law_released_snapshot_is_deleted(
    before: SchedulerView,
    artifact: ArtifactId,
    namespace_id: NamespaceId,
    after: SchedulerView,
    effects: SchedulerEffectsView,
)
    requires
        before.processed(
            SchedulerCoreInput::ArtifactReleased { proto_artifact_id: artifact, namespace_id },
            after,
            effects,
        ),
    ensures
        effects.decisions.len() == 0,
        effects.artifact_invalidations.len() == 0,
        after.copies == before.copies.remove(artifact.id()),
        after.refs_by_name == before.refs_by_name.remove(artifact.id()),
        (forall|w: WorkerId| !(#[trigger] holds(w, Some(artifact), before.copies)))
            ==> effects.delete_commands.len() == 0,
        (exists|w: WorkerId| #[trigger] holds(w, Some(artifact), before.copies)) ==> {
            &&& effects.delete_commands.len() == 1
            &&& effects.delete_commands[0].artifact_id == artifact
            &&& holds(effects.delete_commands[0].worker_id, Some(artifact), before.copies)
            &&& before.copies[artifact.id()][effects.delete_commands[0].worker_id] matches
                ArtifactStatus::Ready { pool_id, .. } && pool_id
                == effects.delete_commands[0].pool_id
            &&& forall|w: WorkerId| #[trigger]
                holds(w, Some(artifact), before.copies) ==> effects.delete_commands[0].worker_id.0
                    <= w.0
        },
{
    let a = artifact.id();
    assert forall|w: WorkerId| #[trigger]
        holds(w, Some(artifact), before.copies) == ready_on(before.copies, a, w) by {}
    if exists|w: WorkerId| #[trigger] holds(w, Some(artifact), before.copies) {
        let w = choose|w: WorkerId| #[trigger] holds(w, Some(artifact), before.copies);
        assert(ready_on(before.copies, a, w));
        lemma_lowest_holder(before.copies, a, w);
        let first = first_holder(before.copies, a);
        assert(holds(first, Some(artifact), before.copies));
        assert forall|x: WorkerId| #[trigger] holds(x, Some(artifact), before.copies) implies first.0
            <= x.0 by {
            assert(ready_on(before.copies, a, x));
        }
    } else if reachable(before.copies, a) {
        let w = choose|w: WorkerId| ready_on(before.copies, a, w);
        assert(holds(w, Some(artifact), before.copies));
    }
}

proof fn lemma_lowest_holder(copies: Copies, artifact: Seq<char>, w: WorkerId)
    requires
        ready_on(copies, artifact, w),
    ensures
        exists|x: WorkerId|
            ready_on(copies, artifact, x) && forall|y: WorkerId| #[trigger]
                ready_on(copies, artifact, y) ==> x.0 <= y.0,
    decreases w.0,
{
    if exists|y: WorkerId| #[trigger] ready_on(copies, artifact, y) && y.0 < w.0 {
        let y = choose|y: WorkerId| #[trigger] ready_on(copies, artifact, y) && y.0 < w.0;
        lemma_lowest_holder(copies, artifact, y);
    } else {
        assert(forall|y: WorkerId| #[trigger] ready_on(copies, artifact, y) ==> w.0 <= y.0);
    }
}

} // verus!
