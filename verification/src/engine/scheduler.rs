//! Grants pods a worker, and withdraws what is no longer asked for.
use vstd::prelude::*;

use crate::engine::placement_table::{
    applied, reachable, ready_on, without_host, Copies, PlacementTable,
};
use crate::engine::types::{
    DeleteArtifactCommand, SchedulerCoreInput, SchedulerDecision, SchedulerEffects,
    SchedulerEffectsView, WorkerCandidate,
};
use crate::ids::{ArtifactId, NamespaceId};
use crate::sm::{PodId, WorkerId};
use crate::sorted_map::{
    all_values, as_map, erase, filtered, has_key, increasing, lemma_all_values,
    lemma_position_unique, position, restricted, upsert, Key, SortedMap,
};
use crate::text::{chars_of, number, parse_number};

verus! {

/// A worker can take a pod: it is there, it is not emptied, and it is not hard pressed.
pub open spec fn suitable(c: WorkerCandidate) -> bool {
    c.active && !c.draining && c.max_pressure_band.level() < 2
}

/// What a worker is compared by: whether it lacks the snapshot that is to be resumed, its pressure,
/// its pods, its number. Where no worker has the snapshot, none is held to lack it.
pub open spec fn merit(c: WorkerCandidate, resume: Option<ArtifactId>, copies: Copies) -> (
    int,
    int,
    int,
    int,
) {
    let lacks = match resume {
        Some(a) => reachable(copies, a.id()) && !ready_on(copies, a.id(), c.worker_id),
        None => false,
    };
    (
        if lacks {
            1
        } else {
            0
        },
        c.max_pressure_band.level(),
        c.pod_count as int,
        c.worker_id.0 as int,
    )
}

/// The order of what workers are compared by.
pub open spec fn less(a: (int, int, int, int), b: (int, int, int, int)) -> bool {
    a.0 < b.0 || (a.0 == b.0 && (a.1 < b.1 || (a.1 == b.1 && (a.2 < b.2 || (a.2 == b.2 && a.3
        < b.3)))))
}

/// The first of the best workers of a list.
pub open spec fn pick(
    candidates: Seq<(WorkerId, WorkerCandidate)>,
    resume: Option<ArtifactId>,
    copies: Copies,
) -> Option<WorkerCandidate>
    decreases candidates.len(),
{
    if candidates.len() == 0 {
        None
    } else {
        let last = candidates.last().1;
        match pick(candidates.drop_last(), resume, copies) {
            Some(best) => if suitable(last) && less(
                merit(last, resume, copies),
                merit(best, resume, copies),
            ) {
                Some(last)
            } else {
                Some(best)
            },
            None => if suitable(last) {
                Some(last)
            } else {
                None
            },
        }
    }
}

/// The worker that is picked is suitable, and no suitable worker is better. Where none is picked,
/// none is suitable.
pub proof fn law_pick_is_best(
    candidates: Seq<(WorkerId, WorkerCandidate)>,
    resume: Option<ArtifactId>,
    copies: Copies,
)
    ensures
        match pick(candidates, resume, copies) {
            Some(best) => {
                &&& suitable(best)
                &&& exists|i: int| 0 <= i < candidates.len() && (#[trigger] candidates[i]).1 == best
                &&& forall|i: int|
                    0 <= i < candidates.len() && suitable((#[trigger] candidates[i]).1) ==> !less(
                        merit(candidates[i].1, resume, copies),
                        merit(best, resume, copies),
                    )
            },
            None => forall|i: int|
                0 <= i < candidates.len() ==> !suitable((#[trigger] candidates[i]).1),
        },
    decreases candidates.len(),
{
    if candidates.len() > 0 {
        let front = candidates.drop_last();
        law_pick_is_best(front, resume, copies);
        let last = candidates.last().1;
        assert(candidates[candidates.len() - 1].1 == last);
        match pick(front, resume, copies) {
            Some(best) => {
                let i = choose|i: int| 0 <= i < front.len() && (#[trigger] front[i]).1 == best;
                assert(candidates[i].1 == best);
                assert forall|i: int|
                    0 <= i < candidates.len() && suitable(
                        (#[trigger] candidates[i]).1,
                    ) implies !less(
                    merit(candidates[i].1, resume, copies),
                    merit(pick(candidates, resume, copies).unwrap(), resume, copies),
                ) by {
                    if i < front.len() {
                        assert(front[i] == candidates[i]);
                    }
                }
            },
            None => {
                assert forall|i: int|
                    0 <= i < candidates.len() - 1 implies !suitable((#[trigger] candidates[i]).1) by {
                    assert(front[i] == candidates[i]);
                }
            },
        }
    }
}

/// A worker that has the snapshot is preferred to one that has not, however pressed it is.
pub proof fn law_snapshot_comes_first(
    a: WorkerCandidate,
    b: WorkerCandidate,
    artifact: ArtifactId,
    copies: Copies,
)
    requires
        ready_on(copies, artifact.id(), a.worker_id),
        !ready_on(copies, artifact.id(), b.worker_id),
    ensures
        less(merit(a, Some(artifact), copies), merit(b, Some(artifact), copies)),
{
}

/// The worker for a pod: of those that can take one, the best.
pub fn select_worker(
    candidates: &SortedMap<WorkerId, WorkerCandidate>,
    resume_artifact: &Option<ArtifactId>,
    placements: &PlacementTable,
) -> (r: Option<WorkerId>)
    ensures
        r == (match pick(candidates.seq(), *resume_artifact, placements@) {
            Some(best) => Some(best.worker_id),
            None => None,
        }),
{
    let sought: bool = match resume_artifact {
        Some(a) => placements.any_worker_with_artifact(a).is_some(),
        None => false,
    };
    let n: usize = candidates.len();
    let ghost s = candidates.seq();
    let ghost copies = placements@;
    let mut best: Option<(WorkerCandidate, bool)> = None;
    let mut i: usize = 0;
    assert(s.take(0) =~= Seq::<(WorkerId, WorkerCandidate)>::empty());
    while i < n
        invariant
            n == s.len(),
            s == candidates.seq(),
            copies == placements@,
            i <= n,
            sought == (resume_artifact matches Some(a) && reachable(copies, a.id())),
            match best {
                Some(b) => pick(s.take(i as int), *resume_artifact, copies) == Some(b.0) && merit(
                    b.0,
                    *resume_artifact,
                    copies,
                ).0 == if b.1 {
                    1int
                } else {
                    0int
                },
                None => pick(s.take(i as int), *resume_artifact, copies) is None,
            },
        decreases n - i,
    {
        assert(s.take(i + 1).drop_last() =~= s.take(i as int));
        assert(s.take(i + 1).last() == s[i as int]);
        let c: WorkerCandidate = *candidates.value_at(i);
        if c.active && !c.draining && c.max_pressure_band.rank() < 2 {
            let lacks: bool = match resume_artifact {
                Some(a) => sought && !placements.is_ready_on(a, c.worker_id),
                None => false,
            };
            let wins: bool = match best {
                Some((b, b_lacks)) => {
                    let (x, y) = (c.max_pressure_band.rank(), b.max_pressure_band.rank());
                    (!lacks && b_lacks) || (lacks == b_lacks && (x < y || (x == y && (c.pod_count
                        < b.pod_count || (c.pod_count == b.pod_count && c.worker_id.0
                        < b.worker_id.0)))))
                },
                None => true,
            };
            if wins {
                best = Some((c, lacks));
            }
        }
        i = i + 1;
    }
    assert(s.take(i as int) =~= s);
    match best {
        Some((b, _)) => Some(b.worker_id),
        None => None,
    }
}

/// A grant for each pending request that finds a worker.
pub open spec fn grants(
    pending: Seq<((NamespaceId, PodId), Option<ArtifactId>)>,
    workers: Seq<(WorkerId, WorkerCandidate)>,
    copies: Copies,
) -> Seq<SchedulerDecision>
    decreases pending.len(),
{
    if pending.len() == 0 {
        seq![]
    } else {
        let rest = grants(pending.drop_last(), workers, copies);
        let last = pending.last();
        match pick(workers, last.1, copies) {
            Some(best) => rest.push(
                SchedulerDecision::Grant {
                    namespace_id: last.0.0,
                    pod_id: last.0.1,
                    worker_id: best.worker_id,
                },
            ),
            None => rest,
        }
    }
}

/// What is granted after the pending requests of a list were tried again.
pub open spec fn granted_after(
    granted: Map<(Seq<char>, PodId), WorkerId>,
    pending: Seq<((NamespaceId, PodId), Option<ArtifactId>)>,
    workers: Seq<(WorkerId, WorkerCandidate)>,
    copies: Copies,
) -> Map<(Seq<char>, PodId), WorkerId>
    decreases pending.len(),
{
    if pending.len() == 0 {
        granted
    } else {
        let rest = granted_after(granted, pending.drop_last(), workers, copies);
        let last = pending.last();
        match pick(workers, last.1, copies) {
            Some(best) => rest.insert(last.0.id(), best.worker_id),
            None => rest,
        }
    }
}

/// The numbers of the snapshots of a list that no worker has. A name that is no number is passed
/// over.
pub open spec fn lost(refs: Seq<(ArtifactId, NamespaceId)>, copies: Copies) -> Seq<u64>
    decreases refs.len(),
{
    if refs.len() == 0 {
        seq![]
    } else {
        let rest = lost(refs.drop_last(), copies);
        let name = refs.last().0.id();
        match number(name, 10, u64::MAX as nat) {
            Some(n) => if reachable(copies, name) {
                rest
            } else {
                rest.push(n as u64)
            },
            None => rest,
        }
    }
}

/// Which pods wait for a worker, and which have one.
pub struct SchedulerCore {
    pub(crate) pending: SortedMap<(NamespaceId, PodId), Option<ArtifactId>>,
    pub(crate) granted: SortedMap<(NamespaceId, PodId), WorkerId>,
    pub(crate) workers: SortedMap<WorkerId, WorkerCandidate>,
    pub(crate) placements: PlacementTable,
    /// The snapshots that workloads want to keep.
    pub(crate) artifact_refs: SortedMap<ArtifactId, NamespaceId>,
}

/// Requests that find no worker.
pub open spec fn unplaced(workers: Seq<(WorkerId, WorkerCandidate)>, copies: Copies) -> spec_fn(
    (Seq<char>, PodId),
    Option<ArtifactId>,
) -> bool {
    |_k: (Seq<char>, PodId), resume: Option<ArtifactId>| pick(workers, resume, copies) is None
}

/// Snapshots that some worker has.
pub open spec fn held(copies: Copies) -> spec_fn(Seq<char>, NamespaceId) -> bool {
    |a: Seq<char>, _n: NamespaceId| reachable(copies, a)
}

/// The worker with the lowest number that has a snapshot.
pub open spec fn first_holder(copies: Copies, artifact: Seq<char>) -> WorkerId {
    choose|w: WorkerId|
        ready_on(copies, artifact, w) && forall|x: WorkerId| #[trigger]
            ready_on(copies, artifact, x) ==> w.0 <= x.0
}

/// What the scheduler knows.
#[verifier::ext_equal]
pub struct SchedulerView {
    pub pending: Seq<((NamespaceId, PodId), Option<ArtifactId>)>,
    pub pending_by_pod: Map<(Seq<char>, PodId), Option<ArtifactId>>,
    pub granted: Map<(Seq<char>, PodId), WorkerId>,
    pub workers: Seq<(WorkerId, WorkerCandidate)>,
    pub workers_by_id: Map<WorkerId, WorkerCandidate>,
    pub copies: Copies,
    pub refs: Seq<(ArtifactId, NamespaceId)>,
    pub refs_by_name: Map<Seq<char>, NamespaceId>,
}

impl SchedulerView {
    /// The worker for a pod that is to resume from a snapshot, or to start afresh.
    pub open spec fn choice(self, resume: Option<ArtifactId>) -> Option<WorkerCandidate> {
        pick(self.workers, resume, self.copies)
    }

    /// Nothing is asked for, nothing is granted, and no worker and no snapshot is known.
    pub open spec fn fresh(self) -> bool {
        &&& self.pending.len() == 0
        &&& self.pending_by_pod == Map::<(Seq<char>, PodId), Option<ArtifactId>>::empty()
        &&& self.granted == Map::<(Seq<char>, PodId), WorkerId>::empty()
        &&& self.workers.len() == 0
        &&& self.workers_by_id == Map::<WorkerId, WorkerCandidate>::empty()
        &&& self.copies.dom() == Set::<Seq<char>>::empty()
        &&& self.refs.len() == 0
        &&& self.refs_by_name == Map::<Seq<char>, NamespaceId>::empty()
    }

    /// The lists are in order.
    pub open spec fn orderly(self) -> bool {
        increasing(self.pending) && increasing(self.refs) && increasing(self.workers)
    }

    /// What the scheduler knows after an input, and what it gives out.
    pub open spec fn next(self, input: SchedulerCoreInput) -> (SchedulerView, SchedulerEffectsView) {
        match input {
            SchedulerCoreInput::RequestLease { namespace_id, pod_id, proto_resume_artifact } => {
                let key = (namespace_id.id(), pod_id);
                match self.choice(proto_resume_artifact) {
                    Some(best) => (
                        SchedulerView {
                            granted: self.granted.insert(key, best.worker_id),
                            ..self
                        },
                        SchedulerEffectsView::of_decisions(
                            seq![
                                SchedulerDecision::Grant {
                                    namespace_id,
                                    pod_id,
                                    worker_id: best.worker_id,
                                },
                            ],
                        ),
                    ),
                    None => (
                        SchedulerView {
                            pending: upsert(
                                self.pending,
                                (namespace_id, pod_id),
                                proto_resume_artifact,
                            ),
                            pending_by_pod: self.pending_by_pod.insert(key, proto_resume_artifact),
                            ..self
                        },
                        SchedulerEffectsView::nothing(),
                    ),
                }
            },
            SchedulerCoreInput::DropRequest { namespace_id, pod_id } => {
                let key = (namespace_id.id(), pod_id);
                if self.granted.contains_key(key) {
                    (
                        SchedulerView { granted: self.granted.remove(key), ..self },
                        SchedulerEffectsView::of_decisions(
                            seq![
                                SchedulerDecision::Revoke {
                                    namespace_id,
                                    pod_id,
                                    worker_id: self.granted[key],
                                },
                            ],
                        ),
                    )
                } else {
                    (
                        SchedulerView {
                            pending: erase(self.pending, key),
                            pending_by_pod: self.pending_by_pod.remove(key),
                            ..self
                        },
                        SchedulerEffectsView::nothing(),
                    )
                }
            },
            SchedulerCoreInput::WorkerUpdate(worker_id, candidate) => {
                let workers = upsert(self.workers, worker_id, candidate);
                (
                    SchedulerView {
                        pending: filtered(self.pending, unplaced(workers, self.copies)),
                        pending_by_pod: restricted(
                            self.pending_by_pod,
                            unplaced(workers, self.copies),
                        ),
                        granted: granted_after(self.granted, self.pending, workers, self.copies),
                        workers,
                        workers_by_id: self.workers_by_id.insert(worker_id, candidate),
                        ..self
                    },
                    SchedulerEffectsView::of_decisions(grants(self.pending, workers, self.copies)),
                )
            },
            SchedulerCoreInput::WorkerRemoved(worker_id) => {
                let copies = without_host(self.copies, worker_id);
                (
                    SchedulerView {
                        workers: erase(self.workers, worker_id),
                        workers_by_id: self.workers_by_id.remove(worker_id),
                        copies,
                        refs: filtered(self.refs, held(copies)),
                        refs_by_name: restricted(self.refs_by_name, held(copies)),
                        ..self
                    },
                    SchedulerEffectsView {
                        artifact_invalidations: lost(self.refs, copies),
                        ..SchedulerEffectsView::nothing()
                    },
                )
            },
            SchedulerCoreInput::ArtifactEvent { worker_id, event } => (
                SchedulerView { copies: applied(self.copies, worker_id, event), ..self },
                SchedulerEffectsView::nothing(),
            ),
            SchedulerCoreInput::ArtifactReferenced { proto_artifact_id, namespace_id } => (
                SchedulerView {
                    refs: upsert(self.refs, proto_artifact_id, namespace_id),
                    refs_by_name: self.refs_by_name.insert(proto_artifact_id.id(), namespace_id),
                    ..self
                },
                SchedulerEffectsView::nothing(),
            ),
            SchedulerCoreInput::ArtifactReleased { proto_artifact_id, .. } => {
                let a = proto_artifact_id.id();
                (
                    SchedulerView {
                        refs: erase(self.refs, a),
                        refs_by_name: self.refs_by_name.remove(a),
                        copies: self.copies.remove(a),
                        ..self
                    },
                    SchedulerEffectsView {
                        delete_commands: if reachable(self.copies, a) {
                            let w = first_holder(self.copies, a);
                            seq![
                                DeleteArtifactCommand {
                                    worker_id: w,
                                    artifact_id: proto_artifact_id,
                                    pool_id: self.copies[a][w]->pool_id,
                                },
                            ]
                        } else {
                            seq![]
                        },
                        ..SchedulerEffectsView::nothing()
                    },
                )
            },
        }
    }

    /// Whether this is what an input changes and gives out.
    pub open spec fn processed(
        self,
        input: SchedulerCoreInput,
        after: SchedulerView,
        effects: SchedulerEffectsView,
    ) -> bool {
        (after, effects) == self.next(input)
    }
}

impl SchedulerCore {
    pub closed spec fn view(&self) -> SchedulerView {
        SchedulerView {
            pending: self.pending.seq(),
            pending_by_pod: self.pending@,
            granted: self.granted@,
            workers: self.workers.seq(),
            workers_by_id: self.workers@,
            copies: self.placements@,
            refs: self.artifact_refs.seq(),
            refs_by_name: self.artifact_refs@,
        }
    }

    /// What is known stands in order, since the tables that hold it do.
    pub(crate) proof fn lemma_orderly(&self)
        requires
            self.pending.ordered(),
            self.workers.ordered(),
            self.artifact_refs.ordered(),
        ensures
            self@.orderly(),
            self@.tied(),
    {
    }

    pub fn new() -> (r: Self)
        ensures
            r@.fresh(),
            r@.orderly(),
            r@.tied(),
    {
        let r = SchedulerCore {
            pending: SortedMap::new(),
            granted: SortedMap::new(),
            workers: SortedMap::new(),
            placements: PlacementTable::new(),
            artifact_refs: SortedMap::new(),
        };
        assert(r@.copies.dom() =~= Set::<Seq<char>>::empty());
        r
    }

    /// How many requests are pending.
    pub fn pending_count(&self) -> (r: usize)
        ensures
            r == self@.pending.len(),
            self@.orderly(),
            self@.tied(),
    {
        proof {
            use_type_invariant(&self.pending);
            use_type_invariant(&self.workers);
            use_type_invariant(&self.artifact_refs);
        }
        self.pending.len()
    }

    /// Takes one input, and says what comes of it.
    pub fn process(&mut self, input: SchedulerCoreInput) -> (r: SchedulerEffects)
        ensures
            old(self)@.processed(input, final(self)@, r@),
            old(self)@.orderly(),
            old(self)@.tied(),
            final(self)@.orderly(),
            final(self)@.tied(),
    {
        let ghost before = self@;
        proof {
            use_type_invariant(&self.pending);
            use_type_invariant(&self.workers);
            use_type_invariant(&self.artifact_refs);
        }
        let r: SchedulerEffects = match input {
            SchedulerCoreInput::RequestLease { namespace_id, pod_id, proto_resume_artifact } => {
                let key = (namespace_id.clone(), pod_id);
                match select_worker(&self.workers, &proto_resume_artifact, &self.placements) {
                    Some(worker_id) => {
                        self.granted.insert(key, worker_id);
                        let mut decisions: Vec<SchedulerDecision> = Vec::new();
                        decisions.push(SchedulerDecision::Grant { namespace_id, pod_id, worker_id });
                        assert(decisions@ =~= seq![
                            SchedulerDecision::Grant { namespace_id, pod_id, worker_id },
                        ]);
                        SchedulerEffects::from_decisions(decisions)
                    },
                    None => {
                        self.pending.insert(key, proto_resume_artifact);
                        SchedulerEffects::new()
                    },
                }
            },
            SchedulerCoreInput::DropRequest { namespace_id, pod_id } => {
                let key = (namespace_id.clone(), pod_id);
                match self.granted.remove(&key) {
                    Some(worker_id) => {
                        let mut decisions: Vec<SchedulerDecision> = Vec::new();
                        decisions.push(
                            SchedulerDecision::Revoke { namespace_id, pod_id, worker_id },
                        );
                        assert(decisions@ =~= seq![
                            SchedulerDecision::Revoke { namespace_id, pod_id, worker_id },
                        ]);
                        SchedulerEffects::from_decisions(decisions)
                    },
                    None => {
                        let _ = self.pending.remove(&key);
                        assert(self@.granted =~= before.granted);
                        SchedulerEffects::new()
                    },
                }
            },
            SchedulerCoreInput::WorkerUpdate(worker_id, candidate) => {
                self.workers.insert(worker_id, candidate);
                let decisions: Vec<SchedulerDecision> = self.retry_pending();
                SchedulerEffects::from_decisions(decisions)
            },
            SchedulerCoreInput::WorkerRemoved(worker_id) => {
                let _ = self.workers.remove(&worker_id);
                self.placements.remove_worker(worker_id);
                let invalid: Vec<u64> = self.drop_lost_refs();
                let effects = SchedulerEffects {
                    decisions: Vec::new(),
                    artifact_invalidations: invalid,
                    delete_commands: Vec::new(),
                };
                assert(effects@ =~= (SchedulerEffectsView {
                    artifact_invalidations: invalid@,
                    ..SchedulerEffectsView::nothing()
                }));
                effects
            },
            SchedulerCoreInput::ArtifactEvent { worker_id, event } => {
                self.placements.apply_event(worker_id, event);
                SchedulerEffects::new()
            },
            SchedulerCoreInput::ArtifactReferenced { proto_artifact_id, namespace_id } => {
                self.artifact_refs.insert(proto_artifact_id, namespace_id);
                SchedulerEffects::new()
            },
            SchedulerCoreInput::ArtifactReleased { proto_artifact_id, .. } => {
                let _ = self.artifact_refs.remove(&proto_artifact_id);
                let mut delete_commands: Vec<DeleteArtifactCommand> = Vec::new();
                match self.placements.any_worker_with_artifact(&proto_artifact_id) {
                    Some((worker_id, pool_id)) => {
                        delete_commands.push(
                            DeleteArtifactCommand {
                                worker_id,
                                artifact_id: proto_artifact_id.clone(),
                                pool_id,
                            },
                        );
                    },
                    None => {},
                }
                self.placements.remove_artifact(&proto_artifact_id);
                let effects = SchedulerEffects {
                    decisions: Vec::new(),
                    artifact_invalidations: Vec::new(),
                    delete_commands,
                };
                assert(effects@ =~= (SchedulerEffectsView {
                    delete_commands: delete_commands@,
                    ..SchedulerEffectsView::nothing()
                }));
                effects
            },
        };
        proof {
            use_type_invariant(&self.pending);
            use_type_invariant(&self.workers);
            use_type_invariant(&self.artifact_refs);
        }
        r
    }

    /// Grants the pending requests that find a worker now.
    fn retry_pending(&mut self) -> (r: Vec<SchedulerDecision>)
        ensures
            r@ == grants(old(self)@.pending, old(self)@.workers, old(self)@.copies),
            final(self)@ == (SchedulerView {
                pending: filtered(
                    old(self)@.pending,
                    unplaced(old(self)@.workers, old(self)@.copies),
                ),
                pending_by_pod: restricted(
                    old(self)@.pending_by_pod,
                    unplaced(old(self)@.workers, old(self)@.copies),
                ),
                granted: granted_after(
                    old(self)@.granted,
                    old(self)@.pending,
                    old(self)@.workers,
                    old(self)@.copies,
                ),
                ..old(self)@
            }),
    {
        let ghost before = self@;
        let ghost s = self.pending.seq();
        let n: usize = self.pending.len();
        let mut decisions: Vec<SchedulerDecision> = Vec::new();
        let mut i: usize = 0;
        assert(s.take(0) =~= Seq::<((NamespaceId, PodId), Option<ArtifactId>)>::empty());
        while i < n
            invariant
                before == old(self)@,
                n == s.len(),
                s == before.pending,
                i <= n,
                decisions@ == grants(s.take(i as int), before.workers, before.copies),
                self@ == (SchedulerView {
                    granted: granted_after(
                        before.granted,
                        s.take(i as int),
                        before.workers,
                        before.copies,
                    ),
                    ..before
                }),
            decreases n - i,
        {
            assert(s.take(i + 1).drop_last() =~= s.take(i as int));
            assert(s.take(i + 1).last() == s[i as int]);
            match select_worker(&self.workers, self.pending.value_at(i), &self.placements) {
                Some(worker_id) => {
                    let key: &(NamespaceId, PodId) = self.pending.key_at(i);
                    let namespace_id: NamespaceId = key.0.clone();
                    let pod_id: PodId = key.1;
                    decisions.push(
                        SchedulerDecision::Grant {
                            namespace_id: namespace_id.clone(),
                            pod_id,
                            worker_id,
                        },
                    );
                    self.granted.insert((namespace_id, pod_id), worker_id);
                },
                None => {},
            }
            i = i + 1;
        }
        assert(s.take(i as int) =~= s);
        let mut pending: SortedMap<(NamespaceId, PodId), Option<ArtifactId>> = SortedMap::new();
        std::mem::swap(&mut pending, &mut self.pending);
        let workers = &self.workers;
        let placements = &self.placements;
        let test = |_k: &(NamespaceId, PodId), resume: &Option<ArtifactId>| -> (r: bool)
            ensures
                r == (pick(workers.seq(), *resume, placements@) is None),
            {
                select_worker(workers, resume, placements).is_none()
            };
        pending.retain(test, Ghost(unplaced(workers.seq(), placements@)));
        self.pending = pending;
        decisions
    }

    /// Gives up the snapshots that no worker has, and returns their numbers.
    fn drop_lost_refs(&mut self) -> (r: Vec<u64>)
        ensures
            r@ == lost(old(self)@.refs, old(self)@.copies),
            final(self)@ == (SchedulerView {
                refs: filtered(old(self)@.refs, held(old(self)@.copies)),
                refs_by_name: restricted(old(self)@.refs_by_name, held(old(self)@.copies)),
                ..old(self)@
            }),
    {
        let ghost before = self@;
        let ghost s = self.artifact_refs.seq();
        let n: usize = self.artifact_refs.len();
        let mut r: Vec<u64> = Vec::new();
        let mut i: usize = 0;
        assert(s.take(0) =~= Seq::<(ArtifactId, NamespaceId)>::empty());
        while i < n
            invariant
                n == s.len(),
                s == before.refs,
                self@ == before,
                i <= n,
                r@ == lost(s.take(i as int), before.copies),
            decreases n - i,
        {
            assert(s.take(i + 1).drop_last() =~= s.take(i as int));
            assert(s.take(i + 1).last() == s[i as int]);
            let artifact_id: &ArtifactId = self.artifact_refs.key_at(i);
            if self.placements.any_worker_with_artifact(artifact_id).is_none() {
                let text: Vec<char> = chars_of(artifact_id.0.as_str());
                proof {
                    assert(text@.subrange(0, text@.len() as int) =~= text@);
                }
                if let Some(port_id) = parse_number(&text, 0, text.len(), 10, u64::MAX) {
                    r.push(port_id);
                }
            }
            i = i + 1;
        }
        assert(s.take(i as int) =~= s);
        let mut refs: SortedMap<ArtifactId, NamespaceId> = SortedMap::new();
        std::mem::swap(&mut refs, &mut self.artifact_refs);
        let placements = &self.placements;
        let test = |a: &ArtifactId, _n: &NamespaceId| -> (r: bool)
            ensures
                r == reachable(placements@, a.id()),
            {
                placements.any_worker_with_artifact(a).is_some()
            };
        refs.retain(test, Ghost(held(placements@)));
        self.artifact_refs = refs;
        r
    }
}

/// A grant names a worker that can take the pod.
pub proof fn law_grants_are_suitable(
    before: SchedulerView,
    input: SchedulerCoreInput,
    after: SchedulerView,
    effects: SchedulerEffectsView,
    i: int,
)
    requires
        before.processed(input, after, effects),
        0 <= i < effects.decisions.len(),
        effects.decisions[i] is Grant,
    ensures
        exists|j: int|
            0 <= j < after.workers.len() && suitable((#[trigger] after.workers[j]).1)
                && after.workers[j].1.worker_id == effects.decisions[i]->Grant_worker_id,
{
    match input {
        SchedulerCoreInput::RequestLease { proto_resume_artifact, .. } => {
            law_pick_is_best(after.workers, proto_resume_artifact, after.copies);
        },
        SchedulerCoreInput::WorkerUpdate(_, _) => {
            lemma_grants_suitable(before.pending, after.workers, before.copies, i);
        },
        _ => {},
    }
}

proof fn lemma_grants_suitable(
    pending: Seq<((NamespaceId, PodId), Option<ArtifactId>)>,
    workers: Seq<(WorkerId, WorkerCandidate)>,
    copies: Copies,
    i: int,
)
    requires
        0 <= i < grants(pending, workers, copies).len(),
    ensures
        grants(pending, workers, copies)[i] is Grant,
        exists|j: int|
            0 <= j < workers.len() && suitable((#[trigger] workers[j]).1)
                && workers[j].1.worker_id == grants(pending, workers, copies)[i]->Grant_worker_id,
    decreases pending.len(),
{
    let rest = grants(pending.drop_last(), workers, copies);
    if i < rest.len() {
        lemma_grants_suitable(pending.drop_last(), workers, copies, i);
    } else {
        law_pick_is_best(workers, pending.last().1, copies);
    }
}

impl SchedulerView {
    /// Every worker is listed under its own number.
    pub open spec fn listed_by_number(self) -> bool {
        forall|j: int|
            0 <= j < self.workers.len() ==> (#[trigger] self.workers[j]).1.worker_id
                == self.workers[j].0
    }

    /// A worker is not listed.
    pub open spec fn unlisted(self, worker_id: WorkerId) -> bool {
        forall|j: int|
            0 <= j < self.workers.len() ==> (#[trigger] self.workers[j]).1.worker_id != worker_id
    }
}

/// A worker that is removed is no longer listed.
pub proof fn law_removed_worker_is_unlisted(
    before: SchedulerView,
    worker_id: WorkerId,
    after: SchedulerView,
    effects: SchedulerEffectsView,
)
    requires
        before.processed(SchedulerCoreInput::WorkerRemoved(worker_id), after, effects),
        before.listed_by_number(),
        increasing(before.workers),
    ensures
        after.unlisted(worker_id),
        after.listed_by_number(),
{
    let s = before.workers;
    assert forall|j: int| 0 <= j < after.workers.len() implies (#[trigger] after.workers[j]).1.worker_id
        != worker_id && after.workers[j].1.worker_id == after.workers[j].0 by {
        if has_key(s, worker_id) {
            let p = position(s, worker_id);
            assert(0 <= p < s.len() && s[p].0.id() == worker_id);
            let k = if j < p {
                j
            } else {
                j + 1
            };
            assert(after.workers[j] == s[k]);
            lemma_position_unique(s, k);
        } else {
            assert(after.workers[j] == s[j]);
            assert(s[j].0.id() != worker_id);
        }
    }
}

/// A worker that is not listed is granted nothing, and stays so until it is heard of again.
pub proof fn law_unlisted_worker_is_granted_nothing(
    before: SchedulerView,
    input: SchedulerCoreInput,
    after: SchedulerView,
    effects: SchedulerEffectsView,
    worker_id: WorkerId,
)
    requires
        before.processed(input, after, effects),
        before.unlisted(worker_id),
        increasing(before.workers),
        input matches SchedulerCoreInput::WorkerUpdate(_, candidate) ==> candidate.worker_id
            != worker_id,
    ensures
        after.unlisted(worker_id),
        forall|i: int|
            0 <= i < effects.decisions.len() && (#[trigger] effects.decisions[i]) is Grant
                ==> effects.decisions[i]->Grant_worker_id != worker_id,
{
    let s = before.workers;
    let other = |c: WorkerCandidate| c.worker_id != worker_id;
    match input {
        SchedulerCoreInput::WorkerUpdate(w, candidate) => {
            lemma_all_values(s, w, candidate, other);
            assert(all_values(after.workers, other));
            assert forall|j: int| 0 <= j < after.workers.len() implies (
            #[trigger] after.workers[j]).1.worker_id != worker_id by {
                assert(other(after.workers[j].1));
            }
        },
        SchedulerCoreInput::WorkerRemoved(w) => {
            assert forall|j: int| 0 <= j < after.workers.len() implies (
            #[trigger] after.workers[j]).1.worker_id != worker_id by {
                if has_key(s, w) {
                    let p = position(s, w);
                    assert(0 <= p < s.len() && s[p].0.id() == w);
                    assert(after.workers[j] == if j < p {
                        s[j]
                    } else {
                        s[j + 1]
                    });
                }
            }
        },
        _ => {},
    }
    assert forall|i: int|
        0 <= i < effects.decisions.len() && (#[trigger] effects.decisions[i]) is Grant implies
        effects.decisions[i]->Grant_worker_id != worker_id by {
        law_grants_are_suitable(before, input, after, effects, i);
    }
}

/// A request that was granted and is then dropped is revoked from the same worker.
pub proof fn law_drop_revokes_grant(
    before: SchedulerView,
    namespace_id: NamespaceId,
    pod_id: PodId,
    resume: Option<ArtifactId>,
    mid: SchedulerView,
    first: SchedulerEffectsView,
    after: SchedulerView,
    second: SchedulerEffectsView,
)
    requires
        before.processed(
            SchedulerCoreInput::RequestLease { namespace_id, pod_id, proto_resume_artifact: resume },
            mid,
            first,
        ),
        mid.processed(SchedulerCoreInput::DropRequest { namespace_id, pod_id }, after, second),
        before.choice(resume) is Some,
    ensures
        first.decisions.len() == 1,
        second.decisions == seq![
            SchedulerDecision::Revoke {
                namespace_id,
                pod_id,
                worker_id: first.decisions[0]->Grant_worker_id,
            },
        ],
        !after.granted.contains_key((namespace_id.id(), pod_id)),
{
}

impl SchedulerView {
    /// The tables and the lists hold the same.
    pub open spec fn tied(self) -> bool {
        &&& self.pending_by_pod == as_map(self.pending)
        &&& self.workers_by_id == as_map(self.workers)
        &&& self.refs_by_name == as_map(self.refs)
    }
}

/// A decision grants a request to the best worker for it.
pub open spec fn grants_request(
    decision: SchedulerDecision,
    key: (Seq<char>, PodId),
    resume: Option<ArtifactId>,
    workers: Seq<(WorkerId, WorkerCandidate)>,
    copies: Copies,
) -> bool {
    &&& decision matches SchedulerDecision::Grant { namespace_id, pod_id, worker_id }
    &&& (namespace_id.id(), pod_id) == key
    &&& pick(workers, resume, copies) matches Some(best)
    &&& worker_id == best.worker_id
}

/// Some decision grants a request to the best worker for it.
pub open spec fn granted_among(
    decisions: Seq<SchedulerDecision>,
    key: (Seq<char>, PodId),
    resume: Option<ArtifactId>,
    workers: Seq<(WorkerId, WorkerCandidate)>,
    copies: Copies,
) -> bool {
    exists|i: int|
        0 <= i < decisions.len() && grants_request(
            #[trigger] decisions[i],
            key,
            resume,
            workers,
            copies,
        )
}

/// The request that a decision is on.
pub open spec fn request_of(decision: SchedulerDecision) -> (Seq<char>, PodId) {
    match decision {
        SchedulerDecision::Grant { namespace_id, pod_id, .. } => (namespace_id.id(), pod_id),
        SchedulerDecision::Revoke { namespace_id, pod_id, .. } => (namespace_id.id(), pod_id),
    }
}

/// A decision grants some request of a list.
spec fn grants_one_of(
    decision: SchedulerDecision,
    pending: Seq<((NamespaceId, PodId), Option<ArtifactId>)>,
    workers: Seq<(WorkerId, WorkerCandidate)>,
    copies: Copies,
) -> bool {
    exists|j: int|
        0 <= j < pending.len() && grants_request(
            decision,
            (#[trigger] pending[j]).0.id(),
            pending[j].1,
            workers,
            copies,
        )
}

proof fn lemma_grants_listed(
    pending: Seq<((NamespaceId, PodId), Option<ArtifactId>)>,
    workers: Seq<(WorkerId, WorkerCandidate)>,
    copies: Copies,
)
    requires
        increasing(pending),
    ensures
        forall|i: int|
            0 <= i < grants(pending, workers, copies).len() ==> grants_one_of(
                #[trigger] grants(pending, workers, copies)[i],
                pending,
                workers,
                copies,
            ),
        forall|i: int, j: int|
            0 <= i < j < grants(pending, workers, copies).len() ==> request_of(
                #[trigger] grants(pending, workers, copies)[i],
            ) != request_of(#[trigger] grants(pending, workers, copies)[j]),
    decreases pending.len(),
{
    if pending.len() > 0 {
        let front = pending.drop_last();
        let rest = grants(front, workers, copies);
        let all = grants(pending, workers, copies);
        let last = pending.len() - 1;
        assert(increasing(front));
        lemma_grants_listed(front, workers, copies);
        assert forall|i: int| 0 <= i < all.len() implies grants_one_of(
            #[trigger] all[i],
            pending,
            workers,
            copies,
        ) by {
            if i < rest.len() {
                assert(grants_one_of(rest[i], front, workers, copies));
                let j = choose|j: int|
                    0 <= j < front.len() && grants_request(
                        rest[i],
                        (#[trigger] front[j]).0.id(),
                        front[j].1,
                        workers,
                        copies,
                    );
                assert(pending[j] == front[j]);
            } else {
                assert(grants_request(
                    all[i],
                    pending[last].0.id(),
                    pending[last].1,
                    workers,
                    copies,
                ));
            }
        }
        assert forall|i: int, j: int| 0 <= i < j < all.len() implies request_of(
            #[trigger] all[i],
        ) != request_of(#[trigger] all[j]) by {
            if j < rest.len() {
                assert(request_of(rest[i]) != request_of(rest[j]));
            } else {
                assert(grants_one_of(rest[i], front, workers, copies));
                let k = choose|k: int|
                    0 <= k < front.len() && grants_request(
                        rest[i],
                        (#[trigger] front[k]).0.id(),
                        front[k].1,
                        workers,
                        copies,
                    );
                assert(pending[k] == front[k]);
                lemma_position_unique(pending, k);
                lemma_position_unique(pending, last);
            }
        }
    }
}

proof fn lemma_grant_given(
    pending: Seq<((NamespaceId, PodId), Option<ArtifactId>)>,
    workers: Seq<(WorkerId, WorkerCandidate)>,
    copies: Copies,
    j: int,
)
    requires
        0 <= j < pending.len(),
        pick(workers, pending[j].1, copies) is Some,
    ensures
        granted_among(
            grants(pending, workers, copies),
            pending[j].0.id(),
            pending[j].1,
            workers,
            copies,
        ),
    decreases pending.len(),
{
    let front = pending.drop_last();
    let rest = grants(front, workers, copies);
    let all = grants(pending, workers, copies);
    if j < front.len() {
        lemma_grant_given(front, workers, copies, j);
        let i = choose|i: int|
            0 <= i < rest.len() && grants_request(
                #[trigger] rest[i],
                front[j].0.id(),
                front[j].1,
                workers,
                copies,
            );
        assert(all[i] == rest[i]);
    } else {
        assert(grants_request(
            all[rest.len() as int],
            pending[j].0.id(),
            pending[j].1,
            workers,
            copies,
        ));
    }
}

/// When a worker is heard of, every pending request that finds a worker now is granted, once and to
/// the best worker for it, and nothing else is. What is granted is pending no more, and the rest
/// stays pending.
pub proof fn law_update_grants_pending_once(
    before: SchedulerView,
    worker_id: WorkerId,
    candidate: WorkerCandidate,
    after: SchedulerView,
    effects: SchedulerEffectsView,
)
    requires
        before.processed(SchedulerCoreInput::WorkerUpdate(worker_id, candidate), after, effects),
        before.orderly(),
        before.tied(),
    ensures
        forall|i: int|
            0 <= i < effects.decisions.len() ==> {
                let k = request_of(#[trigger] effects.decisions[i]);
                &&& before.pending_by_pod.contains_key(k)
                &&& grants_request(
                    effects.decisions[i],
                    k,
                    before.pending_by_pod[k],
                    after.workers,
                    after.copies,
                )
                &&& !after.pending_by_pod.contains_key(k)
            },
        forall|i: int, j: int|
            0 <= i < j < effects.decisions.len() ==> request_of(#[trigger] effects.decisions[i])
                != request_of(#[trigger] effects.decisions[j]),
        forall|k: (Seq<char>, PodId)| #[trigger]
            before.pending_by_pod.contains_key(k) && after.choice(
                before.pending_by_pod[k],
            ) is Some ==> granted_among(
                effects.decisions,
                k,
                before.pending_by_pod[k],
                after.workers,
                after.copies,
            ),
        forall|k: (Seq<char>, PodId)| #[trigger]
            before.pending_by_pod.contains_key(k) && after.choice(
                before.pending_by_pod[k],
            ) is None ==> after.pending_by_pod.contains_key(k) && after.pending_by_pod[k]
                == before.pending_by_pod[k],
        forall|k: (Seq<char>, PodId)| #[trigger]
            after.pending_by_pod.contains_key(k) ==> before.pending_by_pod.contains_key(k),
{
    let workers = upsert(before.workers, worker_id, candidate);
    let s = before.pending;
    let all = grants(s, workers, before.copies);
    lemma_grants_listed(s, workers, before.copies);
    assert forall|i: int| 0 <= i < all.len() implies {
        let k = request_of(#[trigger] all[i]);
        &&& before.pending_by_pod.contains_key(k)
        &&& grants_request(all[i], k, before.pending_by_pod[k], workers, before.copies)
        &&& !after.pending_by_pod.contains_key(k)
    } by {
        assert(grants_one_of(all[i], s, workers, before.copies));
        let j = choose|j: int|
            0 <= j < s.len() && grants_request(
                all[i],
                (#[trigger] s[j]).0.id(),
                s[j].1,
                workers,
                before.copies,
            );
        lemma_position_unique(s, j);
    }
    assert forall|k: (Seq<char>, PodId)| #[trigger]
        before.pending_by_pod.contains_key(k) && after.choice(
            before.pending_by_pod[k],
        ) is Some implies granted_among(
        effects.decisions,
        k,
        before.pending_by_pod[k],
        after.workers,
        after.copies,
    ) by {
        assert(has_key(s, k));
        let j = position(s, k);
        assert(0 <= j < s.len() && s[j].0.id() == k);
        lemma_position_unique(s, j);
        lemma_grant_given(s, workers, before.copies, j);
    }
}

/// A request that is dropped before it was granted gives no revocation and is pending no more.
pub proof fn law_dropped_request_is_gone(
    before: SchedulerView,
    namespace_id: NamespaceId,
    pod_id: PodId,
    after: SchedulerView,
    effects: SchedulerEffectsView,
)
    requires
        before.processed(
            SchedulerCoreInput::DropRequest { namespace_id, pod_id },
            after,
            effects,
        ),
        !before.granted.contains_key((namespace_id.id(), pod_id)),
    ensures
        effects == SchedulerEffectsView::nothing(),
        !after.pending_by_pod.contains_key((namespace_id.id(), pod_id)),
{
}

/// What is not pending is granted nothing, and stays so until it is asked for again.
pub proof fn law_only_pending_is_granted(
    before: SchedulerView,
    input: SchedulerCoreInput,
    after: SchedulerView,
    effects: SchedulerEffectsView,
    key: (Seq<char>, PodId),
)
    requires
        before.processed(input, after, effects),
        before.orderly(),
        before.tied(),
        !before.pending_by_pod.contains_key(key),
        input matches SchedulerCoreInput::RequestLease { namespace_id, pod_id, .. } ==> (
            namespace_id.id(),
            pod_id,
        ) != key,
    ensures
        !after.pending_by_pod.contains_key(key),
        forall|i: int|
            0 <= i < effects.decisions.len() && (#[trigger] effects.decisions[i]) is Grant
                ==> request_of(effects.decisions[i]) != key,
{
    if let SchedulerCoreInput::WorkerUpdate(worker_id, candidate) = input {
        law_update_grants_pending_once(before, worker_id, candidate, after, effects);
    }
}

} // verus!
