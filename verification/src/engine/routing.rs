//! Carries what the scheduler decides to the workers' tallies and to the namespaces.
//!
//! A grant changes the number of pods of a worker, the scheduler hears of that, and may grant more.
//! What is still to be done is kept in order: what one thing leads to comes before the rest.
use vstd::prelude::*;

use crate::agenda::{converted, Agenda};
use crate::engine::placement_table::Copies;
use crate::engine::protocol::{CommandView, WorkerCommand};
use crate::engine::scheduler::{
    grants, held, law_removed_worker_is_unlisted, lost, unplaced, SchedulerCore, SchedulerView,
};
use crate::engine::types::{
    ClusterOutView, DeleteArtifactCommand, OrchestratorOutput, OrchestratorToNamespace,
    SchedulerCoreInput, SchedulerDecision, SchedulerEffects, SchedulerEffectsView, WorkerCandidate,
};
use crate::engine::worker_state::{
    lemma_room_stays, room_for, TrackedView, WorkerStateCore, WorkerStateCoreEvent,
    WorkerStateView,
};
use crate::ids::{ArtifactId, NamespaceId};
use crate::sm::{ArtifactPortId, PodId, WorkerId};
use crate::sorted_map::{
    all_values, erase, filtered, has_key, increasing, lemma_all_values, lemma_filtered,
    lemma_position_unique, lemma_rank_exists, lemma_stays_increasing, position, rank, upsert, Key,
    SortedMap,
};

verus! {

/// Something that is still to be done.
pub enum Work {
    /// The scheduler is to take an input.
    Input(SchedulerCoreInput),
    /// A decision is to be counted, and then told.
    Decide(SchedulerDecision),
    /// A decision is to be told to its namespace.
    Tell(SchedulerDecision),
    /// All namespaces are to be told that a snapshot is lost.
    Invalidate(u64),
    /// A snapshot is to be deleted.
    Delete(DeleteArtifactCommand),
}

/// The scheduler, the workers, and what has been given out.
#[verifier::ext_equal]
pub struct Routing {
    pub sched: SchedulerView,
    pub ws: WorkerStateView,
    pub out: ClusterOutView,
}

/// The namespace that a decision is for.
pub open spec fn namespace_of(decision: SchedulerDecision) -> NamespaceId {
    match decision {
        SchedulerDecision::Grant { namespace_id, .. } => namespace_id,
        SchedulerDecision::Revoke { namespace_id, .. } => namespace_id,
    }
}

/// How a decision changes the number of pods of its worker.
pub open spec fn tally(decision: SchedulerDecision) -> WorkerStateCoreEvent {
    match decision {
        SchedulerDecision::Grant { worker_id, .. } => WorkerStateCoreEvent::PodCountChange {
            worker_id,
            delta: 1,
        },
        SchedulerDecision::Revoke { worker_id, .. } => WorkerStateCoreEvent::PodCountChange {
            worker_id,
            delta: -1i32,
        },
    }
}

/// What the effects of the scheduler leave to do: decisions, then losses, then deletions.
pub open spec fn follow_up(effects: SchedulerEffectsView) -> Seq<Work> {
    effects.decisions.map_values(|d: SchedulerDecision| Work::Decide(d))
        + effects.artifact_invalidations.map_values(|n: u64| Work::Invalidate(n))
        + effects.delete_commands.map_values(|c: DeleteArtifactCommand| Work::Delete(c))
}

/// Inputs for the scheduler that are still to be taken.
pub open spec fn inputs(updates: Seq<SchedulerCoreInput>) -> Seq<Work> {
    updates.map_values(|u: SchedulerCoreInput| Work::Input(u))
}

/// What each namespace is told when a snapshot is lost.
pub open spec fn loss_told(namespaces: Seq<(NamespaceId, ())>, port: u64) -> Seq<
    (NamespaceId, OrchestratorToNamespace),
> {
    namespaces.map_values(
        |n: (NamespaceId, ())|
            (
                n.0,
                OrchestratorToNamespace::ArtifactInvalidated {
                    artifact_port_id: ArtifactPortId(port),
                },
            ),
    )
}

/// What doing one thing leads to, and what it leaves to do.
pub open spec fn done(r: Routing, namespaces: Seq<(NamespaceId, ())>, work: Work) -> (
    Routing,
    Seq<Work>,
) {
    match work {
        Work::Input(input) => {
            let (sched, effects) = r.sched.next(input);
            (Routing { sched, ..r }, follow_up(effects))
        },
        Work::Decide(decision) => {
            let (ws, effects) = r.ws.next(tally(decision));
            (
                Routing { ws, ..r },
                inputs(effects.scheduler_updates).push(Work::Tell(decision)),
            )
        },
        Work::Tell(decision) => (
            Routing {
                out: r.out.told(
                    namespace_of(decision),
                    OrchestratorToNamespace::SchedulerDecision(decision),
                ),
                ..r
            },
            seq![],
        ),
        Work::Invalidate(port) => (
            Routing {
                out: ClusterOutView {
                    to_namespaces: r.out.to_namespaces + loss_told(namespaces, port),
                    ..r.out
                },
                ..r
            },
            seq![],
        ),
        Work::Delete(c) => (
            Routing {
                out: r.out.commanded(
                    c.worker_id,
                    CommandView::DeleteArtifact { artifact_id: c.artifact_id.0@, pool_id: c.pool_id },
                ),
                ..r
            },
            seq![],
        ),
    }
}

/// How much a thing can lead to.
pub open spec fn weight(work: Work) -> nat {
    match work {
        Work::Input(SchedulerCoreInput::WorkerUpdate(_, _)) => 2,
        Work::Input(_) => 10,
        Work::Decide(_) => 4,
        _ => 1,
    }
}

/// How much some things can lead to.
pub open spec fn weights(work: Seq<Work>) -> nat
    decreases work.len(),
{
    if work.len() == 0 {
        0
    } else {
        weights(work.drop_last()) + weight(work.last())
    }
}

/// A bound on what is left to do.
pub open spec fn left(r: Routing, work: Seq<Work>) -> nat {
    weights(work) + 4 * r.sched.pending.len() + r.sched.refs.len()
}

/// What doing everything leads to, in order.
pub open spec fn run(r: Routing, namespaces: Seq<(NamespaceId, ())>, work: Seq<Work>) -> Routing
    decreases left(r, work),
        when r.sched.orderly()
{
    if work.len() == 0 {
        r
    } else {
        proof {
            lemma_less_left(r, namespaces, work);
        }
        let (after, more) = done(r, namespaces, work[0]);
        run(after, namespaces, more + work.drop_first())
    }
}

proof fn lemma_weights_join(a: Seq<Work>, b: Seq<Work>)
    ensures
        weights(a + b) == weights(a) + weights(b),
    decreases b.len(),
{
    if b.len() == 0 {
        assert(a + b =~= a);
    } else {
        assert((a + b).drop_last() =~= a + b.drop_last());
        lemma_weights_join(a, b.drop_last());
    }
}

proof fn lemma_weights_alike(work: Seq<Work>, each: nat)
    requires
        forall|i: int| 0 <= i < work.len() ==> weight(#[trigger] work[i]) == each,
    ensures
        weights(work) == work.len() * each,
    decreases work.len(),
{
    if work.len() > 0 {
        assert forall|i: int| 0 <= i < work.drop_last().len() implies weight(
            #[trigger] work.drop_last()[i],
        ) == each by {
            assert(work.drop_last()[i] == work[i]);
        }
        lemma_weights_alike(work.drop_last(), each);
        assert(weight(work[work.len() - 1]) == each);
        assert(work.len() * each == (work.len() - 1) * each + each) by (nonlinear_arith)
            requires
                work.len() > 0,
        ;
    }
}

proof fn lemma_follow_up_weight(effects: SchedulerEffectsView)
    ensures
        weights(follow_up(effects)) == 4 * effects.decisions.len()
            + effects.artifact_invalidations.len() + effects.delete_commands.len(),
{
    let a = effects.decisions.map_values(|d: SchedulerDecision| Work::Decide(d));
    let b = effects.artifact_invalidations.map_values(|n: u64| Work::Invalidate(n));
    let c = effects.delete_commands.map_values(|c: DeleteArtifactCommand| Work::Delete(c));
    lemma_weights_join(a + b, c);
    lemma_weights_join(a, b);
    lemma_weights_alike(a, 4);
    lemma_weights_alike(b, 1);
    lemma_weights_alike(c, 1);
}

/// Each pending request is granted or stays pending.
proof fn lemma_grants_count(
    pending: Seq<((NamespaceId, PodId), Option<ArtifactId>)>,
    workers: Seq<(WorkerId, WorkerCandidate)>,
    copies: Copies,
)
    ensures
        grants(pending, workers, copies).len() + filtered(
            pending,
            unplaced(workers, copies),
        ).len() == pending.len(),
    decreases pending.len(),
{
    if pending.len() > 0 {
        lemma_grants_count(pending.drop_last(), workers, copies);
    }
}

/// Each snapshot that is lost is given up.
proof fn lemma_lost_count(refs: Seq<(ArtifactId, NamespaceId)>, copies: Copies)
    ensures
        lost(refs, copies).len() + filtered(refs, held(copies)).len() <= refs.len(),
    decreases refs.len(),
{
    if refs.len() > 0 {
        lemma_lost_count(refs.drop_last(), copies);
    }
}

proof fn lemma_upsert_len<K: Key, V>(s: Seq<(K, V)>, k: K, v: V)
    requires
        increasing(s),
    ensures
        upsert(s, k, v).len() <= s.len() + 1,
        erase(s, k.id()).len() <= s.len(),
{
    if !has_key(s, k.id()) {
        lemma_rank_exists(s, k.id());
    }
}

pub proof fn lemma_less_left(r: Routing, namespaces: Seq<(NamespaceId, ())>, work: Seq<Work>)
    requires
        work.len() > 0,
        r.sched.orderly(),
    ensures
        ({
            let (after, more) = done(r, namespaces, work[0]);
            left(after, more + work.drop_first()) < left(r, work)
        }),
{
    let (after, more) = done(r, namespaces, work[0]);
    let rest = work.drop_first();
    lemma_weights_join(more, rest);
    assert(seq![work[0]] + rest =~= work);
    lemma_weights_join(seq![work[0]], rest);
    assert(seq![work[0]].drop_last() =~= seq![]);
    reveal_with_fuel(weights, 2);
    assert(weights(seq![work[0]]) == weight(work[0]));
    match work[0] {
        Work::Input(input) => {
            let effects = r.sched.next(input).1;
            lemma_follow_up_weight(effects);
            match input {
                SchedulerCoreInput::WorkerUpdate(worker_id, candidate) => {
                    lemma_grants_count(
                        r.sched.pending,
                        upsert(r.sched.workers, worker_id, candidate),
                        r.sched.copies,
                    );
                },
                SchedulerCoreInput::WorkerRemoved(worker_id) => {
                    lemma_lost_count(r.sched.refs, after.sched.copies);
                },
                SchedulerCoreInput::RequestLease { namespace_id, pod_id, proto_resume_artifact } => {
                    lemma_upsert_len(
                        r.sched.pending,
                        (namespace_id, pod_id),
                        proto_resume_artifact,
                    );
                },
                SchedulerCoreInput::DropRequest { namespace_id, pod_id } => {
                    lemma_upsert_len(r.sched.pending, (namespace_id, pod_id), None);
                },
                SchedulerCoreInput::ArtifactReferenced { proto_artifact_id, namespace_id } => {
                    lemma_upsert_len(r.sched.refs, proto_artifact_id, namespace_id);
                },
                SchedulerCoreInput::ArtifactReleased { proto_artifact_id, namespace_id } => {
                    lemma_upsert_len(r.sched.refs, proto_artifact_id, namespace_id);
                },
                SchedulerCoreInput::ArtifactEvent { .. } => {},
            }
        },
        Work::Decide(decision) => {
            let updates = r.ws.next(tally(decision)).1.scheduler_updates;
            assert(more.drop_last() =~= inputs(updates));
            if updates.len() == 1 {
                assert(inputs(updates).drop_last() =~= seq![]);
            } else {
                assert(inputs(updates) =~= seq![]);
            }
        },
        _ => {},
    }
}

/// How many pods a thing can add to a worker.
pub open spec fn burden(work: Work) -> nat {
    match work {
        Work::Input(SchedulerCoreInput::RequestLease { .. }) => 1,
        Work::Decide(SchedulerDecision::Grant { .. }) => 1,
        _ => 0,
    }
}

/// How many pods some things can add to a worker.
pub open spec fn burdens(work: Seq<Work>) -> nat
    decreases work.len(),
{
    if work.len() == 0 {
        0
    } else {
        burdens(work.drop_last()) + burden(work.last())
    }
}

/// All the pods that may come can be counted, wherever they go.
pub open spec fn room(r: Routing, work: Seq<Work>) -> bool {
    room_for(r.ws.workers, r.sched.pending.len() + burdens(work))
}

proof fn lemma_burdens_join(a: Seq<Work>, b: Seq<Work>)
    ensures
        burdens(a + b) == burdens(a) + burdens(b),
    decreases b.len(),
{
    if b.len() == 0 {
        assert(a + b =~= a);
    } else {
        assert((a + b).drop_last() =~= a + b.drop_last());
        lemma_burdens_join(a, b.drop_last());
    }
}

proof fn lemma_burdens_bound(work: Seq<Work>, each: nat)
    requires
        forall|i: int| 0 <= i < work.len() ==> burden(#[trigger] work[i]) <= each,
        each <= 1,
    ensures
        burdens(work) <= (if each == 0 {
            0
        } else {
            work.len()
        }),
    decreases work.len(),
{
    if work.len() > 0 {
        assert forall|i: int| 0 <= i < work.drop_last().len() implies burden(
            #[trigger] work.drop_last()[i],
        ) <= each by {
            assert(work.drop_last()[i] == work[i]);
        }
        lemma_burdens_bound(work.drop_last(), each);
        assert(burden(work[work.len() - 1]) <= each);
    }
}

proof fn lemma_follow_up_burden(effects: SchedulerEffectsView)
    ensures
        burdens(follow_up(effects)) <= effects.decisions.len(),
        effects.decisions.len() == 1 && effects.decisions[0] is Revoke ==> burdens(
            follow_up(effects),
        ) == 0,
{
    let a = effects.decisions.map_values(|d: SchedulerDecision| Work::Decide(d));
    let b = effects.artifact_invalidations.map_values(|n: u64| Work::Invalidate(n));
    let c = effects.delete_commands.map_values(|c: DeleteArtifactCommand| Work::Delete(c));
    lemma_burdens_join(a + b, c);
    lemma_burdens_join(a, b);
    lemma_burdens_bound(a, 1);
    lemma_burdens_bound(b, 0);
    lemma_burdens_bound(c, 0);
    if effects.decisions.len() == 1 && effects.decisions[0] is Revoke {
        lemma_burdens_bound(a, 0);
    }
}

/// Updates of workers add no pods.
proof fn lemma_inputs_burden(updates: Seq<SchedulerCoreInput>)
    requires
        forall|i: int| 0 <= i < updates.len() ==> !((#[trigger] updates[i]) is RequestLease),
    ensures
        burdens(inputs(updates)) == 0,
{
    assert forall|i: int| 0 <= i < inputs(updates).len() implies burden(
        #[trigger] inputs(updates)[i],
    ) <= 0 by {
        assert(inputs(updates)[i] == Work::Input(updates[i]));
    }
    lemma_burdens_bound(inputs(updates), 0);
}

/// What is counted can be counted, and there is still room afterwards.
proof fn lemma_room_kept(r: Routing, namespaces: Seq<(NamespaceId, ())>, work: Seq<Work>)
    requires
        work.len() > 0,
        r.sched.orderly(),
        increasing(r.ws.workers),
        room(r, work),
    ensures
        ({
            let (after, more) = done(r, namespaces, work[0]);
            room(after, more + work.drop_first())
        }),
        work[0] matches Work::Decide(decision) ==> r.ws.can_take(tally(decision)),
{
    let (after, more) = done(r, namespaces, work[0]);
    let rest = work.drop_first();
    lemma_burdens_join(more, rest);
    assert(seq![work[0]] + rest =~= work);
    lemma_burdens_join(seq![work[0]], rest);
    assert(seq![work[0]].drop_last() =~= seq![]);
    reveal_with_fuel(burdens, 2);
    assert(burdens(seq![work[0]]) == burden(work[0]));
    let had = r.sched.pending.len() + burdens(work);
    match work[0] {
        Work::Input(input) => {
            let effects = r.sched.next(input).1;
            lemma_follow_up_burden(effects);
            match input {
                SchedulerCoreInput::WorkerUpdate(worker_id, candidate) => {
                    lemma_grants_count(
                        r.sched.pending,
                        upsert(r.sched.workers, worker_id, candidate),
                        r.sched.copies,
                    );
                },
                SchedulerCoreInput::RequestLease { namespace_id, pod_id, proto_resume_artifact } => {
                    lemma_upsert_len(
                        r.sched.pending,
                        (namespace_id, pod_id),
                        proto_resume_artifact,
                    );
                },
                SchedulerCoreInput::DropRequest { namespace_id, pod_id } => {
                    lemma_upsert_len(r.sched.pending, (namespace_id, pod_id), None);
                },
                _ => {},
            }
            assert(after.sched.pending.len() + burdens(more + rest) <= had);
        },
        Work::Decide(decision) => {
            let event = tally(decision);
            let updates = r.ws.next(event).1.scheduler_updates;
            lemma_inputs_burden(updates);
            assert(more.drop_last() =~= inputs(updates));
            assert(burdens(more) == 0);
            let worker_id = event->PodCountChange_worker_id;
            if r.ws.has(worker_id) {
                let p = |t: TrackedView| t.pod_count + had <= i32::MAX;
                assert(all_values(r.ws.workers, p));
                lemma_all_values(r.ws.workers, worker_id, r.ws.get(worker_id), p);
            }
            lemma_room_stays(r.ws, event, r.sched.pending.len() + burdens(more + rest));
        },
        _ => {},
    }
}

/// What comes of an event at the workers, with all that it leads to.
pub open spec fn taken(
    r: Routing,
    namespaces: Seq<(NamespaceId, ())>,
    event: WorkerStateCoreEvent,
) -> Routing {
    let (ws, effects) = r.ws.next(event);
    let after = run(Routing { ws, ..r }, namespaces, inputs(effects.scheduler_updates));
    Routing { out: after.out.announced(effects.worker_registry_broadcast), ..after }
}

/// Whether an event at the workers can be taken in: the pods can be counted.
pub open spec fn fits(r: Routing, event: WorkerStateCoreEvent) -> bool {
    r.ws.can_take(event) && room_for(r.ws.next(event).0.workers, r.sched.pending.len())
}

/// Does everything, in order.
pub fn route(
    scheduler: &mut SchedulerCore,
    worker_state: &mut WorkerStateCore,
    namespaces: &SortedMap<NamespaceId, ()>,
    work: Vec<Work>,
    output: &mut OrchestratorOutput,
)
    requires
        room(
            Routing { sched: old(scheduler)@, ws: old(worker_state)@, out: old(output)@ },
            work@,
        ),
    ensures
        (Routing { sched: final(scheduler)@, ws: final(worker_state)@, out: final(output)@ }) == run(
            Routing { sched: old(scheduler)@, ws: old(worker_state)@, out: old(output)@ },
            namespaces.seq(),
            work@,
        ),
        room(
            Routing { sched: final(scheduler)@, ws: final(worker_state)@, out: final(output)@ },
            seq![],
        ),
{
    let ghost start = Routing { sched: scheduler@, ws: worker_state@, out: output@ };
    let ghost names = namespaces.seq();
    let ghost all = work@;
    let mut agenda: Agenda<Work> = Agenda::new();
    agenda.first(work);
    assert(agenda@ =~= all);
    proof {
        use_type_invariant(&scheduler.pending);
        use_type_invariant(&scheduler.workers);
        use_type_invariant(&scheduler.artifact_refs);
        scheduler.lemma_orderly();
    }
    let mut going: bool = true;
    while going
        invariant
            names == namespaces.seq(),
            scheduler@.orderly(),
            room(Routing { sched: scheduler@, ws: worker_state@, out: output@ }, agenda@),
            run(Routing { sched: scheduler@, ws: worker_state@, out: output@ }, names, agenda@)
                == run(start, names, all),
            !going ==> agenda@.len() == 0,
        decreases
                left(Routing { sched: scheduler@, ws: worker_state@, out: output@ }, agenda@),
                (if going { 1int } else { 0int }),
    {
        let ghost r = Routing { sched: scheduler@, ws: worker_state@, out: output@ };
        let ghost todo = agenda@;
        proof {
            use_type_invariant(&worker_state.workers);
            worker_state.lemma_in_order();
        }
        match agenda.next() {
            None => {
                going = false;
            },
            Some(item) => {
                proof {
                    lemma_less_left(r, names, todo);
                    lemma_room_kept(r, names, todo);
                }
                let mut more: Vec<Work> = Vec::new();
                match item {
                    Work::Input(input) => {
                        let effects: SchedulerEffects = scheduler.process(input);
                        more = follow(effects);
                    },
                    Work::Decide(decision) => {
                        let (worker_id, delta) = match &decision {
                            SchedulerDecision::Grant { worker_id, .. } => (*worker_id, 1i32),
                            SchedulerDecision::Revoke { worker_id, .. } => (*worker_id, -1i32),
                        };
                        let effects = worker_state.process(
                            WorkerStateCoreEvent::PodCountChange { worker_id, delta },
                        );
                        more = as_work(effects.scheduler_updates);
                        more.push(Work::Tell(decision));
                    },
                    Work::Tell(decision) => {
                        let namespace_id: NamespaceId = match &decision {
                            SchedulerDecision::Grant { namespace_id, .. } => namespace_id.clone(),
                            SchedulerDecision::Revoke { namespace_id, .. } => namespace_id.clone(),
                        };
                        output.tell(
                            namespace_id,
                            OrchestratorToNamespace::SchedulerDecision(decision),
                        );
                    },
                    Work::Invalidate(port) => {
                        tell_loss(namespaces, port, output);
                    },
                    Work::Delete(c) => {
                        output.command(
                            c.worker_id,
                            WorkerCommand::DeleteArtifact {
                                artifact_id: c.artifact_id,
                                pool_id: c.pool_id,
                            },
                        );
                    },
                }
                assert((
                    Routing { sched: scheduler@, ws: worker_state@, out: output@ },
                    more@,
                ) == done(r, names, todo[0]));
                agenda.first(more);
            },
        }
    }
    assert(agenda@ =~= seq![]);
}

/// What the effects of the scheduler leave to do.
fn follow(effects: SchedulerEffects) -> (r: Vec<Work>)
    ensures
        r@ == follow_up(effects@),
{
    let ghost e = effects@;
    let decide = |d: SchedulerDecision| -> (r: Work)
        ensures
            r == Work::Decide(d),
        {
            Work::Decide(d)
        };
    let invalidate = |n: u64| -> (r: Work)
        ensures
            r == Work::Invalidate(n),
        {
            Work::Invalidate(n)
        };
    let delete = |c: DeleteArtifactCommand| -> (r: Work)
        ensures
            r == Work::Delete(c),
        {
            Work::Delete(c)
        };
    let mut out: Vec<Work> = converted(
        effects.decisions,
        decide,
        Ghost(|d: SchedulerDecision| Work::Decide(d)),
    );
    let mut lost: Vec<Work> = converted(
        effects.artifact_invalidations,
        invalidate,
        Ghost(|n: u64| Work::Invalidate(n)),
    );
    let mut deletions: Vec<Work> = converted(
        effects.delete_commands,
        delete,
        Ghost(|c: DeleteArtifactCommand| Work::Delete(c)),
    );
    out.append(&mut lost);
    out.append(&mut deletions);
    assert(out@ =~= follow_up(e));
    out
}

/// Inputs for the scheduler that are still to be taken.
fn as_work(updates: Vec<SchedulerCoreInput>) -> (r: Vec<Work>)
    ensures
        r@ == inputs(updates@),
{
    let make = |u: SchedulerCoreInput| -> (r: Work)
        ensures
            r == Work::Input(u),
        {
            Work::Input(u)
        };
    let ghost all = updates@;
    let r = converted(updates, make, Ghost(|u: SchedulerCoreInput| Work::Input(u)));
    assert(r@ =~= inputs(all));
    r
}

/// Tells all namespaces that a snapshot is lost.
fn tell_loss(namespaces: &SortedMap<NamespaceId, ()>, port: u64, output: &mut OrchestratorOutput)
    ensures
        final(output)@ == (ClusterOutView {
            to_namespaces: old(output)@.to_namespaces + loss_told(namespaces.seq(), port),
            ..old(output)@
        }),
{
    let ghost s = namespaces.seq();
    let ghost before = output@;
    let n: usize = namespaces.len();
    let mut i: usize = 0;
    assert(before.to_namespaces + loss_told(s, port).take(0) =~= before.to_namespaces);
    while i < n
        invariant
            i <= n,
            n == s.len(),
            s == namespaces.seq(),
            output@ == (ClusterOutView {
                to_namespaces: before.to_namespaces + loss_told(s, port).take(i as int),
                ..before
            }),
        decreases n - i,
    {
        output.tell(
            namespaces.key_at(i).clone(),
            OrchestratorToNamespace::ArtifactInvalidated { artifact_port_id: ArtifactPortId(port) },
        );
        i = i + 1;
        assert(before.to_namespaces + loss_told(s, port).take(i as int) =~= (before.to_namespaces
            + loss_told(s, port).take(i - 1)).push(loss_told(s, port)[i - 1]));
    }
    assert(loss_told(s, port).take(i as int) =~= loss_told(s, port));
}

/// Takes in an event at the workers, with all that it leads to.
pub fn take_event(
    scheduler: &mut SchedulerCore,
    worker_state: &mut WorkerStateCore,
    namespaces: &SortedMap<NamespaceId, ()>,
    event: WorkerStateCoreEvent,
    output: &mut OrchestratorOutput,
)
    requires
        old(worker_state)@.countable(),
        fits(
            Routing { sched: old(scheduler)@, ws: old(worker_state)@, out: old(output)@ },
            event,
        ),
    ensures
        (Routing { sched: final(scheduler)@, ws: final(worker_state)@, out: final(output)@ })
            == taken(
            Routing { sched: old(scheduler)@, ws: old(worker_state)@, out: old(output)@ },
            namespaces.seq(),
            event,
        ),
        room(
            Routing { sched: final(scheduler)@, ws: final(worker_state)@, out: final(output)@ },
            seq![],
        ),
{
    let effects = worker_state.process(event);
    proof {
        lemma_inputs_burden(effects.scheduler_updates@);
    }
    let work: Vec<Work> = as_work(effects.scheduler_updates);
    route(scheduler, worker_state, namespaces, work, output);
    output.announce(effects.worker_registry_broadcast);
}

pub(crate) proof fn lemma_stays_orderly(sched: SchedulerView, input: SchedulerCoreInput)
    requires
        sched.orderly(),
    ensures
        sched.next(input).0.orderly(),
{
    match input {
        SchedulerCoreInput::RequestLease { namespace_id, pod_id, proto_resume_artifact } => {
            lemma_stays_increasing(sched.pending, (namespace_id, pod_id), proto_resume_artifact);
        },
        SchedulerCoreInput::DropRequest { namespace_id, pod_id } => {
            lemma_stays_increasing(sched.pending, (namespace_id, pod_id), None);
        },
        SchedulerCoreInput::WorkerUpdate(worker_id, candidate) => {
            lemma_stays_increasing(sched.workers, worker_id, candidate);
            lemma_filtered(
                sched.pending,
                unplaced(upsert(sched.workers, worker_id, candidate), sched.copies),
            );
        },
        SchedulerCoreInput::WorkerRemoved(worker_id) => {
            lemma_stays_increasing(sched.workers, worker_id, sched.workers_by_id[worker_id]);
            lemma_filtered(sched.refs, held(sched.next(input).0.copies));
        },
        SchedulerCoreInput::ArtifactReferenced { proto_artifact_id, namespace_id } => {
            lemma_stays_increasing(sched.refs, proto_artifact_id, namespace_id);
        },
        SchedulerCoreInput::ArtifactReleased { proto_artifact_id, namespace_id } => {
            lemma_stays_increasing(sched.refs, proto_artifact_id, namespace_id);
        },
        SchedulerCoreInput::ArtifactEvent { .. } => {},
    }
}

/// What has been given out is not taken back.
pub open spec fn extends(after: ClusterOutView, before: ClusterOutView) -> bool {
    &&& before.to_namespaces.is_prefix_of(after.to_namespaces)
    &&& before.worker_commands.is_prefix_of(after.worker_commands)
    &&& after.direct_worker_commands == before.direct_worker_commands
    &&& after.global_broadcasts == before.global_broadcasts
}

/// Whatever is done, what was given out before stays, and only messages to namespaces and commands to
/// single workers are added.
pub proof fn law_outputs_only_grow(
    r: Routing,
    namespaces: Seq<(NamespaceId, ())>,
    work: Seq<Work>,
)
    requires
        r.sched.orderly(),
    ensures
        extends(run(r, namespaces, work).out, r.out),
    decreases left(r, work),
{
    if work.len() > 0 {
        lemma_less_left(r, namespaces, work);
        let (after, more) = done(r, namespaces, work[0]);
        if let Work::Input(input) = work[0] {
            lemma_stays_orderly(r.sched, input);
        }
        law_outputs_only_grow(after, namespaces, more + work.drop_first());
        assert(extends(after.out, r.out));
    }
}

/// A worker that the scheduler is to hear of comes under its own number.
pub open spec fn by_number(work: Work) -> bool {
    work matches Work::Input(SchedulerCoreInput::WorkerUpdate(worker_id, candidate)) ==> candidate.worker_id
        == worker_id
}

proof fn lemma_input_keeps_numbers(sched: SchedulerView, input: SchedulerCoreInput)
    requires
        sched.orderly(),
        sched.listed_by_number(),
        by_number(Work::Input(input)),
    ensures
        sched.next(input).0.listed_by_number(),
{
    let s = sched.workers;
    let t = sched.next(input).0.workers;
    assert forall|j: int| 0 <= j < t.len() implies (#[trigger] t[j]).1.worker_id == t[j].0 by {
        match input {
            SchedulerCoreInput::WorkerUpdate(w, candidate) => {
                if has_key(s, w) {
                    let p = position(s, w);
                    assert(0 <= p < s.len() && s[p].0.id() == w);
                    if j != p {
                        assert(t[j] == s[j]);
                    }
                } else {
                    lemma_rank_exists(s, w);
                    let p = rank(s, w);
                    if j < p {
                        assert(t[j] == s[j]);
                    } else if j > p {
                        assert(t[j] == s[j - 1]);
                    }
                }
            },
            SchedulerCoreInput::WorkerRemoved(w) => {
                if has_key(s, w) {
                    let p = position(s, w);
                    assert(0 <= p < s.len() && s[p].0.id() == w);
                    assert(t[j] == if j < p {
                        s[j]
                    } else {
                        s[j + 1]
                    });
                }
            },
            _ => {},
        }
    }
}

/// Whatever is done, the scheduler lists every worker under its own number.
pub proof fn law_workers_stay_listed_by_number(
    r: Routing,
    namespaces: Seq<(NamespaceId, ())>,
    work: Seq<Work>,
)
    requires
        r.sched.orderly(),
        r.sched.listed_by_number(),
        forall|i: int| 0 <= i < work.len() ==> by_number(#[trigger] work[i]),
    ensures
        run(r, namespaces, work).sched.listed_by_number(),
        run(r, namespaces, work).sched.orderly(),
    decreases left(r, work),
{
    if work.len() > 0 {
        lemma_less_left(r, namespaces, work);
        let (after, more) = done(r, namespaces, work[0]);
        assert(by_number(work[0]));
        if let Work::Input(input) = work[0] {
            lemma_stays_orderly(r.sched, input);
            lemma_input_keeps_numbers(r.sched, input);
        }
        let todo = more + work.drop_first();
        assert forall|i: int| 0 <= i < todo.len() implies by_number(#[trigger] todo[i]) by {
            if i < more.len() {
                assert(todo[i] == more[i]);
            } else {
                assert(todo[i] == work[i - more.len() + 1]);
            }
        }
        law_workers_stay_listed_by_number(after, namespaces, todo);
    }
}

/// That snapshots are lost changes neither the scheduler nor what is known of the workers.
proof fn lemma_losses_only_told(r: Routing, namespaces: Seq<(NamespaceId, ())>, work: Seq<Work>)
    requires
        r.sched.orderly(),
        forall|i: int| 0 <= i < work.len() ==> (#[trigger] work[i]) is Invalidate,
    ensures
        run(r, namespaces, work).sched == r.sched,
        run(r, namespaces, work).ws == r.ws,
    decreases work.len(),
{
    if work.len() > 0 {
        lemma_less_left(r, namespaces, work);
        let (after, more) = done(r, namespaces, work[0]);
        let todo = more + work.drop_first();
        assert(todo =~= work.drop_first());
        lemma_losses_only_told(after, namespaces, todo);
    }
}

/// When a worker is gone the scheduler does not list it, and nothing is known of it any more.
pub proof fn law_gone_worker_is_unlisted(
    r: Routing,
    namespaces: Seq<(NamespaceId, ())>,
    worker_id: WorkerId,
)
    requires
        r.sched.orderly(),
        r.sched.listed_by_number(),
        increasing(r.ws.workers),
    ensures
        ({
            let after = taken(r, namespaces, WorkerStateCoreEvent::Disconnected { worker_id });
            &&& after.sched.unlisted(worker_id)
            &&& after.sched.listed_by_number()
            &&& after.sched.orderly()
            &&& !after.ws.has(worker_id)
        }),
{
    let event = WorkerStateCoreEvent::Disconnected { worker_id };
    let (ws, effects) = r.ws.next(event);
    let input = SchedulerCoreInput::WorkerRemoved(worker_id);
    let start = Routing { ws, ..r };
    let work = inputs(effects.scheduler_updates);
    assert(work =~= seq![Work::Input(input)]);
    lemma_less_left(start, namespaces, work);
    let (after, more) = done(start, namespaces, work[0]);
    lemma_stays_orderly(r.sched, input);
    let todo = more + work.drop_first();
    assert(todo =~= more);
    law_removed_worker_is_unlisted(r.sched, worker_id, after.sched, r.sched.next(input).1);
    assert forall|i: int| 0 <= i < todo.len() implies (#[trigger] todo[i]) is Invalidate by {
        assert(todo[i] == more[i]);
    }
    lemma_losses_only_told(after, namespaces, todo);
    lemma_erased(r.ws.workers, worker_id);
}

proof fn lemma_erased<K: Key, V>(s: Seq<(K, V)>, k: K::Id)
    requires
        increasing(s),
    ensures
        !has_key(erase(s, k), k),
{
    if has_key(s, k) {
        let p = position(s, k);
        assert(0 <= p < s.len() && s[p].0.id() == k);
        let t = erase(s, k);
        assert forall|i: int| 0 <= i < t.len() implies (#[trigger] t[i]).0.id() != k by {
            let j = if i < p {
                i
            } else {
                i + 1
            };
            assert(t[i] == s[j]);
            lemma_position_unique(s, j);
        }
    }
}

} // verus!
