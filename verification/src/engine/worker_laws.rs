//! What is known of the workers, and what the scheduler and the other workers learn of it.
use vstd::prelude::*;

use crate::engine::protocol::PeerView;
use crate::engine::types::{SchedulerCoreInput, WorkerCandidate};
use crate::engine::worker_state::{
    first_tunnel, first_wireguard, query_of, registry, BandSteps, TrackedView, WorkerCapabilities,
    WorkerStateCoreEvent, WorkerStateEffectsView, WorkerStateView,
};
use crate::ids::NamespaceId;
use crate::namespace::command_laws::lemma_contains_pushed;
use crate::sm::WorkerId;
use crate::sorted_map::{
    as_map, erase, has_key, increasing, lemma_stays_increasing, upsert, Key,
};
use crate::text::decimal;
use crate::types::{PressureBand, PressureBands};

verus! {

/// A worker as the scheduler is to see it: active, with the pods that it has, draining exactly if
/// its condition of that name holds, and as pressed as the hardest pressed of its dimensions.
pub open spec fn shows(worker_id: WorkerId, state: TrackedView, c: WorkerCandidate) -> bool {
    let b = state.pressure_bands;
    &&& c.worker_id == worker_id
    &&& c.active
    &&& c.pod_count == state.pod_count
    &&& c.draining <==> (state.conditions.contains_key("draining"@) && state.conditions["draining"@])
    &&& c.max_pressure_band == PressureBand::Critical <==> (b.memory == PressureBand::Critical
        || b.compute == PressureBand::Critical || b.storage == PressureBand::Critical)
    &&& c.max_pressure_band == PressureBand::Normal <==> (b.memory == PressureBand::Normal
        && b.compute == PressureBand::Normal && b.storage == PressureBand::Normal)
    &&& (c.max_pressure_band == PressureBand::High || c.max_pressure_band
        == PressureBand::Critical) <==> (b.memory == PressureBand::High || b.memory
        == PressureBand::Critical || b.compute == PressureBand::High || b.compute
        == PressureBand::Critical || b.storage == PressureBand::High || b.storage
        == PressureBand::Critical)
}

/// Whenever a worker has connected, was measured, has changed a condition or has more or fewer pods,
/// the scheduler is told of it as it is now, and of no other worker.
pub proof fn law_scheduler_sees_workers_as_they_are(
    before: WorkerStateView,
    event: WorkerStateCoreEvent,
    after: WorkerStateView,
    effects: WorkerStateEffectsView,
    worker: WorkerId,
)
    requires
        (after, effects) == before.next(event),
        increasing(before.workers),
        match event {
            WorkerStateCoreEvent::PressureUpdate { worker_id, .. } => worker_id == worker
                && has_key(before.workers, worker),
            WorkerStateCoreEvent::ConditionUpdate { worker_id, .. } => worker_id == worker
                && has_key(before.workers, worker),
            WorkerStateCoreEvent::PodCountChange { worker_id, .. } => worker_id == worker
                && has_key(before.workers, worker),
            WorkerStateCoreEvent::Connected { worker_id, .. } => worker_id == worker,
            _ => false,
        },
    ensures
        as_map(after.workers).contains_key(worker),
        effects.scheduler_updates.len() == 1,
        effects.scheduler_updates[0] matches SchedulerCoreInput::WorkerUpdate(w, c) && w == worker
            && shows(worker, as_map(after.workers)[worker], c),
        forall|o: WorkerId|
            o != worker ==> #[trigger] as_map(after.workers).contains_key(o) == as_map(
                before.workers,
            ).contains_key(o),
        forall|o: WorkerId|
            o != worker && #[trigger] as_map(before.workers).contains_key(o) ==> as_map(
                after.workers,
            )[o] == as_map(before.workers)[o],
        effects.worker_registry_broadcast is Some <==> event is Connected,
{
    lemma_stays_increasing(before.workers, worker, as_map(after.workers)[worker]);
    let old_state = as_map(before.workers)[worker];
    match event {
        WorkerStateCoreEvent::PressureUpdate { psi, .. } => {
            lemma_stays_increasing(before.workers, worker, old_state.measured(psi));
        },
        WorkerStateCoreEvent::ConditionUpdate { key, active, .. } => {
            lemma_stays_increasing(
                before.workers,
                worker,
                TrackedView { conditions: old_state.conditions.insert(key@, active), ..old_state },
            );
        },
        WorkerStateCoreEvent::PodCountChange { delta, .. } => {
            lemma_stays_increasing(before.workers, worker, old_state.counted(delta));
        },
        WorkerStateCoreEvent::Connected {
            capabilities,
            tunnel_info,
            wireguard_info,
            proto_worker_id,
            ..
        } => {
            lemma_stays_increasing(
                before.workers,
                worker,
                TrackedView::fresh(capabilities, tunnel_info, wireguard_info, proto_worker_id),
            );
        },
        _ => {},
    }
}

/// A measurement moves a band as it says for that band.
pub open spec fn moves(steps: BandSteps, before: PressureBand, after: PressureBand) -> bool {
    &&& before == PressureBand::Normal ==> after == steps.from_normal
    &&& before == PressureBand::Elevated ==> after == steps.from_elevated
    &&& before == PressureBand::High ==> after == steps.from_high
    &&& before == PressureBand::Critical ==> after == steps.from_critical
}

/// What such an event makes of the worker. A measurement moves each of its three bands as the
/// measurement says for that dimension, and is kept. A condition is set as told. The number of pods
/// moves by the change and does not go below zero, and the bands move by the last measurement.
pub proof fn law_events_change_their_worker(
    before: WorkerStateView,
    event: WorkerStateCoreEvent,
    after: WorkerStateView,
    effects: WorkerStateEffectsView,
    worker: WorkerId,
)
    requires
        (after, effects) == before.next(event),
        before.can_take(event),
        increasing(before.workers),
        has_key(before.workers, worker),
    ensures
        event matches WorkerStateCoreEvent::PressureUpdate { worker_id, psi } && worker_id == worker
            ==> {
            let old_bands = as_map(before.workers)[worker].pressure_bands;
            let new_bands = as_map(after.workers)[worker].pressure_bands;
            &&& as_map(after.workers)[worker].pod_count == as_map(before.workers)[worker].pod_count
            &&& moves(event->psi.memory, old_bands.memory, new_bands.memory)
            &&& moves(event->psi.compute, old_bands.compute, new_bands.compute)
            &&& moves(event->psi.storage, old_bands.storage, new_bands.storage)
            &&& as_map(after.workers)[worker].psi == Some(event->psi)
        },
        event matches WorkerStateCoreEvent::ConditionUpdate { worker_id, key, active, .. }
            && worker_id == worker ==> as_map(after.workers)[worker].conditions == as_map(
            before.workers,
        )[worker].conditions.insert(event->key@, event->active),
        event matches WorkerStateCoreEvent::PodCountChange { worker_id, delta } && worker_id
            == worker ==> {
            let count = as_map(before.workers)[worker].pod_count + event->delta;
            &&& count >= 0 ==> as_map(after.workers)[worker].pod_count == count
            &&& count < 0 ==> as_map(after.workers)[worker].pod_count == 0
            &&& as_map(before.workers)[worker].psi is None
                ==> as_map(after.workers)[worker].pressure_bands == as_map(
                before.workers,
            )[worker].pressure_bands
            &&& as_map(before.workers)[worker].psi matches Some(psi) ==> {
                let old_bands = as_map(before.workers)[worker].pressure_bands;
                let new_bands = as_map(after.workers)[worker].pressure_bands;
                &&& moves(psi.memory, old_bands.memory, new_bands.memory)
                &&& moves(psi.compute, old_bands.compute, new_bands.compute)
                &&& moves(psi.storage, old_bands.storage, new_bands.storage)
            }
        },
        event matches WorkerStateCoreEvent::PoolCapacityUpdate { worker_id, pools } && worker_id
            == worker ==> as_map(after.workers)[worker].capabilities.pools == event->pools
            && effects.scheduler_updates.len() == 0,
{
    let old_state = as_map(before.workers)[worker];
    match event {
        WorkerStateCoreEvent::PressureUpdate { psi, .. } => {
            lemma_stays_increasing(before.workers, worker, old_state.measured(psi));
        },
        WorkerStateCoreEvent::ConditionUpdate { key, active, .. } => {
            lemma_stays_increasing(
                before.workers,
                worker,
                TrackedView { conditions: old_state.conditions.insert(key@, active), ..old_state },
            );
        },
        WorkerStateCoreEvent::PodCountChange { delta, .. } => {
            lemma_stays_increasing(before.workers, worker, old_state.counted(delta));
        },
        WorkerStateCoreEvent::PoolCapacityUpdate { pools, .. } => {
            lemma_stays_increasing(
                before.workers,
                worker,
                TrackedView {
                    capabilities: WorkerCapabilities { pools, ..old_state.capabilities },
                    ..old_state
                },
            );
        },
        _ => {},
    }
}

/// A worker that has just connected is known as it described itself, without pods, pressure or
/// conditions. One that has gone is known no longer, and the scheduler learns of it.
pub proof fn law_workers_come_and_go(
    before: WorkerStateView,
    event: WorkerStateCoreEvent,
    after: WorkerStateView,
    effects: WorkerStateEffectsView,
    worker: WorkerId,
)
    requires
        (after, effects) == before.next(event),
        increasing(before.workers),
    ensures
        event matches WorkerStateCoreEvent::Connected {
            worker_id,
            capabilities,
            tunnel_info,
            wireguard_info,
            proto_worker_id,
        } && worker_id == worker ==> {
            let state = as_map(after.workers)[worker];
            &&& as_map(after.workers).contains_key(worker)
            &&& state.capabilities == event->capabilities
            &&& state.tunnel_info == event->tunnel_info
            &&& state.wireguard_info == event->wireguard_info
            &&& state.proto_worker_id == event->proto_worker_id
            &&& state.pod_count == 0
            &&& state.segments.len() == 0
            &&& state.conditions == Map::<Seq<char>, bool>::empty()
            &&& state.pressure_bands == (PressureBands {
                memory: PressureBand::Normal,
                compute: PressureBand::Normal,
                storage: PressureBand::Normal,
            })
            &&& effects.worker_registry_broadcast == Some(registry(after.workers))
        },
        event matches WorkerStateCoreEvent::Disconnected { worker_id } && worker_id == worker ==> {
            &&& as_map(after.workers) == as_map(before.workers).remove(worker)
            &&& effects.scheduler_updates == seq![SchedulerCoreInput::WorkerRemoved(worker)]
            &&& effects.worker_registry_broadcast == Some(registry(after.workers))
        },
{
    match event {
        WorkerStateCoreEvent::Connected {
            capabilities,
            tunnel_info,
            wireguard_info,
            proto_worker_id,
            ..
        } => {
            lemma_stays_increasing(
                before.workers,
                worker,
                TrackedView::fresh(capabilities, tunnel_info, wireguard_info, proto_worker_id),
            );
        },
        WorkerStateCoreEvent::Disconnected { .. } => {
            lemma_stays_increasing(before.workers, worker, as_map(before.workers)[worker]);
        },
        _ => {},
    }
}

/// A namespace that is assigned to a worker puts the worker on the namespace's segment, and one that
/// is taken away takes it off. All workers are told anew exactly when this changes something.
pub proof fn law_assignment_moves_segment(
    before: WorkerStateView,
    worker: WorkerId,
    namespace_id: NamespaceId,
    assigned: WorkerStateView,
    first: WorkerStateEffectsView,
    taken: WorkerStateView,
    second: WorkerStateEffectsView,
)
    requires
        (assigned, first) == before.next(
            WorkerStateCoreEvent::NamespaceAssigned { worker_id: worker, namespace_id },
        ),
        (taken, second) == before.next(
            WorkerStateCoreEvent::NamespaceUnassigned { worker_id: worker, namespace_id },
        ),
        increasing(before.workers),
        has_key(before.workers, worker),
        increasing(as_map(before.workers)[worker].segments),
        before.namespace_segments.contains_key(namespace_id.id()),
    ensures
        has_key(
            as_map(assigned.workers)[worker].segments,
            before.namespace_segments[namespace_id.id()],
        ),
        !has_key(
            as_map(taken.workers)[worker].segments,
            before.namespace_segments[namespace_id.id()],
        ),
        has_key(
            as_map(before.workers)[worker].segments,
            before.namespace_segments[namespace_id.id()],
        ) ==> assigned == before && first.worker_registry_broadcast is None
            && second.worker_registry_broadcast == Some(registry(taken.workers)),
        !has_key(
            as_map(before.workers)[worker].segments,
            before.namespace_segments[namespace_id.id()],
        ) ==> taken == before && second.worker_registry_broadcast is None
            && first.worker_registry_broadcast == Some(registry(assigned.workers)),
        first.scheduler_updates.len() == 0,
        second.scheduler_updates.len() == 0,
{
    let state = as_map(before.workers)[worker];
    let segment = before.namespace_segments[namespace_id.id()];
    let more = TrackedView { segments: upsert(state.segments, segment, ()), ..state };
    let fewer = TrackedView { segments: erase(state.segments, segment), ..state };
    lemma_stays_increasing(before.workers, worker, more);
    lemma_stays_increasing(before.workers, worker, fewer);
    lemma_stays_increasing(state.segments, segment, ());
    assert(as_map(upsert(state.segments, segment, ())).contains_key(segment));
    assert(!as_map(erase(state.segments, segment)).contains_key(segment));
}

/// A worker is made known to the others exactly if it has a tunnel and a public address: under its
/// address and the port of its tunnel, with the key of its tunnel and the segments that it is on.
pub proof fn law_reachable_workers_are_made_known(
    workers: Seq<(WorkerId, TrackedView)>,
    peer: PeerView,
)
    ensures
        registry(workers).contains(peer) <==> exists|i: int|
            0 <= i < workers.len() && made_known((#[trigger] workers[i]).1, peer),
    decreases workers.len(),
{
    if workers.len() > 0 {
        let front = workers.drop_last();
        let last = workers.len() - 1;
        law_reachable_workers_are_made_known(front, peer);
        let rest = registry(front);
        if let Some(p) = workers[last].1.peer() {
            lemma_contains_pushed(rest, p, peer);
            assert(made_known(workers[last].1, p));
            if made_known(workers[last].1, peer) {
                assert(peer.segments =~= p.segments);
                assert(peer =~= p);
            }
        }
        if rest.contains(peer) {
            let i = choose|i: int| 0 <= i < front.len() && made_known((#[trigger] front[i]).1, peer);
            assert(workers[i] == front[i]);
        }
        if exists|i: int| 0 <= i < workers.len() && made_known((#[trigger] workers[i]).1, peer) {
            let i = choose|i: int|
                0 <= i < workers.len() && made_known((#[trigger] workers[i]).1, peer);
            if i < last {
                assert(front[i] == workers[i]);
            }
        }
    }
}

/// A worker that has a tunnel and a public address, as its peers see it.
pub open spec fn made_known(state: TrackedView, peer: PeerView) -> bool {
    &&& state.tunnel_info matches Some(t) && peer.public_key == t.public_key && peer.endpoint
        == state.capabilities.public_endpoint@ + ":"@ + decimal(t.listen_port as nat)
    &&& state.capabilities.public_endpoint@.len() > 0
    &&& peer.worker_id == state.proto_worker_id
    &&& peer.segments.len() == state.segments.len()
    &&& forall|k: int|
        0 <= k < peer.segments.len() ==> #[trigger] peer.segments[k] == state.segments[k].0
}

/// The worker for clients is the first one that listens for clients at a public address, and there
/// is one if any worker does.
pub proof fn law_clients_get_first_reachable_worker(workers: Seq<(WorkerId, TrackedView)>)
    ensures
        match first_wireguard(workers) {
            Some((id, info, endpoint)) => exists|i: int|
                0 <= i < workers.len() && (#[trigger] workers[i]).0 == id
                    && workers[i].1.wireguard_info == Some(info) && endpoint
                    == workers[i].1.capabilities.public_endpoint@ && endpoint.len() > 0
                    && forall|k: int|
                    0 <= k < i ==> (#[trigger] workers[k]).1.wireguard_info is None
                        || workers[k].1.capabilities.public_endpoint@.len() == 0,
            None => forall|k: int|
                0 <= k < workers.len() ==> (#[trigger] workers[k]).1.wireguard_info is None
                    || workers[k].1.capabilities.public_endpoint@.len() == 0,
        },
    decreases workers.len(),
{
    if workers.len() > 0 {
        let rest = workers.skip(1);
        law_clients_get_first_reachable_worker(rest);
        if workers[0].1.wireguard_info is None || workers[0].1.capabilities.public_endpoint@.len()
            == 0 {
            match first_wireguard(rest) {
                Some((id, info, endpoint)) => {
                    let i = choose|i: int|
                        0 <= i < rest.len() && (#[trigger] rest[i]).0 == id
                            && rest[i].1.wireguard_info == Some(info) && endpoint
                            == rest[i].1.capabilities.public_endpoint@ && endpoint.len() > 0
                            && forall|k: int|
                            0 <= k < i ==> (#[trigger] rest[k]).1.wireguard_info is None
                                || rest[k].1.capabilities.public_endpoint@.len() == 0;
                    assert(workers[i + 1] == rest[i]);
                    assert forall|k: int| 0 <= k < i + 1 implies (
                    #[trigger] workers[k]).1.wireguard_info is None
                        || workers[k].1.capabilities.public_endpoint@.len() == 0 by {
                        if k > 0 {
                            assert(rest[k - 1] == workers[k]);
                        }
                    }
                },
                None => {
                    assert forall|k: int| 0 <= k < workers.len() implies (
                    #[trigger] workers[k]).1.wireguard_info is None
                        || workers[k].1.capabilities.public_endpoint@.len() == 0 by {
                        if k > 0 {
                            assert(rest[k - 1] == workers[k]);
                        }
                    }
                },
            }
        } else {
            assert(workers[0].0 == first_wireguard(workers).unwrap().0);
        }
    }
}

/// The worker for tunnels is the first one that has a tunnel and a public address, and there is one
/// if any worker has.
pub proof fn law_tunnels_get_first_reachable_worker(workers: Seq<(WorkerId, TrackedView)>)
    ensures
        match first_tunnel(workers) {
            Some((id, info, endpoint)) => exists|i: int|
                0 <= i < workers.len() && (#[trigger] workers[i]).0 == id
                    && workers[i].1.tunnel_info == Some(info) && endpoint
                    == workers[i].1.capabilities.public_endpoint@ && endpoint.len() > 0
                    && forall|k: int|
                    0 <= k < i ==> (#[trigger] workers[k]).1.tunnel_info is None
                        || workers[k].1.capabilities.public_endpoint@.len() == 0,
            None => forall|k: int|
                0 <= k < workers.len() ==> (#[trigger] workers[k]).1.tunnel_info is None
                    || workers[k].1.capabilities.public_endpoint@.len() == 0,
        },
    decreases workers.len(),
{
    if workers.len() > 0 {
        let rest = workers.skip(1);
        law_tunnels_get_first_reachable_worker(rest);
        if workers[0].1.tunnel_info is None || workers[0].1.capabilities.public_endpoint@.len()
            == 0 {
            match first_tunnel(rest) {
                Some((id, info, endpoint)) => {
                    let i = choose|i: int|
                        0 <= i < rest.len() && (#[trigger] rest[i]).0 == id
                            && rest[i].1.tunnel_info == Some(info) && endpoint
                            == rest[i].1.capabilities.public_endpoint@ && endpoint.len() > 0
                            && forall|k: int|
                            0 <= k < i ==> (#[trigger] rest[k]).1.tunnel_info is None
                                || rest[k].1.capabilities.public_endpoint@.len() == 0;
                    assert(workers[i + 1] == rest[i]);
                    assert forall|k: int| 0 <= k < i + 1 implies (
                    #[trigger] workers[k]).1.tunnel_info is None
                        || workers[k].1.capabilities.public_endpoint@.len() == 0 by {
                        if k > 0 {
                            assert(rest[k - 1] == workers[k]);
                        }
                    }
                },
                None => {
                    assert forall|k: int| 0 <= k < workers.len() implies (
                    #[trigger] workers[k]).1.tunnel_info is None
                        || workers[k].1.capabilities.public_endpoint@.len() == 0 by {
                        if k > 0 {
                            assert(rest[k - 1] == workers[k]);
                        }
                    }
                },
            }
        } else {
            assert(workers[0].0 == first_tunnel(workers).unwrap().0);
        }
    }
}

/// What a client learns of a worker: its number, what it can take, how many pods it has, and its
/// conditions.
pub proof fn law_query_shows_worker(worker_id: WorkerId, state: TrackedView)
    ensures
        query_of(worker_id, state).worker_id == worker_id,
        query_of(worker_id, state).max_pods == state.capabilities.max_pods,
        query_of(worker_id, state).available_memory_mb == state.capabilities.available_memory_mb,
        query_of(worker_id, state).active_pods == state.pod_count,
        query_of(worker_id, state).conditions == state.conditions,
{
}

} // verus!
