//! What ports deliver is acted on, and what happens outside reaches the right port.
use vstd::prelude::*;

use crate::adapter::backend_need::{raised, with_port, BackendNeedOp};
use crate::adapter::dns_registry;
use crate::adapter::dns_registry::{
    all_renamed, entry_changes, DnsRegistryAction, DnsRegistryPortInput,
};
use crate::adapter::endpoint;
use crate::adapter::endpoint::{
    all_learned, source_changes, EndpointAction, EndpointsInputSource, FabricEndpointPortInput,
    Known,
};
use crate::adapter::endpoint_demand::{
    demanded, next_after, with_demand, EndpointDemandOp, EndpointDemandSignal,
};
use crate::adapter::management::{
    all_applied, applied, name_dropped, service_kind, workload_kind, Kind, ManagementOpView,
    Progress,
};
use crate::adapter::pod_assignment::{
    all_addressed, PodAssignmentAction, PodAssignmentDelta, WorkerPortInput,
};
use crate::adapter::schedule_request::{asked, by_pod};
use crate::adapter::timer::{
    cancels, fired, requested, speaks_of, starts, wanted, wanted_by, with_timers, TimerAction,
    TimerConfig, TimerFired, TimerIdentity, Timers,
};
use crate::ids::Named;
use crate::namespace::command_laws::lemma_contains_pushed;
use crate::sm::{
    BackendNeedId, DnsEntryInfo, DnsRegistryId, EndpointDemandId, EndpointId, EndpointInfo,
    EndpointTimerKey, FabricEndpointId, ManagementId, PodId, PodScheduleRequest, PodTimerKey,
    ScheduleRequestId, ScheduleRequestPortInput, ServiceId, ServiceTimerKey, TimerId,
    TimerPortInput, TimerRequest,
    WireGuardPeerEndpointInfo, WireGuardPeerId, WorkerId, WorkloadId, WorkloadTimerKey, TIMER,
};
use crate::sorted_map::{lemma_contains_either, restricted};
use crate::types;
use crate::types::BackendNeed;

verus! {

// ---- names --------------------------------------------------------------------------------------

/// A change to the names is delivered exactly if some input for the own port holds it.
pub proof fn law_own_name_changes_are_delivered(
    id: DnsRegistryId,
    inputs: Seq<(DnsRegistryId, DnsRegistryPortInput)>,
    action: DnsRegistryAction,
)
    ensures
        dns_registry::delivered(id, inputs).contains(action) <==> exists|i: int|
            0 <= i < inputs.len() && (#[trigger] inputs[i]).0 == id && (match inputs[i].1 {
                DnsRegistryPortInput::EndpointDnsInput(list) => list@.contains(action),
                DnsRegistryPortInput::WorkloadDnsInput(list) => list@.contains(action),
            }),
    decreases inputs.len(),
{
    if inputs.len() > 0 {
        let front = inputs.drop_last();
        let last = inputs.len() - 1;
        law_own_name_changes_are_delivered(id, front, action);
        let rest = dns_registry::delivered(id, front);
        lemma_contains_either(rest, inputs[last].1.actions(), action);
        if rest.contains(action) {
            let i = choose|i: int|
                0 <= i < front.len() && (#[trigger] front[i]).0 == id && (match front[i].1 {
                    DnsRegistryPortInput::EndpointDnsInput(list) => list@.contains(action),
                    DnsRegistryPortInput::WorkloadDnsInput(list) => list@.contains(action),
                });
            assert(inputs[i] == front[i]);
        }
        if exists|i: int|
            0 <= i < inputs.len() && (#[trigger] inputs[i]).0 == id && (match inputs[i].1 {
                DnsRegistryPortInput::EndpointDnsInput(list) => list@.contains(action),
                DnsRegistryPortInput::WorkloadDnsInput(list) => list@.contains(action),
            }) {
            let i = choose|i: int|
                0 <= i < inputs.len() && (#[trigger] inputs[i]).0 == id && (match inputs[i].1 {
                    DnsRegistryPortInput::EndpointDnsInput(list) => list@.contains(action),
                    DnsRegistryPortInput::WorkloadDnsInput(list) => list@.contains(action),
                });
            if i < last {
                assert(front[i] == inputs[i]);
            }
        }
    }
}

/// The last change to a name counts: a name that was added has the address that it was added with,
/// a name that was removed is gone, and no other name is touched.
pub proof fn law_last_name_change_counts(
    names: Map<Seq<char>, u32>,
    actions: Seq<DnsRegistryAction>,
    name: String,
    ip: u32,
)
    ensures
        all_renamed(names, Seq::empty()) == names,
        all_renamed(names, actions.push(DnsRegistryAction::Add { name, ip })) == all_renamed(
            names,
            actions,
        ).insert(name@, ip),
        all_renamed(names, actions.push(DnsRegistryAction::Remove { name })) == all_renamed(
            names,
            actions,
        ).remove(name@),
{
    let add = actions.push(DnsRegistryAction::Add { name, ip });
    let remove = actions.push(DnsRegistryAction::Remove { name });
    assert(add.drop_last() =~= actions);
    assert(remove.drop_last() =~= actions);
}

/// An entry that changes its name gives up the old one. One that has an address is announced with
/// it, and one that goes is withdrawn.
pub proof fn law_entry_changes(old_info: Option<DnsEntryInfo>, new_info: Option<DnsEntryInfo>)
    ensures
        match (old_info, new_info) {
            (None, None) => entry_changes(old_info, new_info) is None,
            (None, Some(n)) => entry_changes(old_info, new_info) == Some(
                seq![DnsRegistryAction::Add { name: n.name, ip: n.ip }],
            ),
            (Some(o), None) => entry_changes(old_info, new_info) == Some(
                seq![DnsRegistryAction::Remove { name: o.name }],
            ),
            (Some(o), Some(n)) => {
                &&& entry_changes(old_info, new_info) matches Some(actions)
                &&& actions.len() > 0
                &&& actions.last() == (DnsRegistryAction::Add { name: n.name, ip: n.ip })
                &&& o.name@ != n.name@ ==> actions.len() == 2 && actions[0] == (
                DnsRegistryAction::Remove { name: o.name })
                &&& o.name@ == n.name@ ==> actions.len() == 1
            },
        },
{
}

// ---- endpoints ----------------------------------------------------------------------------------

/// A change to the endpoints is delivered exactly if some input for the own port holds it.
pub proof fn law_own_endpoint_changes_are_delivered(
    id: FabricEndpointId,
    inputs: Seq<(FabricEndpointId, FabricEndpointPortInput)>,
    action: EndpointAction,
)
    ensures
        endpoint::delivered(id, inputs).contains(action) <==> exists|i: int|
            0 <= i < inputs.len() && (#[trigger] inputs[i]).0 == id && (match inputs[i].1 {
                FabricEndpointPortInput::EndpointsInput(list) => list@.contains(action),
            }),
    decreases inputs.len(),
{
    if inputs.len() > 0 {
        let front = inputs.drop_last();
        let last = inputs.len() - 1;
        law_own_endpoint_changes_are_delivered(id, front, action);
        let rest = endpoint::delivered(id, front);
        let FabricEndpointPortInput::EndpointsInput(own) = inputs[last].1;
        lemma_contains_either(rest, own@, action);
        if rest.contains(action) {
            let i = choose|i: int|
                0 <= i < front.len() && (#[trigger] front[i]).0 == id && (match front[i].1 {
                    FabricEndpointPortInput::EndpointsInput(list) => list@.contains(action),
                });
            assert(inputs[i] == front[i]);
        }
        if exists|i: int|
            0 <= i < inputs.len() && (#[trigger] inputs[i]).0 == id && (match inputs[i].1 {
                FabricEndpointPortInput::EndpointsInput(list) => list@.contains(action),
            }) {
            let i = choose|i: int|
                0 <= i < inputs.len() && (#[trigger] inputs[i]).0 == id && (match inputs[i].1 {
                    FabricEndpointPortInput::EndpointsInput(list) => list@.contains(action),
                });
            if i < last {
                assert(front[i] == inputs[i]);
            }
        }
    }
}

/// The last change to an endpoint or a client counts, and no other is touched.
pub proof fn law_last_endpoint_change_counts(
    known: Known,
    actions: Seq<EndpointAction>,
    action: EndpointAction,
)
    ensures
        all_learned(known, Seq::empty()) == known,
        match action {
            EndpointAction::Update { endpoint_id, info } => all_learned(known, actions.push(action))
                == (Known {
                endpoints: all_learned(known, actions).endpoints.insert(endpoint_id, info),
                peers: all_learned(known, actions).peers,
            }),
            EndpointAction::Remove { endpoint_id, .. } => all_learned(known, actions.push(action))
                == (Known {
                endpoints: all_learned(known, actions).endpoints.remove(endpoint_id),
                peers: all_learned(known, actions).peers,
            }),
            EndpointAction::WireGuardPeerUpdate { peer_id, info } => all_learned(
                known,
                actions.push(action),
            ) == (Known {
                endpoints: all_learned(known, actions).endpoints,
                peers: all_learned(known, actions).peers.insert(peer_id, info),
            }),
            EndpointAction::WireGuardPeerRemove { peer_id, .. } => all_learned(
                known,
                actions.push(action),
            ) == (Known {
                endpoints: all_learned(known, actions).endpoints,
                peers: all_learned(known, actions).peers.remove(peer_id),
            }),
        },
{
    assert(actions.push(action).drop_last() =~= actions);
}

/// An endpoint that is offered is announced as it is now, one that is no longer offered is
/// withdrawn, and the same holds of clients.
pub proof fn law_source_changes(
    id: EndpointId,
    old_info: Option<EndpointInfo>,
    new_info: Option<EndpointInfo>,
    peer: WireGuardPeerId,
    old_peer: Option<WireGuardPeerEndpointInfo>,
    new_peer: Option<WireGuardPeerEndpointInfo>,
)
    ensures
        source_changes(
            EndpointsInputSource::EndpointEndpointInfo(id, old_info),
            EndpointsInputSource::EndpointEndpointInfo(id, new_info),
        ) == (match (old_info, new_info) {
            (_, Some(info)) => Some(seq![EndpointAction::Update { endpoint_id: id, info }]),
            (Some(old_info), None) => Some(
                seq![EndpointAction::Remove { endpoint_id: id, old_info }],
            ),
            (None, None) => None,
        }),
        source_changes(
            EndpointsInputSource::WireGuardPeerEndpointInfo(peer, old_peer),
            EndpointsInputSource::WireGuardPeerEndpointInfo(peer, new_peer),
        ) == (match (old_peer, new_peer) {
            (_, Some(info)) => Some(
                seq![EndpointAction::WireGuardPeerUpdate { peer_id: peer, info }],
            ),
            (Some(old_info), None) => Some(
                seq![EndpointAction::WireGuardPeerRemove { peer_id: peer, old_info }],
            ),
            (None, None) => None,
        }),
{
}

// ---- demand -------------------------------------------------------------------------------------

/// A demand at an endpoint goes through the port that the worker has for it. Where there is none
/// yet, one is made first, under a number that was not used before, and kept.
pub proof fn law_demand_goes_through_its_port(
    ports: Map<(WorkerId, EndpointId), u64>,
    worker_id: WorkerId,
    endpoint_id: EndpointId,
    signal: EndpointDemandSignal,
    next: u64,
)
    ensures
        ({
            let ops = demanded(ports, worker_id, endpoint_id, signal, next);
            let known = ports.contains_key((worker_id, endpoint_id));
            let port = if known {
                ports[(worker_id, endpoint_id)]
            } else {
                next
            };
            &&& ops.len() == if known {
                1int
            } else {
                2int
            }
            &&& !known ==> ops[0] == (EndpointDemandOp::Create {
                port: EndpointDemandId(next),
                endpoint_id,
            })
            &&& ops.last() == (match signal {
                EndpointDemandSignal::Active { active } => EndpointDemandOp::SetActive {
                    port: EndpointDemandId(port),
                    active,
                },
                EndpointDemandSignal::Traffic => EndpointDemandOp::SendTraffic {
                    port: EndpointDemandId(port),
                    endpoint_id,
                },
            })
            &&& with_demand(ports, worker_id, endpoint_id, next).contains_key(
                (worker_id, endpoint_id),
            )
            &&& with_demand(ports, worker_id, endpoint_id, next)[(worker_id, endpoint_id)] == port
            &&& next_after(ports, worker_id, endpoint_id, next) == if known {
                next as int
            } else {
                next + 1
            }
        }),
{
}

/// A need for the backend of a service goes through the port that the worker has for it. Where there
/// is none yet, one is made first and kept.
pub proof fn law_need_goes_through_its_port(
    ports: Map<(WorkerId, ServiceId), u64>,
    worker_id: WorkerId,
    service_id: ServiceId,
    need: BackendNeed,
    port: u64,
    next: u64,
)
    ensures
        raised(Some(port), service_id, need, next) == seq![
            BackendNeedOp::SetLevel { port: BackendNeedId(port), need },
        ],
        raised(None, service_id, need, next) == seq![
            BackendNeedOp::Create { port: BackendNeedId(next), service_id },
            BackendNeedOp::SetLevel { port: BackendNeedId(next), need },
        ],
        with_port(ports, worker_id, service_id, next).contains_key((worker_id, service_id)),
        ports.contains_key((worker_id, service_id)) ==> with_port(
            ports,
            worker_id,
            service_id,
            next,
        ) == ports,
        !ports.contains_key((worker_id, service_id)) ==> with_port(
            ports,
            worker_id,
            service_id,
            next,
        )[(worker_id, service_id)] == next,
{
}

// ---- pods ---------------------------------------------------------------------------------------

/// Each change to the pods of a worker becomes one action at that worker on that pod, in order.
pub proof fn law_pod_changes_are_addressed(inputs: Seq<(WorkerId, WorkerPortInput)>, i: int)
    requires
        0 <= i < inputs.len(),
    ensures
        all_addressed(inputs).len() == inputs.len(),
        match inputs[i].1 {
            WorkerPortInput::AssignedPodsInput(delta) => match delta {
                PodAssignmentDelta::Launch { pod_id, request, spec } => all_addressed(inputs)[i]
                    == (PodAssignmentAction::Launch {
                    worker_id: inputs[i].0,
                    pod_id,
                    request,
                    spec,
                }),
                PodAssignmentDelta::Resume { pod_id, artifact_id, spec } => all_addressed(inputs)[i]
                    == (PodAssignmentAction::Resume {
                    worker_id: inputs[i].0,
                    pod_id,
                    artifact_id,
                    spec,
                }),
                PodAssignmentDelta::Stop { pod_id } => all_addressed(inputs)[i] == (
                PodAssignmentAction::Stop { worker_id: inputs[i].0, pod_id }),
                PodAssignmentDelta::Suspend { pod_id } => all_addressed(inputs)[i] == (
                PodAssignmentAction::Suspend { worker_id: inputs[i].0, pod_id }),
            },
        },
{
}

/// Of several requests for a pod in a list the last one counts, and a pod is asked for exactly if
/// the list names it.
pub proof fn law_last_request_counts(list: Seq<(PodId, PodScheduleRequest)>, pod: PodId)
    ensures
        by_pod(list).contains_key(pod) <==> exists|i: int|
            0 <= i < list.len() && (#[trigger] list[i]).0 == pod,
        by_pod(list).contains_key(pod) ==> exists|i: int|
            0 <= i < list.len() && (#[trigger] list[i]).0 == pod && list[i].1 == by_pod(list)[pod]
                && forall|k: int| i < k < list.len() ==> (#[trigger] list[k]).0 != pod,
    decreases list.len(),
{
    if list.len() > 0 {
        let front = list.drop_last();
        let last = list.len() - 1;
        law_last_request_counts(front, pod);
        assert(list[last] == list.last());
        if list[last].0 != pod {
            if by_pod(front).contains_key(pod) {
                let i = choose|i: int|
                    0 <= i < front.len() && (#[trigger] front[i]).0 == pod && front[i].1 == by_pod(
                        front,
                    )[pod] && forall|k: int|
                        i < k < front.len() ==> (#[trigger] front[k]).0 != pod;
                assert(list[i] == front[i]);
                assert forall|k: int| i < k < list.len() implies (#[trigger] list[k]).0 != pod by {
                    if k < last {
                        assert(front[k] == list[k]);
                    }
                }
            }
            if exists|i: int| 0 <= i < list.len() && (#[trigger] list[i]).0 == pod {
                let i = choose|i: int| 0 <= i < list.len() && (#[trigger] list[i]).0 == pod;
                assert(front[i] == list[i]);
            }
        }
    }
}

/// What is asked for is what the first input for the own port lists. Without such an input nothing
/// is said.
pub proof fn law_own_requests_are_taken(
    id: ScheduleRequestId,
    inputs: Seq<(ScheduleRequestId, ScheduleRequestPortInput)>,
    i: int,
)
    requires
        0 <= i <= inputs.len(),
        forall|k: int| 0 <= k < i ==> (#[trigger] inputs[k]).0 != id,
    ensures
        i == inputs.len() ==> asked(id, inputs) is None,
        i < inputs.len() && inputs[i].0 == id ==> match inputs[i].1 {
            ScheduleRequestPortInput::PodRequestsInput(list) => asked(id, inputs) == Some(
                by_pod(list@),
            ),
        },
    decreases inputs.len(),
{
    if inputs.len() > 0 && i > 0 {
        let rest = inputs.skip(1);
        assert(inputs[0].0 != id);
        assert forall|k: int| 0 <= k < i - 1 implies (#[trigger] rest[k]).0 != id by {
            assert(rest[k] == inputs[k + 1]);
        }
        law_own_requests_are_taken(id, rest, i - 1);
        if i < inputs.len() {
            assert(rest[i - 1] == inputs[i]);
        }
    }
}

// ---- timers -------------------------------------------------------------------------------------

/// How long a timer runs that does not say it itself.
pub proof fn law_timer_durations(
    config: TimerConfig,
    w: WorkloadId,
    s: ServiceId,
    e: EndpointId,
    p: PodId,
)
    ensures
        config.duration(TimerIdentity::Workload(w, WorkloadTimerKey::RetryBackoff))
            == config.retry_backoff_ms,
        config.duration(TimerIdentity::Service(s, ServiceTimerKey::IdleTimeout))
            == config.idle_timeout_ms,
        config.duration(TimerIdentity::Endpoint(e, EndpointTimerKey::IdleTimeout))
            == config.idle_timeout_ms,
        config.duration(TimerIdentity::Pod(p, PodTimerKey::LaunchTimeout))
            == config.launch_timeout_ms,
        config.duration(TimerIdentity::Pod(p, PodTimerKey::SuspendTimeout))
            == config.suspend_timeout_ms,
        fired(TimerIdentity::Workload(w, WorkloadTimerKey::RetryBackoff)) == TimerFired::Workload(
            TIMER,
            w,
            WorkloadTimerKey::RetryBackoff,
        ),
        fired(TimerIdentity::Service(s, ServiceTimerKey::IdleTimeout)) == TimerFired::Service(
            TIMER,
            s,
            ServiceTimerKey::IdleTimeout,
        ),
        fired(TimerIdentity::Endpoint(e, EndpointTimerKey::IdleTimeout)) == TimerFired::Endpoint(
            TIMER,
            e,
            EndpointTimerKey::IdleTimeout,
        ),
        fired(TimerIdentity::Pod(p, PodTimerKey::LaunchTimeout)) == TimerFired::Pod(
            TIMER,
            p,
            PodTimerKey::LaunchTimeout,
        ),
        fired(TimerIdentity::Pod(p, PodTimerKey::SuspendTimeout)) == TimerFired::Pod(
            TIMER,
            p,
            PodTimerKey::SuspendTimeout,
        ),
{
}

/// A timer runs with the generation that it was asked with, and for the time that it was asked for,
/// or else for the configured time.
pub open spec fn on_terms<K>(
    config: TimerConfig,
    identity: TimerIdentity,
    request: TimerRequest<K>,
    t: (u64, u64),
) -> bool {
    &&& t.0 == request.generation
    &&& request.duration_ms matches Some(d) ==> t.1 == d
    &&& request.duration_ms is None ==> t.1 == config.duration(identity)
}

/// No entry of a list from some place on is for a timer.
spec fn unnamed(list: Timers, from: int, k: TimerIdentity) -> bool {
    forall|j: int| from <= j < list.len() ==> (#[trigger] list[j]).0 != k
}

proof fn lemma_with_timers(
    timers: Map<TimerIdentity, (u64, u64)>,
    list: Timers,
    k: TimerIdentity,
    i: int,
)
    ensures
        unnamed(list, 0, k) ==> (with_timers(timers, list).contains_key(k) == timers.contains_key(k))
            && (timers.contains_key(k) ==> with_timers(timers, list)[k] == timers[k]),
        0 <= i < list.len() && list[i].0 == k && unnamed(list, i + 1, k) ==> with_timers(
            timers,
            list,
        ).contains_key(k) && with_timers(timers, list)[k] == list[i].1,
    decreases list.len(),
{
    if list.len() > 0 {
        let front = list.drop_last();
        let last = list.len() - 1;
        lemma_with_timers(timers, front, k, i);
        if unnamed(list, 0, k) {
            assert forall|j: int| 0 <= j < front.len() implies (#[trigger] front[j]).0 != k by {
                assert(list[j].0 != k);
            }
            assert(list[last].0 != k);
        }
        if 0 <= i < last && list[i].0 == k && unnamed(list, i + 1, k) {
            assert(list[last].0 != k);
            assert(front[i] == list[i]);
            assert forall|j: int| i + 1 <= j < front.len() implies (#[trigger] front[j]).0 != k by {
                assert(list[j].0 != k);
            }
        }
    }
}

/// An input that lists the timers of pods leaves all other timers as they are. A timer of a pod runs
/// then exactly if it is listed, on the terms of its last listing.
pub proof fn law_pod_timers_are_as_listed(
    config: TimerConfig,
    timers: Map<TimerIdentity, (u64, u64)>,
    list: Vec<(PodId, TimerRequest<PodTimerKey>)>,
    k: TimerIdentity,
    i: int,
)
    ensures
        ({
            let after = wanted_by(config, timers, TimerPortInput::PodTimersInput(list));
            &&& !(k is Pod) ==> after.contains_key(k) == timers.contains_key(k) && (
            timers.contains_key(k) ==> after[k] == timers[k])
            &&& k is Pod && (forall|j: int|
                0 <= j < list@.len() ==> TimerIdentity::Pod(
                    (#[trigger] list@[j]).0,
                    list@[j].1.key,
                ) != k) ==> !after.contains_key(k)
            &&& 0 <= i < list@.len() && TimerIdentity::Pod(list@[i].0, list@[i].1.key) == k && (
            forall|j: int|
                i < j < list@.len() ==> TimerIdentity::Pod(
                    (#[trigger] list@[j]).0,
                    list@[j].1.key,
                ) != k) ==> after.contains_key(k) && on_terms(config, k, list@[i].1, after[k])
        }),
{
    let input = TimerPortInput::PodTimersInput(list);
    let all = requested(config, input);
    let rest = restricted(timers, |q: TimerIdentity, _t: (u64, u64)| !speaks_of(input, q));
    lemma_with_timers(rest, all, k, i);
    assert(all.len() == list@.len());
    assert(forall|j: int|
        0 <= j < all.len() ==> (#[trigger] all[j]).0 == TimerIdentity::Pod(
            list@[j].0,
            list@[j].1.key,
        ));
    if !(k is Pod) {
        assert forall|j: int| 0 <= j < all.len() implies (#[trigger] all[j]).0 != k by {}
    }
    if forall|j: int|
        0 <= j < list@.len() ==> TimerIdentity::Pod((#[trigger] list@[j]).0, list@[j].1.key) != k {
        assert forall|j: int| 0 <= j < all.len() implies (#[trigger] all[j]).0 != k by {
            assert(TimerIdentity::Pod(list@[j].0, list@[j].1.key) != k);
        }
    }
    if 0 <= i < list@.len() && TimerIdentity::Pod(list@[i].0, list@[i].1.key) == k && (forall|
        j: int,
    |
        i < j < list@.len() ==> TimerIdentity::Pod((#[trigger] list@[j]).0, list@[j].1.key) != k) {
        assert(all[i].0 == k);
        assert forall|j: int| i + 1 <= j < all.len() implies (#[trigger] all[j]).0 != k by {
            assert(TimerIdentity::Pod(list@[j].0, list@[j].1.key) != k);
        }
    }
}

/// An input that lists the timers of services leaves all other timers as they are. A timer of a
/// service runs then exactly if it is listed, on the terms of its last listing.
pub proof fn law_service_timers_are_as_listed(
    config: TimerConfig,
    timers: Map<TimerIdentity, (u64, u64)>,
    list: Vec<(ServiceId, TimerRequest<ServiceTimerKey>)>,
    k: TimerIdentity,
    i: int,
)
    ensures
        ({
            let after = wanted_by(config, timers, TimerPortInput::ServiceTimersInput(list));
            &&& !(k is Service) ==> after.contains_key(k) == timers.contains_key(k) && (
            timers.contains_key(k) ==> after[k] == timers[k])
            &&& k is Service && (forall|j: int|
                0 <= j < list@.len() ==> TimerIdentity::Service(
                    (#[trigger] list@[j]).0,
                    list@[j].1.key,
                ) != k) ==> !after.contains_key(k)
            &&& 0 <= i < list@.len() && TimerIdentity::Service(list@[i].0, list@[i].1.key) == k && (
            forall|j: int|
                i < j < list@.len() ==> TimerIdentity::Service(
                    (#[trigger] list@[j]).0,
                    list@[j].1.key,
                ) != k) ==> after.contains_key(k) && on_terms(config, k, list@[i].1, after[k])
        }),
{
    let input = TimerPortInput::ServiceTimersInput(list);
    let all = requested(config, input);
    let rest = restricted(timers, |q: TimerIdentity, _t: (u64, u64)| !speaks_of(input, q));
    lemma_with_timers(rest, all, k, i);
    assert(all.len() == list@.len());
    assert(forall|j: int|
        0 <= j < all.len() ==> (#[trigger] all[j]).0 == TimerIdentity::Service(
            list@[j].0,
            list@[j].1.key,
        ));
    if !(k is Service) {
        assert forall|j: int| 0 <= j < all.len() implies (#[trigger] all[j]).0 != k by {}
    }
    if forall|j: int|
        0 <= j < list@.len() ==> TimerIdentity::Service((#[trigger] list@[j]).0, list@[j].1.key)
            != k {
        assert forall|j: int| 0 <= j < all.len() implies (#[trigger] all[j]).0 != k by {
            assert(TimerIdentity::Service(list@[j].0, list@[j].1.key) != k);
        }
    }
    if 0 <= i < list@.len() && TimerIdentity::Service(list@[i].0, list@[i].1.key) == k && (forall|
        j: int,
    |
        i < j < list@.len() ==> TimerIdentity::Service((#[trigger] list@[j]).0, list@[j].1.key)
            != k) {
        assert(all[i].0 == k);
        assert forall|j: int| i + 1 <= j < all.len() implies (#[trigger] all[j]).0 != k by {
            assert(TimerIdentity::Service(list@[j].0, list@[j].1.key) != k);
        }
    }
}

/// An input counts exactly if it is for the port of the timers, and inputs count one after the
/// other.
pub proof fn law_timer_inputs_in_turn(
    config: TimerConfig,
    timers: Map<TimerIdentity, (u64, u64)>,
    inputs: Seq<(TimerId, TimerPortInput)>,
    id: TimerId,
    input: TimerPortInput,
)
    ensures
        wanted(config, timers, Seq::empty()) == timers,
        id == TIMER ==> wanted(config, timers, inputs.push((id, input))) == wanted_by(
            config,
            wanted(config, timers, inputs),
            input,
        ),
        id != TIMER ==> wanted(config, timers, inputs.push((id, input))) == wanted(
            config,
            timers,
            inputs,
        ),
{
    assert(inputs.push((id, input)).drop_last() =~= inputs);
}

/// A timer is cancelled exactly if it runs and is not wanted any more in its generation. It is
/// started exactly if it is wanted and does not run in its generation, and then for the time that it
/// is wanted for.
pub proof fn law_timers_change_with_generation(
    active: Timers,
    next: Map<TimerIdentity, (u64, u64)>,
    identity: TimerIdentity,
    generation: u64,
    duration_ms: u64,
)
    ensures
        cancels(active, next).contains(TimerAction::Cancel { identity }) <==> exists|i: int|
            0 <= i < active.len() && (#[trigger] active[i]).0 == identity && !(next.contains_key(
                identity,
            ) && next[identity].0 == active[i].1.0),
        starts(active, next).contains(TimerAction::Start { identity, generation, duration_ms })
            <==> exists|i: int|
            0 <= i < active.len() && (#[trigger] active[i]) == (identity, (generation, duration_ms))
                && !(next.contains_key(identity) && next[identity].0 == generation),
        forall|i: int|
            0 <= i < cancels(active, next).len() ==> (#[trigger] cancels(
                active,
                next,
            )[i]) is Cancel,
        forall|i: int|
            0 <= i < starts(active, next).len() ==> (#[trigger] starts(active, next)[i]) is Start,
    decreases active.len(),
{
    if active.len() > 0 {
        let front = active.drop_last();
        let last = active.len() - 1;
        law_timers_change_with_generation(front, next, identity, generation, duration_ms);
        let cancel = TimerAction::Cancel { identity };
        let start = TimerAction::Start { identity, generation, duration_ms };
        lemma_contains_pushed(
            cancels(front, next),
            TimerAction::Cancel { identity: active[last].0 },
            cancel,
        );
        lemma_contains_pushed(
            starts(front, next),
            TimerAction::Start {
                identity: active[last].0,
                generation: active[last].1.0,
                duration_ms: active[last].1.1,
            },
            start,
        );
        assert(forall|i: int| 0 <= i < last ==> front[i] == active[i]);
        if cancels(front, next).contains(cancel) {
            let i = choose|i: int|
                0 <= i < front.len() && (#[trigger] front[i]).0 == identity && !(
                next.contains_key(identity) && next[identity].0 == front[i].1.0);
            assert(active[i] == front[i]);
        }
        if exists|i: int|
            0 <= i < active.len() && (#[trigger] active[i]).0 == identity && !(next.contains_key(
                identity,
            ) && next[identity].0 == active[i].1.0) {
            let i = choose|i: int|
                0 <= i < active.len() && (#[trigger] active[i]).0 == identity && !(
                next.contains_key(identity) && next[identity].0 == active[i].1.0);
            if i < last {
                assert(front[i].0 == identity);
            }
        }
        if starts(front, next).contains(start) {
            let i = choose|i: int|
                0 <= i < front.len() && (#[trigger] front[i]) == (
                    identity,
                    (generation, duration_ms),
                ) && !(next.contains_key(identity) && next[identity].0 == generation);
            assert(active[i] == front[i]);
        }
        if exists|i: int|
            0 <= i < active.len() && (#[trigger] active[i]) == (
                identity,
                (generation, duration_ms),
            ) && !(next.contains_key(identity) && next[identity].0 == generation) {
            let i = choose|i: int|
                0 <= i < active.len() && (#[trigger] active[i]) == (
                    identity,
                    (generation, duration_ms),
                ) && !(next.contains_key(identity) && next[identity].0 == generation);
            if i < last {
                assert(front[i] == active[i]);
            }
        }
    }
}

// ---- specs --------------------------------------------------------------------------------------

/// A workload that is asked for is told its image: that of its first container. A workload that is
/// new gets a number and a port of its own first.
pub proof fn law_workload_is_brought_in(p: Progress, name: Seq<char>, spec: types::WorkloadSpec)
    requires
        p.next < u64::MAX,
        p.table.next_id < u64::MAX,
    ensures
        ({
            let q = applied(p, workload_kind(), name, spec);
            let known = p.table.ids.contains_key(name);
            let port = if known {
                p.table.ports[p.table.ids[name]]
            } else {
                p.next
            };
            &&& q.ops.len() == p.ops.len() + if known {
                1int
            } else {
                2int
            }
            &&& q.ops.take(p.ops.len() as int) == p.ops
            &&& q.ops.last() matches ManagementOpView::SetWorkloadSpec { port: m, image } && m
                == ManagementId(port) && (spec.containers@.len() > 0 ==> image
                == spec.containers@[0].image_ref@) && (spec.containers@.len() == 0 ==> image.len()
                == 0)
            &&& !known ==> q.ops[p.ops.len() as int] == (ManagementOpView::CreateWorkload {
                port: ManagementId(p.next),
                workload_id: WorkloadId(p.table.next_id),
            })
            &&& q.table.ids.contains_key(name)
            &&& q.table.ports[q.table.ids[name]] == port
            &&& !known ==> q.next == p.next + 1 && q.table.next_id == p.table.next_id + 1
                && q.table.ids[name] == p.table.next_id
            &&& known ==> q.table == p.table && q.next == p.next
        }),
{
    let q = applied(p, workload_kind(), name, spec);
    assert(q.ops.take(p.ops.len() as int) =~= p.ops);
}

/// A service that is asked for is told the number of its workload and whether it can be woken. A
/// service that is new gets a number and a port of its own first.
pub proof fn law_service_is_brought_in(
    p: Progress,
    workloads: Map<Seq<char>, u64>,
    name: Seq<char>,
    spec: types::ServiceSpec,
)
    requires
        p.next < u64::MAX,
        p.table.next_id < u64::MAX,
    ensures
        ({
            let q = applied(p, service_kind(workloads), name, spec);
            let known = p.table.ids.contains_key(name);
            let port = if known {
                p.table.ports[p.table.ids[name]]
            } else {
                p.next
            };
            &&& q.ops.len() == p.ops.len() + if known {
                1int
            } else {
                2int
            }
            &&& q.ops.take(p.ops.len() as int) == p.ops
            &&& q.ops.last() matches ManagementOpView::SetServiceSpec { port: m, spec: s } && m
                == ManagementId(port) && (s.has_activation <==> spec.activation is Some) && (
            workloads.contains_key(spec.workload_id.0@) ==> s.workload == WorkloadId(
                workloads[spec.workload_id.0@],
            ))
            &&& !known ==> (q.ops[p.ops.len() as int] matches ManagementOpView::CreateService {
                port: m,
                service_id,
                has_activation,
            } && m == ManagementId(p.next) && service_id == ServiceId(p.table.next_id) && (
            has_activation <==> spec.activation is Some))
            &&& q.table.ids.contains_key(name)
            &&& q.table.ports[q.table.ids[name]] == port
        }),
{
    let q = applied(p, service_kind(workloads), name, spec);
    assert(q.ops.take(p.ops.len() as int) =~= p.ops);
}

/// Things are brought in one after the other, and a name that is given up ends its port.
pub proof fn law_things_are_brought_in_in_turn<K: Named, V>(
    p: Progress,
    kind: Kind<V>,
    wanted: Seq<(K, V)>,
    one: (K, V),
    name: Seq<char>,
)
    ensures
        all_applied(p, kind, Seq::<(K, V)>::empty()) == p,
        all_applied(p, kind, wanted.push(one)) == applied(
            all_applied(p, kind, wanted),
            kind,
            one.0.id(),
            one.1,
        ),
        p.table.ids.contains_key(name) ==> name_dropped(p, name).ops == p.ops.push(
            ManagementOpView::Destroy { port: ManagementId(p.table.ports[p.table.ids[name]]) },
        ) && !name_dropped(p, name).table.ids.contains_key(name),
        !p.table.ids.contains_key(name) ==> name_dropped(p, name) == p,
{
    assert(wanted.push(one).drop_last() =~= wanted);
}

} // verus!
