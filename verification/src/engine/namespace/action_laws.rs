//! Every action of a namespace becomes the command, the message or the announcement that it stands
//! for.
use vstd::prelude::*;

use crate::adapter::dns_registry::DnsRegistryAction;
use crate::adapter::endpoint::EndpointAction;
use crate::adapter::pod_assignment::PodAssignmentAction;
use crate::adapter::schedule_request::ScheduleRequestDelta;
use crate::engine::namespace::commands::{
    all_asked, artifact_message, endpoints_told, names_added, names_removed, names_told,
    pods_commanded, ArtifactAction, ReconcileActions, Site,
};
use crate::engine::namespace::effects::{NamespaceEffectsView, SchedulerMessageView};
use crate::engine::namespace::Namespace;
use crate::engine::protocol;
use crate::engine::protocol::CommandView;
use crate::ids::NamespaceId;
use crate::namespace::command_laws::lemma_contains_pushed;
use crate::sm::{EndpointKind, PodId, WorkerId};
use crate::text::{decimal, dotted, mask_of};
use crate::types::RegistryEntry;

verus! {

/// A message to the scheduler carries a change in what is asked for: a request for a pod, with the
/// snapshot to go on from where there is one, or its end.
pub open spec fn carries(m: SchedulerMessageView, ns: NamespaceId, d: ScheduleRequestDelta) -> bool {
    match d {
        ScheduleRequestDelta::Request { pod_id: p, request } => {
            &&& m matches SchedulerMessageView::RequestLease {
                namespace_id,
                pod_id,
                proto_resume_artifact,
            }
            &&& namespace_id == ns && pod_id == p
            &&& proto_resume_artifact is Some <==> request.resume_artifact is Some
            &&& request.resume_artifact matches Some(a) ==> proto_resume_artifact == Some(
                decimal(a.0 as nat),
            )
        },
        ScheduleRequestDelta::Drop { pod_id: p } => {
            &&& m matches SchedulerMessageView::DropRequest { namespace_id, pod_id }
            &&& namespace_id == ns && pod_id == p
        },
    }
}

/// A command does to a pod what an action asks for. A pod that starts gets its own address and its
/// own containers. A pod that is suspended or resumed names the store of its worker. A pod that is
/// stopped may end what it is doing.
pub open spec fn performs(w: WorkerId, c: CommandView, site: Site, a: PodAssignmentAction) -> bool {
    match a {
        PodAssignmentAction::Launch { worker_id, pod_id: p, spec, .. } => {
            &&& w == worker_id
            &&& c matches CommandView::LaunchPod {
                namespace_id,
                pod_id,
                network,
                containers,
                resources,
                volumes,
            }
            &&& namespace_id == site.namespace_id && pod_id == p
            &&& spec matches Some(s) ==> containers == s.containers@ && resources == s.resources
                && volumes == s.volumes@
            &&& spec is None ==> containers.len() == 0 && resources is None && volumes.len() == 0
            &&& spec matches Some(s) ==> (s.network matches Some(n) ==> network.ip == n.ip
                && network.mac == n.mac)
            &&& site.spec matches Some(current) ==> network.gateway == current.network.gateway
                && network.netmask == dotted(mask_of(current.network.prefix_len))
        },
        PodAssignmentAction::Resume { worker_id, pod_id: p, artifact_id: from, spec } => {
            &&& w == worker_id
            &&& c matches CommandView::ResumePod {
                namespace_id,
                pod_id,
                artifact_id,
                network,
                pool_id,
            }
            &&& namespace_id == site.namespace_id && pod_id == p
            &&& artifact_id == decimal(from.0 as nat)
            &&& site.pools[w] == Some(pool_id)
            &&& spec matches Some(s) ==> (s.network matches Some(n) ==> network.ip == n.ip
                && network.mac == n.mac)
            &&& site.spec matches Some(current) ==> network.gateway == current.network.gateway
                && network.netmask == dotted(mask_of(current.network.prefix_len))
        },
        PodAssignmentAction::Stop { worker_id, pod_id: p } => {
            &&& w == worker_id
            &&& c matches CommandView::StopPod { namespace_id, pod_id, graceful }
            &&& namespace_id == site.namespace_id && pod_id == p && graceful
        },
        PodAssignmentAction::Suspend { worker_id, pod_id: p } => {
            &&& w == worker_id
            &&& c matches CommandView::SuspendPod { namespace_id, pod_id, artifact_id, pool_id }
            &&& namespace_id == site.namespace_id && pod_id == p
            &&& site.pools[w] == Some(pool_id)
        },
    }
}

/// An announcement of an endpoint says what an action asks for: the endpoint as it is now, or its
/// end.
pub open spec fn announces(c: CommandView, ns: NamespaceId, a: EndpointAction) -> bool {
    &&& c matches CommandView::EndpointUpdate { namespace_id, upserted, removed_ips }
    &&& namespace_id == ns
    &&& match a {
        EndpointAction::Update { info, .. } => {
            &&& removed_ips.len() == 0
            &&& upserted.len() == 1
            &&& upserted[0].ip == info.ip
            &&& match info.kind {
                EndpointKind::Service { service_id: s, policy: p } => {
                    &&& upserted[0].kind matches protocol::EndpointKind::Service {
                        service_id,
                        policy,
                        backend,
                    }
                    &&& service_id == s && policy == p
                    &&& backend is Some <==> info.backend is Some
                    &&& info.backend matches Some(b) ==> (backend.unwrap().placement matches Some(
                        place,
                    ) && place.worker_id == b.worker_id) && (b.ip matches Some(ip)
                        ==> backend.unwrap().pod_ip == ip) && backend.unwrap().ready
                },
                EndpointKind::Workload => {
                    &&& upserted[0].kind matches protocol::EndpointKind::Pod { placement }
                    &&& placement is Some <==> info.backend is Some
                    &&& info.backend matches Some(b) ==> placement.unwrap().worker_id == b.worker_id
                },
            }
        },
        EndpointAction::Remove { old_info, .. } => {
            upserted.len() == 0 && removed_ips == seq![old_info.ip]
        },
        EndpointAction::WireGuardPeerUpdate { info, .. } => {
            &&& removed_ips.len() == 0
            &&& upserted.len() == 1
            &&& upserted[0].ip == info.peer_ip
            &&& upserted[0].kind matches protocol::EndpointKind::WireGuardPeer { placement }
            &&& placement matches Some(place) && place.worker_id == info.worker_id
        },
        EndpointAction::WireGuardPeerRemove { old_info, .. } => {
            upserted.len() == 0 && removed_ips == seq![old_info.peer_ip]
        },
    }
}

/// What was given out is still given out.
spec fn grows<E>(before: NamespaceEffectsView<E>, after: NamespaceEffectsView<E>) -> bool {
    &&& forall|m: SchedulerMessageView|
        before.scheduler_messages.contains(m) ==> #[trigger] after.scheduler_messages.contains(m)
    &&& forall|x: (WorkerId, CommandView)|
        before.worker_commands.contains(x) ==> #[trigger] after.worker_commands.contains(x)
    &&& forall|c: CommandView|
        before.broadcast_commands.contains(c) ==> #[trigger] after.broadcast_commands.contains(c)
    &&& after.timer_actions == before.timer_actions
    &&& after.observability_events == before.observability_events
}

proof fn lemma_commanded_grows<E>(e: NamespaceEffectsView<E>, w: WorkerId, c: CommandView)
    ensures
        grows(e, e.commanded(w, c)),
        e.commanded(w, c).worker_commands.contains((w, c)),
{
    assert forall|x: (WorkerId, CommandView)|
        e.worker_commands.contains(x) implies #[trigger] e.commanded(w, c).worker_commands.contains(
        x,
    ) by {
        lemma_contains_pushed(e.worker_commands, (w, c), x);
    }
    lemma_contains_pushed(e.worker_commands, (w, c), (w, c));
}

proof fn lemma_broadcast_grows<E>(e: NamespaceEffectsView<E>, c: CommandView)
    ensures
        grows(e, e.broadcast(c)),
        e.broadcast(c).broadcast_commands.contains(c),
{
    assert forall|x: CommandView|
        e.broadcast_commands.contains(x) implies #[trigger] e.broadcast(
        c,
    ).broadcast_commands.contains(x) by {
        lemma_contains_pushed(e.broadcast_commands, c, x);
    }
    lemma_contains_pushed(e.broadcast_commands, c, c);
}

proof fn lemma_messaged_grows<E>(e: NamespaceEffectsView<E>, m: SchedulerMessageView)
    ensures
        grows(e, e.messaged(m)),
        e.messaged(m).scheduler_messages.contains(m),
{
    assert forall|x: SchedulerMessageView|
        e.scheduler_messages.contains(x) implies #[trigger] e.messaged(
        m,
    ).scheduler_messages.contains(x) by {
        lemma_contains_pushed(e.scheduler_messages, m, x);
    }
    lemma_contains_pushed(e.scheduler_messages, m, m);
}

/// Some message to the scheduler carries a change.
pub open spec fn carried<E>(
    e: NamespaceEffectsView<E>,
    ns: NamespaceId,
    d: ScheduleRequestDelta,
) -> bool {
    exists|m: SchedulerMessageView| #[trigger] e.scheduler_messages.contains(m) && carries(m, ns, d)
}

/// Some command performs an action.
pub open spec fn performed<E>(
    e: NamespaceEffectsView<E>,
    site: Site,
    a: PodAssignmentAction,
) -> bool {
    exists|x: (WorkerId, CommandView)| #[trigger]
        e.worker_commands.contains(x) && performs(x.0, x.1, site, a)
}

/// Some announcement says what an action asks for.
pub open spec fn made_known<E>(
    e: NamespaceEffectsView<E>,
    ns: NamespaceId,
    a: EndpointAction,
) -> bool {
    exists|c: CommandView| #[trigger] e.broadcast_commands.contains(c) && announces(c, ns, a)
}

proof fn lemma_asked<E>(
    e: NamespaceEffectsView<E>,
    ns: NamespaceId,
    deltas: Seq<ScheduleRequestDelta>,
)
    ensures
        grows(e, all_asked(e, ns, deltas)),
        forall|i: int|
            0 <= i < deltas.len() ==> carried(all_asked(e, ns, deltas), ns, #[trigger] deltas[i]),
    decreases deltas.len(),
{
    if deltas.len() > 0 {
        let front = deltas.drop_last();
        let last = deltas.len() - 1;
        let rest = all_asked(e, ns, front);
        let all = all_asked(e, ns, deltas);
        lemma_asked(e, ns, front);
        let m = match deltas[last] {
            ScheduleRequestDelta::Request { pod_id, request } => {
                SchedulerMessageView::RequestLease {
                    namespace_id: ns,
                    pod_id,
                    proto_resume_artifact: match request.resume_artifact {
                        Some(a) => Some(decimal(a.0 as nat)),
                        None => None,
                    },
                }
            },
            ScheduleRequestDelta::Drop { pod_id } => SchedulerMessageView::DropRequest {
                namespace_id: ns,
                pod_id,
            },
        };
        lemma_messaged_grows(rest, m);
        assert(all == rest.messaged(m));
        assert(carries(m, ns, deltas[last]));
        assert forall|i: int| 0 <= i < deltas.len() implies carried(all, ns, #[trigger] deltas[i]) by {
            if i < last {
                assert(front[i] == deltas[i]);
                assert(carried(rest, ns, front[i]));
                let x = choose|x: SchedulerMessageView| #[trigger]
                    rest.scheduler_messages.contains(x) && carries(x, ns, front[i]);
                assert(all.scheduler_messages.contains(x));
            } else {
                assert(all.scheduler_messages.contains(m));
            }
        }
    }
}

proof fn lemma_pods<E>(
    e: NamespaceEffectsView<E>,
    counter: u64,
    site: Site,
    actions: Seq<PodAssignmentAction>,
)
    requires
        forall|i: int|
            0 <= i < actions.len() ==> (match #[trigger] actions[i] {
                PodAssignmentAction::Resume { worker_id, .. } => site.pools[worker_id] is Some,
                PodAssignmentAction::Suspend { worker_id, .. } => site.pools[worker_id] is Some,
                _ => true,
            }),
    ensures
        grows(e, pods_commanded(e, counter, site, actions).0),
        forall|i: int|
            0 <= i < actions.len() ==> performed(
                pods_commanded(e, counter, site, actions).0,
                site,
                #[trigger] actions[i],
            ),
    decreases actions.len(),
{
    if actions.len() > 0 {
        let front = actions.drop_last();
        let last = actions.len() - 1;
        let (rest, n) = pods_commanded(e, counter, site, front);
        let all = pods_commanded(e, counter, site, actions).0;
        assert forall|i: int| 0 <= i < front.len() implies (match #[trigger] front[i] {
            PodAssignmentAction::Resume { worker_id, .. } => site.pools[worker_id] is Some,
            PodAssignmentAction::Suspend { worker_id, .. } => site.pools[worker_id] is Some,
            _ => true,
        }) by {
            assert(front[i] == actions[i]);
        }
        lemma_pods(e, counter, site, front);
        let a = actions[last];
        assert(all.worker_commands.len() == rest.worker_commands.len() + 1);
        let x = all.worker_commands.last();
        assert(performs(x.0, x.1, site, a));
        assert(all =~= rest.commanded(x.0, x.1));
        lemma_commanded_grows(rest, x.0, x.1);
        assert forall|i: int| 0 <= i < actions.len() implies performed(
            all,
            site,
            #[trigger] actions[i],
        ) by {
            if i < last {
                assert(front[i] == actions[i]);
                assert(performed(rest, site, front[i]));
                let y = choose|y: (WorkerId, CommandView)| #[trigger]
                    rest.worker_commands.contains(y) && performs(y.0, y.1, site, front[i]);
                assert(all.worker_commands.contains(y));
            } else {
                assert(all.worker_commands.contains(x));
            }
        }
    }
}

proof fn lemma_endpoints<E>(
    e: NamespaceEffectsView<E>,
    ns: NamespaceId,
    actions: Seq<EndpointAction>,
)
    ensures
        grows(e, endpoints_told(e, ns, actions)),
        forall|i: int|
            0 <= i < actions.len() ==> made_known(
                endpoints_told(e, ns, actions),
                ns,
                #[trigger] actions[i],
            ),
        forall|i: int|
            #![trigger actions[i]]
            0 <= i < actions.len() ==> (actions[i] matches EndpointAction::WireGuardPeerUpdate {
                info,
                ..
            } ==> endpoints_told(e, ns, actions).worker_commands.contains(
                (
                    info.worker_id,
                    CommandView::AddWireGuardPeer {
                        namespace_id: ns,
                        peer_public_key: info.peer_public_key,
                        peer_ip: info.peer_ip,
                        preshared_key: None,
                    },
                ),
            )),
        forall|i: int|
            #![trigger actions[i]]
            0 <= i < actions.len() ==> (actions[i] matches EndpointAction::WireGuardPeerRemove {
                old_info,
                ..
            } ==> endpoints_told(e, ns, actions).broadcast_commands.contains(
                CommandView::RemoveWireGuardPeer { peer_public_key: old_info.peer_public_key },
            )),
    decreases actions.len(),
{
    if actions.len() > 0 {
        let front = actions.drop_last();
        let last = actions.len() - 1;
        let rest = endpoints_told(e, ns, front);
        let all = endpoints_told(e, ns, actions);
        lemma_endpoints(e, ns, front);
        let a = actions[last];
        let c = all.broadcast_commands[rest.broadcast_commands.len() as int];
        let mid = rest.broadcast(c);
        assert(announces(c, ns, a));
        lemma_broadcast_grows(rest, c);
        match a {
            EndpointAction::WireGuardPeerUpdate { info, .. } => {
                let add = CommandView::AddWireGuardPeer {
                    namespace_id: ns,
                    peer_public_key: info.peer_public_key,
                    peer_ip: info.peer_ip,
                    preshared_key: None,
                };
                lemma_commanded_grows(mid, info.worker_id, add);
                assert(all =~= mid.commanded(info.worker_id, add));
            },
            EndpointAction::WireGuardPeerRemove { old_info, .. } => {
                let remove = CommandView::RemoveWireGuardPeer {
                    peer_public_key: old_info.peer_public_key,
                };
                lemma_broadcast_grows(mid, remove);
                assert(all =~= mid.broadcast(remove));
            },
            _ => {
                assert(all =~= mid);
            },
        }
        assert(all.broadcast_commands.contains(c));
        assert(grows(rest, all));
        assert forall|i: int| 0 <= i < actions.len() implies made_known(
            all,
            ns,
            #[trigger] actions[i],
        ) by {
            if i < last {
                assert(front[i] == actions[i]);
                assert(made_known(rest, ns, front[i]));
                let y = choose|y: CommandView| #[trigger]
                    rest.broadcast_commands.contains(y) && announces(y, ns, front[i]);
                assert(all.broadcast_commands.contains(y));
            }
        }
        assert forall|i: int| #![trigger actions[i]] 0 <= i < last implies actions[i] == front[i] by {}
    }
}

/// What the adapters of a namespace ask for is done, all of it: requests go to the scheduler,
/// commands on pods to the workers that have them, changes of endpoints to all workers, clients to
/// the worker that lets them in, and timers and observations are passed on.
pub proof fn law_actions_are_done<E>(
    ns: Namespace,
    e: NamespaceEffectsView<E>,
    actions: ReconcileActions<E>,
    given: NamespaceEffectsView<E>,
    counter: u64,
    i: int,
)
    requires
        ns.can_collect(actions),
        (given, counter) == ns.collected(e, actions),
    ensures
        0 <= i < actions.schedule_deltas@.len() ==> carried(
            given,
            ns.namespace_id,
            actions.schedule_deltas@[i],
        ),
        0 <= i < actions.pod_actions@.len() ==> performed(given, ns.site(), actions.pod_actions@[i]),
        0 <= i < actions.endpoint_actions@.len() ==> made_known(
            given,
            ns.namespace_id,
            actions.endpoint_actions@[i],
        ),
        0 <= i < actions.endpoint_actions@.len() ==> (actions.endpoint_actions@[i] matches
            EndpointAction::WireGuardPeerUpdate { info, .. } ==> given.worker_commands.contains(
            (
                info.worker_id,
                CommandView::AddWireGuardPeer {
                    namespace_id: ns.namespace_id,
                    peer_public_key: info.peer_public_key,
                    peer_ip: info.peer_ip,
                    preshared_key: None,
                },
            ),
        )),
        0 <= i < actions.endpoint_actions@.len() ==> (actions.endpoint_actions@[i] matches
            EndpointAction::WireGuardPeerRemove { old_info, .. }
            ==> given.broadcast_commands.contains(
            CommandView::RemoveWireGuardPeer { peer_public_key: old_info.peer_public_key },
        )),
        given.timer_actions == e.timer_actions + actions.timer_actions@,
        given.observability_events == e.observability_events + actions.observability_events@,
        ns.site().namespace_id == ns.namespace_id,
        ns.site().spec == ns.current_spec,
        ns.site().pools == ns.active_workers@,
{
    let timed = NamespaceEffectsView {
        timer_actions: e.timer_actions + actions.timer_actions@,
        observability_events: e.observability_events + actions.observability_events@,
        ..e
    };
    let id = ns.namespace_id;
    let first = all_asked(timed, id, actions.schedule_deltas@);
    let second = pods_commanded(first, ns.next_artifact_counter, ns.site(), actions.pod_actions@).0;
    let third = endpoints_told(second, id, actions.endpoint_actions@);
    lemma_asked(timed, id, actions.schedule_deltas@);
    assert forall|k: int| 0 <= k < actions.pod_actions@.len() implies (
    match #[trigger] actions.pod_actions@[k] {
        PodAssignmentAction::Resume { worker_id, .. } => ns.site().pools[worker_id] is Some,
        PodAssignmentAction::Suspend { worker_id, .. } => ns.site().pools[worker_id] is Some,
        _ => true,
    }) by {
        let a = actions.pod_actions@[k];
    }
    lemma_pods(first, ns.next_artifact_counter, ns.site(), actions.pod_actions@);
    lemma_endpoints(second, id, actions.endpoint_actions@);
    if actions.dns_registry_actions@.len() > 0 {
        lemma_broadcast_grows(
            third,
            CommandView::RegistryUpdate {
                namespace_id: id,
                added: names_added(actions.dns_registry_actions@),
                removed: names_removed(actions.dns_registry_actions@),
            },
        );
    }
    assert(grows(third, given));
    if 0 <= i < actions.schedule_deltas@.len() {
        let d = actions.schedule_deltas@[i];
        assert(carried(first, id, d));
        let m = choose|m: SchedulerMessageView| #[trigger]
            first.scheduler_messages.contains(m) && carries(m, id, d);
        assert(second.scheduler_messages.contains(m));
        assert(third.scheduler_messages.contains(m));
        assert(given.scheduler_messages.contains(m));
    }
    if 0 <= i < actions.pod_actions@.len() {
        let a = actions.pod_actions@[i];
        assert(performed(second, ns.site(), a));
        let x = choose|x: (WorkerId, CommandView)| #[trigger]
            second.worker_commands.contains(x) && performs(x.0, x.1, ns.site(), a);
        assert(third.worker_commands.contains(x));
        assert(given.worker_commands.contains(x));
    }
    if 0 <= i < actions.endpoint_actions@.len() {
        let a = actions.endpoint_actions@[i];
        assert(made_known(third, id, a));
        let c = choose|c: CommandView| #[trigger]
            third.broadcast_commands.contains(c) && announces(c, id, a);
        assert(given.broadcast_commands.contains(c));
    }
}

proof fn lemma_names(actions: Seq<DnsRegistryAction>, entry: RegistryEntry, gone: String)
    ensures
        names_added(actions).contains(entry) <==> actions.contains(
            DnsRegistryAction::Add { name: entry.name, ip: entry.ip },
        ),
        names_removed(actions).contains(gone) <==> actions.contains(
            DnsRegistryAction::Remove { name: gone },
        ),
    decreases actions.len(),
{
    if actions.len() > 0 {
        let front = actions.drop_last();
        let last = actions.last();
        assert(actions =~= front.push(last));
        lemma_names(front, entry, gone);
        lemma_contains_pushed(
            front,
            last,
            DnsRegistryAction::Add { name: entry.name, ip: entry.ip },
        );
        lemma_contains_pushed(front, last, DnsRegistryAction::Remove { name: gone });
        match last {
            DnsRegistryAction::Add { name, ip } => {
                lemma_contains_pushed(names_added(front), RegistryEntry { name, ip }, entry);
            },
            DnsRegistryAction::Remove { name } => {
                lemma_contains_pushed(names_removed(front), name, gone);
            },
        }
    }
}

/// Changes of names are told to all workers in one command: it adds each name that is new or has
/// moved, under its address, and takes away each that is gone, and no others. Without changes nothing
/// is told.
pub proof fn law_names_are_told<E>(
    e: NamespaceEffectsView<E>,
    ns: NamespaceId,
    actions: Seq<DnsRegistryAction>,
    entry: RegistryEntry,
    gone: String,
)
    ensures
        actions.len() == 0 ==> names_told(e, ns, actions) == e,
        actions.len() > 0 ==> {
            let given = names_told(e, ns, actions).broadcast_commands;
            &&& given.len() == e.broadcast_commands.len() + 1
            &&& given.last() matches CommandView::RegistryUpdate { namespace_id, added, removed }
                && namespace_id == ns && (added.contains(entry) <==> actions.contains(
                DnsRegistryAction::Add { name: entry.name, ip: entry.ip },
            )) && (removed.contains(gone) <==> actions.contains(
                DnsRegistryAction::Remove { name: gone },
            ))
        },
{
    lemma_names(actions, entry, gone);
}

/// Each suspension writes a snapshot under a number of its own: the numbers go up from the last one
/// that was used, one for each suspension.
pub proof fn law_snapshots_are_numbered<E>(
    e: NamespaceEffectsView<E>,
    counter: u64,
    site: Site,
    actions: Seq<PodAssignmentAction>,
    worker: WorkerId,
    pod: PodId,
)
    requires
        counter + actions.len() < u64::MAX,
        site.pools[worker] is Some,
    ensures
        pods_commanded(e, counter, site, actions).1 <= counter + actions.len(),
        pods_commanded(e, counter, site, actions).1 >= counter,
        ({
            let (f, n) = pods_commanded(e, counter, site, actions);
            let (g, m) = pods_commanded(
                e,
                counter,
                site,
                actions.push(PodAssignmentAction::Suspend { worker_id: worker, pod_id: pod }),
            );
            &&& m == n + 1
            &&& g.worker_commands == f.worker_commands.push(
                (
                    worker,
                    CommandView::SuspendPod {
                        namespace_id: site.namespace_id,
                        pod_id: pod,
                        artifact_id: decimal((n + 1) as nat),
                        pool_id: site.pools[worker].unwrap(),
                    },
                ),
            )
        }),
    decreases actions.len(),
{
    let more = actions.push(PodAssignmentAction::Suspend { worker_id: worker, pod_id: pod });
    assert(more.drop_last() =~= actions);
    if actions.len() > 0 {
        law_snapshots_are_numbered(e, counter, site, actions.drop_last(), worker, pod);
    }
}

/// The scheduler is told of each snapshot that is wanted, and of each that no longer is, by its
/// number.
pub proof fn law_snapshot_messages(ns: NamespaceId, action: ArtifactAction)
    ensures
        match action {
            ArtifactAction::Referenced { port_id } => artifact_message(ns, action) == (
            SchedulerMessageView::ArtifactReferenced {
                namespace_id: ns,
                proto_artifact_id: decimal(port_id.0 as nat),
            }),
            ArtifactAction::Released { port_id } => artifact_message(ns, action) == (
            SchedulerMessageView::ArtifactReleased {
                namespace_id: ns,
                proto_artifact_id: decimal(port_id.0 as nat),
            }),
        },
{
}

} // verus!
